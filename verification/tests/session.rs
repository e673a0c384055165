use notecalc_web::command::OutputMessage;
use notecalc_web::session::{create_app, AppPointers, SessionError, Sessions};

type Bundle = AppPointers<String, u32, Vec<u8>, Vec<i64>, String, Vec<char>, usize>;

fn bundle(max_line_count: usize) -> Bundle {
    AppPointers::new("app".to_string(), 1, vec![2], vec![3], vec!['4'], 5, max_line_count)
}

#[test]
fn a_fresh_bundle_has_empty_slots_for_every_line_and_one_more() {
    let mut b = bundle(64);
    assert_eq!(b.app(), "app");
    assert_eq!(*b.units(), 1);
    assert_eq!(*b.mut_tokens(), vec![2]);
    assert_eq!(*b.mut_results(), vec![3]);
    assert_eq!(*b.editor_objects(), vec!['4']);
    assert_eq!(*b.allocator(), 5);
    assert_eq!(b.mut_vars().len(), 65);
    assert!(b.mut_vars().iter().all(|slot| slot.is_none()));
    assert!(b.render_bucket().utf8_texts.is_empty());
    assert!(b.render_bucket().clear_commands.is_empty());
    assert_eq!(bundle(0).mut_vars().len(), 1);
}

#[test]
fn a_write_through_one_slot_leaves_the_others() {
    let mut b = bundle(3);
    b.mut_app().push_str("lication");
    assert_eq!(b.app(), "application");
    assert_eq!(*b.units(), 1);
    *b.units() = 10;
    b.mut_tokens().push(20);
    b.mut_results().push(30);
    b.mut_editor_objects().push('x');
    b.mut_vars()[2] = Some("v".to_string());
    b.mut_render_bucket().clear_commands.push(OutputMessage::SetStyle(1));

    assert_eq!(b.app(), "application");
    assert_eq!(*b.units(), 10);
    assert_eq!(*b.mut_tokens(), vec![2, 20]);
    assert_eq!(*b.mut_results(), vec![3, 30]);
    assert_eq!(*b.editor_objects(), vec!['4', 'x']);
    assert_eq!(b.mut_vars().to_vec(), vec![None, None, Some("v".to_string()), None]);
    assert_eq!(b.render_bucket().clear_commands.len(), 1);
    assert_eq!(*b.allocator(), 5);
}

#[test]
fn all_slots_are_borrowed_together_and_do_not_overlap() {
    let mut b = bundle(2);
    {
        let (app, units, buckets, tokens, results, vars, editor_objects, allocator) = b.split();
        app.push('!');
        *units += 1;
        buckets.numbers.clear();
        buckets.clear_commands.push(OutputMessage::SetColor(7));
        tokens.push(9);
        results.clear();
        vars[0] = Some(app.clone());
        editor_objects.push('y');
        assert_eq!(*allocator, 5);
    }
    assert_eq!(b.app(), "app!");
    assert_eq!(*b.units(), 2);
    assert_eq!(b.render_bucket().clear_commands.len(), 1);
    assert_eq!(*b.mut_tokens(), vec![2, 9]);
    assert!(b.mut_results().is_empty());
    assert_eq!(b.mut_vars().to_vec(), vec![Some("app!".to_string()), None, None]);
    assert_eq!(*b.editor_objects(), vec!['4', 'y']);
    assert_eq!(*b.allocator(), 5);
}

#[test]
fn handles_count_the_sessions_created() {
    let mut sessions: Sessions<u8> = Sessions::new();
    assert_eq!(sessions.create(10), Ok(0));
    assert_eq!(sessions.create(11), Ok(1));
    assert_eq!(sessions.create(12), Ok(2));
    assert!(sessions.contains(0) && sessions.contains(1) && sessions.contains(2));
    assert!(!sessions.contains(3));
    assert_eq!(sessions.get(1), Ok(&11));
}

#[test]
fn an_unknown_handle_is_an_error() {
    let mut sessions: Sessions<u8> = Sessions::new();
    assert_eq!(sessions.get(0), Err(SessionError::UnknownHandle));
    assert_eq!(sessions.get_mut(0), Err(SessionError::UnknownHandle));
    assert_eq!(sessions.destroy(0), Err(SessionError::UnknownHandle));
    assert_eq!(sessions.create(1), Ok(0));
    assert_eq!(sessions.get(1), Err(SessionError::UnknownHandle));
    assert_eq!(sessions.get(u32::MAX), Err(SessionError::UnknownHandle));
    assert!(!sessions.contains(u32::MAX));
}

#[test]
fn a_destroyed_handle_is_never_live_again() {
    let mut sessions: Sessions<u8> = Sessions::new();
    assert_eq!(sessions.create(10), Ok(0));
    assert_eq!(sessions.create(11), Ok(1));
    assert_eq!(sessions.destroy(0), Ok(10));
    assert!(!sessions.contains(0));
    assert_eq!(sessions.destroy(0), Err(SessionError::UnknownHandle));
    assert_eq!(sessions.get(0), Err(SessionError::UnknownHandle));
    assert_eq!(sessions.create(12), Ok(2));
    assert!(!sessions.contains(0));
    assert_eq!(sessions.get(1), Ok(&11));
    assert_eq!(sessions.get(2), Ok(&12));
}

#[test]
fn a_session_is_changed_in_place() {
    let mut sessions: Sessions<Vec<u8>> = Sessions::new();
    assert_eq!(sessions.create(vec![1]), Ok(0));
    assert_eq!(sessions.create(vec![2]), Ok(1));
    sessions.get_mut(1).unwrap().push(3);
    assert_eq!(sessions.get(0), Ok(&vec![1]));
    assert_eq!(sessions.get(1), Ok(&vec![2, 3]));
}

#[test]
fn creating_an_app_registers_a_fresh_bundle() {
    let mut sessions: Sessions<Bundle> = Sessions::new();
    let first =
        create_app(&mut sessions, "a".to_string(), 1, vec![], vec![], vec![], 0, 64).unwrap();
    let second =
        create_app(&mut sessions, "b".to_string(), 2, vec![], vec![], vec![], 0, 8).unwrap();
    assert_eq!((first, second), (0, 1));
    assert_eq!(sessions.get(first).unwrap().app(), "a");
    assert_eq!(sessions.get(second).unwrap().app(), "b");
    assert_eq!(sessions.get_mut(first).unwrap().mut_vars().len(), 65);
    assert_eq!(sessions.get_mut(second).unwrap().mut_vars().len(), 9);
    assert!(sessions.get(second).unwrap().render_bucket().numbers.is_empty());
}
