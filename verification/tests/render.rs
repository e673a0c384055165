use notecalc_web::buckets::RenderBuckets;
use notecalc_web::buffer::{CommandBuffer, RENDER_COMMAND_BUFFER_SIZE};
use notecalc_web::command::{
    Layer, OutputMessage, OutputMessageCommandId, RenderAsciiTextMsg, RenderStringMsg,
    RenderUtf8TextMsg, COLOR_LINE_REF_BACKGROUND, COLOR_NUMBER, COLOR_OPERATOR, COLOR_RESULTS,
    COLOR_TEXT, COLOR_UNIT, COLOR_VARIABLE,
};
use notecalc_web::encoder::{
    send_render_commands_to_js, write_ascii_text_command, write_command, write_commands,
    write_string_command, write_utf8_text_command, RenderError,
};
use notecalc_web::framing::{read_frames, WireFrame};

fn utf8(text: &str, row: usize, column: usize) -> RenderUtf8TextMsg {
    RenderUtf8TextMsg { text: text.chars().collect(), row, column }
}

fn ascii(text: &str, row: usize, column: usize) -> RenderAsciiTextMsg {
    RenderAsciiTextMsg { text: text.as_bytes().to_vec(), row, column }
}

fn string(text: &str, row: usize, column: usize) -> RenderStringMsg {
    RenderStringMsg { text: text.to_string(), row, column }
}

fn bytes_of(command: &OutputMessage) -> Vec<u8> {
    let mut buffer = CommandBuffer::new(RENDER_COMMAND_BUFFER_SIZE);
    write_command(&mut buffer, command);
    assert!(!buffer.has_overflowed());
    buffer.as_slice().to_vec()
}

fn stream_of(buckets: &RenderBuckets) -> Vec<u8> {
    let mut buffer = CommandBuffer::new(RENDER_COMMAND_BUFFER_SIZE);
    assert_eq!(send_render_commands_to_js(buckets, &mut buffer), Ok(()));
    buffer.as_slice().to_vec()
}

fn color_bytes(color: u32) -> Vec<u8> {
    let mut bytes = vec![1u8];
    bytes.extend_from_slice(&color.to_le_bytes());
    bytes
}

fn tags_of(stream: &[u8]) -> Vec<u8> {
    read_frames(stream).unwrap().iter().map(|frame| frame.tag).collect()
}

#[test]
fn tags_are_ordinals_plus_one() {
    let kinds = [
        OutputMessageCommandId::SetColor,
        OutputMessageCommandId::SetStyle,
        OutputMessageCommandId::RenderRectangle,
        OutputMessageCommandId::PulsingRectangle,
        OutputMessageCommandId::RenderChar,
        OutputMessageCommandId::RenderUtf8Text,
        OutputMessageCommandId::RenderAsciiText,
        OutputMessageCommandId::RenderString,
    ];
    for (i, kind) in kinds.iter().enumerate() {
        assert_eq!(kind.ordinal() as usize, i);
        assert_eq!(kind.tag() as usize, i + 1);
        assert_ne!(kind.tag(), 0);
    }
}

#[test]
fn layers_are_numbered_from_behind() {
    assert_eq!(Layer::BehindText.index(), 0);
    assert_eq!(Layer::Text.index(), 1);
    assert_eq!(Layer::AboveText.index(), 2);
}

#[test]
fn set_color_is_tag_and_four_bytes_low_first() {
    assert_eq!(bytes_of(&OutputMessage::SetColor(0x595959FF)), vec![1, 0xFF, 0x59, 0x59, 0x59]);
    assert_eq!(bytes_of(&OutputMessage::SetColor(0x01020304)), vec![1, 4, 3, 2, 1]);
}

#[test]
fn set_style_is_tag_and_one_byte() {
    assert_eq!(bytes_of(&OutputMessage::SetStyle(0)), vec![2, 0]);
    assert_eq!(bytes_of(&OutputMessage::SetStyle(3)), vec![2, 3]);
}

#[test]
fn rectangle_is_tag_and_four_coordinates() {
    let command = OutputMessage::RenderRectangle { x: 1, y: 2, w: 30, h: 4 };
    assert_eq!(bytes_of(&command), vec![3, 1, 2, 30, 4]);
}

#[test]
fn rectangle_coordinates_keep_their_low_byte() {
    let command = OutputMessage::RenderRectangle { x: 256, y: 257, w: 511, h: 65536 + 7 };
    assert_eq!(bytes_of(&command), vec![3, 0, 1, 255, 7]);
}

#[test]
fn pulsing_rectangle_has_colors_and_time() {
    let command = OutputMessage::PulsingRectangle {
        x: 5,
        y: 6,
        w: 7,
        h: 8,
        start_color: 0xFF000000,
        end_color: 0x000000FF,
        animation_millis: 1000,
    };
    assert_eq!(
        bytes_of(&command),
        vec![4, 5, 6, 7, 8, 0, 0, 0, 0xFF, 0xFF, 0, 0, 0, 0xE8, 0x03]
    );
}

#[test]
fn pulsing_rectangle_time_keeps_its_low_sixteen_bits() {
    let command = OutputMessage::PulsingRectangle {
        x: 0,
        y: 0,
        w: 0,
        h: 0,
        start_color: 0,
        end_color: 0,
        animation_millis: 65536 * 3 + 0x0102,
    };
    assert_eq!(bytes_of(&command), vec![4, 0, 0, 0, 0, 0, 0, 0, 0, 0, 0, 0, 0, 2, 1]);
}

#[test]
fn char_is_tag_two_coordinates_and_code_point() {
    let command = OutputMessage::RenderChar(3, 4, '\u{20AC}');
    assert_eq!(bytes_of(&command), vec![5, 3, 4, 0xAC, 0x20, 0, 0]);
    let command = OutputMessage::RenderChar(300, 4, '\u{1F600}');
    assert_eq!(bytes_of(&command), vec![5, 44, 4, 0x00, 0xF6, 0x01, 0]);
}

#[test]
fn utf8_text_counts_code_points_and_sends_four_bytes_each() {
    let command = OutputMessage::RenderUtf8Text(utf8("a€", 0x0102, 0x0304));
    assert_eq!(
        bytes_of(&command),
        vec![6, 2, 1, 4, 3, 2, 0, b'a', 0, 0, 0, 0xAC, 0x20, 0, 0]
    );
    let mut buffer = CommandBuffer::new(100);
    write_utf8_text_command(&mut buffer, &utf8("a€", 0x0102, 0x0304));
    assert_eq!(buffer.as_slice().to_vec(), bytes_of(&command));
}

#[test]
fn empty_text_run_is_its_header() {
    assert_eq!(bytes_of(&OutputMessage::RenderUtf8Text(utf8("", 1, 2))), vec![6, 1, 0, 2, 0, 0, 0]);
    assert_eq!(
        bytes_of(&OutputMessage::RenderAsciiText(ascii("", 1, 2))),
        vec![7, 1, 0, 2, 0, 0, 0]
    );
}

#[test]
fn ascii_text_sends_its_bytes() {
    let command = OutputMessage::RenderAsciiText(ascii("12.5", 7, 70));
    assert_eq!(bytes_of(&command), vec![7, 7, 0, 70, 0, 4, 0, b'1', b'2', b'.', b'5']);
    let mut buffer = CommandBuffer::new(100);
    write_ascii_text_command(&mut buffer, &ascii("12.5", 7, 70));
    assert_eq!(buffer.as_slice().to_vec(), bytes_of(&command));
}

#[test]
fn string_goes_out_as_its_utf8_bytes() {
    let bytes = bytes_of(&OutputMessage::RenderString(string("é=2", 9, 1)));
    assert_eq!(bytes, vec![8, 9, 0, 1, 0, 4, 0, 0xC3, 0xA9, b'=', b'2']);
    let mut buffer = CommandBuffer::new(100);
    write_string_command(&mut buffer, &string("é=2", 9, 1));
    assert_eq!(buffer.as_slice().to_vec(), bytes);
    assert_eq!(
        bytes_of(&OutputMessage::RenderString(string("", 0, 0))),
        vec![8, 0, 0, 0, 0, 0, 0]
    );
}

#[test]
fn rows_and_columns_keep_their_low_sixteen_bits() {
    let command = OutputMessage::RenderAsciiText(ascii("x", 65536 + 2, 65535));
    assert_eq!(bytes_of(&command), vec![7, 2, 0, 0xFF, 0xFF, 1, 0, b'x']);
}

#[test]
fn a_list_of_runs_is_written_in_order() {
    let runs = vec![utf8("a", 0, 0), utf8("b", 1, 0)];
    let mut buffer = CommandBuffer::new(100);
    write_commands(&mut buffer, &runs);
    let mut expected = bytes_of(&OutputMessage::RenderUtf8Text(utf8("a", 0, 0)));
    expected.extend(bytes_of(&OutputMessage::RenderUtf8Text(utf8("b", 1, 0))));
    assert_eq!(buffer.as_slice().to_vec(), expected);
}

#[test]
fn empty_pass_is_the_terminator_alone() {
    assert_eq!(stream_of(&RenderBuckets::new()), vec![0]);
}

#[test]
fn numbers_and_units_alone_set_two_colors_numbers_first() {
    let mut buckets = RenderBuckets::new();
    buckets.numbers.push(utf8("3", 0, 0));
    buckets.numbers.push(utf8("2", 0, 6));
    buckets.units.push(utf8("m", 0, 2));
    buckets.units.push(utf8("m", 0, 8));
    let stream = stream_of(&buckets);

    let mut expected = color_bytes(COLOR_NUMBER);
    expected.extend(bytes_of(&OutputMessage::RenderUtf8Text(utf8("3", 0, 0))));
    expected.extend(bytes_of(&OutputMessage::RenderUtf8Text(utf8("2", 0, 6))));
    expected.extend(color_bytes(COLOR_UNIT));
    expected.extend(bytes_of(&OutputMessage::RenderUtf8Text(utf8("m", 0, 2))));
    expected.extend(bytes_of(&OutputMessage::RenderUtf8Text(utf8("m", 0, 8))));
    expected.push(0);
    assert_eq!(stream, expected);

    let frames = read_frames(&stream).unwrap();
    let colors: Vec<&WireFrame> = frames.iter().filter(|frame| frame.tag == 1).collect();
    assert_eq!(colors.len(), 2);
    assert_eq!(colors[0].payload, COLOR_NUMBER.to_le_bytes().to_vec());
    assert_eq!(colors[1].payload, COLOR_UNIT.to_le_bytes().to_vec());
}

#[test]
fn a_full_pass_goes_out_in_the_fixed_order() {
    let mut buckets = RenderBuckets::new();
    buckets.custom_commands[Layer::AboveText.index()].push(OutputMessage::RenderChar(1, 1, '|'));
    buckets.variable.push(utf8("v", 8, 0));
    buckets.operators.push(utf8("+", 7, 0));
    buckets.line_ref_results.push(string("42", 6, 3));
    buckets.units.push(utf8("m", 5, 0));
    buckets.numbers.push(utf8("3", 4, 0));
    buckets.ascii_texts.push(ascii("5", 3, 0));
    buckets.utf8_texts.push(utf8("t", 2, 0));
    buckets.custom_commands[Layer::Text.index()].push(OutputMessage::SetStyle(1));
    buckets.custom_commands[Layer::BehindText.index()].push(OutputMessage::RenderRectangle {
        x: 0,
        y: 0,
        w: 9,
        h: 9,
    });
    buckets.clear_commands.push(OutputMessage::PulsingRectangle {
        x: 0,
        y: 0,
        w: 1,
        h: 1,
        start_color: 1,
        end_color: 2,
        animation_millis: 3,
    });

    let mut expected = Vec::new();
    expected.extend(bytes_of(&buckets.clear_commands[0]));
    expected.extend(bytes_of(&buckets.custom_commands[0][0]));
    expected.extend(bytes_of(&buckets.custom_commands[1][0]));
    expected.extend(color_bytes(COLOR_TEXT));
    expected.extend(bytes_of(&OutputMessage::RenderUtf8Text(utf8("t", 2, 0))));
    expected.extend(color_bytes(COLOR_RESULTS));
    expected.extend(bytes_of(&OutputMessage::RenderAsciiText(ascii("5", 3, 0))));
    expected.extend(color_bytes(COLOR_NUMBER));
    expected.extend(bytes_of(&OutputMessage::RenderUtf8Text(utf8("3", 4, 0))));
    expected.extend(color_bytes(COLOR_UNIT));
    expected.extend(bytes_of(&OutputMessage::RenderUtf8Text(utf8("m", 5, 0))));
    expected.extend(color_bytes(COLOR_LINE_REF_BACKGROUND));
    expected.extend(bytes_of(&OutputMessage::RenderRectangle { x: 3, y: 6, w: 2, h: 1 }));
    expected.extend(color_bytes(COLOR_OPERATOR));
    expected.extend(bytes_of(&OutputMessage::RenderUtf8Text(utf8("+", 7, 0))));
    expected.extend(bytes_of(&OutputMessage::RenderString(string("42", 6, 3))));
    expected.extend(color_bytes(COLOR_VARIABLE));
    expected.extend(bytes_of(&OutputMessage::RenderUtf8Text(utf8("v", 8, 0))));
    expected.extend(bytes_of(&buckets.custom_commands[2][0]));
    expected.push(0);

    let stream = stream_of(&buckets);
    assert_eq!(stream, expected);
    assert_eq!(tags_of(&stream), vec![4, 3, 2, 1, 6, 1, 7, 1, 6, 1, 6, 1, 3, 1, 6, 8, 1, 6, 5]);
}

#[test]
fn line_references_alone_still_set_the_operator_color() {
    let mut buckets = RenderBuckets::new();
    buckets.line_ref_results.push(string("1 €", 2, 260));
    buckets.line_ref_results.push(string("", 3, 1));

    let mut expected = color_bytes(COLOR_LINE_REF_BACKGROUND);
    expected.extend(vec![3, 4, 2, 3, 1]);
    expected.extend(vec![3, 1, 3, 0, 1]);
    expected.extend(color_bytes(COLOR_OPERATOR));
    expected.extend(vec![8, 2, 0, 4, 1, 5, 0, b'1', b' ', 0xE2, 0x82, 0xAC]);
    expected.extend(vec![8, 3, 0, 1, 0, 0, 0]);
    expected.push(0);
    assert_eq!(stream_of(&buckets), expected);
}

#[test]
fn operators_alone_send_no_highlight() {
    let mut buckets = RenderBuckets::new();
    buckets.operators.push(utf8("*", 0, 1));
    let mut expected = color_bytes(COLOR_OPERATOR);
    expected.extend(bytes_of(&OutputMessage::RenderUtf8Text(utf8("*", 0, 1))));
    expected.push(0);
    assert_eq!(stream_of(&buckets), expected);
}

#[test]
fn one_plus_one_is_text_in_its_color_and_result_in_its_color() {
    let mut buckets = RenderBuckets::new();
    buckets.utf8_texts.push(utf8("1+1", 0, 0));
    buckets.ascii_texts.push(ascii("2", 0, 70));
    let frames = read_frames(&stream_of(&buckets)).unwrap();
    assert_eq!(frames.len(), 4);
    assert_eq!(frames[0], WireFrame { tag: 1, payload: COLOR_TEXT.to_le_bytes().to_vec() });
    assert_eq!(frames[1].tag, 6);
    assert_eq!(
        frames[1].payload,
        vec![0, 0, 0, 0, 3, 0, b'1', 0, 0, 0, b'+', 0, 0, 0, b'1', 0, 0, 0]
    );
    assert_eq!(frames[2], WireFrame { tag: 1, payload: COLOR_RESULTS.to_le_bytes().to_vec() });
    assert_eq!(frames[3], WireFrame { tag: 7, payload: vec![0, 0, 70, 0, 1, 0, b'2'] });
}

#[test]
fn reader_gets_back_every_frame_in_order() {
    let commands = vec![
        OutputMessage::SetStyle(2),
        OutputMessage::SetColor(0),
        OutputMessage::RenderChar(0, 0, '\0'),
        OutputMessage::RenderUtf8Text(utf8("\0\0", 0, 0)),
        OutputMessage::RenderAsciiText(ascii("\0", 0, 0)),
        OutputMessage::RenderString(string("zéro", 0, 0)),
        OutputMessage::RenderRectangle { x: 0, y: 0, w: 0, h: 0 },
        OutputMessage::PulsingRectangle {
            x: 0,
            y: 0,
            w: 0,
            h: 0,
            start_color: 0,
            end_color: 0,
            animation_millis: 0,
        },
    ];
    let mut buckets = RenderBuckets::new();
    buckets.clear_commands = commands.clone();
    let stream = stream_of(&buckets);
    let frames = read_frames(&stream).unwrap();
    assert_eq!(frames.len(), commands.len());
    for (frame, command) in frames.iter().zip(commands.iter()) {
        let bytes = bytes_of(command);
        assert_eq!(frame.tag, bytes[0]);
        assert_ne!(frame.tag, 0);
        assert_eq!(frame.payload, bytes[1..].to_vec());
    }
    assert_eq!(stream.last(), Some(&0));
}

#[test]
fn reader_refuses_streams_that_are_not_well_formed() {
    assert_eq!(read_frames(&[]), None);
    assert_eq!(read_frames(&[0]), Some(Vec::new()));
    assert_eq!(read_frames(&[0, 0]), None);
    assert_eq!(read_frames(&[1, 1, 2, 3, 4]), None);
    assert_eq!(read_frames(&[1, 1, 2, 3, 0]), None);
    assert_eq!(read_frames(&[8, 0]), None);
    assert_eq!(read_frames(&[9, 0]), None);
    assert_eq!(read_frames(&[6, 0, 0, 0, 0, 1, 0, b'a', 0, 0, 0]), None);
    assert_eq!(read_frames(&[6, 0, 0, 0, 0, 0]), None);
    assert_eq!(
        read_frames(&[7, 0, 0, 0, 0, 1, 0, 0, 0]),
        Some(vec![WireFrame { tag: 7, payload: vec![0, 0, 0, 0, 1, 0, 0] }])
    );
}

#[test]
fn a_run_of_the_greatest_length_is_read_back() {
    let text: String = std::iter::repeat('x').take(65535).collect();
    let mut buckets = RenderBuckets::new();
    buckets.utf8_texts.push(utf8(&text, 0, 0));
    let mut buffer = CommandBuffer::new(4 * 65535 + 100);
    assert_eq!(send_render_commands_to_js(&buckets, &mut buffer), Ok(()));
    let frames = read_frames(buffer.as_slice()).unwrap();
    assert_eq!(frames.len(), 2);
    assert_eq!(frames[1].payload.len(), 6 + 4 * 65535);
}

#[test]
fn a_pass_that_fits_exactly_is_accepted() {
    let mut buckets = RenderBuckets::new();
    buckets.ascii_texts.push(ascii("2", 0, 0));
    let needed = stream_of(&buckets).len();
    assert_eq!(needed, 5 + 8 + 1);
    let mut buffer = CommandBuffer::new(needed);
    assert_eq!(send_render_commands_to_js(&buckets, &mut buffer), Ok(()));
    assert_eq!(buffer.as_slice().len(), needed);
    assert!(!buffer.has_overflowed());
}

#[test]
fn a_pass_that_does_not_fit_is_refused() {
    let mut buckets = RenderBuckets::new();
    buckets.ascii_texts.push(ascii("2", 0, 0));
    let needed = stream_of(&buckets).len();
    for capacity in 0..needed {
        let mut buffer = CommandBuffer::new(capacity);
        assert_eq!(
            send_render_commands_to_js(&buckets, &mut buffer),
            Err(RenderError::BufferOverflow)
        );
        assert!(buffer.has_overflowed());
        assert!(buffer.as_slice().is_empty());
        assert_eq!(buffer.capacity(), capacity);
    }
}

#[test]
fn a_buffer_is_written_from_its_start_each_time() {
    let mut buffer = CommandBuffer::new(64);
    let mut first = RenderBuckets::new();
    first.utf8_texts.push(utf8("abc", 0, 0));
    assert_eq!(send_render_commands_to_js(&first, &mut buffer), Ok(()));
    let second = RenderBuckets::new();
    assert_eq!(send_render_commands_to_js(&second, &mut buffer), Ok(()));
    assert_eq!(buffer.as_slice().to_vec(), vec![0]);
}

#[test]
fn a_buffer_recovers_from_an_overflow() {
    let mut buffer = CommandBuffer::new(3);
    let mut big = RenderBuckets::new();
    big.utf8_texts.push(utf8("abc", 0, 0));
    assert_eq!(send_render_commands_to_js(&big, &mut buffer), Err(RenderError::BufferOverflow));
    assert_eq!(send_render_commands_to_js(&RenderBuckets::new(), &mut buffer), Ok(()));
    assert_eq!(buffer.as_slice().to_vec(), vec![0]);
}

#[test]
fn writes_past_the_capacity_leave_the_buffer_empty() {
    let mut buffer = CommandBuffer::new(5);
    buffer.write_u32(0x04030201);
    assert_eq!(buffer.as_slice().to_vec(), vec![1, 2, 3, 4]);
    buffer.write_u16(0x0605);
    assert!(buffer.has_overflowed());
    assert!(buffer.as_slice().is_empty());
    buffer.write_u8(7);
    assert!(buffer.has_overflowed());
    assert!(buffer.as_slice().is_empty());
    buffer.clear();
    assert!(!buffer.has_overflowed());
    buffer.write_u16(0x0605);
    buffer.write_u8(7);
    assert_eq!(buffer.as_slice().to_vec(), vec![5, 6, 7]);
}

#[test]
fn clearing_the_buckets_empties_every_one() {
    let mut buckets = RenderBuckets::new();
    buckets.utf8_texts.push(utf8("t", 0, 0));
    buckets.ascii_texts.push(ascii("5", 0, 0));
    buckets.numbers.push(utf8("3", 0, 0));
    buckets.units.push(utf8("m", 0, 0));
    buckets.operators.push(utf8("+", 0, 0));
    buckets.variable.push(utf8("v", 0, 0));
    buckets.line_ref_results.push(string("42", 0, 0));
    buckets.clear_commands.push(OutputMessage::SetStyle(0));
    for layer in [Layer::BehindText, Layer::Text, Layer::AboveText] {
        buckets.custom_commands[layer.index()].push(OutputMessage::SetStyle(0));
    }
    assert!(stream_of(&buckets).len() > 1);
    buckets.clear();
    assert_eq!(stream_of(&buckets), vec![0]);
}
