//! Sessions and the resources behind them.
//!
//! The host names a session by a number. A table maps the numbers of the
//! live sessions to what they own, and an entry point that is handed a number
//! looks it up there. What a session owns is a bundle of separate slots, and
//! an entry point borrows the slots that it needs one by one.

use vstd::prelude::*;
use crate::buckets::{RenderBuckets, RenderPass};

verus! {

/// Why a session could not be had.
#[derive(Clone, Copy, Debug, PartialEq, Eq, Structural)]
pub enum SessionError {
    /// No live session has this handle.
    UnknownHandle,
    /// Every handle has been given out.
    TableFull,
}

/// What one session owns: the engine's state, its unit table, the buckets of
/// the current render pass, the caches of tokens, of results and of editor
/// objects, the variables by defining line, and the arena that owns the text.
/// The engine's own types are parameters; the buckets are this crate's.
pub struct AppPointers<A, U, T, R, V, E, M> {
    app: A,
    units: U,
    render_bucket: RenderBuckets,
    tokens: T,
    results: R,
    vars: Vec<Option<V>>,
    editor_objects: E,
    allocator: M,
}

/// The slots of a bundle, as values.
pub struct Slots<A, U, T, R, V, E, M> {
    pub app: A,
    pub units: U,
    pub render_bucket: RenderPass,
    pub tokens: T,
    pub results: R,
    pub vars: Seq<Option<V>>,
    pub editor_objects: E,
    pub allocator: M,
}

impl<A, U, T, R, V, E, M> View for AppPointers<A, U, T, R, V, E, M> {
    type V = Slots<A, U, T, R, V, E, M>;

    closed spec fn view(&self) -> Slots<A, U, T, R, V, E, M> {
        Slots {
            app: self.app,
            units: self.units,
            render_bucket: self.render_bucket@,
            tokens: self.tokens,
            results: self.results,
            vars: self.vars@,
            editor_objects: self.editor_objects,
            allocator: self.allocator,
        }
    }
}

impl<A, U, T, R, V, E, M> AppPointers<A, U, T, R, V, E, M> {
    /// A fresh bundle around the engine's parts: its buckets are empty, and
    /// it has one variable slot for each line up to `max_line_count` and one
    /// more, all of them empty.
    pub fn new(
        app: A,
        units: U,
        tokens: T,
        results: R,
        editor_objects: E,
        allocator: M,
        max_line_count: usize,
    ) -> (r: Self)
        requires
            max_line_count < usize::MAX,
        ensures
            r@ == (Slots {
                app,
                units,
                render_bucket: RenderPass::empty(),
                tokens,
                results,
                vars: Seq::new((max_line_count + 1) as nat, |i: int| None::<V>),
                editor_objects,
                allocator,
            }),
    {
        let mut vars: Vec<Option<V>> = Vec::new();
        let mut i: usize = 0;
        while i <= max_line_count
            invariant
                i <= max_line_count + 1,
                max_line_count < usize::MAX,
                vars@ == Seq::new(i as nat, |k: int| None::<V>),
            decreases max_line_count + 1 - i,
        {
            vars.push(None);
            assert(vars@ =~= Seq::new((i + 1) as nat, |k: int| None::<V>));
            i = i + 1;
        }
        AppPointers {
            app,
            units,
            render_bucket: RenderBuckets::new(),
            tokens,
            results,
            vars,
            editor_objects,
            allocator,
        }
    }

    /// The engine's state, to change it. No other slot is touched.
    pub fn mut_app(&mut self) -> (r: &mut A)
        ensures
            *r == old(self)@.app,
            final(self)@ == (Slots { app: *final(r), ..old(self)@ }),
    {
        &mut self.app
    }

    /// The engine's state, to read it.
    pub fn app(&self) -> (r: &A)
        ensures
            *r == self@.app,
    {
        &self.app
    }

    /// The unit table, to refresh it. No other slot is touched.
    pub fn units(&mut self) -> (r: &mut U)
        ensures
            *r == old(self)@.units,
            final(self)@ == (Slots { units: *final(r), ..old(self)@ }),
    {
        &mut self.units
    }

    /// The buckets of the render pass, to fill them. No other slot is
    /// touched.
    pub fn mut_render_bucket(&mut self) -> (r: &mut RenderBuckets)
        ensures
            r@ == old(self)@.render_bucket,
            final(self)@ == (Slots { render_bucket: final(r)@, ..old(self)@ }),
    {
        &mut self.render_bucket
    }

    /// The buckets of the render pass, to send them.
    pub fn render_bucket(&self) -> (r: &RenderBuckets)
        ensures
            r@ == self@.render_bucket,
    {
        &self.render_bucket
    }

    /// The cache of tokens, to change it. No other slot is touched.
    pub fn mut_tokens(&mut self) -> (r: &mut T)
        ensures
            *r == old(self)@.tokens,
            final(self)@ == (Slots { tokens: *final(r), ..old(self)@ }),
    {
        &mut self.tokens
    }

    /// The cache of results, to change it. No other slot is touched.
    pub fn mut_results(&mut self) -> (r: &mut R)
        ensures
            *r == old(self)@.results,
            final(self)@ == (Slots { results: *final(r), ..old(self)@ }),
    {
        &mut self.results
    }

    /// The cache of editor objects, to change it. No other slot is touched.
    pub fn mut_editor_objects(&mut self) -> (r: &mut E)
        ensures
            *r == old(self)@.editor_objects,
            final(self)@ == (Slots { editor_objects: *final(r), ..old(self)@ }),
    {
        &mut self.editor_objects
    }

    /// The cache of editor objects, to read it.
    pub fn editor_objects(&self) -> (r: &E)
        ensures
            *r == self@.editor_objects,
    {
        &self.editor_objects
    }

    /// The variable slots, as a slice, to change what they hold. No other
    /// slot of the bundle is touched.
    pub fn mut_vars(&mut self) -> (r: &mut [Option<V>])
        ensures
            r@ == old(self)@.vars,
            final(self)@ == (Slots { vars: final(r)@, ..old(self)@ }),
    {
        self.vars.as_mut_slice()
    }

    /// Every slot at once, each to change it but the arena, for an entry point
    /// that needs several of them together. The slots are separate fields, so
    /// none of the borrows reaches what another one holds.
    pub fn split(&mut self) -> (r: (
        &mut A,
        &mut U,
        &mut RenderBuckets,
        &mut T,
        &mut R,
        &mut [Option<V>],
        &mut E,
        &M,
    ))
        ensures
            *r.0 == old(self)@.app,
            *r.1 == old(self)@.units,
            r.2@ == old(self)@.render_bucket,
            *r.3 == old(self)@.tokens,
            *r.4 == old(self)@.results,
            r.5@ == old(self)@.vars,
            *r.6 == old(self)@.editor_objects,
            *r.7 == old(self)@.allocator,
            final(self)@ == (Slots {
                app: *final(r.0),
                units: *final(r.1),
                render_bucket: final(r.2)@,
                tokens: *final(r.3),
                results: *final(r.4),
                vars: final(r.5)@,
                editor_objects: *final(r.6),
                allocator: old(self)@.allocator,
            }),
    {
        (
            &mut self.app,
            &mut self.units,
            &mut self.render_bucket,
            &mut self.tokens,
            &mut self.results,
            self.vars.as_mut_slice(),
            &mut self.editor_objects,
            &self.allocator,
        )
    }

    /// The arena that owns the text.
    pub fn allocator(&self) -> (r: &M)
        ensures
            *r == self@.allocator,
    {
        &self.allocator
    }
}

/// The table of live sessions. A handle is the number of sessions that were
/// created before its own, so no handle is given out twice, and the handle of
/// a session that was destroyed is never live again.
pub struct Sessions<B> {
    slots: Vec<Option<B>>,
}

impl<B> View for Sessions<B> {
    type V = Map<u32, B>;

    /// The live sessions: each handle with what its session owns.
    closed spec fn view(&self) -> Map<u32, B> {
        Map::new(
            |handle: u32| (handle as int) < self.slots@.len() && self.slots@[handle as int] is Some,
            |handle: u32| self.slots@[handle as int]->0,
        )
    }
}

impl<B> Sessions<B> {
    /// The number of handles given out so far, which is the next handle.
    pub closed spec fn created(&self) -> nat {
        self.slots@.len()
    }

    /// A table without sessions.
    pub fn new() -> (r: Self)
        ensures
            r@ == Map::<u32, B>::empty(),
            r.created() == 0,
    {
        let r = Sessions { slots: Vec::new() };
        assert(r@ =~= Map::<u32, B>::empty());
        r
    }

    /// Every live handle was given out: it lies below the next one.
    pub proof fn lemma_live_handles_were_created(&self, handle: u32)
        requires
            self@.contains_key(handle),
        ensures
            handle < self.created(),
    {
    }

    /// Starts a session that owns `bundle` and gives its handle, which no
    /// session had before. Once every handle below `u32::MAX` has been given
    /// out, no session can be started.
    pub fn create(&mut self, bundle: B) -> (r: Result<u32, SessionError>)
        ensures
            match r {
                Ok(handle) => {
                    &&& handle == old(self).created()
                    &&& !old(self)@.contains_key(handle)
                    &&& final(self)@ == old(self)@.insert(handle, bundle)
                    &&& final(self).created() == old(self).created() + 1
                },
                Err(e) => {
                    &&& e == SessionError::TableFull
                    &&& final(self)@ == old(self)@
                    &&& final(self).created() == old(self).created()
                },
            },
            r is Ok <==> old(self).created() < u32::MAX,
    {
        let n: usize = self.slots.len();
        if n >= u32::MAX as usize {
            return Err(SessionError::TableFull);
        }
        self.slots.push(Some(bundle));
        assert(self@ =~= old(self)@.insert(n as u32, bundle));
        Ok(n as u32)
    }

    /// Whether a session with this handle is live.
    pub fn contains(&self, handle: u32) -> (r: bool)
        ensures
            r == self@.contains_key(handle),
    {
        let i: usize = handle as usize;
        i < self.slots.len() && self.slots[i].is_some()
    }

    /// What the session with this handle owns, to read it.
    pub fn get(&self, handle: u32) -> (r: Result<&B, SessionError>)
        ensures
            match r {
                Ok(bundle) => self@.contains_key(handle) && *bundle == self@[handle],
                Err(e) => !self@.contains_key(handle) && e == SessionError::UnknownHandle,
            },
    {
        let i: usize = handle as usize;
        if i >= self.slots.len() {
            return Err(SessionError::UnknownHandle);
        }
        match &self.slots[i] {
            Some(bundle) => Ok(bundle),
            None => Err(SessionError::UnknownHandle),
        }
    }

    /// What the session with this handle owns, to change it. No other
    /// session is touched, and no session starts or ends.
    pub fn get_mut(&mut self, handle: u32) -> (r: Result<&mut B, SessionError>)
        ensures
            final(self).created() == old(self).created(),
            match r {
                Ok(bundle) => {
                    &&& old(self)@.contains_key(handle)
                    &&& *bundle == old(self)@[handle]
                    &&& final(self)@ == old(self)@.insert(handle, *final(bundle))
                },
                Err(e) => {
                    &&& !old(self)@.contains_key(handle)
                    &&& e == SessionError::UnknownHandle
                    &&& final(self)@ == old(self)@
                },
            },
    {
        let i: usize = handle as usize;
        if i >= self.slots.len() {
            return Err(SessionError::UnknownHandle);
        }
        match &mut self.slots[i] {
            Some(bundle) => Ok(bundle),
            None => Err(SessionError::UnknownHandle),
        }
    }

    /// Ends the session with this handle and gives back what it owned. The
    /// handle is not live afterwards, and will not be again.
    pub fn destroy(&mut self, handle: u32) -> (r: Result<B, SessionError>)
        ensures
            final(self).created() == old(self).created(),
            match r {
                Ok(bundle) => {
                    &&& old(self)@.contains_key(handle)
                    &&& bundle == old(self)@[handle]
                    &&& final(self)@ == old(self)@.remove(handle)
                },
                Err(e) => {
                    &&& !old(self)@.contains_key(handle)
                    &&& e == SessionError::UnknownHandle
                    &&& final(self)@ == old(self)@
                },
            },
    {
        let i: usize = handle as usize;
        if i >= self.slots.len() {
            return Err(SessionError::UnknownHandle);
        }
        let mut taken: Option<B> = None;
        std::mem::swap(&mut self.slots[i], &mut taken);
        match taken {
            Some(bundle) => {
                assert(self@ =~= old(self)@.remove(handle));
                Ok(bundle)
            },
            None => {
                assert(self@ =~= old(self)@);
                Err(SessionError::UnknownHandle)
            },
        }
    }
}

/// Starts a session around the parts of a fresh engine and gives its handle.
/// The session's buckets are empty, and it has one empty variable slot for
/// each line up to `max_line_count` and one more.
pub fn create_app<A, U, T, R, V, E, M>(
    sessions: &mut Sessions<AppPointers<A, U, T, R, V, E, M>>,
    app: A,
    units: U,
    tokens: T,
    results: R,
    editor_objects: E,
    allocator: M,
    max_line_count: usize,
) -> (r: Result<u32, SessionError>)
    requires
        max_line_count < usize::MAX,
    ensures
        r is Ok <==> old(sessions).created() < u32::MAX,
        match r {
            Ok(handle) => {
                &&& handle == old(sessions).created()
                &&& !old(sessions)@.contains_key(handle)
                &&& final(sessions)@.contains_key(handle)
                &&& final(sessions)@.remove(handle) == old(sessions)@
                &&& final(sessions).created() == old(sessions).created() + 1
                &&& final(sessions)@[handle]@ == (Slots {
                    app,
                    units,
                    render_bucket: RenderPass::empty(),
                    tokens,
                    results,
                    vars: Seq::new((max_line_count + 1) as nat, |i: int| None::<V>),
                    editor_objects,
                    allocator,
                })
            },
            Err(e) => {
                &&& e == SessionError::TableFull
                &&& final(sessions)@ == old(sessions)@
                &&& final(sessions).created() == old(sessions).created()
            },
        },
{
    let bundle = AppPointers::new(
        app,
        units,
        tokens,
        results,
        editor_objects,
        allocator,
        max_line_count,
    );
    let r = sessions.create(bundle);
    proof {
        if r is Ok {
            let handle = r->Ok_0;
            assert(sessions@.remove(handle) =~= old(sessions)@);
        }
    }
    r
}

} // verus!
