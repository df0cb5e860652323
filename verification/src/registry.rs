//! The session registry and the caller-facing operations over it.
//!
//! A `PtyState` is the single source of truth for which sessions are
//! alive.  Each live session owns the controlling side of one
//! pseudo-terminal and the single write handle on it.  Ids are issued at
//! spawn time and never reused: the registry keeps every id it ever
//! issued, and a fresh id is drawn until it differs from all of them.

use vstd::prelude::*;

use crate::command::{has_token, split_command, split_ws, token_views, lemma_split_ws_empty_iff};
use crate::pty_io::{
    pty_system, open_pty, command_new, command_arg, command_cwd, command_env, spawn_child,
    clone_reader, take_writer, resize_handle, write_and_flush, clone_writer_handle, share_pair,
    clone_master_handle, fresh_uuid, builder_argv, builder_cwd, builder_env, PtyReader,
    SharedWriter, SharedMaster, ChildProc,
};
use crate::PtyError;

verus! {

/// One live terminal: its id, its current geometry, the pseudo-terminal
/// pair it owns, and the single write handle on the controlling side.
pub struct Session {
    /// The id under which the registry knows this session.
    pub id: String,
    /// The number of rows of the last geometry applied.
    pub rows: u16,
    /// The number of columns of the last geometry applied.
    pub cols: u16,
    pair: SharedMaster,
    writer: SharedWriter,
}

/// The registry-visible state of one session: everything the contracts
/// speak of, with the opaque OS handles left out.
pub ghost struct SessionModel {
    /// The session id, as a sequence of characters.
    pub id: Seq<char>,
    /// The number of rows of the last geometry applied.
    pub rows: u16,
    /// The number of columns of the last geometry applied.
    pub cols: u16,
}

impl Session {
    /// The registry-visible state of this session.
    pub closed spec fn model(self) -> SessionModel {
        SessionModel { id: self.id@, rows: self.rows, cols: self.cols }
    }
}

/// The session registry: the live sessions, and every id ever issued.
pub struct PtyState {
    sessions: Vec<Session>,
    issued: Vec<String>,
}

/// What the spawner handed to the launch call, recorded so the
/// contract can speak of the launched child: its argument vector, its
/// working directory, and the environment overrides applied for it.
pub ghost struct LaunchPlan {
    /// The argument vector, executable first.
    pub argv: Seq<Seq<char>>,
    /// The child's working directory, when one was set.
    pub cwd: Option<Seq<char>>,
    /// The environment overrides applied for the child.
    pub env: Map<Seq<char>, Seq<char>>,
}

/// What comes back from a successful spawn: the new session's id, the
/// read handle the output pump drains, and the child-process handle the
/// reaper waits on.  The registry keeps neither handle; both belong to
/// the caller's background contexts.
pub struct SpawnHandles {
    /// The id of the freshly registered session.
    pub pty_id: String,
    /// The read side of the controlling handle.
    pub reader: PtyReader,
    /// The handle to wait on for child-process termination.
    pub child: ChildProc,
    /// What was handed to the launch call for this session.
    pub plan: Ghost<LaunchPlan>,
}

/// The relation between a registry before and after a spawn that
/// registered a session under `id`: the id was never issued before, and
/// the new session starts with the fixed initial geometry of 24 rows by
/// 80 columns.
pub open spec fn spawn_registered(pre: PtyState, post: PtyState, id: Seq<char>) -> bool {
    &&& !pre.issued_ids().contains(id)
    &&& post.issued_ids() == pre.issued_ids().push(id)
    &&& post.models() == pre.models().push(SessionModel { id: id, rows: 24, cols: 80 })
}

/// The relation between a registry before and after a kill of `id`:
/// the session is gone afterwards, a live one is removed, an absent one
/// leaves the registry untouched, and the id stays issued either way.
pub open spec fn kill_transition(pre: PtyState, post: PtyState, id: Seq<char>) -> bool {
    &&& post.issued_ids() == pre.issued_ids()
    &&& !post.has_session(id)
    &&& (pre.has_session(id) ==> exists|i: int|
        0 <= i < pre.models().len() && pre.models()[i].id == id && post.models()
            == pre.models().remove(i))
    &&& (!pre.has_session(id) ==> post == pre)
}

impl PtyState {
    /// The registry-visible states of the live sessions, in registration
    /// order.
    pub closed spec fn models(self) -> Seq<SessionModel> {
        self.sessions@.map_values(|s: Session| s.model())
    }

    /// Every id this registry ever issued, in issue order.
    pub closed spec fn issued_ids(self) -> Seq<Seq<char>> {
        self.issued@.map_values(|s: String| s@)
    }

    /// The registry's invariant: live sessions bear pairwise distinct
    /// ids, and every live id was issued.
    pub open spec fn wf(self) -> bool {
        &&& forall|i: int, j: int|
            0 <= i < j < self.models().len() ==> self.models()[i].id != self.models()[j].id
        &&& forall|i: int|
            0 <= i < self.models().len() ==> self.issued_ids().contains(#[trigger] self.models()[i].id)
    }

    /// Whether a session with the given id is currently alive.
    pub open spec fn has_session(self, id: Seq<char>) -> bool {
        exists|i: int| 0 <= i < self.models().len() && self.models()[i].id == id
    }

    /// An empty registry.
    pub fn new() -> (r: PtyState)
        ensures
            r.wf(),
            r.models() == Seq::<SessionModel>::empty(),
            r.issued_ids() == Seq::<Seq<char>>::empty(),
    {
        let r = PtyState { sessions: Vec::new(), issued: Vec::new() };
        proof {
            assert(r.models() =~= Seq::<SessionModel>::empty());
            assert(r.issued_ids() =~= Seq::<Seq<char>>::empty());
        }
        r
    }

    /// The index of the live session with the given id, if any.
    fn find_session(&self, pty_id: &String) -> (r: Option<usize>)
        ensures
            match r {
                Some(i) => i < self.sessions@.len() && self.sessions@[i as int].id@ == pty_id@
                    && self.models()[i as int].id == pty_id@ && self.has_session(pty_id@),
                None => !self.has_session(pty_id@),
            },
    {
        let mut i: usize = 0;
        while i < self.sessions.len()
            invariant
                i <= self.sessions@.len(),
                forall|j: int| 0 <= j < i ==> self.sessions@[j].id@ != pty_id@,
            decreases self.sessions@.len() - i,
        {
            if self.sessions[i].id == *pty_id {
                proof {
                    assert(self.models()[i as int].id == pty_id@);
                }
                return Some(i);
            }
            i += 1;
        }
        proof {
            assert forall|k: int| 0 <= k < self.models().len() implies self.models()[k].id
                != pty_id@ by {
                assert(self.sessions@[k].id@ != pty_id@);
            }
        }
        None
    }

    /// Whether the given id was ever issued.
    fn issued_contains(&self, pty_id: &String) -> (r: bool)
        ensures
            r == self.issued_ids().contains(pty_id@),
    {
        let mut i: usize = 0;
        while i < self.issued.len()
            invariant
                i <= self.issued@.len(),
                forall|j: int| 0 <= j < i ==> self.issued@[j]@ != pty_id@,
            decreases self.issued@.len() - i,
        {
            if self.issued[i] == *pty_id {
                proof {
                    assert(self.issued_ids()[i as int] == pty_id@);
                }
                return true;
            }
            i += 1;
        }
        proof {
            assert(forall|j: int|
                0 <= j < self.issued_ids().len() ==> self.issued_ids()[j] != pty_id@);
        }
        false
    }

    /// A mutable borrow of the session at index `i`.
    fn session_at(&mut self, i: usize) -> (s: &mut Session)
        requires
            i < old(self).sessions@.len(),
        ensures
            *s == old(self).sessions@[i as int],
            final(self).sessions@ == old(self).sessions@.update(i as int, *final(s)),
            final(self).issued@ == old(self).issued@,
    {
        &mut self.sessions[i]
    }

    /// Opens a pseudo-terminal at 24 rows by 80 columns, launches the
    /// resolved command on its worker side in `cwd`, registers the new
    /// session under a never-before-issued id, and hands back the id
    /// together with the read and child handles for the caller's output
    /// pump and reaper.
    ///
    /// The command line, when given, splits on whitespace into the
    /// executable and its arguments; when it splits to nothing the call
    /// is rejected as invalid input and nothing is registered.  When no
    /// command line is given, `default_shell` is launched.  The child
    /// runs with a color-capable terminal type in its environment.
    pub fn spawn_pty(
        &mut self,
        cwd: &String,
        command: Option<&String>,
        default_shell: &String,
    ) -> (r: Result<SpawnHandles, PtyError>)
        requires
            old(self).wf(),
        ensures
            final(self).wf(),
            (r matches Err(e) && e is InvalidInput) <==> (command matches Some(c) && !has_token(
                c@,
            )),
            r matches Err(PtyError::InvalidInput(m)) ==> m@ == "Empty command"@,
            r matches Err(e) ==> (e is InvalidInput || e is AllocationFailure
                || e is SpawnFailure) && *final(self) == *old(self),
            r matches Ok(h) ==> spawn_registered(*old(self), *final(self), h.pty_id@)
                && final(self).has_session(h.pty_id@) && h.pty_id@.len() == 36,
            r matches Ok(h) ==> h.plan@.argv == (match command {
                Some(c) => split_ws(c@),
                None => seq![default_shell@],
            }) && h.plan@.cwd == Some(cwd@) && h.plan@.env == Map::<Seq<char>, Seq<char>>::empty()
                .insert("TERM"@, "xterm-256color"@).insert("COLORTERM"@, "truecolor"@),
    {
        // Resolve the command line first: a rejected input must be
        // rejected before any OS resource is touched.
        let tokens: Vec<String> = match command {
            Some(c) => {
                let toks = split_command(c);
                proof {
                    lemma_split_ws_empty_iff(c@);
                    assert(toks@.len() == token_views(toks@).len());
                }
                if toks.len() == 0 {
                    return Err(PtyError::InvalidInput(String::from_str("Empty command")));
                }
                toks
            },
            None => {
                let mut v: Vec<String> = Vec::new();
                v.push(default_shell.clone());
                proof {
                    assert(token_views(v@) =~= seq![default_shell@]);
                }
                v
            },
        };

        let sys = pty_system();
        let pair = match open_pty(&sys, 24, 80) {
            Ok(p) => p,
            Err(m) => {
                return Err(PtyError::AllocationFailure(m));
            },
        };

        let mut cmd_slot: Option<portable_pty::CommandBuilder> = None;
        command_new(&tokens[0], &mut cmd_slot);
        let mut cmd = match cmd_slot {
            Some(c) => c,
            None => {
                // Unreachable: the builder wrapper always fills the slot.
                proof {
                    assert(false);
                }
                return Err(PtyError::SpawnFailure(String::new()));
            },
        };
        proof {
            assert(seq![tokens@[0]@] =~= token_views(tokens@).take(1));
        }
        let mut k: usize = 1;
        while k < tokens.len()
            invariant
                1 <= k <= tokens@.len(),
                builder_argv(cmd) == token_views(tokens@).take(k as int),
                builder_cwd(cmd) is None,
                builder_env(cmd) == Map::<Seq<char>, Seq<char>>::empty(),
            decreases tokens@.len() - k,
        {
            command_arg(&mut cmd, &tokens[k]);
            proof {
                assert(token_views(tokens@).take(k + 1) =~= token_views(tokens@).take(
                    k as int,
                ).push(tokens@[k as int]@));
            }
            k += 1;
        }
        proof {
            assert(token_views(tokens@).take(tokens@.len() as int) =~= token_views(tokens@));
        }
        command_cwd(&mut cmd, cwd);
        // A color-capable interactive terminal environment for the child.
        command_env(&mut cmd, "TERM", "xterm-256color");
        command_env(&mut cmd, "COLORTERM", "truecolor");

        // What the launch call is about to be handed, kept for the
        // contract.
        let ghost plan = LaunchPlan {
            argv: builder_argv(cmd),
            cwd: builder_cwd(cmd),
            env: builder_env(cmd),
        };

        let child = match spawn_child(&pair, cmd) {
            Ok(c) => c,
            Err(m) => {
                return Err(PtyError::SpawnFailure(m));
            },
        };
        let reader = match clone_reader(&pair) {
            Ok(rd) => rd,
            Err(m) => {
                return Err(PtyError::SpawnFailure(m));
            },
        };
        let writer = match take_writer(&pair) {
            Ok(w) => w,
            Err(m) => {
                return Err(PtyError::SpawnFailure(m));
            },
        };

        // Draw ids until one comes out that was never issued.  A random
        // draw carries no promise of freshness, so collisions are checked
        // for; after a bounded number of colliding draws the spawn is
        // given up as failed rather than looping without a bound.
        let mut pty_id = fresh_uuid();
        let mut tries: usize = 0;
        while tries < 64 && self.issued_contains(&pty_id)
            invariant
                pty_id@.len() == 36,
                tries <= 64,
            decreases 64 - tries,
        {
            pty_id = fresh_uuid();
            tries += 1;
        }
        if self.issued_contains(&pty_id) {
            return Err(
                PtyError::SpawnFailure(String::from_str("Could not draw a fresh session id")),
            );
        }

        let session = Session { id: pty_id.clone(), rows: 24, cols: 80, pair: share_pair(pair), writer };
        let ghost pre = *self;
        self.issued.push(pty_id.clone());
        self.sessions.push(session);
        proof {
            assert(self.issued_ids() =~= pre.issued_ids().push(pty_id@));
            assert(self.models() =~= pre.models().push(
                (SessionModel { id: pty_id@, rows: 24, cols: 80 }),
            ));
            assert forall|a: int, b: int|
                0 <= a < b < self.models().len() implies self.models()[a].id != self.models()[b].id
            by {
                if b == pre.models().len() {
                    assert(pre.issued_ids().contains(pre.models()[a].id));
                }
            }
            assert forall|i: int| 0 <= i < self.models().len() implies self.issued_ids().contains(
                #[trigger] self.models()[i].id,
            ) by {
                if i < pre.models().len() {
                    let j = choose|j: int|
                        0 <= j < pre.issued_ids().len() && pre.issued_ids()[j] == pre.models()[i].id;
                    assert(self.issued_ids()[j] == pre.models()[i].id);
                } else {
                    assert(self.issued_ids()[pre.issued_ids().len() as int] == pty_id@);
                }
            }
            assert(self.models()[pre.models().len() as int].id == pty_id@);
        }
        Ok(SpawnHandles { pty_id, reader, child, plan: Ghost(plan) })
    }

    /// The serialized write handle of the session, when it is alive: a
    /// short lookup whose result lets the caller write outside any
    /// registry critical section.
    pub fn writer_handle(&self, pty_id: &String) -> (r: Option<SharedWriter>)
        ensures
            r is Some <==> self.has_session(pty_id@),
    {
        match self.find_session(pty_id) {
            Some(i) => Some(clone_writer_handle(&self.sessions[i].writer)),
            None => None,
        }
    }

    /// The shared terminal handle of the session, when it is alive: a
    /// short lookup whose result lets the caller apply a geometry
    /// outside any registry critical section.
    pub fn master_handle(&self, pty_id: &String) -> (r: Option<SharedMaster>)
        ensures
            r is Some <==> self.has_session(pty_id@),
    {
        match self.find_session(pty_id) {
            Some(i) => Some(clone_master_handle(&self.sessions[i].pair)),
            None => None,
        }
    }

    /// Records the geometry that was applied to the session through a
    /// shared handle: updates exactly the matching session when it is
    /// still alive, and reports whether it was.
    pub fn record_geometry(&mut self, pty_id: &String, rows: u16, cols: u16) -> (r: bool)
        requires
            old(self).wf(),
        ensures
            final(self).wf(),
            final(self).issued_ids() == old(self).issued_ids(),
            r == old(self).has_session(pty_id@),
            !r ==> *final(self) == *old(self),
            r ==> exists|i: int|
                0 <= i < old(self).models().len() && old(self).models()[i].id == pty_id@
                    && final(self).models() == old(self).models().update(
                    i,
                    (SessionModel { id: pty_id@, rows: rows, cols: cols }),
                ),
    {
        match self.find_session(pty_id) {
            Some(i) => {
                let ghost pre = *self;
                let s = self.session_at(i);
                s.rows = rows;
                s.cols = cols;
                proof {
                    assert(self.models() =~= pre.models().update(
                        i as int,
                        (SessionModel { id: pty_id@, rows: rows, cols: cols }),
                    ));
                }
                true
            },
            None => false,
        }
    }

    /// Writes the whole of `data` to the session's terminal, then
    /// flushes, as one serialized write-and-flush sequence on the
    /// session's single write handle.  An id that is not alive is
    /// rejected as not found, naming the id; a failing write or flush
    /// syscall is an I/O error.  The registry itself never changes: the
    /// operation takes a shared borrow only.
    pub fn write_to_pty(&self, pty_id: &String, data: &String) -> (r: Result<(), PtyError>)
        ensures
            (r matches Err(e) && e is NotFound) <==> !self.has_session(pty_id@),
            r matches Err(PtyError::NotFound(m)) ==> m@ == "PTY session not found: "@ + pty_id@,
            r matches Err(e) ==> (e is NotFound || e is IOFailure),
    {
        match self.writer_handle(pty_id) {
            Some(w) => write_session(&w, data),
            None => Err(
                PtyError::NotFound(
                    String::from_str("PTY session not found: ").concat(pty_id.as_str()),
                ),
            ),
        }
    }

    /// Applies the given geometry to the session's controlling handle.
    /// An id that is not alive is rejected as not found; a failing
    /// geometry-change syscall is an I/O failure and leaves the recorded
    /// geometry as it was.  On success the session's recorded geometry
    /// is the new one, and no other session changes.
    pub fn resize_pty(&mut self, pty_id: &String, rows: u16, cols: u16) -> (r: Result<
        (),
        PtyError,
    >)
        requires
            old(self).wf(),
        ensures
            final(self).wf(),
            final(self).issued_ids() == old(self).issued_ids(),
            (r matches Err(e) && e is NotFound) <==> !old(self).has_session(pty_id@),
            r matches Err(PtyError::NotFound(m)) ==> m@ == "PTY session not found: "@ + pty_id@,
            r matches Err(e) ==> (e is NotFound || e is IOFailure) && final(self).models()
                == old(self).models(),
            r is Ok ==> exists|i: int|
                0 <= i < old(self).models().len() && old(self).models()[i].id == pty_id@
                    && final(self).models() == old(self).models().update(
                    i,
                    (SessionModel { id: pty_id@, rows: rows, cols: cols }),
                ),
    {
        let i = match self.find_session(pty_id) {
            Some(i) => i,
            None => {
                return Err(
                    PtyError::NotFound(
                        String::from_str("PTY session not found: ").concat(pty_id.as_str()),
                    ),
                );
            },
        };
        match resize_handle(&self.sessions[i].pair, rows, cols) {
            Ok(()) => {
                let ghost pre = *self;
                let s = self.session_at(i);
                s.rows = rows;
                s.cols = cols;
                proof {
                    assert(self.models() =~= pre.models().update(
                        i as int,
                        (SessionModel { id: pty_id@, rows: rows, cols: cols }),
                    ));
                }
                Ok(())
            },
            Err(m) => {
                proof {
                    assert(self.models() =~= old(self).models());
                }
                Err(PtyError::IOFailure(m))
            },
        }
    }

    /// Removes the session from the registry if it is alive, dropping
    /// its handles, which closes the terminal; removing an id that is
    /// not alive is a successful no-op, so a kill racing with the
    /// pump-detected end of the same session stays safe.  The id stays
    /// issued either way and is never handed out again.
    pub fn kill_pty(&mut self, pty_id: &String) -> (r: Result<(), PtyError>)
        requires
            old(self).wf(),
        ensures
            final(self).wf(),
            r is Ok,
            kill_transition(*old(self), *final(self), pty_id@),
    {
        match self.find_session(pty_id) {
            Some(i) => {
                let ghost pre = *self;
                self.sessions.remove(i);
                proof {
                    assert(self.models() =~= pre.models().remove(i as int));
                    assert forall|j: int|
                        0 <= j < self.models().len() implies self.issued_ids().contains(
                        #[trigger] self.models()[j].id,
                    ) by {
                        if j < i {
                            assert(self.models()[j] == pre.models()[j]);
                        } else {
                            assert(self.models()[j] == pre.models()[j + 1]);
                        }
                    }
                    assert forall|j: int|
                        0 <= j < self.models().len() implies self.models()[j].id != pty_id@ by {
                        if j < i {
                            assert(pre.models()[j].id != pre.models()[i as int].id);
                        } else {
                            assert(pre.models()[j + 1].id != pre.models()[i as int].id);
                        }
                    }
                    assert forall|a: int, b: int|
                        0 <= a < b < self.models().len() implies self.models()[a].id
                        != self.models()[b].id by {
                        let oa: int = if a < i { a } else { a + 1 };
                        let ob: int = if b < i { b } else { b + 1 };
                        assert(self.models()[a] == pre.models()[oa]);
                        assert(self.models()[b] == pre.models()[ob]);
                    }
                }
                Ok(())
            },
            None => Ok(()),
        }
    }

    /// The geometry last applied to the session, when it is alive.
    pub fn session_geometry(&self, pty_id: &String) -> (r: Option<(u16, u16)>)
        ensures
            r is Some <==> self.has_session(pty_id@),
            r matches Some(g) ==> exists|i: int|
                0 <= i < self.models().len() && self.models()[i].id == pty_id@ && g.0
                    == self.models()[i].rows && g.1 == self.models()[i].cols,
    {
        match self.find_session(pty_id) {
            Some(i) => {
                proof {
                    assert(self.models()[i as int].rows == self.sessions@[i as int].rows);
                    assert(self.models()[i as int].cols == self.sessions@[i as int].cols);
                }
                Some((self.sessions[i].rows, self.sessions[i].cols))
            },
            None => None,
        }
    }

    /// Whether a session with the given id is currently alive.
    pub fn contains_session(&self, pty_id: &String) -> (r: bool)
        ensures
            r == self.has_session(pty_id@),
    {
        match self.find_session(pty_id) {
            Some(_) => true,
            None => false,
        }
    }

    /// How many sessions are currently alive.
    pub fn session_count(&self) -> (r: usize)
        ensures
            r == self.models().len(),
    {
        self.sessions.len()
    }
}

impl Default for PtyState {
    /// An empty registry.
    fn default() -> (r: PtyState)
        ensures
            r.wf(),
            r.models() == Seq::<SessionModel>::empty(),
            r.issued_ids() == Seq::<Seq<char>>::empty(),
    {
        PtyState::new()
    }
}

/// Writes the whole of `data` through a session's serialized write
/// handle, then flushes, as one write-and-flush sequence; a failing
/// write or flush syscall is an I/O error.  Together with
/// `PtyState::writer_handle` this lets a host keep its registry
/// critical section to the lookup alone and perform the blocking write
/// outside it.
pub fn write_session(w: &SharedWriter, data: &String) -> (r: Result<(), PtyError>)
    ensures
        r matches Err(e) ==> e is IOFailure,
{
    match write_and_flush(w, data) {
        Ok(()) => Ok(()),
        Err(m) => Err(PtyError::IOFailure(m)),
    }
}

/// Applies the given geometry to the terminal a shared handle reaches;
/// a failing geometry-change syscall is an I/O error.  Together with
/// `PtyState::master_handle` and `PtyState::record_geometry` this lets
/// a host keep its registry critical sections to the lookup and the
/// recording alone and perform the syscall outside them.
pub fn resize_session(m: &SharedMaster, rows: u16, cols: u16) -> (r: Result<(), PtyError>)
    ensures
        r matches Err(e) ==> e is IOFailure,
{
    match resize_handle(m, rows, cols) {
        Ok(()) => Ok(()),
        Err(msg) => Err(PtyError::IOFailure(msg)),
    }
}

/// Law: a spawn that registers a session issues an id distinct from
/// every id issued before it, and every earlier id stays issued.
pub proof fn lemma_spawn_id_fresh(
    pre: PtyState,
    post: PtyState,
    prior: Seq<char>,
    fresh: Seq<char>,
)
    requires
        pre.issued_ids().contains(prior),
        spawn_registered(pre, post, fresh),
    ensures
        fresh != prior,
        post.issued_ids().contains(prior),
        post.issued_ids().contains(fresh),
{
    let j = choose|j: int| 0 <= j < pre.issued_ids().len() && pre.issued_ids()[j] == prior;
    assert(post.issued_ids()[j] == prior);
    assert(post.issued_ids()[pre.issued_ids().len() as int] == fresh);
}

/// Law: killing the same id twice is safe; the second kill finds the
/// session already gone and leaves the registry exactly as the first
/// kill left it.
pub proof fn lemma_kill_twice_noop(s0: PtyState, s1: PtyState, s2: PtyState, id: Seq<char>)
    requires
        kill_transition(s0, s1, id),
        kill_transition(s1, s2, id),
    ensures
        s2 == s1,
{
}

} // verus!
