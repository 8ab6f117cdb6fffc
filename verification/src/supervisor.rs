//! Process supervision: a spawn pass that tries candidates strictly in
//! order and keeps the first handle that spawns, and the process-wide
//! slot that owns the handle until shutdown empties it exactly once.

use vstd::prelude::*;
use crate::resolver::CandidateSpec;
use crate::resolver::CandidateView;
use crate::resolver::candidate_views;

verus! {

/// Why one candidate attempt failed.
#[derive(Clone, Copy, PartialEq, Eq, Structural, Debug)]
pub enum AttemptFailure {
    /// The candidate's base produced no usable path or identifier.
    ResolutionFailure,
    /// The resolved location names no existing, accessible file.
    MissingBinary,
    /// The operating system refused to start the process.
    SpawnFailure,
}

/// What one attempt at the current candidate came to, as the model sees
/// it: a failure with its reason, or a spawned process known by its pid.
#[derive(Clone, Copy, PartialEq, Eq, Structural, Debug)]
pub enum AttemptEvent {
    Failed(AttemptFailure),
    Spawned(u32),
}

/// Handle to the spawned backend: its pid, and the capability the host
/// supplies to terminate that process. Owned exclusively; it is created
/// once per successful spawn and surrendered at most once.
pub struct ProcessHandle<C> {
    pub pid: u32,
    pub terminator: C,
}

/// What one attempt at the current candidate came to.
pub enum AttemptOutcome<C> {
    Failed(AttemptFailure),
    Spawned(ProcessHandle<C>),
}

impl<C> View for AttemptOutcome<C> {
    type V = AttemptEvent;

    open spec fn view(&self) -> AttemptEvent {
        match *self {
            AttemptOutcome::Failed(f) => AttemptEvent::Failed(f),
            AttemptOutcome::Spawned(ref h) => AttemptEvent::Spawned(h.pid),
        }
    }
}

/// Pid of an optional handle.
pub open spec fn pid_of<C>(h: Option<ProcessHandle<C>>) -> Option<u32> {
    match h {
        Option::Some(handle) => Option::Some(handle.pid),
        Option::None => Option::None,
    }
}

/// Mathematical state of one spawn pass over a candidate list.
#[verifier::ext_equal]
pub struct SessionModel {
    /// The candidates, in the order they are to be tried.
    pub candidates: Seq<CandidateView>,
    /// How many candidates have been tried and failed.
    pub tried: int,
    /// Pid of the first candidate that spawned, if one has.
    pub pid: Option<u32>,
    /// Reasons of the failed attempts, in attempt order.
    pub failures: Seq<AttemptFailure>,
}

/// A fresh session: nothing tried, no process, no failures.
pub open spec fn session_init(candidates: Seq<CandidateView>) -> SessionModel {
    SessionModel { candidates, tried: 0, pid: Option::None, failures: Seq::empty() }
}

/// The session accepts no further attempts: a process spawned, or every
/// candidate has been tried.
pub open spec fn session_done(m: SessionModel) -> bool {
    m.pid is Some || m.tried == m.candidates.len()
}

/// One attempt folded into the session state. A failure advances to the
/// next candidate and records the reason; a spawn keeps the pid and
/// finishes the session; a finished session does not change.
pub open spec fn session_step(m: SessionModel, e: AttemptEvent) -> SessionModel {
    if session_done(m) {
        m
    } else {
        match e {
            AttemptEvent::Failed(f) => SessionModel {
                tried: m.tried + 1,
                failures: m.failures.push(f),
                ..m
            },
            AttemptEvent::Spawned(p) => SessionModel { pid: Option::Some(p), ..m },
        }
    }
}

/// The session state after a whole sequence of attempts, first to last.
pub open spec fn session_run(m: SessionModel, es: Seq<AttemptEvent>) -> SessionModel
    decreases es.len(),
{
    if es.len() == 0 {
        m
    } else {
        session_run(session_step(m, es[0]), es.subrange(1, es.len() as int))
    }
}

/// Reasons of a sequence of failed attempts.
pub open spec fn reasons_of(es: Seq<AttemptEvent>) -> Seq<AttemptFailure>
    recommends
        forall|i: int| 0 <= i < es.len() ==> es[i] is Failed,
{
    es.map_values(|e: AttemptEvent| e->Failed_0)
}

/// A finished session absorbs further attempts unchanged.
pub proof fn lemma_done_run(m: SessionModel, es: Seq<AttemptEvent>)
    requires
        session_done(m),
    ensures
        session_run(m, es) == m,
    decreases es.len(),
{
    if es.len() > 0 {
        lemma_done_run(m, es.subrange(1, es.len() as int));
    }
}

proof fn lemma_run_first_success(m: SessionModel, es: Seq<AttemptEvent>, n: int, p: u32)
    requires
        m.pid is None,
        0 <= m.tried,
        0 <= n < es.len(),
        m.tried + n < m.candidates.len(),
        forall|i: int| 0 <= i < n ==> es[i] is Failed,
        es[n] == AttemptEvent::Spawned(p),
    ensures
        session_run(m, es) == (SessionModel {
            candidates: m.candidates,
            tried: m.tried + n,
            pid: Option::Some(p),
            failures: m.failures + reasons_of(es.subrange(0, n)),
        }),
        session_run(m, es) == session_run(m, es.subrange(0, n + 1)),
    decreases n,
{
    let m1 = session_step(m, es[0]);
    let es1 = es.subrange(1, es.len() as int);
    let short = es.subrange(0, n + 1);
    let short1 = short.subrange(1, short.len() as int);
    assert(short1 =~= es1.subrange(0, n));
    if n == 0 {
        assert(session_done(m1));
        lemma_done_run(m1, es1);
        lemma_done_run(m1, short1);
        assert(m.failures + reasons_of(es.subrange(0, 0)) =~= m.failures);
        assert(session_run(m, es) =~= m1);
    } else {
        assert(es[0] is Failed);
        let f = es[0]->Failed_0;
        assert(forall|i: int| 0 <= i < n - 1 ==> es1[i] == es[i + 1] && #[trigger] es1[i] is Failed);
        assert(es1[n - 1] == AttemptEvent::Spawned(p));
        lemma_run_first_success(m1, es1, n - 1, p);
        assert(m1.failures + reasons_of(es1.subrange(0, n - 1)) =~= m.failures + reasons_of(
            es.subrange(0, n),
        )) by {
            let r1 = reasons_of(es1.subrange(0, n - 1));
            let r = reasons_of(es.subrange(0, n));
            assert(forall|i: int|
                0 <= i < n - 1 ==> r1[i] == #[trigger] es1.subrange(0, n - 1)[i]->Failed_0);
            assert(forall|i: int| 0 <= i < n ==> r[i] == #[trigger] es.subrange(0, n)[i]->Failed_0);
            assert(r[0] == f);
        }
        assert(session_run(m, short) == session_run(m1, short1));
    }
}

proof fn lemma_run_all_fail(m: SessionModel, es: Seq<AttemptEvent>)
    requires
        m.pid is None,
        0 <= m.tried,
        m.tried + es.len() == m.candidates.len(),
        forall|i: int| 0 <= i < es.len() ==> es[i] is Failed,
    ensures
        session_run(m, es) == (SessionModel {
            candidates: m.candidates,
            tried: m.candidates.len() as int,
            pid: Option::<u32>::None,
            failures: m.failures + reasons_of(es),
        }),
    decreases es.len(),
{
    if es.len() == 0 {
        assert(m.failures + reasons_of(es) =~= m.failures);
        assert(session_run(m, es) =~= SessionModel {
            candidates: m.candidates,
            tried: m.candidates.len() as int,
            pid: Option::<u32>::None,
            failures: m.failures + reasons_of(es),
        });
    } else {
        let m1 = session_step(m, es[0]);
        let es1 = es.subrange(1, es.len() as int);
        let f = es[0]->Failed_0;
        lemma_run_all_fail(m1, es1);
        assert(m1.failures + reasons_of(es1) =~= m.failures + reasons_of(es)) by {
            let r1 = reasons_of(es1);
            let r = reasons_of(es);
            assert(forall|i: int| 0 <= i < es1.len() ==> r1[i] == #[trigger] es1[i]->Failed_0);
            assert(forall|i: int| 0 <= i < es.len() ==> r[i] == #[trigger] es[i]->Failed_0);
            assert(r[0] == f);
        }
    }
}

/// The first success wins, and nothing after it is attempted: a spawn
/// pass whose first `n` attempts fail and whose next attempt spawns pid
/// `p` ends tracking exactly that process, with the `n` failure reasons
/// recorded in order, and the attempts beyond the success, had any been
/// reported, would change nothing.
pub proof fn lemma_first_success_wins(
    candidates: Seq<CandidateView>,
    es: Seq<AttemptEvent>,
    n: int,
    p: u32,
)
    requires
        0 <= n < es.len(),
        n < candidates.len(),
        forall|i: int| 0 <= i < n ==> es[i] is Failed,
        es[n] == AttemptEvent::Spawned(p),
    ensures
        session_run(session_init(candidates), es) == (SessionModel {
            candidates,
            tried: n,
            pid: Option::Some(p),
            failures: reasons_of(es.subrange(0, n)),
        }),
        session_run(session_init(candidates), es) == session_run(
            session_init(candidates),
            es.subrange(0, n + 1),
        ),
        session_done(session_run(session_init(candidates), es)),
{
    let m = session_init(candidates);
    lemma_run_first_success(m, es, n, p);
    assert(m.failures + reasons_of(es.subrange(0, n)) =~= reasons_of(es.subrange(0, n)));
    assert(session_run(m, es) =~= SessionModel {
        candidates,
        tried: n,
        pid: Option::Some(p),
        failures: reasons_of(es.subrange(0, n)),
    });
}

/// An empty candidate list, or one on which every attempt fails, leaves
/// the pass with no process: the session exhausts the whole list, keeps
/// no pid, and records every failure reason in order.
pub proof fn lemma_exhausted_spawns_nothing(candidates: Seq<CandidateView>, es: Seq<AttemptEvent>)
    requires
        es.len() == candidates.len(),
        forall|i: int| 0 <= i < es.len() ==> es[i] is Failed,
    ensures
        session_run(session_init(candidates), es) == (SessionModel {
            candidates,
            tried: candidates.len() as int,
            pid: Option::<u32>::None,
            failures: reasons_of(es),
        }),
        session_run(session_init(candidates), es).pid is None,
        session_done(session_run(session_init(candidates), es)),
{
    let m = session_init(candidates);
    lemma_run_all_fail(m, es);
    assert(m.failures + reasons_of(es) =~= reasons_of(es));
    assert(session_run(m, es) =~= SessionModel {
        candidates,
        tried: candidates.len() as int,
        pid: Option::<u32>::None,
        failures: reasons_of(es),
    });
}

/// Tracks one pass over the candidate list: which candidate to try next,
/// the handle of the first success, and the reasons the earlier
/// candidates failed. The caller performs the existence checks and spawn
/// calls and reports each outcome; the session decides everything else.
pub struct SpawnSession<C> {
    candidates: Vec<CandidateSpec>,
    tried: usize,
    handle: Option<ProcessHandle<C>>,
    failures: Vec<AttemptFailure>,
}

impl<C> View for SpawnSession<C> {
    type V = SessionModel;

    closed spec fn view(&self) -> SessionModel {
        SessionModel {
            candidates: candidate_views(self.candidates@),
            tried: self.tried as int,
            pid: pid_of(self.handle),
            failures: self.failures@,
        }
    }
}

impl<C> SpawnSession<C> {
    #[verifier::type_invariant]
    spec fn wf(self) -> bool {
        &&& self.tried <= self.candidates.len()
        &&& self.handle is Some ==> self.tried < self.candidates.len()
    }

    /// A fresh session over the given candidates, to be tried strictly in
    /// list order.
    pub fn new(candidates: Vec<CandidateSpec>) -> (s: Self)
        ensures
            s@ == session_init(candidate_views(candidates@)),
    {
        let s = SpawnSession { candidates, tried: 0, handle: Option::None, failures: Vec::new() };
        proof {
            assert(s@ =~= session_init(candidate_views(s.candidates@)));
        }
        s
    }

    /// The next candidate to try, in list order; `None` once the session
    /// is done, so no candidate is ever offered after the first success.
    pub fn next_candidate(&self) -> (r: Option<&CandidateSpec>)
        ensures
            match r {
                Option::Some(c) => !session_done(self@) && 0 <= self@.tried
                    < self@.candidates.len() && c@ == self@.candidates[self@.tried],
                Option::None => session_done(self@),
            },
    {
        proof {
            use_type_invariant(&*self);
        }
        if self.handle.is_some() {
            Option::None
        } else if self.tried < self.candidates.len() {
            Option::Some(&self.candidates[self.tried])
        } else {
            Option::None
        }
    }

    /// Fold the outcome of an attempt at the current candidate into the
    /// session: a failure records its reason and moves on to the next
    /// candidate, the first success keeps the handle and finishes the
    /// session.
    pub fn record_attempt(&mut self, outcome: AttemptOutcome<C>)
        requires
            !session_done(old(self)@),
        ensures
            final(self)@ == session_step(old(self)@, outcome@),
    {
        proof {
            use_type_invariant(&*self);
        }
        match outcome {
            AttemptOutcome::Failed(f) => {
                let mut reasons: Vec<AttemptFailure> = Vec::new();
                core::mem::swap(&mut reasons, &mut self.failures);
                reasons.push(f);
                core::mem::swap(&mut reasons, &mut self.failures);
                self.tried = self.tried + 1;
            },
            AttemptOutcome::Spawned(h) => {
                self.handle = Option::Some(h);
            },
        }
        proof {
            assert(self@ =~= session_step(old(self)@, outcome@));
        }
    }

    /// Pid of the spawned process, if the pass has spawned one.
    pub fn spawned_pid(&self) -> (r: Option<u32>)
        ensures
            r == self@.pid,
    {
        match &self.handle {
            Option::Some(h) => Option::Some(h.pid),
            Option::None => Option::None,
        }
    }

    /// Reasons the candidates tried so far failed, in attempt order.
    pub fn failures(&self) -> (r: &Vec<AttemptFailure>)
        ensures
            r@ == self@.failures,
    {
        &self.failures
    }

    /// Surrender the session's handle: the first success of the pass, or
    /// nothing when every candidate was exhausted.
    pub fn into_handle(self) -> (r: Option<ProcessHandle<C>>)
        ensures
            pid_of(r) == self@.pid,
    {
        self.handle
    }
}

/// What storing the spawn outcome does to the slot: the slot, empty
/// until then, holds exactly what the pass produced.
pub open spec fn adopt_slot(slot: Option<u32>, spawned: Option<u32>) -> Option<u32>
    recommends
        slot is None,
{
    spawned
}

/// What shutdown leaves in the slot: nothing, whatever it held.
pub open spec fn shutdown_slot(slot: Option<u32>) -> Option<u32> {
    Option::<u32>::None
}

/// Which process the shutdown issues its termination request to: exactly
/// the one the slot held, and none when the slot was empty.
pub open spec fn shutdown_request(slot: Option<u32>) -> Option<u32> {
    slot
}

/// The single process-wide slot owning the backend handle. It starts
/// empty, is filled at most once with the result of the spawn pass, and
/// is emptied permanently by shutdown. The caller serialises access, so
/// every transition below is the only one in flight.
pub struct SupervisorState<C> {
    current: Option<ProcessHandle<C>>,
}

impl<C> View for SupervisorState<C> {
    type V = Option<u32>;

    closed spec fn view(&self) -> Option<u32> {
        pid_of(self.current)
    }
}

impl<C> SupervisorState<C> {
    /// An empty slot: no backend tracked.
    pub fn new() -> (s: Self)
        ensures
            s@ is None,
    {
        SupervisorState { current: Option::None }
    }

    /// Pid of the tracked backend, if one is tracked.
    pub fn current_pid(&self) -> (r: Option<u32>)
        ensures
            r == self@,
    {
        match &self.current {
            Option::Some(h) => Option::Some(h.pid),
            Option::None => Option::None,
        }
    }

    /// Store the result of the spawn pass. The slot must never have been
    /// filled before: the backend is spawned at most once per run.
    pub fn adopt(&mut self, spawned: Option<ProcessHandle<C>>)
        requires
            old(self)@ is None,
        ensures
            final(self)@ == adopt_slot(old(self)@, pid_of(spawned)),
    {
        self.current = spawned;
    }

    /// Take the handle for shutdown: the slot is left empty whatever it
    /// held, and the handle, if one was tracked, is surrendered to the
    /// caller — the one termination request of the run is issued on it.
    /// With the slot already empty this is a no-op that surrenders
    /// nothing, so a second call never issues a second request.
    pub fn take_for_shutdown(&mut self) -> (r: Option<ProcessHandle<C>>)
        ensures
            final(self)@ == shutdown_slot(old(self)@),
            pid_of(r) == shutdown_request(old(self)@),
    {
        self.current.take()
    }
}

/// Shutdown requests termination at most once: a shutdown of a slot
/// that holds pid `p` requests termination of exactly `p` and leaves the
/// slot empty, so the immediately following shutdown — and every later
/// one — requests nothing and leaves the slot empty. A shutdown of a
/// slot that never held a handle requests nothing.
pub proof fn lemma_shutdown_idempotent(slot: Option<u32>)
    ensures
        slot matches Option::Some(p) ==> shutdown_request(slot) == Option::Some(p),
        shutdown_slot(slot) is None,
        shutdown_request(shutdown_slot(slot)) is None,
        shutdown_slot(shutdown_slot(slot)) is None,
        slot is None ==> shutdown_request(slot) is None,
{
}

/// A spawn-store and a shutdown, serialised by the slot's lock in either
/// order, never kill a handle twice and never drop a live handle
/// untracked: store first and the one shutdown request goes to exactly
/// the stored handle, leaving the slot empty; shutdown first and it
/// requests nothing while the handle stored afterwards stays tracked
/// until a later shutdown surrenders it once.
pub proof fn lemma_race_consistency(spawned: Option<u32>)
    ensures
        shutdown_request(adopt_slot(Option::None, spawned)) == spawned,
        shutdown_slot(adopt_slot(Option::None, spawned)) is None,
        shutdown_request(Option::<u32>::None) is None,
        adopt_slot(shutdown_slot(Option::None), spawned) == spawned,
        shutdown_request(adopt_slot(shutdown_slot(Option::None), spawned)) == spawned,
{
}

} // verus!
