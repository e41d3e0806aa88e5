//! The cooperative task runtime that drives scripted scenes.
//!
//! Each frame the runtime polls every task that is ready, in the order in
//! which the tasks became ready.  Every poll hands out a fresh task id.  A
//! task that is still pending after its poll, and whose waker did not fire
//! while it was being polled, is parked under that id until a waker with
//! the same id fires.
//!
//! The futures themselves, their wakers and the act of polling stay with
//! the caller: the runtime only decides which task is polled next and where
//! a task goes afterwards.  Tasks are carried as opaque values of type `T`.

use std::collections::BTreeMap;
use std::collections::VecDeque;
use vstd::prelude::*;

verus! {

broadcast use vstd::std_specs::btree::group_btree_axioms, vstd::laws_cmp::group_laws_cmp;

/// Mathematical model of the runtime.
pub struct RuntimeState<T> {
    /// Tasks ready to be polled, front first.
    pub ready: Seq<T>,
    /// Parked tasks, by the id of the poll that parked them.
    pub parked: Map<usize, T>,
    /// The id handed to the next poll.
    pub next_id: usize,
    /// The id of the poll in progress, if any.
    pub polling: Option<usize>,
    /// Whether a waker of the poll in progress has fired.
    pub woken: bool,
}

impl<T> RuntimeState<T> {
    /// The state right after start-up.
    pub open spec fn initial() -> Self {
        RuntimeState {
            ready: Seq::empty(),
            parked: Map::empty(),
            next_id: 0,
            polling: None,
            woken: false,
        }
    }

    /// Ids grow: every parked id and the id of the poll in progress were
    /// handed out already, and the task being polled is not parked.
    pub open spec fn wf(self) -> bool {
        &&& self.parked.dom().finite()
        &&& forall|k: usize| #[trigger] self.parked.contains_key(k) ==> k < self.next_id
        &&& match self.polling {
            Some(id) => id < self.next_id && !self.parked.contains_key(id),
            None => !self.woken,
        }
    }

    /// A new task joins the back of the ready queue.
    pub open spec fn spawned(self, task: T) -> Self {
        RuntimeState { ready: self.ready.push(task), ..self }
    }

    /// The waker of poll `id` fires: a task parked under `id` moves to the
    /// back of the ready queue, and if `id` is the poll in progress this is
    /// recorded.
    pub open spec fn woken_by(self, id: usize) -> Self {
        RuntimeState {
            ready: if self.parked.contains_key(id) {
                self.ready.push(self.parked[id])
            } else {
                self.ready
            },
            parked: self.parked.remove(id),
            woken: self.woken || self.polling == Some(id),
            ..self
        }
    }

    /// The poll in progress ended with `task`, still `pending` or not.  A
    /// pending task whose waker did not fire during the poll is parked under
    /// the poll's id; any other task is let go.
    pub open spec fn settled(self, task: T, pending: bool) -> Self {
        RuntimeState {
            parked: if pending && !self.woken && self.polling is Some {
                self.parked.insert(self.polling->0, task)
            } else {
                self.parked
            },
            polling: None,
            woken: false,
            ..self
        }
    }

    /// The front task of the ready queue, if any, is taken out for a poll
    /// with the next id.
    pub open spec fn started(self) -> Self {
        if self.ready.len() > 0 {
            RuntimeState {
                ready: self.ready.drop_first(),
                next_id: (self.next_id + 1) as usize,
                polling: Some(self.next_id),
                woken: false,
                ..self
            }
        } else {
            self
        }
    }

    /// The task handed out by `started`, with its poll id.
    pub open spec fn handed_out(self) -> Option<(usize, T)> {
        if self.ready.len() > 0 {
            Some((self.next_id, self.ready[0]))
        } else {
            None
        }
    }

    /// The wakers of polls `ids` fire, in that order.
    pub open spec fn woken_by_all(self, ids: Seq<usize>) -> Self
        decreases ids.len(),
    {
        if ids.len() == 0 {
            self
        } else {
            self.woken_by_all(ids.drop_last()).woken_by(ids.last())
        }
    }

    /// The state once the result of the poll in progress, if any, is in.
    pub open spec fn after_report(self, polled: Option<(T, bool)>) -> Self {
        match polled {
            Some((task, pending)) => self.settled(task, pending),
            None => self,
        }
    }
}

/// A task that is still pending after its poll, and whose waker did not fire
/// during the poll, is kept: once the waker of that poll fires, the task is
/// at the back of the ready queue and the other parked tasks are untouched.
pub proof fn lemma_parked_task_returns_on_wake<T>(s: RuntimeState<T>, task: T)
    requires
        s.wf(),
        s.polling is Some,
        !s.woken,
    ensures
        s.settled(task, true).woken_by(s.polling->0).ready == s.ready.push(task),
        s.settled(task, true).woken_by(s.polling->0).parked == s.parked,
        s.settled(task, true).parked.contains_key(s.polling->0),
        s.settled(task, true).parked[s.polling->0] == task,
{
    let id = s.polling->0;
    assert(s.settled(task, true).parked.remove(id) =~= s.parked);
}

/// A task that is no longer pending is let go: it is neither parked nor
/// queued.  The same holds, in this runtime, of a pending task whose own
/// waker fired while it was being polled.
pub proof fn lemma_finished_task_is_dropped<T>(s: RuntimeState<T>, task: T, pending: bool)
    requires
        s.wf(),
        s.polling is Some,
        !pending || s.woken,
    ensures
        s.settled(task, pending).parked == s.parked,
        s.settled(task, pending).ready == s.ready,
        s.settled(task, pending).polling is None,
{
}

/// A parked task whose waker fires leaves the parked set and joins the back
/// of the ready queue, whether or not another task is being polled at that
/// moment; the other parked tasks and the poll in progress are untouched.
pub proof fn lemma_wake_requeues_parked_task<T>(s: RuntimeState<T>, id: usize)
    requires
        s.wf(),
        s.parked.contains_key(id),
    ensures
        s.woken_by(id).ready == s.ready.push(s.parked[id]),
        s.woken_by(id).ready.len() == s.ready.len() + 1,
        s.woken_by(id).ready.last() == s.parked[id],
        s.woken_by(id).parked == s.parked.remove(id),
        !s.woken_by(id).parked.contains_key(id),
        s.woken_by(id).parked.len() + 1 == s.parked.len(),
        s.woken_by(id).polling == s.polling,
        s.woken_by(id).next_id == s.next_id,
{
    assert(s.woken_by(id).ready.last() == s.parked[id]);
}

/// Starting a poll takes the front task of the ready queue, hands it out
/// with the next id and counts that id as used; spawning puts the new task
/// at the back of the ready queue and touches nothing else.
pub proof fn lemma_start_and_spawn<T>(s: RuntimeState<T>, task: T)
    requires
        s.wf(),
        s.next_id < usize::MAX,
    ensures
        s.ready.len() > 0 ==> s.handed_out() == Some((s.next_id, s.ready[0])) && s.started().ready
            == s.ready.subrange(1, s.ready.len() as int) && s.started().next_id == s.next_id + 1
            && s.started().polling == Some(s.next_id) && !s.started().woken && s.started().parked
            == s.parked,
        s.ready.len() == 0 ==> s.handed_out() is None && s.started() == s,
        s.spawned(task).ready.len() == s.ready.len() + 1,
        s.spawned(task).ready.last() == task,
        s.spawned(task).ready.subrange(0, s.ready.len() as int) == s.ready,
        s.spawned(task).parked == s.parked,
        s.spawned(task).next_id == s.next_id,
        s.spawned(task).polling == s.polling,
{
    assert(s.spawned(task).ready.subrange(0, s.ready.len() as int) =~= s.ready);
    if s.ready.len() > 0 {
        assert(s.started().ready =~= s.ready.subrange(1, s.ready.len() as int));
    }
}

/// Firing the same waker twice has the effect of firing it once.
pub proof fn lemma_wake_idempotent<T>(s: RuntimeState<T>, id: usize)
    requires
        s.wf(),
    ensures
        s.woken_by(id).woken_by(id) == s.woken_by(id),
{
    assert(s.woken_by(id).parked.remove(id) =~= s.woken_by(id).parked);
}

/// A waker whose task is neither parked nor being polled changes nothing.
pub proof fn lemma_stale_wake_is_harmless<T>(s: RuntimeState<T>, id: usize)
    requires
        s.wf(),
        !s.parked.contains_key(id),
        s.polling != Some(id),
    ensures
        s.woken_by(id) == s,
{
    assert(s.parked.remove(id) =~= s.parked);
}

/// Tasks are polled in the order in which they became ready: a newly
/// spawned task never overtakes one already in the queue, and a task
/// spawned into an empty queue is the next one polled.
pub proof fn lemma_spawn_keeps_order<T>(s: RuntimeState<T>, task: T)
    ensures
        s.ready.len() > 0 ==> s.spawned(task).handed_out() == s.handed_out(),
        s.ready.len() == 0 ==> s.spawned(task).handed_out() == Some((s.next_id, task)),
        s.ready.len() > 0 ==> s.spawned(task).started().ready == s.started().ready.push(task),
{
    if s.ready.len() > 0 {
        assert(s.spawned(task).started().ready =~= s.started().ready.push(task));
    }
}

/// Every step keeps the runtime well formed, and the id handed to a poll
/// is fresh: it is not the id of any parked task, and later polls get
/// larger ids.
pub proof fn lemma_steps_keep_ids_fresh<T>(s: RuntimeState<T>, task: T, pending: bool, id: usize)
    requires
        s.wf(),
    ensures
        s.spawned(task).wf(),
        s.woken_by(id).wf(),
        s.polling is Some ==> s.settled(task, pending).wf(),
        s.next_id < usize::MAX ==> s.started().wf(),
        s.handed_out() matches Some((n, t)) ==> !s.parked.contains_key(n) && n == s.next_id,
        s.next_id < usize::MAX && s.ready.len() > 0 ==> s.started().next_id > s.next_id,
{
}

/// At the start of a frame, before any task is polled, the wakers waiting
/// for that frame fire (their poll ids are `ids`).  Then every task parked
/// under one of those ids is in the ready queue, behind the tasks that were
/// ready already, so the frame's polls reach it before the frame ends; the
/// tasks parked under other ids stay parked; no poll is in progress and no
/// id has been used up.
pub proof fn lemma_frame_wakes_before_polls<T>(s: RuntimeState<T>, ids: Seq<usize>)
    requires
        s.wf(),
        s.polling is None,
    ensures
        s.woken_by_all(ids).wf(),
        s.woken_by_all(ids).polling is None,
        s.woken_by_all(ids).next_id == s.next_id,
        s.woken_by_all(ids).ready.len() >= s.ready.len(),
        s.woken_by_all(ids).ready.subrange(0, s.ready.len() as int) == s.ready,
        forall|id: usize| #[trigger] ids.contains(id) ==> !s.woken_by_all(ids).parked.contains_key(id),
        forall|id: usize|
            #[trigger] ids.contains(id) && s.parked.contains_key(id) ==> exists|k: int|
                s.ready.len() <= k < s.woken_by_all(ids).ready.len() && s.woken_by_all(ids).ready[k]
                    == s.parked[id],
        forall|id: usize|
            !ids.contains(id) ==> (#[trigger] s.woken_by_all(ids).parked.contains_key(id)
                == s.parked.contains_key(id)) && (s.parked.contains_key(id) ==> s.woken_by_all(
                ids).parked[id] == s.parked[id]),
    decreases ids.len(),
{
    if ids.len() > 0 {
        let rest = ids.drop_last();
        let last = ids.last();
        lemma_frame_wakes_before_polls(s, rest);
        let u = s.woken_by_all(rest);
        let t = s.woken_by_all(ids);
        assert(t == u.woken_by(last));
        assert(t.ready.subrange(0, s.ready.len() as int) =~= s.ready) by {
            assert forall|k: int| 0 <= k < s.ready.len() implies t.ready[k] == u.ready[k] by {}
            assert(u.ready.subrange(0, s.ready.len() as int) == s.ready);
            assert forall|k: int| 0 <= k < s.ready.len() implies u.ready[k] == s.ready[k] by {
                assert(u.ready.subrange(0, s.ready.len() as int)[k] == u.ready[k]);
            }
        }
        assert forall|id: usize| #[trigger] ids.contains(id) implies !t.parked.contains_key(id) by {
            if id != last {
                assert(rest.contains(id)) by {
                    let k = choose|k: int| 0 <= k < ids.len() && ids[k] == id;
                    assert(k < ids.len() - 1);
                    assert(rest[k] == id);
                }
            }
        }
        assert forall|id: usize| #[trigger] ids.contains(id) && s.parked.contains_key(id) implies exists|k: int|
            s.ready.len() <= k < t.ready.len() && t.ready[k] == s.parked[id] by {
            if rest.contains(id) {
                let k = choose|k: int| s.ready.len() <= k < u.ready.len() && u.ready[k] == s.parked[id];
                assert(t.ready[k] == u.ready[k]);
            } else {
                assert(id == last) by {
                    let k = choose|k: int| 0 <= k < ids.len() && ids[k] == id;
                    if k < ids.len() - 1 {
                        assert(rest[k] == id);
                    }
                }
                assert(u.parked.contains_key(id));
                assert(t.ready[u.ready.len() as int] == s.parked[id]);
            }
        }
        assert forall|id: usize| !ids.contains(id) implies (#[trigger] t.parked.contains_key(id)
            == s.parked.contains_key(id)) && (s.parked.contains_key(id) ==> t.parked[id]
            == s.parked[id]) by {
            assert(!rest.contains(id)) by {
                if rest.contains(id) {
                    let k = choose|k: int| 0 <= k < rest.len() && rest[k] == id;
                    assert(ids[k] == id);
                }
            }
            assert(id != last) by {
                assert(ids[ids.len() - 1] == last);
            }
        }
    }
}

/// The task runtime: a ready queue, the parked tasks and the id counter.
pub struct Runtime<T> {
    running: VecDeque<T>,
    waiting: BTreeMap<usize, T>,
    next_id: usize,
    polling: Option<usize>,
    woken: bool,
}

impl<T> View for Runtime<T> {
    type V = RuntimeState<T>;

    closed spec fn view(&self) -> RuntimeState<T> {
        RuntimeState {
            ready: self.running@,
            parked: self.waiting@,
            next_id: self.next_id,
            polling: self.polling,
            woken: self.woken,
        }
    }
}

impl<T> Runtime<T> {
    /// A runtime with no task.
    pub fn new() -> (rt: Self)
        ensures
            rt@ == RuntimeState::<T>::initial(),
            rt@.wf(),
    {
        Runtime {
            running: VecDeque::new(),
            waiting: BTreeMap::new(),
            next_id: 0,
            polling: None,
            woken: false,
        }
    }

    /// Whether a poll is in progress, that is, whether the next call of
    /// `runtime_update` must report its result.
    pub fn is_polling(&self) -> (b: bool)
        ensures
            b == self@.polling is Some,
    {
        self.polling.is_some()
    }

    /// Number of tasks waiting in the ready queue.
    pub fn ready_len(&self) -> (n: usize)
        ensures
            n == self@.ready.len(),
    {
        self.running.len()
    }

    /// Number of parked tasks.
    pub fn parked_len(&self) -> (n: usize)
        requires
            self@.wf(),
        ensures
            n == self@.parked.len(),
    {
        self.waiting.len()
    }

    /// The id that the next poll gets.
    pub fn next_task_id(&self) -> (id: usize)
        ensures
            id == self@.next_id,
    {
        self.next_id
    }

    /// The waker of poll `id` fires.
    pub fn wake(&mut self, id: usize)
        requires
            old(self)@.wf(),
        ensures
            final(self)@ == old(self)@.woken_by(id),
            final(self)@.wf(),
    {
        match self.polling {
            Some(p) => {
                if p == id {
                    self.woken = true;
                }
            },
            None => {},
        }
        match self.waiting.remove(&id) {
            Some(task) => {
                self.running.push_back(task);
            },
            None => {},
        }
        assert(self.waiting@ =~= old(self).waiting@.remove(id));
    }
}

/// Queues a new task at the back of the ready queue.
pub fn spawn<T>(rt: &mut Runtime<T>, task: T)
    requires
        old(rt)@.wf(),
    ensures
        final(rt)@ == old(rt)@.spawned(task),
        final(rt)@.wf(),
{
    rt.running.push_back(task);
}

/// One step of the per-frame update.
///
/// `polled` is the result of the poll in progress, if one is: the task and
/// whether it is still pending.  The runtime settles that task, then takes
/// the front task of the ready queue out for the next poll and returns it
/// with its poll id.  `None` means that no task is ready and the frame's
/// update is over.
pub fn runtime_update<T>(rt: &mut Runtime<T>, polled: Option<(T, bool)>) -> (next: Option<(usize, T)>)
    requires
        old(rt)@.wf(),
        polled is Some <==> old(rt)@.polling is Some,
        old(rt)@.ready.len() > 0 ==> old(rt)@.next_id < usize::MAX,
    ensures
        final(rt)@ == old(rt)@.after_report(polled).started(),
        next == old(rt)@.after_report(polled).handed_out(),
        final(rt)@.wf(),
{
    match polled {
        Some((task, pending)) => {
            let id = match rt.polling {
                Some(id) => id,
                None => 0,
            };
            let woken = rt.woken;
            rt.woken = false;
            rt.polling = None;
            if pending && !woken {
                rt.waiting.insert(id, task);
            }
        },
        None => {},
    }
    let mid = Ghost(rt@);
    assert(mid@ == old(rt)@.after_report(polled));
    match rt.running.pop_front() {
        Some(task) => {
            let id = rt.next_id;
            rt.next_id = rt.next_id + 1;
            rt.polling = Some(id);
            rt.woken = false;
            assert(rt.running@ =~= mid@.ready.drop_first());
            Some((id, task))
        },
        None => None,
    }
}

} // verus!
