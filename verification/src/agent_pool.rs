//! The dispatcher: it owns a fixed crew of workers, routes each submitted
//! task to an idle worker or hands it straight back, broadcasts the stop
//! signal, and accounts for every piece of in-flight work so that it knows
//! exactly when the pool is drained.
//!
//! The scheduling state is the readiness and liveness of every worker slot,
//! the active counter, and whether a stop has been issued. The accounting
//! invariant — the active counter always equals the number of busy workers
//! plus the number of stop acknowledgements still owed — is part of
//! [`AgentPool::inv`], which every operation preserves.
//!
//! As with the worker, the unbounded drive loop cannot itself be a verified
//! function, so [`AgentPool::run`] performs one iteration of it — drain one
//! result, take one input, or, once no worker is tracked any more, emit the
//! pool's own exit notification — and the owning execution unit repeats it
//! until it yields `Ok(false)` or a fault.

use std::sync::mpsc::{Receiver, Sender};
use vstd::prelude::*;

use crate::channel::{
    channel_recv, channel_send, channel_try_recv, clone_sender, new_channel, Polled,
};
use crate::count::{
    count_true, lemma_count_true_at, lemma_count_true_bounds, lemma_count_true_take_all,
    lemma_count_true_take_step, lemma_count_true_uniform, lemma_count_true_update,
};
use crate::message::{exit_count, forwards_only, Event, Fault, Message, Task};
use crate::names::{lemma_worker_label_injective, worker_label, worker_name};
use crate::worker::Worker;

verus! {

broadcast use {
    crate::count::lemma_prefix_push,
    crate::count::lemma_prefix_refl,
    crate::message::lemma_exit_count_push,
    crate::message::lemma_forwards_only_push,
    crate::message::lemma_forwards_only_refl,
};

/// Which slots hold a busy worker: one that is tracked and not idle.
pub open spec fn busy_seq(live: Seq<bool>, ready: Seq<bool>) -> Seq<bool> {
    Seq::new(live.len(), |i: int| live[i] && !ready[i])
}

/// The worker slots, their names, and the pool's own name are the same in
/// `pre` and `post`.
pub open spec fn same_crew<Obj: Task>(pre: AgentPool<Obj>, post: AgentPool<Obj>) -> bool {
    &&& post.id() == pre.id()
    &&& post.worker_count() == pre.worker_count()
    &&& forall|i: int| 0 <= i < pre.worker_count() ==> post.name_of(i) == pre.name_of(i)
}

/// `post_routed` extends `pre`'s routing log with exactly one `Stop` per
/// tracked worker, and with nothing else.
pub open spec fn stop_broadcast<Obj: Task>(
    pre: AgentPool<Obj>,
    post_routed: Seq<(int, Event<Obj>)>,
) -> bool {
    let base = pre.routed().len() as int;
    &&& post_routed.len() == base + pre.live()
    &&& (forall|k: int| 0 <= k < base ==> post_routed[k] == pre.routed()[k])
    &&& (forall|k: int|
        base <= k < post_routed.len() ==> ((#[trigger] post_routed[k]).1 is Stop) && 0
            <= post_routed[k].0 < pre.worker_count() && pre.is_live(post_routed[k].0))
    &&& (forall|k1: int, k2: int|
        base <= k1 < k2 < post_routed.len() ==> (#[trigger] post_routed[k1]).0 != (
        #[trigger] post_routed[k2]).0)
    &&& (forall|i: int|
        0 <= i < pre.worker_count() && #[trigger] pre.is_live(i) ==> exists|k: int|
            base <= k < post_routed.len() && (#[trigger] post_routed[k]).0 == i)
}

/// Some slot took the task `t` as [`routed_submit`] describes.
pub open spec fn some_slot_took<Obj: Task>(
    pre: AgentPool<Obj>,
    post: AgentPool<Obj>,
    t: Obj,
) -> bool {
    exists|i: int| routed_submit(pre, post, i, t)
}

/// Slot `i` — tracked and idle before — took the task `t`: it is now marked
/// busy, exactly `Submit(t)` went to its gate, nothing was emitted, and the
/// active counter went up by one.
pub open spec fn routed_submit<Obj: Task>(
    pre: AgentPool<Obj>,
    post: AgentPool<Obj>,
    i: int,
    t: Obj,
) -> bool {
    &&& 0 <= i < pre.worker_count()
    &&& pre.is_live(i)
    &&& pre.is_ready(i)
    &&& !post.is_ready(i)
    &&& (forall|j: int|
        0 <= j < pre.worker_count() && j != i ==> post.is_ready(j) == pre.is_ready(j))
    &&& (forall|j: int| 0 <= j < pre.worker_count() ==> post.is_live(j) == pre.is_live(j))
    &&& post.routed() == pre.routed().push((i, Event::Submit(t)))
    &&& post.emitted() == pre.emitted()
    &&& post.active() == pre.active() + 1
    &&& post.live() == pre.live()
    &&& !post.stopping()
}

/// Slot `i` — tracked, busy, named `w` — completed a task: it is idle
/// again, the active counter went down by one, and the `Done` was forwarded
/// unchanged to the output.
pub open spec fn completed_done<Obj: Task>(
    pre: AgentPool<Obj>,
    post: AgentPool<Obj>,
    i: int,
    w: Seq<char>,
    t: Obj,
) -> bool {
    &&& 0 <= i < pre.worker_count()
    &&& pre.name_of(i) == w
    &&& pre.is_live(i)
    &&& !pre.is_ready(i)
    &&& post.is_ready(i)
    &&& (forall|j: int|
        0 <= j < pre.worker_count() && j != i ==> post.is_ready(j) == pre.is_ready(j))
    &&& (forall|j: int| 0 <= j < pre.worker_count() ==> post.is_live(j) == pre.is_live(j))
    &&& post.active() == pre.active() - 1
    &&& post.live() == pre.live()
    &&& post.emitted() == pre.emitted().push(Event::Done(w, t))
    &&& post.routed() == pre.routed()
    &&& post.stopping() == pre.stopping()
}

/// Some slot completed as [`completed_done`] describes.
pub open spec fn some_slot_done<Obj: Task>(
    pre: AgentPool<Obj>,
    post: AgentPool<Obj>,
    w: Seq<char>,
    t: Obj,
) -> bool {
    exists|i: int| completed_done(pre, post, i, w, t)
}

/// Slot `i` — tracked, idle, named `w`, after a stop — acknowledged the
/// stop: it is removed from tracking, and the active counter went down by
/// one. Nothing is forwarded for it: the pool emits its own single `Exited`
/// only once every worker is gone.
pub open spec fn removed_worker<Obj: Task>(
    pre: AgentPool<Obj>,
    post: AgentPool<Obj>,
    i: int,
    w: Seq<char>,
) -> bool {
    &&& 0 <= i < pre.worker_count()
    &&& pre.name_of(i) == w
    &&& pre.is_live(i)
    &&& pre.is_ready(i)
    &&& pre.stopping()
    &&& !post.is_live(i)
    &&& (forall|j: int|
        0 <= j < pre.worker_count() && j != i ==> post.is_live(j) == pre.is_live(j))
    &&& (forall|j: int| 0 <= j < pre.worker_count() ==> post.is_ready(j) == pre.is_ready(j))
    &&& post.active() == pre.active() - 1
    &&& post.live() == pre.live() - 1
    &&& post.emitted() == pre.emitted()
    &&& post.routed() == pre.routed()
    &&& post.stopping()
}

/// Some slot was removed as [`removed_worker`] describes.
pub open spec fn some_slot_removed<Obj: Task>(
    pre: AgentPool<Obj>,
    post: AgentPool<Obj>,
    w: Seq<char>,
) -> bool {
    exists|i: int| removed_worker(pre, post, i, w)
}

proof fn lemma_forwards_only_trans<Obj>(a: Seq<Event<Obj>>, b: Seq<Event<Obj>>, c: Seq<
    Event<Obj>,
>)
    requires
        forwards_only(a, b),
        forwards_only(b, c),
    ensures
        forwards_only(a, c),
{
    assert forall|k: int| 0 <= k < b.len() implies b[k] == c[k] by {
        assert(b[k] == c.subrange(0, b.len() as int)[k]);
    }
    assert(a =~= c.subrange(0, a.len() as int));
}

/// The dispatcher. It owns its own inbound channel (whose sending side
/// [`AgentPool::gate`] hands out), the shared results channel its workers
/// report into, and one gate per worker; `output` is where completions and
/// the pool's own exit notification go.
#[verifier::reject_recursive_types(Obj)]
pub struct AgentPool<Obj: Task> {
    name: String,
    gate: Sender<Message<Obj>>,
    input: Receiver<Message<Obj>>,
    output: Sender<Message<Obj>>,
    agent_gate: Vec<Sender<Message<Obj>>>,
    agent_name: Vec<String>,
    agent_ready: Vec<bool>,
    agent_live: Vec<bool>,
    agent_result: Receiver<Message<Obj>>,
    live_count: usize,
    active: usize,
    wait_quit: bool,
    finished: bool,
    routed: Ghost<Seq<(int, Event<Obj>)>>,
    emitted: Ghost<Seq<Event<Obj>>>,
}

impl<Obj: Task> AgentPool<Obj> {
    /// The pool's own name, carried by its final `Exited`.
    pub closed spec fn id(&self) -> Seq<char> {
        self.name@
    }

    /// How many worker slots the pool was built with (exited workers keep
    /// their slot, marked no longer live).
    pub closed spec fn worker_count(&self) -> int {
        self.agent_name@.len() as int
    }

    /// The name of the worker in slot `i`.
    pub closed spec fn name_of(&self, i: int) -> Seq<char> {
        self.agent_name@[i]@
    }

    /// Whether slot `i` still holds a tracked worker (no `Exited` processed
    /// for it yet).
    pub closed spec fn is_live(&self, i: int) -> bool {
        self.agent_live@[i]
    }

    /// Whether the worker in slot `i` is marked idle.
    pub closed spec fn is_ready(&self, i: int) -> bool {
        self.agent_ready@[i]
    }

    /// The active counter: outstanding dispatched tasks plus stop
    /// acknowledgements not yet received.
    pub closed spec fn active(&self) -> int {
        self.active as int
    }

    /// How many workers are still tracked.
    pub closed spec fn live(&self) -> int {
        count_true(self.agent_live@)
    }

    /// Whether the stop signal has been issued.
    pub closed spec fn stopping(&self) -> bool {
        self.wait_quit
    }

    /// Whether the pool has emitted its own exit notification — the single
    /// one of its whole life — and is done.
    pub closed spec fn is_finished(&self) -> bool {
        self.finished
    }

    /// How many workers are currently busy (tracked and not idle).
    pub closed spec fn busy_workers(&self) -> int {
        count_true(busy_seq(self.agent_live@, self.agent_ready@))
    }

    /// How many stop acknowledgements are still owed: after the stop
    /// broadcast, one per tracked worker.
    pub closed spec fn pending_acks(&self) -> int {
        if self.wait_quit {
            self.live()
        } else {
            0
        }
    }

    /// Everything ever sent to a worker gate: the slot it went to and the
    /// message, in sending order.
    pub closed spec fn routed(&self) -> Seq<(int, Event<Obj>)> {
        self.routed@
    }

    /// Everything ever delivered to the pool's output channel, in order.
    pub closed spec fn emitted(&self) -> Seq<Event<Obj>> {
        self.emitted@
    }

    /// The exactly-once accounting of in-flight work: the active counter is
    /// never negative, and always equals the number of workers currently
    /// not idle plus the number of stop acknowledgements not yet received.
    pub open spec fn accounting_ok(&self) -> bool {
        self.active() == self.busy_workers() + self.pending_acks()
    }

    /// Some tracked worker is idle.
    pub open spec fn has_idle(&self) -> bool {
        exists|i: int| 0 <= i < self.worker_count() && self.is_live(i) && self.is_ready(i)
    }

    /// A `Done` from a worker named `w` is in order: some tracked slot
    /// carries that name and is marked busy. By the readiness invariant a
    /// worker is busy exactly from dispatch until its `Done` is processed,
    /// so anything else on the results channel is a protocol violation.
    pub open spec fn expects_done(&self, w: Seq<char>) -> bool {
        exists|i: int|
            0 <= i < self.worker_count() && self.name_of(i) == w && self.is_live(i)
                && !self.is_ready(i)
    }

    /// An `Exited` from a worker named `w` is in order: a stop has been
    /// issued, and some tracked slot carries that name and is idle (a
    /// worker honours `Stop` only after finishing its task, and its `Done`
    /// arrives before its `Exited`).
    pub open spec fn expects_exited(&self, w: Seq<char>) -> bool {
        &&& self.stopping()
        &&& exists|i: int|
            0 <= i < self.worker_count() && self.name_of(i) == w && self.is_live(i)
                && self.is_ready(i)
    }

    /// The dispatcher's invariant: the tracking tables are parallel, worker
    /// names are unique, the cached live count is right, and the active
    /// counter obeys [`AgentPool::accounting_ok`].
    pub closed spec fn inv(&self) -> bool {
        let n = self.agent_name@.len();
        &&& self.agent_gate@.len() == n
        &&& self.agent_ready@.len() == n
        &&& self.agent_live@.len() == n
        &&& n <= usize::MAX / 2
        &&& forall|i: int, j: int|
            0 <= i < j < n ==> self.agent_name@[i]@ != self.agent_name@[j]@
        &&& self.live_count == count_true(self.agent_live@)
        &&& self.accounting_ok()
        &&& exit_count(self.emitted@) == if self.finished {
            1int
        } else {
            0int
        }
    }

    /// Constructs the pool: `agents` workers named `Worker_1` up to
    /// `Worker_<agents>`, each with its own gate, all idle and tracked, an
    /// active counter of zero and no stop issued. The workers are returned
    /// beside the pool so that the caller can hand each to its own
    /// execution unit; their completions flow to the pool's results
    /// channel, and `results` is the pool's output.
    pub fn new(name: String, agents: usize, results: Sender<Message<Obj>>) -> (r: (
        AgentPool<Obj>,
        Vec<Worker<Obj>>,
    ))
        requires
            agents <= usize::MAX / 2,
        ensures
            r.0.inv(),
            r.0.id() == name@,
            r.0.worker_count() == agents,
            r.0.active() == 0,
            !r.0.stopping(),
            !r.0.is_finished(),
            r.0.live() == agents,
            r.0.routed() == Seq::<(int, Event<Obj>)>::empty(),
            r.0.emitted() == Seq::<Event<Obj>>::empty(),
            forall|i: int|
                0 <= i < agents ==> r.0.name_of(i) == worker_label((i + 1) as nat)
                    && r.0.is_live(i) && r.0.is_ready(i),
            r.1@.len() == agents,
            forall|i: int|
                0 <= i < agents ==> (#[trigger] r.1@[i]).id() == worker_label((i + 1) as nat)
                    && r.1@[i].received() == Seq::<Event<Obj>>::empty() && r.1@[i].emitted()
                    == Seq::<Event<Obj>>::empty() && r.1@[i].running() && r.1@[i].wf(),
    {
        let (gate, input) = new_channel();
        let (agent_tx, agent_result) = new_channel::<Message<Obj>>();
        let mut workers: Vec<Worker<Obj>> = Vec::new();
        let mut agent_gate: Vec<Sender<Message<Obj>>> = Vec::new();
        let mut agent_name: Vec<String> = Vec::new();
        let mut agent_ready: Vec<bool> = Vec::new();
        let mut agent_live: Vec<bool> = Vec::new();
        let mut idx: usize = 0;
        while idx < agents
            invariant
                idx <= agents,
                agents <= usize::MAX / 2,
                workers@.len() == idx,
                agent_gate@.len() == idx,
                agent_name@.len() == idx,
                agent_ready@.len() == idx,
                agent_live@.len() == idx,
                forall|i: int|
                    0 <= i < idx ==> agent_name@[i]@ == worker_label((i + 1) as nat),
                forall|i: int| 0 <= i < idx ==> agent_ready@[i] && agent_live@[i],
                forall|i: int|
                    0 <= i < idx ==> (#[trigger] workers@[i]).id() == worker_label(
                        (i + 1) as nat,
                    ) && workers@[i].received() == Seq::<Event<Obj>>::empty()
                        && workers@[i].emitted() == Seq::<Event<Obj>>::empty()
                        && workers@[i].running() && workers@[i].wf(),
            decreases agents - idx,
        {
            let wname = worker_name(idx + 1);
            let w = Worker::new(wname.clone(), clone_sender(&agent_tx));
            agent_gate.push(w.gate());
            agent_name.push(wname);
            agent_ready.push(true);
            agent_live.push(true);
            workers.push(w);
            idx += 1;
        }
        let pool = AgentPool {
            name,
            gate,
            input,
            output: results,
            agent_gate,
            agent_name,
            agent_ready,
            agent_live,
            agent_result,
            live_count: agents,
            active: 0,
            wait_quit: false,
            finished: false,
            routed: Ghost(Seq::empty()),
            emitted: Ghost(Seq::empty()),
        };
        proof {
            assert forall|i: int, j: int| 0 <= i < j < agents implies pool.agent_name@[i]@
                != pool.agent_name@[j]@ by {
                if pool.agent_name@[i]@ == pool.agent_name@[j]@ {
                    lemma_worker_label_injective((i + 1) as nat, (j + 1) as nat);
                }
            }
            lemma_count_true_uniform(pool.agent_live@);
            lemma_count_true_uniform(busy_seq(pool.agent_live@, pool.agent_ready@));
        }
        (pool, workers)
    }

    /// A cloneable handle to the dispatcher's own inbound channel, usable
    /// by any number of callers.
    pub fn gate(&self) -> Sender<Message<Obj>> {
        clone_sender(&self.gate)
    }

    /// The pool is empty when nothing is in flight and no stop has been
    /// issued: the input read may then block, since only new input can
    /// change anything.
    pub fn is_pool_empty(&self) -> (b: bool)
        ensures
            b == (self.active() == 0 && !self.stopping()),
    {
        self.active == 0 && !self.wait_quit
    }

    /// The pool is full when the active counter has reached the number of
    /// tracked workers: the results read may then block, since no new task
    /// could be routed anyway.
    pub fn is_pool_full(&self) -> (b: bool)
        requires
            self.inv(),
        ensures
            b == (self.active() >= self.live()),
    {
        self.active >= self.live_count
    }

    /// The active counter is never negative, and always equals the number
    /// of workers currently not idle plus the number of stop
    /// acknowledgements not yet received. This holds in every state the
    /// pool can reach: the constructor establishes [`AgentPool::inv`] and
    /// every operation that returns `Ok` preserves it.
    pub proof fn lemma_active_accounting(&self)
        requires
            self.inv(),
        ensures
            self.active() >= 0,
            self.active() == self.busy_workers() + self.pending_acks(),
    {
    }

    /// The active counter reaches zero exactly when the pool has no
    /// outstanding work and no pending worker exits; and once no worker is
    /// tracked any more, nothing can be outstanding — it is safe for the
    /// pool to report full completion.
    pub proof fn lemma_active_zero_meaning(&self)
        requires
            self.inv(),
        ensures
            self.active() == 0 <==> self.busy_workers() == 0 && self.pending_acks() == 0,
            self.live() == 0 ==> self.active() == 0,
    {
        lemma_count_true_bounds(busy_seq(self.agent_live@, self.agent_ready@));
        lemma_count_true_bounds(self.agent_live@);
        if self.live() == 0 {
            assert forall|i: int| 0 <= i < self.agent_live@.len() implies !busy_seq(
                self.agent_live@,
                self.agent_ready@,
            )[i] by {
                if self.agent_live@[i] {
                    lemma_count_true_at(self.agent_live@, i);
                }
            }
            lemma_count_true_uniform(busy_seq(self.agent_live@, self.agent_ready@));
        }
    }

    /// With spare capacity — fewer active pieces of work than tracked
    /// workers, before any stop — some tracked worker is idle, so a
    /// submission is routed rather than returned to the caller.
    pub proof fn lemma_spare_capacity_has_idle(&self)
        requires
            self.inv(),
            !self.stopping(),
            self.active() < self.live(),
        ensures
            self.has_idle(),
    {
        if !self.has_idle() {
            assert forall|i: int|
                0 <= i < self.agent_live@.len() implies busy_seq(
                self.agent_live@,
                self.agent_ready@,
            )[i] == self.agent_live@[i] by {
                if self.is_live(i) && self.is_ready(i) {
                    assert(self.has_idle());
                }
            }
            assert(busy_seq(self.agent_live@, self.agent_ready@) =~= self.agent_live@);
        }
    }

    /// Broadcasts `Stop` to every tracked worker's gate, counting each stop
    /// sent as one more piece of in-flight work. The stop is recorded
    /// before anything is sent, so even a broadcast cut short by a dead
    /// gate refuses every later submission.
    fn broadcast_stop(&mut self) -> (r: Result<(), Fault>)
        requires
            old(self).inv(),
            !old(self).stopping(),
        ensures
            same_crew(*old(self), *final(self)),
            final(self).is_finished() == old(self).is_finished(),
            final(self).stopping(),
            final(self).emitted() == old(self).emitted(),
            old(self).routed().is_prefix_of(final(self).routed()),
            final(self).live() == old(self).live(),
            forall|j: int|
                0 <= j < old(self).worker_count() ==> final(self).is_live(j) == old(
                    self,
                ).is_live(j) && final(self).is_ready(j) == old(self).is_ready(j),
            r is Ok ==> final(self).inv() && final(self).active() == old(self).active()
                + old(self).live() && stop_broadcast(*old(self), final(self).routed()),
            r is Err ==> r matches Err(Fault::ChannelClosed),
    {
        self.wait_quit = true;
        let n = self.agent_gate.len();
        let mut i: usize = 0;
        while i < n
            invariant
                i <= n,
                old(self).inv(),
                !old(self).wait_quit,
                n == old(self).agent_gate@.len(),
                self.name == old(self).name,
                self.agent_gate == old(self).agent_gate,
                self.agent_name == old(self).agent_name,
                self.agent_ready == old(self).agent_ready,
                self.agent_live == old(self).agent_live,
                self.live_count == old(self).live_count,
                self.emitted@ == old(self).emitted@,
                self.finished == old(self).finished,
                self.wait_quit,
                self.active as int == old(self).active as int + count_true(
                    old(self).agent_live@.take(i as int),
                ),
                self.routed@.len() == old(self).routed@.len() + count_true(
                    old(self).agent_live@.take(i as int),
                ),
                forall|k: int|
                    0 <= k < old(self).routed@.len() ==> self.routed@[k] == old(
                        self,
                    ).routed@[k],
                forall|k: int|
                    old(self).routed@.len() <= k < self.routed@.len() ==> ((
                    #[trigger] self.routed@[k]).1 is Stop) && 0 <= self.routed@[k].0 < i
                        && old(self).agent_live@[self.routed@[k].0],
                forall|k1: int, k2: int|
                    old(self).routed@.len() <= k1 < k2 < self.routed@.len() ==> (
                    #[trigger] self.routed@[k1]).0 < (#[trigger] self.routed@[k2]).0,
                forall|j: int|
                    0 <= j < i && #[trigger] old(self).agent_live@[j] ==> exists|k: int|
                        old(self).routed@.len() <= k < self.routed@.len() && (
                        #[trigger] self.routed@[k]).0 == j,
            decreases n - i,
        {
            proof {
                lemma_count_true_take_step(old(self).agent_live@, i as int);
                lemma_count_true_bounds(old(self).agent_live@.take(i as int));
                lemma_count_true_bounds(busy_seq(old(self).agent_live@, old(self).agent_ready@));
            }
            if self.agent_live[i] {
                match channel_send(&self.agent_gate[i], Message::Stop) {
                    Ok(()) => {
                        let ghost prev = self.routed@;
                        self.routed = Ghost(self.routed@.push((i as int, Event::Stop)));
                        self.active = self.active + 1;
                        proof {
                            assert forall|j: int|
                                0 <= j < i + 1 && #[trigger] old(self).agent_live@[j] implies exists|
                                k: int,
                            |
                                old(self).routed@.len() <= k < self.routed@.len() && (
                                #[trigger] self.routed@[k]).0 == j by {
                                if j == i {
                                    assert((self.routed@[prev.len() as int]).0 == j);
                                } else {
                                    let k0 = choose|k: int|
                                        old(self).routed@.len() <= k < prev.len() && (
                                        #[trigger] prev[k]).0 == j;
                                    assert(self.routed@[k0] == prev[k0]);
                                    assert((self.routed@[k0]).0 == j);
                                }
                            }
                        }
                    },
                    Err(_) => {
                        proof {
                            assert(old(self).routed@ =~= self.routed@.subrange(
                                0,
                                old(self).routed@.len() as int,
                            ));
                        }
                        return Err(Fault::ChannelClosed);
                    },
                }
            }
            i += 1;
        }
        proof {
            lemma_count_true_take_all(old(self).agent_live@);
            lemma_count_true_bounds(old(self).agent_live@);
            assert(stop_broadcast(*old(self), self.routed@));
            assert(old(self).routed@ =~= self.routed@.subrange(
                0,
                old(self).routed@.len() as int,
            ));
        }
        Ok(())
    }

    /// Handles one message from the dispatcher's own inbound channel.
    ///
    /// `Submit(t)` before any stop: if some tracked worker is idle, one such
    /// worker is marked busy and `Submit(t)` goes to its gate; otherwise the
    /// task is never buffered nor dropped — `Resend(t)`, carrying the
    /// identical task, goes straight to the output. `Stop` before any stop:
    /// every tracked worker's gate receives `Stop` exactly once, the active
    /// counter grows by one per stop sent, and the stop is recorded. Any
    /// message once a stop has been issued, and any shape other than these
    /// two, is a protocol fault that changes nothing. `ChannelClosed` can
    /// arise only from a closed worker gate or output; nothing was emitted
    /// then, and an interrupted broadcast still leaves the stop recorded, so
    /// no later submission can be routed.
    #[verifier::rlimit(60)]
    pub fn handle_input(&mut self, msg: Message<Obj>) -> (r: Result<(), Fault>)
        requires
            old(self).inv(),
        ensures
            same_crew(*old(self), *final(self)),
            final(self).is_finished() == old(self).is_finished(),
            old(self).stopping() ==> final(self).stopping(),
            r is Ok ==> final(self).inv(),
            r is Err ==> final(self).emitted() == old(self).emitted(),
            old(self).routed().is_prefix_of(final(self).routed()),
            forwards_only(old(self).emitted(), final(self).emitted()),
            old(self).stopping() ==> r matches Err(Fault::UnexpectedMessage),
            r matches Err(Fault::UnexpectedMessage) ==> *final(self) == *old(self),
            !old(self).stopping() && !(msg@ is Stop) && !(msg@ is Submit) ==> r matches Err(
                Fault::UnexpectedMessage,
            ),
            !old(self).stopping() && (msg@ is Submit || msg@ is Stop) ==> !(r matches Err(
                Fault::UnexpectedMessage,
            )),
            !old(self).stopping() && (msg@ is Stop) ==> final(self).stopping(),
            !old(self).stopping() && (msg@ is Submit) && old(self).active() < old(self).live() ==> old(self).has_idle(),
            !old(self).stopping() && r is Ok ==> (msg@ is Stop || msg@ is Submit),
            !old(self).stopping() && r is Ok && (msg@ is Stop) ==> ({
                &&& final(self).stopping()
                &&& final(self).active() == old(self).active() + old(self).live()
                &&& final(self).live() == old(self).live()
                &&& (forall|j: int|
                    0 <= j < old(self).worker_count() ==> final(self).is_live(j) == old(
                        self,
                    ).is_live(j) && final(self).is_ready(j) == old(self).is_ready(j))
                &&& final(self).emitted() == old(self).emitted()
                &&& stop_broadcast(*old(self), final(self).routed())
            }),
            msg@ matches Event::Submit(t) ==> (!old(self).stopping() && r is Ok && old(
                self,
            ).has_idle() ==> some_slot_took(*old(self), *final(self), t)),
            !old(self).stopping() && r is Ok && !old(self).has_idle() ==> ({
                match msg@ {
                    Event::Submit(t) => {
                        &&& final(self).routed() == old(self).routed()
                        &&& final(self).emitted() == old(self).emitted().push(
                            Event::Resend(t),
                        )
                        &&& final(self).active() == old(self).active()
                        &&& !final(self).stopping()
                        &&& final(self).live() == old(self).live()
                        &&& (forall|j: int|
                            0 <= j < old(self).worker_count() ==> final(self).is_live(j)
                                == old(self).is_live(j) && final(self).is_ready(j) == old(
                                self,
                            ).is_ready(j))
                    },
                    _ => true,
                }
            }),
    {
        proof {
            if !old(self).stopping() && old(self).active() < old(self).live() {
                old(self).lemma_spare_capacity_has_idle();
            }
        }
        if self.wait_quit {
            return Err(Fault::UnexpectedMessage);
        }
        match msg {
            Message::Stop => self.broadcast_stop(),
            Message::Submit(task) => {
                let ghost t = task;
                match self.get_ready_agent() {
                    Some(i) => {
                        proof {
                            assert(old(self).is_live(i as int) && old(self).is_ready(i as int));
                            assert(old(self).has_idle());
                        }
                        self.agent_ready[i] = false;
                        match channel_send(&self.agent_gate[i], Message::Submit(task)) {
                            Ok(()) => {
                                self.routed = Ghost(
                                    self.routed@.push((i as int, Event::Submit(t))),
                                );
                                proof {
                                    let ob = busy_seq(
                                        old(self).agent_live@,
                                        old(self).agent_ready@,
                                    );
                                    lemma_count_true_bounds(ob);
                                    assert(busy_seq(self.agent_live@, self.agent_ready@)
                                        =~= ob.update(i as int, true));
                                    lemma_count_true_update(ob, i as int, true);
                                }
                                self.active = self.active + 1;
                                proof {
                                    assert(routed_submit(*old(self), *final(self), i as int, t));
                                    assert(msg@ == Event::Submit(t));
                                    assert(some_slot_took(*old(self), *final(self), t));
                                }
                                Ok(())
                            },
                            Err(_) => Err(Fault::ChannelClosed),
                        }
                    },
                    None => {
                        match channel_send(&self.output, Message::Resend(task)) {
                            Ok(()) => {
                                self.emitted = Ghost(self.emitted@.push(Event::Resend(t)));
                                Ok(())
                            },
                            Err(_) => Err(Fault::ChannelClosed),
                        }
                    },
                }
            },
            _ => Err(Fault::UnexpectedMessage),
        }
    }

    /// Handles one message from the workers' shared results channel.
    ///
    /// `Done(w, t)` while the slot named `w` is tracked and busy: that
    /// worker is idle again, the active counter goes down by one, and the
    /// `Done` is forwarded unchanged to the output. `Exited(w)` after a
    /// stop, while the slot named `w` is tracked and idle: the worker is
    /// removed from tracking — atomically from every table — and the
    /// active counter goes down by one; nothing is forwarded, since the
    /// pool emits its own single `Exited` only once every worker is gone.
    /// Anything else on this channel is a protocol violation that changes
    /// nothing. Nothing is ever routed to a worker from here.
    #[verifier::rlimit(60)]
    pub fn handle_results(&mut self, msg: Message<Obj>) -> (r: Result<(), Fault>)
        requires
            old(self).inv(),
        ensures
            same_crew(*old(self), *final(self)),
            final(self).is_finished() == old(self).is_finished(),
            final(self).stopping() == old(self).stopping(),
            final(self).routed() == old(self).routed(),
            r is Ok ==> final(self).inv(),
            r is Err ==> final(self).emitted() == old(self).emitted(),
            forwards_only(old(self).emitted(), final(self).emitted()),
            r matches Err(Fault::UnexpectedMessage) ==> *final(self) == *old(self),
            !(msg@ is Done) && !(msg@ is Exited) ==> r matches Err(Fault::UnexpectedMessage),
            msg@ matches Event::Done(w, t) ==> (old(self).expects_done(w) <==> !(r matches Err(
                Fault::UnexpectedMessage,
            ))),
            msg@ matches Event::Done(w, t) ==> (r is Ok ==> some_slot_done(
                *old(self),
                *final(self),
                w,
                t,
            )),
            msg@ matches Event::Exited(w) ==> (r is Ok <==> old(self).expects_exited(w)),
            msg@ matches Event::Exited(w) ==> (r is Ok ==> some_slot_removed(
                *old(self),
                *final(self),
                w,
            )),
            msg@ is Exited ==> (r is Err ==> r matches Err(Fault::UnexpectedMessage)),
    {
        match msg {
            Message::Done(wname, task) => {
                let ghost w = wname@;
                let ghost t = task;
                match self.find_live(&wname) {
                    Some(i) => {
                        if self.agent_ready[i] {
                            // a completion from a worker marked idle breaks
                            // the readiness invariant
                            proof {
                                if old(self).expects_done(w) {
                                    let j = choose|j: int|
                                        0 <= j < old(self).worker_count() && old(
                                            self,
                                        ).name_of(j) == w && old(self).is_live(j) && !old(
                                            self,
                                        ).is_ready(j);
                                    assert(j == i as int);
                                    assert(false);
                                }
                            }
                            Err(Fault::UnexpectedMessage)
                        } else {
                            proof {
                                assert(old(self).expects_done(w));
                            }
                            self.agent_ready[i] = true;
                            match channel_send(&self.output, Message::Done(wname, task)) {
                                Ok(()) => {
                                    self.emitted = Ghost(self.emitted@.push(Event::Done(w, t)));
                                    proof {
                                        let ob = busy_seq(
                                            old(self).agent_live@,
                                            old(self).agent_ready@,
                                        );
                                        lemma_count_true_at(ob, i as int);
                                        lemma_count_true_bounds(old(self).agent_live@);
                                        assert(busy_seq(self.agent_live@, self.agent_ready@)
                                            =~= ob.update(i as int, false));
                                        lemma_count_true_update(ob, i as int, false);
                                    }
                                    self.active = self.active - 1;
                                    proof {
                                        assert(completed_done(
                                            *old(self),
                                            *final(self),
                                            i as int,
                                            w,
                                            t,
                                        ));
                                        assert(some_slot_done(*old(self), *final(self), w, t));
                                    }
                                    Ok(())
                                },
                                Err(_) => Err(Fault::ChannelClosed),
                            }
                        }
                    },
                    None => {
                        proof {
                            if old(self).expects_done(w) {
                                let j = choose|j: int|
                                    0 <= j < old(self).worker_count() && old(self).name_of(j)
                                        == w && old(self).is_live(j) && !old(self).is_ready(j);
                                assert(false);
                            }
                        }
                        Err(Fault::UnexpectedMessage)
                    },
                }
            },
            Message::Exited(wname) => {
                let ghost w = wname@;
                if !self.wait_quit {
                    return Err(Fault::UnexpectedMessage);
                }
                match self.find_live(&wname) {
                    Some(i) => {
                        if !self.agent_ready[i] {
                            // a worker that still owes a completion cannot
                            // have exited gracefully
                            proof {
                                if old(self).expects_exited(w) {
                                    let j = choose|j: int|
                                        0 <= j < old(self).worker_count() && old(
                                            self,
                                        ).name_of(j) == w && old(self).is_live(j) && old(
                                            self,
                                        ).is_ready(j);
                                    assert(j == i as int);
                                    assert(false);
                                }
                            }
                            Err(Fault::UnexpectedMessage)
                        } else {
                            proof {
                                assert(old(self).expects_exited(w));
                                lemma_count_true_at(old(self).agent_live@, i as int);
                                lemma_count_true_bounds(
                                    busy_seq(old(self).agent_live@, old(self).agent_ready@),
                                );
                            }
                            self.agent_live[i] = false;
                            self.live_count = self.live_count - 1;
                            self.active = self.active - 1;
                            proof {
                                let ob = busy_seq(old(self).agent_live@, old(self).agent_ready@);
                                assert(busy_seq(self.agent_live@, self.agent_ready@) =~= ob);
                                lemma_count_true_update(old(self).agent_live@, i as int, false);
                                assert(removed_worker(*old(self), *final(self), i as int, w));
                                assert(some_slot_removed(*old(self), *final(self), w));
                            }
                            Ok(())
                        }
                    },
                    None => {
                        proof {
                            if old(self).expects_exited(w) {
                                let j = choose|j: int|
                                    0 <= j < old(self).worker_count() && old(self).name_of(j)
                                        == w && old(self).is_live(j) && old(self).is_ready(j);
                                assert(false);
                            }
                        }
                        Err(Fault::UnexpectedMessage)
                    },
                }
            },
            _ => Err(Fault::UnexpectedMessage),
        }
    }

    /// Takes one message from the dispatcher's own inbound channel and
    /// handles it as [`AgentPool::handle_input`] says: blocking while the
    /// pool is empty, when only new input can change anything; otherwise a
    /// non-blocking poll, so that results are never starved. An empty poll
    /// changes nothing. A closed input channel while traffic is still
    /// expected is a fatal fault. Once a stop has been issued the input
    /// side neither routes nor emits anything more.
    pub fn process_input(&mut self) -> (r: Result<(), Fault>)
        requires
            old(self).inv(),
        ensures
            same_crew(*old(self), *final(self)),
            final(self).is_finished() == old(self).is_finished(),
            old(self).stopping() ==> final(self).stopping(),
            r is Ok ==> final(self).inv(),
            old(self).routed().is_prefix_of(final(self).routed()),
            forwards_only(old(self).emitted(), final(self).emitted()),
            old(self).stopping() ==> final(self).routed() == old(self).routed()
                && final(self).emitted() == old(self).emitted(),
    {
        if self.is_pool_empty() {
            match channel_recv(&self.input) {
                Some(m) => self.handle_input(m),
                None => Err(Fault::ChannelClosed),
            }
        } else {
            match channel_try_recv(&self.input) {
                Polled::Received(m) => self.handle_input(m),
                Polled::Nothing => Ok(()),
                Polled::Closed => Err(Fault::ChannelClosed),
            }
        }
    }

    /// Takes one message from the workers' shared results channel and
    /// handles it as [`AgentPool::handle_results`] says: blocking while the
    /// pool is full, when no new task could be routed anyway; otherwise a
    /// non-blocking poll. An empty poll changes nothing. A closed results
    /// channel while workers are still tracked is a fatal fault. Nothing is
    /// ever routed to a worker from here.
    pub fn process_results(&mut self) -> (r: Result<(), Fault>)
        requires
            old(self).inv(),
        ensures
            same_crew(*old(self), *final(self)),
            final(self).is_finished() == old(self).is_finished(),
            final(self).stopping() == old(self).stopping(),
            final(self).routed() == old(self).routed(),
            r is Ok ==> final(self).inv(),
            forwards_only(old(self).emitted(), final(self).emitted()),
    {
        if self.is_pool_full() {
            match channel_recv(&self.agent_result) {
                Some(m) => self.handle_results(m),
                None => Err(Fault::ChannelClosed),
            }
        } else {
            match channel_try_recv(&self.agent_result) {
                Polled::Received(m) => self.handle_results(m),
                Polled::Nothing => Ok(()),
                Polled::Closed => Err(Fault::ChannelClosed),
            }
        }
    }

    /// One iteration of the dispatcher's drive loop; the owning execution
    /// unit calls it until it yields `Ok(false)` or a fault.
    ///
    /// While workers remain tracked: first drain one result (blocking while
    /// the pool is full), then take one input (blocking while the pool is
    /// empty) — this order never accepts more work than there is capacity
    /// to route, and blocks rather than spins when there is nothing to do.
    /// Once no worker is tracked any more, the pool emits `Exited(name)`
    /// with its own name — its single exit notification, after which it is
    /// done — and yields `Ok(false)`. Until then the output gains only
    /// forwarded completions and returned tasks, never an exit
    /// notification, and after a stop nothing further is ever routed.
    pub fn run(&mut self) -> (r: Result<bool, Fault>)
        requires
            old(self).inv(),
            !old(self).is_finished(),
        ensures
            same_crew(*old(self), *final(self)),
            r matches Ok(false) ==> final(self).is_finished(),
            r matches Ok(true) ==> !final(self).is_finished(),
            r is Err ==> !final(self).is_finished(),
            old(self).stopping() ==> final(self).stopping(),
            r is Ok ==> final(self).inv(),
            old(self).routed().is_prefix_of(final(self).routed()),
            old(self).stopping() ==> final(self).routed() == old(self).routed(),
            r matches Ok(true) ==> old(self).live() > 0 && forwards_only(
                old(self).emitted(),
                final(self).emitted(),
            ),
            r is Err ==> forwards_only(old(self).emitted(), final(self).emitted()),
            r matches Ok(false) ==> old(self).live() == 0 && final(self).live() == 0
                && final(self).emitted() == old(self).emitted().push(
                Event::Exited(old(self).id()),
            ) && final(self).routed() == old(self).routed() && final(self).active() == old(
                self,
            ).active() && final(self).stopping() == old(self).stopping(),
    {
        if self.live_count == 0 {
            let ex = Message::Exited(self.name.clone());
            let ghost eev = ex@;
            match channel_send(&self.output, ex) {
                Ok(()) => {
                    self.emitted = Ghost(self.emitted@.push(eev));
                    self.finished = true;
                    Ok(false)
                },
                Err(_) => Err(Fault::ChannelClosed),
            }
        } else {
            let ghost e0 = self.emitted@;
            match self.process_results() {
                Ok(()) => {},
                Err(f) => {
                    return Err(f);
                },
            }
            let ghost e1 = self.emitted@;
            match self.process_input() {
                Ok(()) => {},
                Err(f) => {
                    proof {
                        lemma_forwards_only_trans(e0, e1, self.emitted@);
                    }
                    return Err(f);
                },
            }
            proof {
                lemma_forwards_only_trans(e0, e1, self.emitted@);
            }
            Ok(true)
        }
    }

    /// The tracked slot whose worker carries the name `wname`, if any:
    /// worker names are unique within the pool, so there is at most one.
    fn find_live(&self, wname: &String) -> (r: Option<usize>)
        requires
            self.inv(),
        ensures
            r matches Some(i) ==> 0 <= i < self.worker_count() && self.is_live(i as int)
                && self.name_of(i as int) == wname@,
            r is None ==> forall|j: int|
                0 <= j < self.worker_count() && self.is_live(j) ==> self.name_of(j) != wname@,
    {
        let n = self.agent_name.len();
        let mut i: usize = 0;
        while i < n
            invariant
                i <= n,
                n == self.agent_name@.len(),
                self.inv(),
                forall|j: int| 0 <= j < i ==> !(self.is_live(j) && self.name_of(j) == wname@),
            decreases n - i,
        {
            if self.agent_live[i] && self.agent_name[i] == *wname {
                return Some(i);
            }
            i += 1;
        }
        None
    }

    /// Any tracked idle worker, if there is one. Which one is found is not
    /// specified: any idle worker is acceptable.
    fn get_ready_agent(&self) -> (r: Option<usize>)
        requires
            self.inv(),
        ensures
            r matches Some(i) ==> 0 <= i < self.worker_count() && self.is_live(i as int)
                && self.is_ready(i as int),
            r is None ==> !self.has_idle(),
    {
        let n = self.agent_ready.len();
        let mut i: usize = 0;
        while i < n
            invariant
                i <= n,
                n == self.agent_ready@.len(),
                self.inv(),
                forall|j: int| 0 <= j < i ==> !(self.is_live(j) && self.is_ready(j)),
            decreases n - i,
        {
            if self.agent_live[i] && self.agent_ready[i] {
                return Some(i);
            }
            i += 1;
        }
        None
    }
}

} // verus!
