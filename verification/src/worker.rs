//! One worker: a unit that owns a private inbound channel (its gate), runs
//! the tasks handed to it one at a time, and reports every outcome on the
//! shared results channel.
//!
//! The worker's state machine has two states, Running and Stopped. While
//! Running it executes each submitted task synchronously and emits
//! `Done(id, task)`; on `Stop`, or on a closed gate, it leaves Running and
//! emits `Exited(id)` exactly once. Any other message shape is a fatal
//! fault, as is a results channel that can no longer be written: a worker
//! cannot exist without a live output.
//!
//! The unbounded service loop itself cannot be a verified function (it need
//! not terminate), so [`Worker::run`] serves exactly one message and reports
//! whether the worker is still Running; the owning execution unit calls it
//! until it yields `Ok(false)` or a fault.

use std::sync::mpsc::{Receiver, Sender};
use vstd::prelude::*;

use crate::channel::{channel_recv, channel_send, clone_sender, new_channel};
use crate::message::{done_names, exit_count, submit_names, Event, Fault, Message, Task};

verus! {

broadcast use {
    crate::message::lemma_done_names_push,
    crate::message::lemma_exit_count_push,
    crate::message::lemma_submit_names_push,
};

/// A worker, together with the ghost history of the messages it has taken
/// off its gate and of those it has delivered to the results channel.
#[verifier::reject_recursive_types(Obj)]
pub struct Worker<Obj: Task> {
    name: String,
    gate: Sender<Message<Obj>>,
    input: Receiver<Message<Obj>>,
    output: Sender<Message<Obj>>,
    stopped: bool,
    recv_log: Ghost<Seq<Event<Obj>>>,
    emit_log: Ghost<Seq<Event<Obj>>>,
}

impl<Obj: Task> Worker<Obj> {
    /// The worker's identity, stable for its whole lifetime.
    pub closed spec fn id(&self) -> Seq<char> {
        self.name@
    }

    /// Every message the worker has taken off its gate, in order.
    pub closed spec fn received(&self) -> Seq<Event<Obj>> {
        self.recv_log@
    }

    /// Every message the worker has delivered to the results channel, in
    /// order.
    pub closed spec fn emitted(&self) -> Seq<Event<Obj>> {
        self.emit_log@
    }

    /// Whether the worker is still in its Running state. It leaves Running
    /// exactly once, on `Stop` or on a closed gate.
    pub closed spec fn running(&self) -> bool {
        !self.stopped
    }

    /// The worker answers every submission with exactly one completion: at
    /// this point of its life, the names of the tasks it has delivered in
    /// `Done` messages are, in order, exactly the names of the tasks it has
    /// taken in `Submit` messages — none lost, none duplicated. This holds
    /// along every fault-free run; only a results channel that closes
    /// between a submission and its completion can leave the last
    /// submission unanswered, and that fault ends the worker.
    pub open spec fn balanced(&self) -> bool {
        done_names(self.emitted()) == submit_names(self.received())
    }

    /// The worker's exactly-once exit accounting: its output holds no exit
    /// notification while it is Running, and exactly one — `Exited(id)`,
    /// the last thing it delivered — once it has left Running.
    pub open spec fn wf(&self) -> bool {
        &&& exit_count(self.emitted()) == if self.running() {
            0int
        } else {
            1int
        }
        &&& !self.running() ==> self.emitted().len() >= 1 && self.emitted().last()
            == Event::<Obj>::Exited(self.id())
    }

    /// Creates a worker with a fresh private inbound channel; `results` is
    /// the shared channel its completions and its exit notification go to.
    pub fn new(name: String, results: Sender<Message<Obj>>) -> (w: Worker<Obj>)
        ensures
            w.id() == name@,
            w.received() == Seq::<Event<Obj>>::empty(),
            w.emitted() == Seq::<Event<Obj>>::empty(),
            w.running(),
            w.wf(),
            w.balanced(),
    {
        let (tx, rx) = new_channel();
        Worker {
            name,
            gate: tx,
            input: rx,
            output: results,
            stopped: false,
            recv_log: Ghost(Seq::empty()),
            emit_log: Ghost(Seq::empty()),
        }
    }

    /// A cloneable handle to the worker's inbound channel. Every call
    /// returns a handle to the same channel.
    pub fn gate(&self) -> Sender<Message<Obj>> {
        clone_sender(&self.gate)
    }

    /// Serves one message, blocking until one arrives: executes a submitted
    /// task and emits its `Done`, or honours `Stop` (and a closed gate,
    /// which can bring no further message) by emitting `Exited`.
    ///
    /// Returns `Ok(true)` while the worker remains Running, `Ok(false)` once
    /// it has left Running; the owning execution unit calls `run` until then.
    /// The contract carries the worker's share of the pool's guarantees:
    /// every accepted submission is answered by exactly one `Done` naming
    /// this worker and carrying a task with the submitted task's name, and
    /// leaving Running emits `Exited` exactly once, after which `run` is not
    /// called again.
    pub fn run(&mut self) -> (r: Result<bool, Fault>)
        requires
            old(self).wf(),
            old(self).running(),
            old(self).balanced(),
        ensures
            final(self).wf(),
            r matches Ok(true) ==> final(self).running(),
            r matches Ok(false) ==> !final(self).running(),
            r is Err ==> final(self).running(),
            r is Ok ==> final(self).balanced(),
            r matches Err(Fault::UnexpectedMessage) ==> final(self).balanced(),
            final(self).id() == old(self).id(),
            r is Err ==> final(self).emitted() == old(self).emitted(),
            (r matches Ok(true)) ==> (exists|t: Obj, u: Obj|
                {
                    &&& final(self).received() == old(self).received().push(Event::Submit(t))
                    &&& u.spec_name() == t.spec_name()
                    &&& final(self).emitted() == old(self).emitted().push(
                        Event::Done(old(self).id(), u),
                    )
                }),
            (r matches Ok(false)) ==> {
                &&& (final(self).received() == old(self).received() || final(self).received()
                    == old(self).received().push(Event::Stop))
                &&& final(self).emitted() == old(self).emitted().push(
                    Event::Exited(old(self).id()),
                )
            },
            (r matches Err(Fault::UnexpectedMessage)) ==> (exists|m: Event<Obj>|
                final(self).received() == #[trigger] old(self).received().push(m) && !(m
                    is Submit) && !(m is Stop)),
    {
        match channel_recv(&self.input) {
            None => self.leave(),
            Some(msg) => {
                let ghost ev = msg@;
                self.recv_log = Ghost(self.recv_log@.push(ev));
                match msg {
                    Message::Stop => self.leave(),
                    Message::Submit(mut task) => {
                        let ghost submitted = task;
                        task.execute();
                        let ghost ran = task;
                        let done = Message::Done(self.name.clone(), task);
                        let ghost dev = done@;
                        match channel_send(&self.output, done) {
                            Ok(()) => {
                                self.emit_log = Ghost(self.emit_log@.push(dev));
                                proof {
                                    assert(final(self).received() == old(self).received().push(
                                        Event::Submit(submitted),
                                    ));
                                    assert(final(self).emitted() == old(self).emitted().push(
                                        Event::Done(old(self).id(), ran),
                                    ));
                                }
                                Ok(true)
                            },
                            Err(_) => Err(Fault::ChannelClosed),
                        }
                    },
                    _ => {
                        proof {
                            assert(self.recv_log@ == old(self).received().push(ev));
                            assert(!(ev is Submit));
                            assert(!(ev is Stop));
                        }
                        Err(Fault::UnexpectedMessage)
                    },
                }
            },
        }
    }

    /// Leaves Running: delivers `Exited(id)` to the results channel.
    fn leave(&mut self) -> (r: Result<bool, Fault>)
        requires
            old(self).wf(),
            old(self).running(),
        ensures
            final(self).wf(),
            final(self).id() == old(self).id(),
            final(self).received() == old(self).received(),
            !(r matches Ok(true)),
            (r matches Ok(false)) ==> !final(self).running()
                && final(self).emitted() == old(self).emitted().push(
                Event::Exited(old(self).id()),
            ),
            r is Err ==> r->Err_0 == Fault::ChannelClosed && final(self).running()
                && final(self).emitted() == old(self).emitted(),
    {
        let ex = Message::Exited(self.name.clone());
        let ghost eev = ex@;
        match channel_send(&self.output, ex) {
            Ok(()) => {
                self.emit_log = Ghost(self.emit_log@.push(eev));
                self.stopped = true;
                Ok(false)
            },
            Err(_) => Err(Fault::ChannelClosed),
        }
    }
}

} // verus!
