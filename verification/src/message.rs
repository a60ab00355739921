//! The wire-level contract of the pool: the task capability, the message
//! shapes that travel between caller, dispatcher and workers, and the faults
//! that end an execution unit.

use vstd::prelude::*;

verus! {

/// A unit of work. A task exposes a stable name, used only for
/// identification, and an execute operation that runs to completion and may
/// mutate the task's own state. The name never changes while the task runs.
pub trait Task: Sized {
    /// The name of the task, as a mathematical value.
    spec fn spec_name(&self) -> Seq<char>;

    /// The name of the task.
    fn name(&self) -> (n: String)
        ensures
            n@ == self.spec_name(),
    ;

    /// Runs the task to completion. The task's internal state may change,
    /// but its name stays what it was.
    fn execute(&mut self)
        ensures
            final(self).spec_name() == old(self).spec_name(),
    ;
}

/// One message. Exactly one shape is active per instance; `Done` and
/// `Exited` name the worker (or, for the dispatcher's own final `Exited`,
/// the pool) that the message speaks of.
pub enum Message<Obj: Task> {
    /// Ask the receiving unit to shut down once its current task is finished.
    Stop,
    /// Hand one task over; ownership moves with the message.
    Submit(Obj),
    /// A task came back from the named worker after execution.
    Done(String, Obj),
    /// The named unit has terminated.
    Exited(String),
    /// No idle worker could take the task; ownership returns to the caller,
    /// who is responsible for retrying.
    Resend(Obj),
    /// Empty result of a non-blocking poll; carries nothing.
    Idle,
}

/// The mathematical shape of one message: the same six shapes, with every
/// name taken as a sequence of characters. Ghost message logs and contracts
/// speak in events.
pub enum Event<Obj> {
    Stop,
    Submit(Obj),
    Done(Seq<char>, Obj),
    Exited(Seq<char>),
    Resend(Obj),
    Idle,
}

impl<Obj: Task> View for Message<Obj> {
    type V = Event<Obj>;

    open spec fn view(&self) -> Event<Obj> {
        match self {
            Message::Stop => Event::Stop,
            Message::Submit(t) => Event::Submit(*t),
            Message::Done(n, t) => Event::Done(n@, *t),
            Message::Exited(n) => Event::Exited(n@),
            Message::Resend(t) => Event::Resend(*t),
            Message::Idle => Event::Idle,
        }
    }
}

/// From `oe` to `ne` an output log gained only forwarded traffic:
/// completions and returned tasks, never an exit notification.
pub open spec fn forwards_only<Obj>(oe: Seq<Event<Obj>>, ne: Seq<Event<Obj>>) -> bool {
    &&& oe.is_prefix_of(ne)
    &&& forall|k: int|
        oe.len() <= k < ne.len() ==> ((#[trigger] ne[k]) is Done || ne[k] is Resend)
}

/// A log forwards only relative to itself.
pub broadcast proof fn lemma_forwards_only_refl<Obj>(s: Seq<Event<Obj>>)
    ensures
        #[trigger] forwards_only(s, s),
{
    assert(s =~= s.subrange(0, s.len() as int));
}

/// Appending one completion or one returned task keeps a log forwarding
/// only.
pub broadcast proof fn lemma_forwards_only_push<Obj>(s: Seq<Event<Obj>>, e: Event<Obj>)
    ensures
        (e is Done || e is Resend) ==> #[trigger] forwards_only(s, s.push(e)),
{
    assert(s =~= s.push(e).subrange(0, s.len() as int));
}

/// How many exit notifications a log holds.
pub open spec fn exit_count<Obj>(s: Seq<Event<Obj>>) -> int
    decreases s.len(),
{
    if s.len() == 0 {
        0
    } else {
        exit_count(s.drop_last()) + if s.last() is Exited {
            1int
        } else {
            0int
        }
    }
}

/// Appending one event raises the exit count exactly when the event is an
/// exit notification.
pub broadcast proof fn lemma_exit_count_push<Obj>(s: Seq<Event<Obj>>, e: Event<Obj>)
    ensures
        #[trigger] exit_count(s.push(e)) == exit_count(s) + if e is Exited {
            1int
        } else {
            0int
        },
{
    assert(s.push(e).drop_last() =~= s);
}

/// The names of the tasks submitted in a log, in order.
pub open spec fn submit_names<Obj: Task>(s: Seq<Event<Obj>>) -> Seq<Seq<char>>
    decreases s.len(),
{
    if s.len() == 0 {
        Seq::empty()
    } else if s.last() is Submit {
        submit_names(s.drop_last()).push(s.last()->Submit_0.spec_name())
    } else {
        submit_names(s.drop_last())
    }
}

/// The names of the tasks returned in the completions of a log, in order.
pub open spec fn done_names<Obj: Task>(s: Seq<Event<Obj>>) -> Seq<Seq<char>>
    decreases s.len(),
{
    if s.len() == 0 {
        Seq::empty()
    } else if s.last() is Done {
        done_names(s.drop_last()).push(s.last()->Done_1.spec_name())
    } else {
        done_names(s.drop_last())
    }
}

/// Appending one event extends the submitted names exactly when the event
/// is a submission.
pub broadcast proof fn lemma_submit_names_push<Obj: Task>(s: Seq<Event<Obj>>, e: Event<Obj>)
    ensures
        #[trigger] submit_names(s.push(e)) == if e is Submit {
            submit_names(s).push(e->Submit_0.spec_name())
        } else {
            submit_names(s)
        },
{
    assert(s.push(e).drop_last() =~= s);
}

/// Appending one event extends the completed names exactly when the event
/// is a completion.
pub broadcast proof fn lemma_done_names_push<Obj: Task>(s: Seq<Event<Obj>>, e: Event<Obj>)
    ensures
        #[trigger] done_names(s.push(e)) == if e is Done {
            done_names(s).push(e->Done_1.spec_name())
        } else {
            done_names(s)
        },
{
    assert(s.push(e).drop_last() =~= s);
}

/// A fatal fault. Faults are not recovered: the unit that meets one stops
/// and the condition propagates to whatever supervises the pool.
#[derive(Clone, Copy, Debug, PartialEq, Eq, Structural)]
pub enum Fault {
    /// A message shape arrived that the receiving unit never expects on that
    /// channel.
    UnexpectedMessage,
    /// A channel was closed while traffic was still expected on it.
    ChannelClosed,
}

} // verus!
