//! A concrete unit of work and a source that produces a stream of them.
//!
//! `Work` is the demonstration task: it carries a stable name and one
//! number, which `execute` fills with a randomly drawn value. `WorkSource`
//! hands out fresh tasks named `Task_1`, `Task_2`, and so on.

use vstd::prelude::*;

use crate::message::Task;
use crate::names::{task_label, task_name};

verus! {

/// The value bound: `execute` draws a value below this.
pub const WORK_VALUE_BOUND: u32 = 3000;

/// Relies on `rand::random`: it draws one value from the thread-local
/// generator. The result depends on the generator's state, so nothing is
/// promised of it.
#[verifier::external_body]
fn random_u32() -> u32 {
    rand::random::<u32>()
}

/// One unit of work: a name, stable for the task's whole life, and a value
/// that executing the task fills in.
pub struct Work {
    name: String,
    value: u32,
}

impl Work {
    /// The task's current value.
    pub closed spec fn spec_value(&self) -> u32 {
        self.value
    }

    /// Creates a task with the given name and a value of zero.
    pub fn new(name: String) -> (w: Work)
        ensures
            w.spec_name() == name@,
            w.spec_value() == 0,
    {
        Work { name, value: 0 }
    }

    /// The task's current value.
    pub fn value(&self) -> (v: u32)
        ensures
            v == self.spec_value(),
    {
        self.value
    }
}

impl Task for Work {
    closed spec fn spec_name(&self) -> Seq<char> {
        self.name@
    }

    fn name(&self) -> (n: String)
        ensures
            n@ == self.spec_name(),
    {
        self.name.clone()
    }

    /// Draws a fresh value below [`WORK_VALUE_BOUND`]; the name stays what
    /// it was.
    fn execute(&mut self)
        ensures
            final(self).spec_value() < WORK_VALUE_BOUND,
    {
        let v = random_u32();
        self.value = v % WORK_VALUE_BOUND;
    }
}

/// A source of fresh tasks: the `i`-th task it hands out is named
/// `Task_<i>`, counting from one.
pub struct WorkSource {
    idx: usize,
}

impl WorkSource {
    /// How many tasks were handed out so far.
    pub closed spec fn index(&self) -> nat {
        self.idx as nat
    }

    /// A source that has handed out nothing yet.
    pub fn new() -> (s: WorkSource)
        ensures
            s.index() == 0,
    {
        WorkSource { idx: 0 }
    }

    /// The next fresh task, named with the next index and a value of zero.
    pub fn next(&mut self) -> (t: Option<Work>)
        requires
            old(self).index() < usize::MAX,
        ensures
            final(self).index() == old(self).index() + 1,
            t matches Some(w) && w.spec_name() == task_label(old(self).index() + 1)
                && w.spec_value() == 0,
    {
        self.idx = self.idx + 1;
        Some(Work::new(task_name(self.idx)))
    }
}

} // verus!
