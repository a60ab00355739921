use agent_pool::names::{decimal_string, task_name, worker_name};
use agent_pool::work::WORK_VALUE_BOUND;
use agent_pool::{Task, Work, WorkSource};

#[test]
fn decimal_strings_are_exact() {
    assert_eq!(decimal_string(0), "0");
    assert_eq!(decimal_string(7), "7");
    assert_eq!(decimal_string(10), "10");
    assert_eq!(decimal_string(905), "905");
    assert_eq!(decimal_string(120034), "120034");
}

#[test]
fn worker_and_task_names_are_exact() {
    assert_eq!(worker_name(1), "Worker_1");
    assert_eq!(worker_name(12), "Worker_12");
    assert_eq!(task_name(3), "Task_3");
    assert_eq!(task_name(100), "Task_100");
}

#[test]
fn work_new_has_given_name_and_zero_value() {
    let w = Work::new(String::from("T9"));
    assert_eq!(w.name(), "T9");
    assert_eq!(w.value(), 0);
}

#[test]
fn work_execute_keeps_name_and_bounds_value() {
    let mut w = Work::new(String::from("T1"));
    w.execute();
    assert_eq!(w.name(), "T1");
    assert!(w.value() < WORK_VALUE_BOUND);
}

#[test]
fn work_source_names_tasks_in_order() {
    let mut source = WorkSource::new();
    let first = source.next().unwrap();
    let second = source.next().unwrap();
    assert_eq!(first.name(), "Task_1");
    assert_eq!(first.value(), 0);
    assert_eq!(second.name(), "Task_2");
}
