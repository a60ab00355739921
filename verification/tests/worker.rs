use std::sync::mpsc;

use agent_pool::{Fault, Message, Task, Work, Worker};

#[test]
fn worker_executes_submission_and_reports_done() {
    let (tx, rx) = mpsc::channel::<Message<Work>>();
    let mut w: Worker<Work> = Worker::new(String::from("Worker_1"), tx);
    let gate = w.gate();
    gate.send(Message::Submit(Work::new(String::from("T1")))).unwrap();
    assert_eq!(w.run(), Ok(true));
    match rx.recv().unwrap() {
        Message::Done(who, task) => {
            assert_eq!(who, "Worker_1");
            assert_eq!(task.name(), "T1");
            assert!(task.value() < agent_pool::work::WORK_VALUE_BOUND);
        }
        _ => panic!("expected Done"),
    }
}

#[test]
fn worker_processes_submissions_in_order() {
    let (tx, rx) = mpsc::channel::<Message<Work>>();
    let mut w: Worker<Work> = Worker::new(String::from("W"), tx);
    let gate = w.gate();
    gate.send(Message::Submit(Work::new(String::from("T1")))).unwrap();
    gate.send(Message::Submit(Work::new(String::from("T2")))).unwrap();
    gate.send(Message::Stop).unwrap();
    assert_eq!(w.run(), Ok(true));
    assert_eq!(w.run(), Ok(true));
    assert_eq!(w.run(), Ok(false));
    let names: Vec<String> = (0..2)
        .map(|_| match rx.recv().unwrap() {
            Message::Done(_, task) => task.name(),
            _ => panic!("expected Done"),
        })
        .collect();
    assert_eq!(names, vec![String::from("T1"), String::from("T2")]);
    match rx.recv().unwrap() {
        Message::Exited(who) => assert_eq!(who, "W"),
        _ => panic!("expected Exited"),
    }
}

#[test]
fn worker_stop_emits_exited_exactly_once() {
    let (tx, rx) = mpsc::channel::<Message<Work>>();
    let mut w: Worker<Work> = Worker::new(String::from("Worker_1"), tx);
    let gate = w.gate();
    gate.send(Message::Stop).unwrap();
    assert_eq!(w.run(), Ok(false));
    match rx.recv().unwrap() {
        Message::Exited(who) => assert_eq!(who, "Worker_1"),
        _ => panic!("expected Exited"),
    }
    assert!(rx.try_recv().is_err());
}

#[test]
fn worker_rejects_unexpected_message() {
    let (tx, rx) = mpsc::channel::<Message<Work>>();
    let mut w: Worker<Work> = Worker::new(String::from("Worker_1"), tx);
    let gate = w.gate();
    gate.send(Message::Idle).unwrap();
    assert_eq!(w.run(), Err(Fault::UnexpectedMessage));
    assert!(rx.try_recv().is_err());
}

#[test]
fn worker_faults_when_results_channel_closed() {
    let (tx, rx) = mpsc::channel::<Message<Work>>();
    let mut w: Worker<Work> = Worker::new(String::from("Worker_1"), tx);
    drop(rx);
    let gate = w.gate();
    gate.send(Message::Submit(Work::new(String::from("T1")))).unwrap();
    assert_eq!(w.run(), Err(Fault::ChannelClosed));
}
