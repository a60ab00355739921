use std::sync::mpsc;

use agent_pool::{AgentPool, Fault, Message, Task, Work, Worker};

fn expect_done(msg: Message<Work>) -> (String, String) {
    match msg {
        Message::Done(who, task) => (who, task.name()),
        _ => panic!("expected Done"),
    }
}

#[test]
fn two_workers_deterministic_batches() {
    let (out_tx, out_rx) = mpsc::channel::<Message<Work>>();
    let (mut pool, mut workers): (AgentPool<Work>, Vec<Worker<Work>>) =
        AgentPool::new(String::from("Pool"), 2, out_tx);
    let gate = pool.gate();

    // first batch: two tasks, one per worker
    gate.send(Message::Submit(Work::new(String::from("T1")))).unwrap();
    gate.send(Message::Submit(Work::new(String::from("T2")))).unwrap();
    assert_eq!(pool.process_input(), Ok(()));
    assert_eq!(pool.process_input(), Ok(()));
    assert_eq!(workers[0].run(), Ok(true));
    assert_eq!(workers[1].run(), Ok(true));
    assert_eq!(pool.process_results(), Ok(()));
    assert_eq!(pool.process_results(), Ok(()));
    let (w1, t1) = expect_done(out_rx.recv().unwrap());
    let (w2, t2) = expect_done(out_rx.recv().unwrap());
    assert_eq!((w1.as_str(), t1.as_str()), ("Worker_1", "T1"));
    assert_eq!((w2.as_str(), t2.as_str()), ("Worker_2", "T2"));

    // second batch, then stop: exactly two more Done, then the pool's Exited
    gate.send(Message::Submit(Work::new(String::from("T3")))).unwrap();
    gate.send(Message::Submit(Work::new(String::from("T4")))).unwrap();
    assert_eq!(pool.process_input(), Ok(()));
    assert_eq!(pool.process_input(), Ok(()));
    assert_eq!(workers[0].run(), Ok(true));
    assert_eq!(workers[1].run(), Ok(true));
    assert_eq!(pool.process_results(), Ok(()));
    assert_eq!(pool.process_results(), Ok(()));
    gate.send(Message::Stop).unwrap();
    assert_eq!(pool.process_input(), Ok(()));
    assert_eq!(workers[0].run(), Ok(false));
    assert_eq!(workers[1].run(), Ok(false));
    assert_eq!(pool.process_results(), Ok(()));
    assert_eq!(pool.process_results(), Ok(()));
    assert_eq!(pool.run(), Ok(false));

    let (_, t3) = expect_done(out_rx.recv().unwrap());
    let (_, t4) = expect_done(out_rx.recv().unwrap());
    assert_eq!((t3.as_str(), t4.as_str()), ("T3", "T4"));
    match out_rx.recv().unwrap() {
        Message::Exited(who) => assert_eq!(who, "Pool"),
        _ => panic!("expected Exited"),
    }
    assert!(out_rx.try_recv().is_err());
}

#[test]
fn burst_third_submission_resent() {
    let (out_tx, out_rx) = mpsc::channel::<Message<Work>>();
    let (mut pool, _workers): (AgentPool<Work>, Vec<Worker<Work>>) =
        AgentPool::new(String::from("Pool"), 2, out_tx);
    let gate = pool.gate();
    gate.send(Message::Submit(Work::new(String::from("T1")))).unwrap();
    gate.send(Message::Submit(Work::new(String::from("T2")))).unwrap();
    gate.send(Message::Submit(Work::new(String::from("T3")))).unwrap();
    assert_eq!(pool.process_input(), Ok(()));
    assert_eq!(pool.process_input(), Ok(()));
    assert_eq!(pool.process_input(), Ok(()));
    match out_rx.recv().unwrap() {
        Message::Resend(task) => {
            assert_eq!(task.name(), "T3");
            assert_eq!(task.value(), 0);
        }
        _ => panic!("expected Resend"),
    }
    assert!(out_rx.try_recv().is_err());
}

#[test]
fn done_arrives_before_pool_exited() {
    let (out_tx, out_rx) = mpsc::channel::<Message<Work>>();
    let (mut pool, mut workers): (AgentPool<Work>, Vec<Worker<Work>>) =
        AgentPool::new(String::from("Pool"), 1, out_tx);
    let gate = pool.gate();
    gate.send(Message::Submit(Work::new(String::from("T1")))).unwrap();
    assert_eq!(pool.process_input(), Ok(()));
    gate.send(Message::Stop).unwrap();
    assert_eq!(pool.process_input(), Ok(()));
    assert_eq!(workers[0].run(), Ok(true));
    assert_eq!(workers[0].run(), Ok(false));
    assert_eq!(pool.process_results(), Ok(()));
    assert_eq!(pool.process_results(), Ok(()));
    assert_eq!(pool.run(), Ok(false));
    let (who, name) = expect_done(out_rx.recv().unwrap());
    assert_eq!((who.as_str(), name.as_str()), ("Worker_1", "T1"));
    match out_rx.recv().unwrap() {
        Message::Exited(pool_name) => assert_eq!(pool_name, "Pool"),
        _ => panic!("expected Exited"),
    }
}

#[test]
fn no_submission_routed_after_stop() {
    let (out_tx, _out_rx) = mpsc::channel::<Message<Work>>();
    let (mut pool, mut workers): (AgentPool<Work>, Vec<Worker<Work>>) =
        AgentPool::new(String::from("Pool"), 1, out_tx);
    let gate = pool.gate();
    gate.send(Message::Stop).unwrap();
    assert_eq!(pool.process_input(), Ok(()));
    gate.send(Message::Submit(Work::new(String::from("late")))).unwrap();
    assert_eq!(pool.process_input(), Err(Fault::UnexpectedMessage));
    // the worker's gate saw the stop and nothing else
    assert_eq!(workers[0].run(), Ok(false));
}

#[test]
fn second_stop_is_refused() {
    let (out_tx, _out_rx) = mpsc::channel::<Message<Work>>();
    let (mut pool, _workers): (AgentPool<Work>, Vec<Worker<Work>>) =
        AgentPool::new(String::from("Pool"), 1, out_tx);
    let gate = pool.gate();
    gate.send(Message::Stop).unwrap();
    gate.send(Message::Stop).unwrap();
    assert_eq!(pool.process_input(), Ok(()));
    assert_eq!(pool.process_input(), Err(Fault::UnexpectedMessage));
}

#[test]
fn done_from_idle_worker_is_refused() {
    let (out_tx, _out_rx) = mpsc::channel::<Message<Work>>();
    let (mut pool, _workers): (AgentPool<Work>, Vec<Worker<Work>>) =
        AgentPool::new(String::from("Pool"), 1, out_tx);
    let done = Message::Done(String::from("Worker_1"), Work::new(String::from("X")));
    assert_eq!(pool.handle_results(done), Err(Fault::UnexpectedMessage));
}

#[test]
fn done_from_unknown_worker_is_refused() {
    let (out_tx, _out_rx) = mpsc::channel::<Message<Work>>();
    let (mut pool, _workers): (AgentPool<Work>, Vec<Worker<Work>>) =
        AgentPool::new(String::from("Pool"), 2, out_tx);
    let done = Message::Done(String::from("Worker_9"), Work::new(String::from("X")));
    assert_eq!(pool.handle_results(done), Err(Fault::UnexpectedMessage));
}

#[test]
fn exited_before_stop_is_refused() {
    let (out_tx, _out_rx) = mpsc::channel::<Message<Work>>();
    let (mut pool, _workers): (AgentPool<Work>, Vec<Worker<Work>>) =
        AgentPool::new(String::from("Pool"), 1, out_tx);
    let exited = Message::Exited(String::from("Worker_1"));
    assert_eq!(pool.handle_results(exited), Err(Fault::UnexpectedMessage));
}

#[test]
fn idle_message_on_gate_is_refused() {
    let (out_tx, _out_rx) = mpsc::channel::<Message<Work>>();
    let (mut pool, _workers): (AgentPool<Work>, Vec<Worker<Work>>) =
        AgentPool::new(String::from("Pool"), 1, out_tx);
    assert_eq!(pool.handle_input(Message::Idle), Err(Fault::UnexpectedMessage));
}

#[test]
fn pool_faults_when_output_closed() {
    let (out_tx, out_rx) = mpsc::channel::<Message<Work>>();
    let (mut pool, _workers): (AgentPool<Work>, Vec<Worker<Work>>) =
        AgentPool::new(String::from("Pool"), 1, out_tx);
    drop(out_rx);
    let gate = pool.gate();
    gate.send(Message::Submit(Work::new(String::from("T1")))).unwrap();
    gate.send(Message::Submit(Work::new(String::from("T2")))).unwrap();
    assert_eq!(pool.process_input(), Ok(()));
    // the second submission finds no idle worker; returning it fails on the
    // closed output
    assert_eq!(pool.process_input(), Err(Fault::ChannelClosed));
}

#[test]
fn interleaved_submissions_and_completions_keep_pool_consistent() {
    let (out_tx, out_rx) = mpsc::channel::<Message<Work>>();
    let (mut pool, mut workers): (AgentPool<Work>, Vec<Worker<Work>>) =
        AgentPool::new(String::from("Pool"), 3, out_tx);
    let gate = pool.gate();

    gate.send(Message::Submit(Work::new(String::from("a")))).unwrap();
    gate.send(Message::Submit(Work::new(String::from("b")))).unwrap();
    assert_eq!(pool.process_input(), Ok(()));
    assert_eq!(pool.process_input(), Ok(()));
    assert_eq!(workers[0].run(), Ok(true));
    assert_eq!(pool.process_results(), Ok(()));
    gate.send(Message::Submit(Work::new(String::from("c")))).unwrap();
    gate.send(Message::Submit(Work::new(String::from("d")))).unwrap();
    assert_eq!(pool.process_input(), Ok(()));
    assert_eq!(pool.process_input(), Ok(()));
    assert_eq!(workers[1].run(), Ok(true));
    assert_eq!(workers[2].run(), Ok(true));
    assert_eq!(workers[0].run(), Ok(true));
    assert_eq!(pool.process_results(), Ok(()));
    assert_eq!(pool.process_results(), Ok(()));
    assert_eq!(pool.process_results(), Ok(()));
    gate.send(Message::Stop).unwrap();
    assert_eq!(pool.process_input(), Ok(()));
    for w in workers.iter_mut() {
        assert_eq!(w.run(), Ok(false));
    }
    assert_eq!(pool.process_results(), Ok(()));
    assert_eq!(pool.process_results(), Ok(()));
    assert_eq!(pool.process_results(), Ok(()));
    assert_eq!(pool.run(), Ok(false));

    let mut done_names: Vec<String> = Vec::new();
    loop {
        match out_rx.recv().unwrap() {
            Message::Done(_, task) => done_names.push(task.name()),
            Message::Exited(who) => {
                assert_eq!(who, "Pool");
                break;
            }
            _ => panic!("expected Done or Exited"),
        }
    }
    done_names.sort();
    assert_eq!(
        done_names,
        vec![String::from("a"), String::from("b"), String::from("c"), String::from("d")]
    );
    assert!(out_rx.try_recv().is_err());
}
