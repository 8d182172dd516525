use anduin::threadpool::{worker_step, Threadpool, WorkerAction};

#[test]
fn jobs_are_claimed_exactly_once_in_order() {
    let mut p = Threadpool::new(2);
    for j in 0..5u64 {
        assert!(p.execute(j));
    }
    let mut seen: Vec<u64> = Vec::new();
    while let Some(m) = p.claim() {
        match worker_step(m) {
            WorkerAction::Run(j) => seen.push(j),
            WorkerAction::Exit => panic!("no terminate order was queued"),
        }
    }
    assert_eq!(seen, vec![0, 1, 2, 3, 4]);
}

#[test]
fn shutdown_refuses_new_jobs_and_queues_one_exit_per_worker() {
    let mut p = Threadpool::new(3);
    assert!(p.execute(7));
    p.shutdown();
    assert!(!p.execute(8));
    match worker_step(p.claim().unwrap()) {
        WorkerAction::Run(j) => assert_eq!(j, 7),
        WorkerAction::Exit => panic!("the pending job must drain first"),
    }
    let mut exits = 0;
    while let Some(m) = p.claim() {
        match worker_step(m) {
            WorkerAction::Exit => exits += 1,
            WorkerAction::Run(_) => panic!("the refused job must not appear"),
        }
    }
    assert_eq!(exits, 3);
}

#[test]
fn claim_on_an_empty_queue_is_none() {
    let mut p = Threadpool::new(1);
    assert!(p.claim().is_none());
}
