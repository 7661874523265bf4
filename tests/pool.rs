use rustwebhello::{handle_message, Dispatch, Message, Step, ThreadPool};

// Lets the worker with identifier `id` take one message, as its loop would,
// and run it: a job appends `(id, job)` to the log.
fn serve_one(d: &mut Dispatch<usize>, id: usize, log: &mut Vec<(usize, usize)>) -> Option<bool> {
    let m = d.take()?;
    match handle_message(m) {
        Step::Run(job) => {
            log.push((id, job));
            Some(true)
        }
        Step::Exit => Some(false),
    }
}

#[test]
fn new_makes_size_live_workers() {
    for size in 1..6usize {
        let pool = ThreadPool::new(size, |i: usize| i * 10);
        assert_eq!(pool.size(), size);
        for i in 0..size {
            assert_eq!(pool.worker(i).id(), i);
            assert!(pool.worker(i).is_live());
        }
    }
}

#[test]
fn teardown_joins_every_worker_once() {
    let mut pool = ThreadPool::new(4, |i: usize| i + 100);
    let handles = pool.take_threads();
    assert_eq!(handles, vec![100, 101, 102, 103]);
    for i in 0..4 {
        assert!(!pool.worker(i).is_live());
        assert_eq!(pool.worker(i).id(), i);
    }
    let again = pool.take_threads();
    assert!(again.is_empty());
}

#[test]
fn single_worker_runs_jobs_in_submission_order() {
    let pool = ThreadPool::new(1, |i: usize| i);
    let mut d: Dispatch<usize> = Dispatch::new();
    for job in 0..3usize {
        pool.execute(&mut d, job);
    }
    pool.terminate_all(&mut d);
    let mut log = Vec::new();
    while serve_one(&mut d, 0, &mut log) == Some(true) {}
    let jobs: Vec<usize> = log.iter().map(|e| e.1).collect();
    assert_eq!(jobs, vec![0, 1, 2]);
    assert_eq!(d.len(), 0);
}

#[test]
fn two_jobs_one_caller_keep_order() {
    let pool = ThreadPool::new(1, |i: usize| i);
    let mut d: Dispatch<usize> = Dispatch::new();
    pool.execute(&mut d, 7);
    pool.execute(&mut d, 3);
    let mut log = Vec::new();
    assert_eq!(serve_one(&mut d, 0, &mut log), Some(true));
    assert_eq!(serve_one(&mut d, 0, &mut log), Some(true));
    assert_eq!(log, vec![(0, 7), (0, 3)]);
}

#[test]
fn every_job_runs_exactly_once() {
    let size = 3;
    let pool = ThreadPool::new(size, |i: usize| i);
    let mut d: Dispatch<usize> = Dispatch::new();
    let mut log = Vec::new();
    let mut running = vec![true; size];
    // Submissions interleaved with workers taking messages.
    for job in 0..20usize {
        pool.execute(&mut d, job);
        if job % 3 == 0 {
            assert_eq!(serve_one(&mut d, job % size, &mut log), Some(true));
        }
    }
    pool.terminate_all(&mut d);
    let mut turn = 0;
    while running.iter().any(|r| *r) {
        let id = turn % size;
        turn += 1;
        if running[id] {
            if serve_one(&mut d, id, &mut log) == Some(false) {
                running[id] = false;
            }
        }
    }
    let mut jobs: Vec<usize> = log.iter().map(|e| e.1).collect();
    assert_eq!(jobs.len(), 20);
    jobs.sort();
    assert_eq!(jobs, (0..20usize).collect::<Vec<usize>>());
    assert_eq!(d.len(), 0);
}

#[test]
fn two_workers_each_take_one_job() {
    let pool = ThreadPool::new(2, |i: usize| i);
    let mut d: Dispatch<usize> = Dispatch::new();
    pool.execute(&mut d, 1);
    pool.execute(&mut d, 2);
    let mut log = Vec::new();
    // Worker 0 holds job A while worker 1 finishes job B.
    assert_eq!(serve_one(&mut d, 0, &mut log), Some(true));
    assert_eq!(serve_one(&mut d, 1, &mut log), Some(true));
    assert_eq!(log, vec![(0, 1), (1, 2)]);
    assert_eq!(d.len(), 0);
}

#[test]
fn idle_pool_tears_down_without_running_jobs() {
    let mut pool = ThreadPool::new(4, |i: usize| i);
    let mut d: Dispatch<usize> = Dispatch::new();
    pool.terminate_all(&mut d);
    assert_eq!(d.len(), 4);
    let mut log = Vec::new();
    for id in 0..4 {
        assert_eq!(serve_one(&mut d, id, &mut log), Some(false));
    }
    assert!(log.is_empty());
    assert_eq!(d.len(), 0);
    assert_eq!(d.take().is_none(), true);
    assert_eq!(pool.take_threads().len(), 4);
}

#[test]
fn terminate_goes_behind_pending_jobs() {
    let pool = ThreadPool::new(2, |i: usize| i);
    let mut d: Dispatch<usize> = Dispatch::new();
    pool.execute(&mut d, 5);
    pool.terminate_all(&mut d);
    assert!(matches!(d.take(), Some(Message::NewJob(5))));
    assert!(matches!(d.take(), Some(Message::Terminate)));
    assert!(matches!(d.take(), Some(Message::Terminate)));
    assert!(d.take().is_none());
}

#[test]
fn messages_map_to_steps() {
    assert!(matches!(handle_message(Message::NewJob(9u32)), Step::Run(9)));
    assert!(matches!(handle_message(Message::<u32>::Terminate), Step::Exit));
}
