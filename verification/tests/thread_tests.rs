use rust_webserver::thread::{Closed, JobChannel, Received, ThreadPool, Worker, WorkerStatus};
use std::cell::{Cell, RefCell};
use std::rc::Rc;

/// Lets worker `id` run jobs until it has to wait or exit, and says which.
fn drive<J: FnOnce()>(pool: &mut ThreadPool<J>, id: usize) -> bool {
    loop {
        match pool.next_job(id) {
            Received::Job(job) => job(),
            Received::Pending => return false,
            Received::Exhausted => return true,
        }
    }
}

#[test]
fn test_thread_pool() {
    let lines = Rc::new(RefCell::new(Vec::new()));
    let mut pool = ThreadPool::new(4);

    for i in 0..8 {
        let lines = Rc::clone(&lines);
        let accepted = pool.execute(move || {
            lines.borrow_mut().push(format!("Task {} is running.", i));
        });
        assert!(accepted.is_ok());
    }

    // Dropping the pool's owner shuts the pool down and joins its workers.
    assert_eq!(pool.shutdown(), vec![0, 1, 2, 3]);
    for id in 0..4 {
        assert!(drive(&mut pool, id));
    }
    assert!(pool.is_shut_down());
    assert_eq!(lines.borrow().len(), 8);
    for i in 0..8 {
        assert_eq!(lines.borrow()[i], format!("Task {} is running.", i));
    }
}

#[test]
fn test_worker() {
    let ran = Rc::new(Cell::new(0));
    let mut channel = JobChannel::new();
    let mut worker = Worker::new(0);
    assert_eq!(worker.id(), 0);
    assert_eq!(worker.status(), WorkerStatus::Waiting);

    for _ in 0..2 {
        let ran = Rc::clone(&ran);
        let sent = channel.send(move || {
            ran.set(ran.get() + 1);
            let _ = "This is a test job.";
        });
        assert!(sent.is_ok());
    }

    // stop the worker by closing the channel
    channel.close();

    loop {
        match worker.step(&mut channel) {
            Received::Job(job) => {
                assert_eq!(worker.status(), WorkerStatus::Running);
                job();
            }
            Received::Pending => unreachable!(),
            Received::Exhausted => break,
        }
    }
    assert_eq!(worker.status(), WorkerStatus::Exited);
    assert_eq!(ran.get(), 2);
    assert!(matches!(worker.step(&mut channel), Received::Exhausted));
    assert_eq!(worker.status(), WorkerStatus::Exited);
}

#[test]
fn every_job_runs_once() {
    for size in 1..6usize {
        for jobs in 0..12usize {
            let counts = Rc::new(RefCell::new(vec![0u32; jobs]));
            let mut pool = ThreadPool::new(size);
            for k in 0..jobs {
                let counts = Rc::clone(&counts);
                assert!(pool.execute(move || counts.borrow_mut()[k] += 1).is_ok());
            }
            assert_eq!(pool.queued(), jobs);
            // Workers take turns, one job each.
            let mut id = 0;
            while pool.queued() > 0 {
                match pool.next_job(id) {
                    Received::Job(job) => job(),
                    _ => unreachable!(),
                }
                id = (id + 1) % size;
            }
            pool.shutdown();
            for id in 0..size {
                assert!(drive(&mut pool, id));
            }
            assert!(pool.is_shut_down());
            assert_eq!(*counts.borrow(), vec![1u32; jobs]);
        }
    }
}

#[test]
fn counting_jobs_on_four_workers() {
    let counter = Rc::new(Cell::new(0));
    let mut pool = ThreadPool::new(4);
    for _ in 0..8 {
        let counter = Rc::clone(&counter);
        assert!(pool.execute(move || counter.set(counter.get() + 1)).is_ok());
    }
    pool.shutdown();
    for id in [2, 0, 3, 1] {
        assert!(drive(&mut pool, id));
    }
    assert!(pool.is_shut_down());
    assert_eq!(counter.get(), 8);
}

#[test]
fn execute_after_shutdown_is_refused() {
    let counter = Rc::new(Cell::new(0));
    let mut pool = ThreadPool::new(2);
    {
        let counter = Rc::clone(&counter);
        assert!(pool.execute(Box::new(move || counter.set(counter.get() + 1)) as Box<dyn FnOnce()>).is_ok());
    }
    pool.shutdown();
    {
        // Refused as soon as shutdown has begun, and the job comes back.
        let counter = Rc::clone(&counter);
        match pool.execute(Box::new(move || counter.set(counter.get() + 10))) {
            Err(Closed(job)) => drop(job),
            Ok(()) => panic!("a closed pool accepted a job"),
        }
    }
    assert_eq!(pool.queued(), 1);
    assert!(drive(&mut pool, 0));
    assert!(drive(&mut pool, 1));
    assert!(pool.is_shut_down());
    assert_eq!(counter.get(), 1);
    assert!(pool.execute(Box::new(|| ())).is_err());
    assert_eq!(pool.queued(), 0);
    assert_eq!(counter.get(), 1);
}

#[test]
fn shutdown_twice_is_shutdown_once() {
    let mut pool: ThreadPool<u32> = ThreadPool::new(3);
    assert!(pool.execute(5).is_ok());
    assert!(!pool.is_closed());
    assert_eq!(pool.shutdown(), vec![0, 1, 2]);
    assert!(pool.is_closed());
    assert_eq!(pool.queued(), 1);
    assert_eq!(pool.shutdown(), Vec::<usize>::new());
    assert!(pool.is_closed());
    assert_eq!(pool.queued(), 1);
    assert_eq!(pool.size(), 3);
    for id in 0..3 {
        assert_eq!(pool.worker_status(id), Some(WorkerStatus::Waiting));
    }
    assert!(matches!(pool.next_job(1), Received::Job(5)));
    assert!(matches!(pool.next_job(1), Received::Exhausted));
    assert!(matches!(pool.next_job(0), Received::Exhausted));
    assert!(!pool.is_shut_down());
    assert!(matches!(pool.next_job(2), Received::Exhausted));
    assert!(pool.is_shut_down());
    assert_eq!(pool.shutdown(), Vec::<usize>::new());
    assert!(pool.is_shut_down());
}

#[test]
fn single_worker_runs_jobs_one_after_the_other() {
    let mut pool: ThreadPool<&str> = ThreadPool::new(1);
    assert!(pool.execute("first").is_ok());
    assert!(pool.execute("second").is_ok());

    // The worker takes the first job and is busy with it.
    assert!(matches!(pool.next_job(0), Received::Job("first")));
    assert_eq!(pool.worker_status(0), Some(WorkerStatus::Running));
    // While it is, the second job waits: there is no other worker to take it.
    assert_eq!(pool.queued(), 1);
    assert_eq!(pool.size(), 1);
    assert!(matches!(pool.next_job(1), Received::Exhausted));
    assert_eq!(pool.queued(), 1);
    // Only when the worker comes back from the first job does the second start.
    assert!(matches!(pool.next_job(0), Received::Job("second")));
    assert_eq!(pool.queued(), 0);
    assert!(matches!(pool.next_job(0), Received::Pending));
    assert_eq!(pool.worker_status(0), Some(WorkerStatus::Waiting));
}

#[test]
fn two_workers_run_two_jobs_at_once() {
    let started = Rc::new(Cell::new(0));
    let finished = Rc::new(Cell::new(0));
    let mut pool = ThreadPool::new(2);
    for _ in 0..2 {
        let started = Rc::clone(&started);
        let finished = Rc::clone(&finished);
        // A job, cut in two at the point where it waits for the other to start.
        let job = move || {
            started.set(started.get() + 1);
            move || finished.set(finished.get() + 1)
        };
        assert!(pool.execute(job).is_ok());
    }
    let first = match pool.next_job(0) {
        Received::Job(job) => job(),
        _ => unreachable!(),
    };
    // The second job starts while the first is still running.
    let second = match pool.next_job(1) {
        Received::Job(job) => job(),
        _ => unreachable!(),
    };
    assert_eq!(pool.worker_status(0), Some(WorkerStatus::Running));
    assert_eq!(pool.worker_status(1), Some(WorkerStatus::Running));
    assert_eq!(started.get(), 2);
    assert_eq!(finished.get(), 0);
    first();
    second();
    assert_eq!(finished.get(), 2);
    assert!(matches!(pool.next_job(0), Received::Pending));
    assert!(matches!(pool.next_job(1), Received::Pending));
    pool.shutdown();
    assert!(matches!(pool.next_job(0), Received::Exhausted));
    assert!(matches!(pool.next_job(1), Received::Exhausted));
    assert!(pool.is_shut_down());
}

#[test]
fn fresh_pool() {
    let mut pool: ThreadPool<u8> = ThreadPool::new(3);
    assert_eq!(pool.size(), 3);
    assert_eq!(pool.queued(), 0);
    assert!(!pool.is_closed());
    assert!(!pool.is_shut_down());
    assert_eq!(pool.worker_status(2), Some(WorkerStatus::Waiting));
    assert_eq!(pool.worker_status(3), None);
    assert!(matches!(pool.next_job(0), Received::Pending));
    assert!(matches!(pool.next_job(3), Received::Exhausted));
    assert_eq!(pool.worker_status(0), Some(WorkerStatus::Waiting));
}

#[test]
fn jobs_are_handed_out_in_order_of_submission() {
    let mut pool: ThreadPool<u32> = ThreadPool::new(2);
    for n in 0..5 {
        assert!(pool.execute(n).is_ok());
    }
    let mut seen = Vec::new();
    for id in [0, 1, 1, 0, 1] {
        match pool.next_job(id) {
            Received::Job(n) => seen.push(n),
            _ => unreachable!(),
        }
    }
    assert_eq!(seen, vec![0, 1, 2, 3, 4]);
}

#[test]
fn channel_is_first_in_first_out() {
    let mut channel: JobChannel<u32> = JobChannel::new();
    assert!(!channel.is_closed());
    assert_eq!(channel.len(), 0);
    assert!(matches!(channel.receive(), Received::Pending));
    assert!(channel.send(1).is_ok());
    assert!(channel.send(2).is_ok());
    assert!(channel.send(3).is_ok());
    assert_eq!(channel.len(), 3);
    assert!(matches!(channel.receive(), Received::Job(1)));
    assert!(matches!(channel.receive(), Received::Job(2)));
    assert_eq!(channel.len(), 1);
    assert!(matches!(channel.receive(), Received::Job(3)));
    assert!(matches!(channel.receive(), Received::Pending));
}

#[test]
fn closing_a_channel_loses_no_job() {
    let mut channel: JobChannel<u32> = JobChannel::new();
    assert!(channel.send(1).is_ok());
    assert!(channel.send(2).is_ok());
    channel.close();
    assert!(channel.is_closed());
    channel.close();
    assert!(channel.is_closed());
    assert_eq!(channel.len(), 2);
    assert!(matches!(channel.send(3), Err(Closed(3))));
    assert_eq!(channel.len(), 2);
    assert!(matches!(channel.receive(), Received::Job(1)));
    assert!(matches!(channel.receive(), Received::Job(2)));
    assert!(matches!(channel.receive(), Received::Exhausted));
    assert!(matches!(channel.receive(), Received::Exhausted));
}

#[test]
fn worker_waits_on_an_open_channel() {
    let mut channel: JobChannel<u32> = JobChannel::new();
    let mut worker = Worker::new(7);
    assert_eq!(worker.id(), 7);
    assert!(matches!(worker.step(&mut channel), Received::Pending));
    assert_eq!(worker.status(), WorkerStatus::Waiting);
    assert!(channel.send(9).is_ok());
    assert!(matches!(worker.step(&mut channel), Received::Job(9)));
    assert_eq!(worker.status(), WorkerStatus::Running);
    assert!(matches!(worker.step(&mut channel), Received::Pending));
    assert_eq!(worker.status(), WorkerStatus::Waiting);
    assert_eq!(worker.id(), 7);
}
