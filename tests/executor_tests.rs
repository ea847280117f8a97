use coop_runtime::runtime::executor::{Executor, Step};
use coop_runtime::runtime::sleep::{Duration, Sleep};
use std::sync::atomic::{AtomicU32, Ordering};
use std::sync::Arc;
use std::time::Instant;

#[test]
fn test_executor_creation() {
    let executor: Executor<u32> = Executor::new();
    assert_eq!(executor.polling.len(), 0);
}

#[test]
fn test_waker_creation() {
    let executor: Executor<u32> = Executor::new();
    let waker = executor.create_waker();

    // Just ensure waker can be created and cloned
    let _cloned_waker = waker.clone();
}

#[test]
fn test_executor_spawn_simple_future() {
    let mut executor = Executor::new();
    let counter = Arc::new(AtomicU32::new(0));
    let counter_clone = counter.clone();

    executor.spawn(counter_clone);
    let step = |c: Arc<AtomicU32>| -> Step<Arc<AtomicU32>, u32> {
        c.fetch_add(1, Ordering::SeqCst);
        Step::Ready(42)
    };

    // Poll until completion
    for _ in 0..10 {
        let done = executor.poll(&step);
        if let Some(&result) = done.first() {
            assert_eq!(result, 42);
            assert_eq!(counter.load(Ordering::SeqCst), 1);
            return;
        }
    }

    panic!("Future did not complete");
}

#[test]
fn test_executor_spawn_multiple_futures() {
    let mut executor = Executor::new();
    let counter = Arc::new(AtomicU32::new(0));

    // Spawn multiple tasks
    for i in 0..5u32 {
        executor.spawn((i, counter.clone()));
    }
    let step = |(i, c): (u32, Arc<AtomicU32>)| -> Step<(u32, Arc<AtomicU32>), u32> {
        c.fetch_add(1, Ordering::SeqCst);
        Step::Ready(i * 2)
    };

    // Poll until all complete
    let mut completed = 0;
    for _ in 0..50 {
        completed += executor.poll(&step).len();
        if completed >= 5 {
            break;
        }
    }

    assert_eq!(counter.load(Ordering::SeqCst), 5);
    assert_eq!(completed, 5);
}

fn sleep_step(task: (&'static str, Sleep)) -> Step<(&'static str, Sleep), &'static str> {
    if task.1.poll().is_ready() {
        Step::Ready(task.0)
    } else {
        Step::Pending(task)
    }
}

#[test]
fn test_executor_with_sleep_future() {
    let mut executor = Executor::new();
    let start = Instant::now();

    executor.spawn(("completed", Sleep::new(Duration::from_millis(50))));

    loop {
        let done = executor.poll(&sleep_step);
        if let Some(&result) = done.first() {
            let elapsed = start.elapsed();
            assert_eq!(result, "completed");
            assert!(elapsed >= std::time::Duration::from_millis(40)); // Some tolerance
            return;
        }
        assert!(start.elapsed() < std::time::Duration::from_secs(5), "Sleep future did not complete");
    }
}

#[test]
fn test_executor_handles_pending_futures() {
    let mut executor = Executor::new();
    executor.spawn(("done", Sleep::new(Duration::from_millis(10))));

    // First few polls should return pending
    for _ in 0..5 {
        assert!(executor.poll(&sleep_step).is_empty());
    }
    assert_eq!(executor.len(), 1);

    let start = Instant::now();
    while start.elapsed() < std::time::Duration::from_secs(5) {
        let done = executor.poll(&sleep_step);
        if let Some(&result) = done.first() {
            assert_eq!(result, "done");
            assert!(executor.is_empty());
            return;
        }
    }

    panic!("Future should have completed");
}

#[test]
fn bench_executor_many_tasks() {
    let mut executor = Executor::new();
    for i in 0..1000u64 {
        executor.spawn(i);
    }
    assert_eq!(executor.len(), 1000);
    let done = executor.poll(&|i: u64| -> Step<u64, u64> { Step::Ready(i * 2) });
    assert_eq!(done.len(), 1000);
    assert!(executor.is_empty());
    for (i, v) in done.iter().enumerate() {
        assert_eq!(*v, 2 * i as u64);
    }
}

#[test]
fn test_concurrent_async_operations() {
    let mut executor = Executor::new();
    let durations = vec![50u64, 30, 20, 40, 10];
    let start = Instant::now();
    for (i, &duration) in durations.iter().enumerate() {
        executor.spawn((i, Sleep::new(Duration::from_millis(duration))));
    }
    let step = |(i, s): (usize, Sleep)| -> Step<(usize, Sleep), (usize, std::time::Duration)> {
        if s.poll().is_ready() {
            Step::Ready((i, start.elapsed()))
        } else {
            Step::Pending((i, s))
        }
    };

    let mut results = Vec::new();
    while results.len() < durations.len() && start.elapsed() < std::time::Duration::from_secs(5) {
        results.extend(executor.poll(&step));
    }

    assert_eq!(results.len(), durations.len());
    results.sort_by_key(|(_, elapsed)| *elapsed);
    // The task with 10ms sleep should complete first (id=4)
    // The task with 50ms sleep should complete last (id=0)
    assert_eq!(results[0].0, 4);
    assert_eq!(results[4].0, 0);
}

#[test]
fn sweep_keeps_pending_tasks_in_order() {
    let mut executor = Executor::new();
    for i in 0..6u32 {
        executor.spawn(i);
    }
    // Odd tasks finish on this sweep; even ones stay pending.
    let done = executor.poll(&|i: u32| -> Step<u32, u32> {
        if i % 2 == 1 {
            Step::Ready(i * 10)
        } else {
            Step::Pending(i)
        }
    });
    assert_eq!(done, vec![10, 30, 50]);
    assert_eq!(executor.polling, vec![0, 2, 4]);
    // Finished tasks are never stepped again: the next sweep sees only the rest.
    let seen = std::cell::RefCell::new(Vec::new());
    let done = executor.poll(&|i: u32| -> Step<u32, u32> {
        seen.borrow_mut().push(i);
        Step::Ready(i)
    });
    assert_eq!(seen.into_inner(), vec![0, 2, 4]);
    assert_eq!(done, vec![0, 2, 4]);
    assert!(executor.is_empty());
}

#[test]
fn every_task_yields_exactly_once_over_sweeps() {
    // Task i needs i + 1 steps; each yields its own value once.
    let mut executor = Executor::new();
    let n = 8u32;
    for i in 0..n {
        executor.spawn((i, i));
    }
    let step = |(id, left): (u32, u32)| -> Step<(u32, u32), u32> {
        if left == 0 {
            Step::Ready(id * 3)
        } else {
            Step::Pending((id, left - 1))
        }
    };
    let mut outputs = Vec::new();
    for _ in 0..n {
        outputs.extend(executor.poll(&step));
    }
    assert!(executor.is_empty());
    assert_eq!(outputs, (0..n).map(|i| i * 3).collect::<Vec<_>>());
    assert!(executor.poll(&step).is_empty());
}
