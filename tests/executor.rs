use mini_tokio::delay::{delay, remaining, TimerAction};
use mini_tokio::scheduler::{spawn, MiniTokio, TaskStatus};

#[test]
fn ready_at_first_poll_is_polled_once() {
    let mut rt = MiniTokio::new();
    let id = rt.spawn();
    let mut polls: u64 = 0;
    while let Some(t) = rt.next_task() {
        assert_eq!(t, id);
        polls += 1;
        rt.finish_poll(true);
    }
    assert_eq!(polls, 1);
    assert_eq!(rt.status(id), Some(TaskStatus::Done));
    rt.wake(id);
    assert_eq!(rt.next_task(), None);
}

#[test]
fn pending_n_times_is_polled_n_plus_one_times() {
    let n: u64 = 5;
    let mut rt = MiniTokio::new();
    let id = rt.spawn();
    let mut polls: u64 = 0;
    while let Some(t) = rt.next_task() {
        assert_eq!(t, id);
        polls += 1;
        if polls <= n {
            rt.wake(t);
            rt.finish_poll(false);
        } else {
            rt.finish_poll(true);
        }
    }
    assert_eq!(polls, n + 1);
    assert_eq!(rt.status(id), Some(TaskStatus::Done));
}

#[test]
fn pending_without_wake_stays_idle() {
    let mut rt = MiniTokio::new();
    let id = rt.spawn();
    assert_eq!(rt.next_task(), Some(id));
    rt.finish_poll(false);
    assert_eq!(rt.status(id), Some(TaskStatus::Idle));
    assert_eq!(rt.next_task(), None);
}

#[test]
fn repeated_wakes_queue_a_task_once() {
    let mut rt = MiniTokio::new();
    let id = rt.spawn();
    assert_eq!(rt.next_task(), Some(id));
    rt.finish_poll(false);
    rt.wake(id);
    rt.wake(id);
    rt.wake(id);
    assert_eq!(rt.status(id), Some(TaskStatus::Queued));
    assert_eq!(rt.next_task(), Some(id));
    rt.finish_poll(false);
    assert_eq!(rt.next_task(), None);
}

#[test]
fn wakes_during_a_poll_requeue_once() {
    let mut rt = MiniTokio::new();
    let id = rt.spawn();
    assert_eq!(rt.next_task(), Some(id));
    rt.wake(id);
    rt.wake(id);
    assert_eq!(rt.status(id), Some(TaskStatus::Running { woken: true }));
    rt.finish_poll(false);
    assert_eq!(rt.next_task(), Some(id));
    rt.finish_poll(true);
    assert_eq!(rt.next_task(), None);
}

#[test]
fn stale_wakes_change_nothing() {
    let mut rt = MiniTokio::new();
    rt.wake(99);
    assert_eq!(rt.next_task(), None);
    let id = rt.spawn();
    assert_eq!(rt.next_task(), Some(id));
    rt.finish_poll(true);
    rt.wake(id);
    rt.wake(id + 1);
    assert_eq!(rt.status(id), Some(TaskStatus::Done));
    assert_eq!(rt.status(id + 1), None);
    assert_eq!(rt.next_task(), None);
    assert_eq!(rt.task_count(), 1);
}

#[test]
fn tasks_run_in_spawn_order() {
    let mut rt = MiniTokio::new();
    assert_eq!(rt.spawn(), 0);
    assert_eq!(rt.spawn(), 1);
    assert_eq!(rt.spawn(), 2);
    for expected in 0..3u64 {
        assert_eq!(rt.next_task(), Some(expected));
        rt.finish_poll(true);
    }
    assert_eq!(rt.next_task(), None);
}

#[test]
fn one_poll_at_a_time() {
    let mut rt = MiniTokio::new();
    let a = rt.spawn();
    let b = rt.spawn();
    assert_eq!(rt.next_task(), Some(a));
    assert_eq!(rt.running(), Some(a));
    assert_eq!(rt.next_task(), None);
    rt.finish_poll(true);
    assert_eq!(rt.running(), None);
    assert_eq!(rt.next_task(), Some(b));
}

#[test]
fn spawn_on_current_executor() {
    let mut current = Some(MiniTokio::new());
    assert_eq!(spawn(&mut current), 0);
    assert_eq!(spawn(&mut current), 1);
    let rt = current.as_mut().unwrap();
    assert_eq!(rt.next_task(), Some(0));
}

#[test]
fn delay_is_ready_only_at_its_deadline() {
    let mut d = delay(1_000, 500);
    assert_eq!(d.when, 1_500);
    assert_eq!(d.poll(1_000, 3), (false, TimerAction::Start { task: 3 }));
    assert_eq!(d.poll(1_499, 3), (false, TimerAction::Keep));
    assert_eq!(d.poll(1_500, 3), (true, TimerAction::Keep));
}

#[test]
fn delay_follows_the_polling_task() {
    let mut d = delay(0, 10);
    assert_eq!(d.poll(1, 0), (false, TimerAction::Start { task: 0 }));
    assert_eq!(d.poll(2, 4), (false, TimerAction::Retarget { task: 4 }));
    assert_eq!(d.waker, Some(4));
    assert_eq!(d.poll(3, 4), (false, TimerAction::Keep));
}

#[test]
fn zero_delay_is_ready_at_once() {
    let mut d = delay(42, 0);
    assert_eq!(d.poll(42, 1), (true, TimerAction::Start { task: 1 }));
}

#[test]
fn remaining_time_until_deadline() {
    assert_eq!(remaining(100, 250), 150);
    assert_eq!(remaining(250, 250), 0);
    assert_eq!(remaining(300, 250), 0);
}

#[test]
fn sequential_delays_take_their_sum() {
    let start: u64 = 0;
    let first = delay(start, 100);
    let mut now = start;
    while now < first.when {
        now += 7;
    }
    let second = delay(now, 50);
    assert!(second.when >= start + 150);
}

/// Task A awaits a 100 ms delay and then says "world"; task B says "hello" at
/// once. The executor runs on a simulated clock that jumps to the next timer
/// whenever nothing is ready.
#[test]
fn hello_before_world() {
    let ms: u64 = 1_000_000;
    let mut rt = MiniTokio::new();
    let mut now: u64 = 0;
    let mut out: Vec<&str> = Vec::new();
    let mut timers: Vec<(u64, u64)> = Vec::new();
    let a = rt.spawn();
    let b = rt.spawn();
    let mut a_delay = None;
    loop {
        match rt.next_task() {
            Some(t) if t == a => {
                let d = a_delay.get_or_insert_with(|| delay(now, 100 * ms));
                let (ready, action) = d.poll(now, t);
                if let TimerAction::Start { task } = action {
                    timers.push((remaining(now, d.when), task));
                }
                if ready {
                    out.push("world");
                }
                rt.finish_poll(ready);
            }
            Some(t) if t == b => {
                out.push("hello");
                rt.finish_poll(true);
            }
            Some(_) => unreachable!(),
            None => match timers.pop() {
                Some((sleep, task)) => {
                    now += sleep;
                    rt.wake(task);
                }
                None => break,
            },
        }
    }
    assert_eq!(out, vec!["hello", "world"]);
    assert!(now >= 100 * ms);
}
