use rpg_battle::frame::{animation_time_left, delay_finished, next_frame, FrameChangeEvent};
use rpg_battle::runtime::{runtime_update, spawn, Runtime};
use rpg_battle::task::{JoinHandle, Task};

#[test]
fn tasks_are_polled_in_spawn_order_with_fresh_ids() {
    let mut rt: Runtime<&str> = Runtime::new();
    spawn(&mut rt, "a");
    spawn(&mut rt, "b");
    assert_eq!(rt.ready_len(), 2);
    let first = runtime_update(&mut rt, None);
    assert_eq!(first, Some((0, "a")));
    assert!(rt.is_polling());
    let second = runtime_update(&mut rt, Some(("a", false)));
    assert_eq!(second, Some((1, "b")));
    let done = runtime_update(&mut rt, Some(("b", false)));
    assert_eq!(done, None);
    assert!(!rt.is_polling());
    assert_eq!(rt.parked_len(), 0);
    assert_eq!(rt.next_task_id(), 2);
}

#[test]
fn pending_task_is_parked_and_returns_on_wake() {
    let mut rt: Runtime<u32> = Runtime::new();
    spawn(&mut rt, 7);
    let (id, task) = runtime_update(&mut rt, None).unwrap();
    assert_eq!((id, task), (0, 7));
    assert_eq!(runtime_update(&mut rt, Some((task, true))), None);
    assert_eq!(rt.parked_len(), 1);
    assert_eq!(rt.ready_len(), 0);
    rt.wake(id);
    assert_eq!(rt.parked_len(), 0);
    assert_eq!(rt.ready_len(), 1);
    assert_eq!(runtime_update(&mut rt, None), Some((1, 7)));
}

#[test]
fn finished_task_is_dropped() {
    let mut rt: Runtime<u32> = Runtime::new();
    spawn(&mut rt, 1);
    let (_, t) = runtime_update(&mut rt, None).unwrap();
    assert_eq!(runtime_update(&mut rt, Some((t, false))), None);
    assert_eq!(rt.parked_len(), 0);
    assert_eq!(rt.ready_len(), 0);
}

#[test]
fn pending_task_woken_during_its_poll_is_let_go() {
    let mut rt: Runtime<u32> = Runtime::new();
    spawn(&mut rt, 1);
    let (id, t) = runtime_update(&mut rt, None).unwrap();
    rt.wake(id);
    assert_eq!(runtime_update(&mut rt, Some((t, true))), None);
    assert_eq!(rt.parked_len(), 0);
    assert_eq!(rt.ready_len(), 0);
}

#[test]
fn stale_and_repeated_wakes_are_harmless() {
    let mut rt: Runtime<u32> = Runtime::new();
    spawn(&mut rt, 5);
    let (id, t) = runtime_update(&mut rt, None).unwrap();
    assert_eq!(runtime_update(&mut rt, Some((t, true))), None);
    rt.wake(id + 10);
    assert_eq!(rt.parked_len(), 1);
    assert_eq!(rt.ready_len(), 0);
    rt.wake(id);
    rt.wake(id);
    assert_eq!(rt.ready_len(), 1);
    assert_eq!(rt.parked_len(), 0);
}

#[test]
fn spawned_task_does_not_overtake() {
    let mut rt: Runtime<char> = Runtime::new();
    spawn(&mut rt, 'x');
    let (_, x) = runtime_update(&mut rt, None).unwrap();
    spawn(&mut rt, 'y');
    spawn(&mut rt, 'z');
    assert_eq!(runtime_update(&mut rt, Some((x, false))), Some((1, 'y')));
}

#[test]
fn frame_event_hands_out_wakers_in_order() {
    let mut ev: FrameChangeEvent<u8> = FrameChangeEvent::new();
    ev.register_callback(3);
    ev.register_callback(1);
    assert_eq!(ev.len(), 2);
    assert_eq!(ev.update(), vec![3, 1]);
    assert_eq!(ev.len(), 0);
    assert_eq!(ev.update(), Vec::<u8>::new());
}

#[test]
fn next_frame_is_pending_once() {
    let mut ev: FrameChangeEvent<u8> = FrameChangeEvent::new();
    let mut f = next_frame();
    assert!(!f.poll(&mut ev, 9));
    assert_eq!(ev.len(), 1);
    assert!(f.poll(&mut ev, 9));
    assert!(f.poll(&mut ev, 9));
    assert_eq!(ev.len(), 1);
}

#[test]
fn delays_end_strictly_after_their_length() {
    assert!(!delay_finished(5, 5));
    assert!(delay_finished(6, 5));
    assert!(!delay_finished(0, 5));
    assert_eq!(animation_time_left(100, 30), Some(70));
    assert_eq!(animation_time_left(100, 100), Some(0));
    assert_eq!(animation_time_left(100, 101), None);
}

#[test]
fn join_handle_hands_out_the_output_once() {
    let mut task: Task<(), u8> = Task::new(());
    let mut h: JoinHandle<i32> = JoinHandle::new();
    assert_eq!(h.poll(&mut task, 4), None);
    assert_eq!(task.callback_waker, Some(4));
    h.complete(42);
    assert_eq!(h.poll(&mut task, 5), Some(42));
    assert_eq!(task.callback_waker, Some(4));
    assert_eq!(h.poll(&mut task, 6), None);
    assert_eq!(task.callback_waker, Some(6));
}

#[test]
fn task_callback_is_replaced() {
    let mut task: Task<u8, u8> = Task::new(1);
    assert_eq!(task.callback_waker, None);
    task.register_callback(2);
    task.register_callback(3);
    assert_eq!(task.callback_waker, Some(3));
    assert_eq!(task.future, 1);
}
