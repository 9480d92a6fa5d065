use ngenrs::timers::TimerQueue;

fn names(fired: &[ngenrs::timers::TimerEntry]) -> Vec<String> {
    fired.iter().map(|e| e.callback.clone()).collect()
}

#[test]
fn zero_delay_timer_fires_exactly_once() {
    let mut q = TimerQueue::new();
    let id = q.add_timer(1_000, 0, "cb".to_string()).unwrap();
    assert_eq!(id, 1);
    let first = q.poll(1_000);
    assert_eq!(first.len(), 1);
    assert_eq!(first[0].id, id);
    assert_eq!(first[0].callback, "cb");
    let second = q.poll(5_000);
    assert!(second.is_empty());
    assert_eq!(q.len(), 0);
}

#[test]
fn removed_timer_never_fires() {
    let mut q = TimerQueue::new();
    let id = q.add_timer(0, 10, "cb".to_string()).unwrap();
    assert!(q.remove_timer(id));
    assert!(q.poll(10).is_empty());
    q.add_timer(20, 0, "other".to_string()).unwrap();
    assert_eq!(names(&q.poll(u64::MAX)), vec!["other".to_string()]);
    assert!(q.poll(u64::MAX).is_empty());
}

#[test]
fn removing_absent_timer_is_a_no_op() {
    let mut q = TimerQueue::new();
    q.add_timer(0, 5, "a".to_string()).unwrap();
    assert!(!q.remove_timer(42));
    assert_eq!(q.len(), 1);
}

#[test]
fn pending_timer_is_kept_until_due() {
    let mut q = TimerQueue::new();
    q.add_timer(100, 50, "later".to_string()).unwrap();
    assert!(q.poll(149).is_empty());
    assert_eq!(q.len(), 1);
    assert_eq!(names(&q.poll(150)), vec!["later".to_string()]);
}

#[test]
fn due_timers_fire_in_expiry_order_then_id_order() {
    let mut q = TimerQueue::new();
    let a = q.add_timer(0, 30, "a".to_string()).unwrap();
    let b = q.add_timer(0, 10, "b".to_string()).unwrap();
    let c = q.add_timer(0, 30, "c".to_string()).unwrap();
    let d = q.add_timer(0, 20, "d".to_string()).unwrap();
    assert_eq!((a, b, c, d), (1, 2, 3, 4));
    let fired = q.poll(30);
    assert_eq!(
        names(&fired),
        vec!["b".to_string(), "d".to_string(), "a".to_string(), "c".to_string()]
    );
}

#[test]
fn ids_are_never_reused() {
    let mut q = TimerQueue::new();
    let a = q.add_timer(0, 0, "a".to_string()).unwrap();
    q.poll(0);
    let b = q.add_timer(0, 0, "b".to_string()).unwrap();
    assert!(b > a);
    assert_eq!(q.next_id(), b + 1);
}

#[test]
fn expiry_overflow_is_refused() {
    let mut q = TimerQueue::new();
    assert_eq!(q.add_timer(u64::MAX, 1, "x".to_string()), None);
    assert_eq!(q.len(), 0);
    assert_eq!(q.next_id(), 1);
    assert_eq!(q.add_timer(u64::MAX, 0, "y".to_string()), Some(1));
}

#[test]
fn timers_fire_once_across_interleaved_calls() {
    let mut q = TimerQueue::new();
    let mut fired: Vec<u64> = Vec::new();
    let a = q.add_timer(0, 5, "a".to_string()).unwrap();
    let b = q.add_timer(0, 15, "b".to_string()).unwrap();
    fired.extend(q.poll(10).iter().map(|e| e.id));
    let c = q.add_timer(10, 0, "c".to_string()).unwrap();
    q.remove_timer(a);
    fired.extend(q.poll(10).iter().map(|e| e.id));
    fired.extend(q.poll(20).iter().map(|e| e.id));
    fired.extend(q.poll(30).iter().map(|e| e.id));
    assert_eq!(fired, vec![a, c, b]);
}
