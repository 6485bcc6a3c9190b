use fe::fe::diagnostic::{Diagnostic, DiagnosticsQueue, FeError, DEFAULT_DURATION};

#[test]
fn a_diagnostic_expires_after_its_duration() {
    let d = Diagnostic::new("busy".to_string(), 100, 30);
    assert_eq!(d.message, "busy");
    assert_eq!(d.start_time, 100);
    assert_eq!(d.expires_at, 130);
    assert_eq!(d.id, 0);
    assert!(d.is_live(129));
    assert!(!d.is_live(130));
    assert!(!d.is_live(131));
}

#[test]
fn the_default_duration_is_five() {
    assert_eq!(DEFAULT_DURATION, 5);
    let d = Diagnostic::default("hello".to_string(), 7);
    assert_eq!(d.expires_at, 12);
    assert_eq!(d.message, "hello");
}

#[test]
fn time_ends_at_the_largest_value_of_the_clock() {
    let d = Diagnostic::new("late".to_string(), u64::MAX - 2, 5);
    assert_eq!(d.expires_at, u64::MAX);
    assert!(d.is_live(u64::MAX - 1));
    assert!(!d.is_live(u64::MAX));
}

#[test]
fn an_error_is_reported_with_its_text() {
    for err in [
        FeError::Io("NotFound".to_string()),
        FeError::Persistence("NotFound".to_string()),
        FeError::Spawn("NotFound".to_string()),
        FeError::Logic("NotFound".to_string()),
    ] {
        assert_eq!(err.text(), "NotFound");
        let d = Diagnostic::from_err(&err, 1);
        assert_eq!(d.message, "error: NotFound");
        assert_eq!(d.expires_at, 6);
    }
}

#[test]
fn the_queue_numbers_what_it_holds() {
    let mut queue = DiagnosticsQueue::new();
    assert_eq!(queue.len(), 0);
    let a = queue.push_message("a".to_string(), 0);
    let b = queue.push(Diagnostic::new("b".to_string(), 0, 100));
    let c = queue.push_error(&FeError::Io("c".to_string()), 2);
    assert_eq!((a, b, c), (1, 2, 3));
    let held: Vec<(u64, String, u64)> =
        queue.entries().iter().map(|d| (d.id, d.message.clone(), d.expires_at)).collect();
    assert_eq!(
        held,
        vec![
            (1, "a".to_string(), 5),
            (2, "b".to_string(), 100),
            (3, "error: c".to_string(), 7)
        ]
    );
}

#[test]
fn a_prune_removes_what_has_expired_and_nothing_else() {
    let mut queue = DiagnosticsQueue::new();
    queue.push(Diagnostic::new("short".to_string(), 0, 1));
    queue.push(Diagnostic::new("long".to_string(), 0, 10));
    queue.push(Diagnostic::new("mid".to_string(), 0, 5));
    queue.prune(0);
    assert_eq!(queue.len(), 3);
    queue.prune(1);
    let left: Vec<&str> = queue.entries().iter().map(|d| d.message.as_str()).collect();
    assert_eq!(left, vec!["long", "mid"]);
    queue.prune(5);
    let left: Vec<&str> = queue.entries().iter().map(|d| d.message.as_str()).collect();
    assert_eq!(left, vec!["long"]);
    queue.prune(10);
    assert_eq!(queue.len(), 0);
    queue.prune(11);
    assert_eq!(queue.len(), 0);
}

#[test]
fn a_dismissal_removes_one_diagnostic() {
    let mut queue = DiagnosticsQueue::new();
    let a = queue.push_message("a".to_string(), 0);
    let b = queue.push_message("b".to_string(), 0);
    let c = queue.push_message("c".to_string(), 0);
    assert!(queue.dismiss(b));
    let left: Vec<u64> = queue.entries().iter().map(|d| d.id).collect();
    assert_eq!(left, vec![a, c]);
    assert!(!queue.dismiss(b));
    assert!(!queue.dismiss(99));
    assert_eq!(queue.len(), 2);
    let d = queue.push_message("d".to_string(), 0);
    assert_eq!(d, 4);
}
