use oxidized::async_syntax::Priority as RequestPriority;
use oxidized::syntax::Priority;

#[test]
fn tests_test_priority_ordering() {
    assert!(RequestPriority::Critical > RequestPriority::High);
    assert!(RequestPriority::High > RequestPriority::Medium);
    assert!(RequestPriority::Medium > RequestPriority::Low);

    // Test equality
    assert_eq!(RequestPriority::Critical, RequestPriority::Critical);
    assert_ne!(RequestPriority::High, RequestPriority::Low);
}

#[test]
fn tests_test_priority_debug() {
    let priority = RequestPriority::High;
    let debug_str = format!("{:?}", priority);
    assert_eq!(debug_str, "High");
}

#[test]
fn tests_test_priority_values() {
    // Test the numeric values are correct
    assert_eq!(RequestPriority::Low as u8, 0);
    assert_eq!(RequestPriority::Medium as u8, 1);
    assert_eq!(RequestPriority::High as u8, 2);
    assert_eq!(RequestPriority::Critical as u8, 3);
}

#[test]
fn tests_test_priority_clone_and_copy() {
    let priority = RequestPriority::High;
    let cloned = priority.clone();
    let copied = priority;

    assert_eq!(priority, cloned);
    assert_eq!(priority, copied);
}

#[test]
fn syntax_test_priority_ordering() {
    assert!(Priority::Critical > Priority::High);
    assert!(Priority::High > Priority::Medium);
    assert!(Priority::Medium > Priority::Low);

    // Test equality
    assert_eq!(Priority::Critical, Priority::Critical);
    assert_ne!(Priority::High, Priority::Low);
}

#[test]
fn syntax_test_priority_debug() {
    let priority = Priority::High;
    let debug_str = format!("{:?}", priority);
    assert_eq!(debug_str, "High");
}

#[test]
fn syntax_test_priority_values() {
    // Test the numeric values are correct
    assert_eq!(Priority::Low as u8, 0);
    assert_eq!(Priority::Medium as u8, 1);
    assert_eq!(Priority::High as u8, 2);
    assert_eq!(Priority::Critical as u8, 3);
}

#[test]
fn syntax_test_priority_clone_and_copy() {
    let priority = Priority::High;
    let cloned = priority.clone();
    let copied = priority;

    assert_eq!(priority, cloned);
    assert_eq!(priority, copied);
}
