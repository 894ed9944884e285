use timer_platform::status::{CallbackType, TimerStatus};

#[test]
fn status_names() {
    assert_eq!(TimerStatus::Pending.to_string(), "pending");
    assert_eq!(TimerStatus::Executing.as_str(), "executing");
    assert_eq!(TimerStatus::Canceled.to_string(), "canceled");
    assert_eq!(CallbackType::Nats.to_string(), "nats");
    assert!(TimerStatus::Failed.is_terminal());
    assert!(!TimerStatus::Executing.is_terminal());
}

#[test]
fn status_parsing_ignores_case() {
    assert_eq!(TimerStatus::from_str("COMPLETED"), Ok(TimerStatus::Completed));
    assert_eq!(TimerStatus::from_str("Pending"), Ok(TimerStatus::Pending));
    assert_eq!(TimerStatus::from_str("later"), Err("Invalid timer status: later".to_string()));
    assert_eq!(TimerStatus::from_lowered("Failed"), None);
    assert_eq!(TimerStatus::from_lowered("failed"), Some(TimerStatus::Failed));
}

#[test]
fn trim_matches_std() {
    for s in ["", "   ", " a b ", "\t\nx\r\u{3000}", "\u{a0}y\u{2009}", "\u{200b}z", "plain"] {
        assert_eq!(timer_platform::text::trim(s), s.trim());
    }
}

#[test]
fn decimal_text() {
    assert_eq!(timer_platform::text::u64_text(0), "0");
    assert_eq!(timer_platform::text::u64_text(10), "10");
    assert_eq!(timer_platform::text::u64_text(u64::MAX), u64::MAX.to_string());
}
