use rtop::domain::process::{PriorityClass, ProcState};

#[test]
fn proc_state_display_names() {
    assert_eq!(ProcState::Running.to_string(), "Running");
    assert_eq!(ProcState::Unknown.to_string(), "Unknown");
}

#[test]
fn priority_class_ordering() {
    assert!(PriorityClass::Idle < PriorityClass::BelowNormal);
    assert!(PriorityClass::BelowNormal < PriorityClass::Normal);
    assert!(PriorityClass::Normal < PriorityClass::AboveNormal);
    assert!(PriorityClass::AboveNormal < PriorityClass::High);
    assert!(PriorityClass::High < PriorityClass::Realtime);
}

#[test]
fn priority_class_display() {
    assert_eq!(PriorityClass::Normal.to_string(), "Normal");
    assert_eq!(PriorityClass::Realtime.to_string(), "Realtime");
    assert_eq!(PriorityClass::Idle.to_string(), "Idle");
}
