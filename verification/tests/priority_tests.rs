use tasklist::models::Priority;

#[test]
fn test_priority_to_int() {
    assert_eq!(Priority::Low.to_int(), 0);
    assert_eq!(Priority::Medium.to_int(), 1);
    assert_eq!(Priority::High.to_int(), 2);
}

#[test]
fn test_priority_from_int() {
    assert!(matches!(Priority::from_int(0), Priority::Low));
    assert!(matches!(Priority::from_int(1), Priority::Medium));
    assert!(matches!(Priority::from_int(2), Priority::High));
    assert!(matches!(Priority::from_int(99), Priority::Medium)); // Default case
}

#[test]
fn test_priority_enum_variants() {
    // Test that all priority variants exist
    let _low = Priority::Low;
    let _medium = Priority::Medium;
    let _high = Priority::High;
}

#[test]
fn test_priority_ordering() {
    // Test that priorities are ordered correctly
    let priorities = vec![Priority::Low, Priority::Medium, Priority::High];
    let int_values: Vec<i32> = priorities.iter().map(|p| p.to_int()).collect();

    assert_eq!(int_values, vec![0, 1, 2]);
}

#[test]
fn test_priority_roundtrip() {
    // Test that priority conversion is reversible
    let original = Priority::High;
    let int_value = original.to_int();
    let converted = Priority::from_int(int_value);

    assert!(matches!(converted, Priority::High));
}

#[test]
fn test_invalid_priority_handling() {
    // Test that invalid priority values default to Medium
    let invalid_priority = Priority::from_int(999);
    assert!(matches!(invalid_priority, Priority::Medium));
}
