use ipmi_fan_control::aggregate::{aggregate, sort_descending};
use ipmi_fan_control::config::Aggregation;

#[test]
fn maximum_takes_highest_reading() {
    let readings = vec![70u8, 60, 50];
    assert_eq!(aggregate(&readings, Aggregation::Maximum), 70);
}

#[test]
fn average_of_top_two() {
    let readings = vec![70u8, 60, 50];
    assert_eq!(aggregate(&readings, Aggregation::Average { top: Some(2) }), 65);
}

#[test]
fn average_of_all_readings() {
    let readings = vec![70u8, 60, 50];
    assert_eq!(aggregate(&readings, Aggregation::Average { top: None }), 60);
}

#[test]
fn maximum_ignores_input_order() {
    let readings = vec![50u8, 70, 60];
    assert_eq!(aggregate(&readings, Aggregation::Maximum), 70);
}

#[test]
fn average_truncates() {
    let readings = vec![70u8, 61, 50];
    // top two: (70 + 61) / 2 = 65.5, truncated.
    assert_eq!(aggregate(&readings, Aggregation::Average { top: Some(2) }), 65);
}

#[test]
fn top_larger_than_reading_count_still_divides_by_top() {
    let readings = vec![70u8, 60, 50];
    // All three readings summed, divided by the configured five.
    assert_eq!(aggregate(&readings, Aggregation::Average { top: Some(5) }), 36);
}

#[test]
fn single_reading() {
    let readings = vec![42u8];
    assert_eq!(aggregate(&readings, Aggregation::Maximum), 42);
    assert_eq!(aggregate(&readings, Aggregation::Average { top: None }), 42);
}

#[test]
fn sorts_hottest_first() {
    let readings = vec![50u8, 70, 60, 70];
    assert_eq!(sort_descending(&readings), vec![70u8, 70, 60, 50]);
}
