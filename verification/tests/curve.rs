use ipmi_fan_control::config::Step;
use ipmi_fan_control::curve::compute;

fn steps(points: &[(u8, u8)]) -> Vec<Step> {
    points.iter().map(|&(temp, dcycle)| Step { temp, dcycle }).collect()
}

#[test]
fn interpolates_between_steps() {
    let table = steps(&[(40, 20), (60, 50), (80, 100)]);
    assert_eq!(compute(50, &table), 35);
}

#[test]
fn clamps_below_lowest_step() {
    let table = steps(&[(40, 20), (60, 50), (80, 100)]);
    assert_eq!(compute(39, &table), 20);
    assert_eq!(compute(0, &table), 20);
}

#[test]
fn clamps_above_highest_step() {
    let table = steps(&[(40, 20), (60, 50), (80, 100)]);
    assert_eq!(compute(90, &table), 100);
    assert_eq!(compute(255, &table), 100);
}

#[test]
fn exact_step_returns_its_duty_cycle() {
    let table = steps(&[(40, 20), (60, 50), (80, 100)]);
    assert_eq!(compute(40, &table), 20);
    assert_eq!(compute(60, &table), 50);
    assert_eq!(compute(80, &table), 100);
}

#[test]
fn empty_table_defaults_to_full() {
    let table: Vec<Step> = Vec::new();
    assert_eq!(compute(70, &table), 100);
}

#[test]
fn single_step_is_flat_everywhere() {
    let table = steps(&[(50, 30)]);
    assert_eq!(compute(0, &table), 30);
    assert_eq!(compute(50, &table), 30);
    assert_eq!(compute(255, &table), 30);
}

#[test]
fn interpolation_truncates_toward_zero() {
    let table = steps(&[(0, 0), (3, 10)]);
    // 1 * 10 / 3 = 3.33..., truncated.
    assert_eq!(compute(1, &table), 3);
    assert_eq!(compute(2, &table), 6);
}

#[test]
fn monotonic_over_whole_range() {
    let table = steps(&[(30, 10), (45, 25), (60, 50), (75, 80), (90, 100)]);
    let mut prev: u8 = 0;
    for temp in 0..=255u16 {
        let d = compute(temp as u8, &table);
        assert!(d >= prev);
        prev = d;
    }
}

#[test]
fn bracketed_by_neighbouring_steps() {
    let table = steps(&[(30, 10), (60, 50), (90, 100)]);
    for temp in 30..=60u8 {
        let d = compute(temp, &table);
        assert!((10..=50).contains(&d));
    }
    for temp in 60..=90u8 {
        let d = compute(temp, &table);
        assert!((50..=100).contains(&d));
    }
}
