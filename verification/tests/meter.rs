use rtop::draw::meter::{Meter, METER_CHAR};

fn test_gradient() -> Vec<String> {
    (0..=100).map(|_| String::new()).collect()
}

#[test]
fn render_0_percent_all_meter_chars() {
    let meter = Meter::new(10, &test_gradient(), "");
    let result = meter.render(0);
    assert_eq!(result.matches(METER_CHAR).count(), 10);
}

#[test]
fn render_100_percent_all_meter_chars() {
    let meter = Meter::new(10, &test_gradient(), "");
    let result = meter.render(100);
    assert_eq!(result.matches(METER_CHAR).count(), 10);
}

#[test]
fn render_50_percent_all_meter_chars() {
    let meter = Meter::new(10, &test_gradient(), "");
    let result = meter.render(50);
    assert_eq!(result.matches(METER_CHAR).count(), 10);
}

#[test]
fn render_cache_hit() {
    let meter = Meter::new(20, &test_gradient(), "");
    let r1 = meter.render(75);
    let r2 = meter.render(75);
    assert_eq!(r1, r2);
    assert!(std::ptr::eq(r1, r2));
}

#[test]
fn render_clamps_out_of_range() {
    let meter = Meter::new(10, &test_gradient(), "");
    let r_neg = meter.render(-5);
    let r_over = meter.render(150);
    assert_eq!(r_neg, meter.render(0));
    assert_eq!(r_over, meter.render(100));
}
