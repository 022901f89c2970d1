use mqtt_system_monitor::text::{decimal, digit};

#[test]
fn decimal_text_of_numbers() {
    assert_eq!(decimal(0), "0");
    assert_eq!(decimal(7), "7");
    assert_eq!(decimal(10), "10");
    assert_eq!(decimal(60), "60");
    assert_eq!(decimal(1883), "1883");
    assert_eq!(decimal(u64::MAX), "18446744073709551615");
}

#[test]
fn digits() {
    for d in 0..10u64 {
        assert_eq!(digit(d), d.to_string());
    }
}
