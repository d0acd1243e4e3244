use traceline::fail::{fail, Fail, MapOption};
use traceline::locate::ErrDetails;
use traceline::sink::format_log;
use traceline::text::u64_to_string;

fn place() -> ErrDetails {
    ErrDetails::new("file.rs".to_string(), 3, "m::f".to_string())
}

#[test]
fn fail_yields_exactly_one_location() {
    let r: traceline::Attempt<u32> = fail(place(), "boom".to_string());
    match r {
        Err(f) => assert_eq!(f.places_len(), 1),
        Ok(_) => panic!("fail returned a success"),
    }
}

#[test]
fn show_renders_location_then_message() {
    let f = Fail::new(place(), "boom".to_string());
    assert_eq!(f.show(), "\n\t0 - file.rs, 3, m::f\n\n\tError: boom");
}

#[test]
fn show_always_renders_the_first_location() {
    let f = Fail::new(place(), String::new());
    let shown = f.show();
    assert!(shown.starts_with("\n\t0 - file.rs, 3, m::f\n"));
}

#[test]
fn from_debug_carries_the_rendering() {
    let f = Fail::from_debug(place(), "Custom { code: 2 }".to_string());
    assert_eq!(f.message(), "Custom { code: 2 }");
    assert_eq!(f.places_len(), 1);
}

#[test]
fn option_attempt_keeps_the_value() {
    let f = Fail::new(place(), "absent".to_string());
    let r: traceline::Attempt<u32> = Some(5u32).attempt(f);
    assert_eq!(r.ok(), Some(5));
}

#[test]
fn option_attempt_raises_the_given_failure() {
    let f = Fail::new(place(), "absent".to_string());
    let r: traceline::Attempt<u32> = None.attempt(f);
    match r {
        Err(e) => {
            assert_eq!(e.message(), "absent");
            assert_eq!(e.places_len(), 1);
        },
        Ok(_) => panic!("attempt on None returned a success"),
    }
}

#[test]
fn decimal_rendering_exact_values() {
    assert_eq!(u64_to_string(0), "0");
    assert_eq!(u64_to_string(7), "7");
    assert_eq!(u64_to_string(5000), "5000");
    assert_eq!(u64_to_string(1089), "1089");
    assert_eq!(u64_to_string(18446744073709551615), "18446744073709551615");
}

#[test]
fn log_entry_format_exact() {
    assert_eq!(format_log(12, 34, "X"), "\nTime: 12, PID: 34X");
}

#[test]
fn log_entry_ends_with_payload() {
    let entry = format_log(1700000000, 4242, "finished step");
    assert!(entry.ends_with("finished step"));
    assert!(entry.starts_with("\nTime: 1700000000, PID: 4242"));
}

#[test]
fn log_entries_keep_timestamp_order() {
    // entries formatted from a non-decreasing clock render non-decreasing
    // timestamps in their `Time:` field
    let first = format_log(100, 1, "a");
    let second = format_log(101, 1, "b");
    assert_eq!(first, "\nTime: 100, PID: 1a");
    assert_eq!(second, "\nTime: 101, PID: 1b");
}
