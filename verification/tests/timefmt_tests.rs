use rops::timefmt::{format_duration, u64_to_string};

fn past(s: &str) -> String {
    format_duration(true, &s.to_string()).expect("parses")
}

fn future(s: &str) -> String {
    format_duration(false, &s.to_string()).expect("parses")
}

#[test]
fn renders_numbers_in_decimal() {
    assert_eq!(u64_to_string(0), "0");
    assert_eq!(u64_to_string(7), "7");
    assert_eq!(u64_to_string(42), "42");
    assert_eq!(u64_to_string(1234567890), "1234567890");
}

#[test]
fn seconds_bucket() {
    assert_eq!(past("30s"), "a few seconds ago");
    assert_eq!(past("44s"), "a few seconds ago");
    assert_eq!(future("30s"), "in a few seconds");
}

#[test]
fn minute_buckets() {
    assert_eq!(past("45s"), "a minute ago");
    assert_eq!(past("89s"), "a minute ago");
    assert_eq!(past("90s"), "2 minutes ago");
    assert_eq!(past("44m"), "44 minutes ago");
    assert_eq!(future("10m"), "in 10 minutes");
}

#[test]
fn hour_buckets() {
    assert_eq!(past("89m"), "an hour ago");
    assert_eq!(past("3h"), "3 hours ago");
    assert_eq!(past("21h"), "21 hours ago");
    assert_eq!(future("5h"), "in 5 hours");
}

#[test]
fn day_buckets() {
    assert_eq!(past("22h"), "a day ago");
    assert_eq!(past("35h"), "a day ago");
    assert_eq!(past("3days"), "3 days ago");
    assert_eq!(future("3days"), "in 3 days");
}

#[test]
fn month_buckets() {
    assert_eq!(past("40days"), "a month ago");
    // 5,000,000 seconds is about 1.93 average months, rounded to the nearest.
    assert_eq!(past("5000000s"), "2 months ago");
    assert_eq!(future("5000000s"), "in 2 months");
}

#[test]
fn year_buckets() {
    assert_eq!(past("500days"), "a year ago");
    // 100,000,000 seconds is about 3.2 years of twelve 30-day months.
    assert_eq!(past("100000000s"), "3 years ago");
    assert_eq!(future("100000000s"), "in 3 years");
}

#[test]
fn unparsable_duration_is_an_error() {
    assert!(format_duration(true, &"certainly not a duration".to_string()).is_err());
    assert!(format_duration(false, &"".to_string()).is_err());
}
