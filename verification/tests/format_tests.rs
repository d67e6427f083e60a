use wdr_maus::textfmt::{format_duration, format_filesize};

#[test]
fn format_duration_works() {
    assert_eq!("0 min 42.00 sec", format_duration(42_000));
    assert_eq!("1 min 22.00 sec", format_duration(82_000));
}

#[test]
fn format_filesize_works() {
    assert_eq!("0.0kB", format_filesize(0));
    assert_eq!("12.1kB", format_filesize(12_345));
    assert_eq!("120.6kB", format_filesize(123_456));
    assert_eq!("117.7MB", format_filesize(123_456_789));
}

#[test]
fn format_duration_fractions_round_half_up() {
    assert_eq!("0 min 0.00 sec", format_duration(0));
    assert_eq!("0 min 1.50 sec", format_duration(1_500));
    assert_eq!("2 min 0.01 sec", format_duration(120_014));
    assert_eq!("1 min 59.99 sec", format_duration(119_994));
}

#[test]
fn format_filesize_switches_to_megabytes_at_990kb() {
    assert_eq!("989.9kB", format_filesize(990 * 1024 - 103));
    assert_eq!("990.0kB", format_filesize(990 * 1024 - 1));
    assert_eq!("1.0MB", format_filesize(990 * 1024));
}
