use std::cmp::Ordering;

use osmio::timestamp::TimestampFormat;

fn iso(text: &str) -> TimestampFormat {
    TimestampFormat::ISOString(text.to_string())
}

fn parsed(text: &str) -> TimestampFormat {
    text.parse().unwrap()
}

#[test]
fn ints1() {
    let a: TimestampFormat = 0.into();
    let b: TimestampFormat = 0.into();
    assert_eq!(a.partial_cmp(&b), Some(Ordering::Equal));
}

#[test]
fn ints2() {
    let a: TimestampFormat = 0.into();
    let b: TimestampFormat = 1.into();
    assert_eq!(a.partial_cmp(&b), Some(Ordering::Less));
}

#[test]
fn ints3() {
    let a: TimestampFormat = 3.into();
    let b: TimestampFormat = 1.into();
    assert_eq!(a.partial_cmp(&b), Some(Ordering::Greater));
}

#[test]
fn isos1() {
    assert_eq!(
        parsed("2020-01-01T00:00:00Z").partial_cmp(&parsed("2020-01-01T00:00:00Z")),
        Some(Ordering::Equal)
    );
}

#[test]
fn isos2() {
    assert_eq!(
        parsed("2010-01-01T00:00:00Z").partial_cmp(&parsed("2020-01-01T00:00:00Z")),
        Some(Ordering::Less)
    );
}

#[test]
fn isos3() {
    assert_eq!(
        parsed("2020-01-01T00:00:00Z").partial_cmp(&parsed("2000-01-01T00:00:00Z")),
        Some(Ordering::Greater)
    );
}

#[test]
fn int_iso1() {
    let a: TimestampFormat = 1577836800.into();
    assert_eq!(a.partial_cmp(&parsed("2020-01-01T00:00:00Z")), Some(Ordering::Equal));
}

#[test]
fn int_iso2() {
    let b: TimestampFormat = 1577836800.into();
    assert_eq!(parsed("2020-01-01T00:00:00Z").partial_cmp(&b), Some(Ordering::Equal));
}

#[test]
fn int_iso3() {
    assert_eq!(
        TimestampFormat::EpochNunber(1577836800).partial_cmp(&iso("2020-01-01T00:00:00Z")),
        Some(Ordering::Equal)
    );
}

#[test]
fn int_iso4() {
    assert_eq!(
        iso("2020-01-01T00:00:00Z").partial_cmp(&TimestampFormat::EpochNunber(1577836800)),
        Some(Ordering::Equal)
    );
}

#[test]
fn iso_strings_are_ordered_as_texts() {
    assert_eq!(iso("a").partial_cmp(&iso("b")), Some(Ordering::Less));
    assert_eq!(iso("b").partial_cmp(&iso("a")), Some(Ordering::Greater));
    assert_eq!(iso("ab").partial_cmp(&iso("a")), Some(Ordering::Greater));
    assert_eq!(iso("").partial_cmp(&iso("a")), Some(Ordering::Less));
    assert_eq!(iso("\u{e9}").partial_cmp(&iso("z")), Some(Ordering::Greater));
    assert_eq!(iso("\u{10000}").partial_cmp(&iso("\u{ffff}")), Some(Ordering::Greater));
    assert!(iso("2010") < iso("2020"));
    assert!(TimestampFormat::EpochNunber(1) < TimestampFormat::EpochNunber(2));
}

#[test]
fn timestamps_convert_both_ways() {
    assert_eq!(TimestampFormat::EpochNunber(1).to_iso_string(), "1970-01-01T00:00:01Z");
    assert_eq!(TimestampFormat::EpochNunber(700).to_iso_string(), "1970-01-01T00:11:40Z");
    assert_eq!(TimestampFormat::EpochNunber(1577836800).to_iso_string(), "2020-01-01T00:00:00Z");
    assert_eq!(TimestampFormat::EpochNunber(-1).to_iso_string(), "1969-12-31T23:59:59Z");
    assert_eq!(iso("900 CE").to_iso_string(), "900 CE");
    assert_eq!(iso("1970-01-01T00:00:01Z").to_epoch_number(), 1);
    assert_eq!(iso("1970-01-01T00:00:01+00:00").to_epoch_number(), 1);
    assert_eq!(iso("1970-01-01T01:00:00+01:00").to_epoch_number(), 0);
    assert_eq!(iso("2020-01-01T00:00:00Z").to_epoch_number(), 1577836800);
    assert_eq!(iso("no date").to_epoch_number(), 0);
    assert_eq!(TimestampFormat::EpochNunber(-5).to_epoch_number(), -5);
}

#[test]
fn timestamps_keep_the_low_bits_of_what_does_not_fit() {
    // a second before the epoch, read from a text, counts as a 32-bit unsigned number
    assert_eq!(iso("1969-12-31T23:59:59Z").to_epoch_number(), u32::MAX as i64);
    // a number beyond 32 bits is formatted from its low 32 bits
    assert_eq!(
        TimestampFormat::EpochNunber((1i64 << 32) + 1).to_iso_string(),
        "1970-01-01T00:00:01Z"
    );
}

#[test]
fn timestamps_are_parsed_from_rfc3339() {
    assert_eq!(
        "2020-01-01T00:00:00Z".parse::<TimestampFormat>(),
        Ok(TimestampFormat::EpochNunber(1577836800))
    );
    assert_eq!(
        TimestampFormat::parse_iso("1969-12-31T23:59:59Z"),
        Ok(TimestampFormat::EpochNunber(-1))
    );
    assert_eq!("yesterday".parse::<TimestampFormat>(), Err("invalid date".to_string()));
    assert_eq!("".parse::<TimestampFormat>(), Err("invalid date".to_string()));
}

#[test]
fn timestamps_are_equal_across_forms() {
    assert_eq!(TimestampFormat::EpochNunber(1577836800), iso("2020-01-01T00:00:00Z"));
    assert_eq!(iso("2020-01-01T00:00:00Z"), TimestampFormat::EpochNunber(1577836800));
    assert_ne!(TimestampFormat::EpochNunber(1577836801), iso("2020-01-01T00:00:00Z"));
    assert_eq!(iso("x"), iso("x"));
    assert_ne!(iso("2020-01-01T00:00:00Z"), iso("2020-01-01T00:00:00+00:00"));
    assert_eq!(TimestampFormat::EpochNunber(3), TimestampFormat::from(3));
}
