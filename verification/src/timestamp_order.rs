//! The order of timestamps.
use std::cmp::Ordering;
use vstd::prelude::*;
use vstd::std_specs::cmp::PartialOrdSpecImpl;
use crate::timestamp::{spec_epoch_number, TimestampFormat, TimestampView};

verus! {

/// The order of two numbers of seconds.
pub open spec fn seconds_order(a: i64, b: i64) -> Ordering {
    if a < b {
        Ordering::Less
    } else if a > b {
        Ordering::Greater
    } else {
        Ordering::Equal
    }
}

/// The order of two texts: that of the first characters in which they
/// differ, by code point; a text comes before every text it begins.
pub open spec fn text_order(a: Seq<char>, b: Seq<char>) -> Ordering
    decreases a.len(),
{
    if a.len() == 0 {
        if b.len() == 0 {
            Ordering::Equal
        } else {
            Ordering::Less
        }
    } else if b.len() == 0 {
        Ordering::Greater
    } else if a[0] < b[0] {
        Ordering::Less
    } else if a[0] > b[0] {
        Ordering::Greater
    } else {
        text_order(a.drop_first(), b.drop_first())
    }
}

/// Compares two texts with the `Ord` of `str`.
///
/// The standard library documents that strings are ordered lexicographically
/// by their bytes, which is the order of their code points.
#[verifier::external_body]
fn compare_text(a: &str, b: &str) -> (r: Ordering)
    ensures
        r == text_order(a@, b@),
{
    a.cmp(b)
}

/// Compares two numbers of seconds.
pub fn compare_seconds(a: i64, b: i64) -> (r: Ordering)
    ensures
        r == seconds_order(a, b),
{
    if a < b {
        Ordering::Less
    } else if a > b {
        Ordering::Greater
    } else {
        Ordering::Equal
    }
}

/// The order of two timestamps: two ISO strings are ordered as texts, two
/// numbers as numbers, a string and a number by the seconds they stand for.
pub open spec fn timestamp_order(a: TimestampView, b: TimestampView) -> Ordering {
    match (a, b) {
        (TimestampView::ISOString(x), TimestampView::ISOString(y)) => text_order(x, y),
        (TimestampView::EpochNunber(x), TimestampView::EpochNunber(y)) => seconds_order(x, y),
        (x, y) => seconds_order(spec_epoch_number(x), spec_epoch_number(y)),
    }
}

impl PartialOrd for TimestampFormat {
    fn partial_cmp(&self, other: &Self) -> (r: Option<Ordering>) {
        match self {
            TimestampFormat::ISOString(a) => match other {
                TimestampFormat::ISOString(b) => Some(compare_text(a.as_str(), b.as_str())),
                TimestampFormat::EpochNunber(_) => Some(
                    compare_seconds(self.to_epoch_number(), other.to_epoch_number()),
                ),
            },
            TimestampFormat::EpochNunber(a) => match other {
                TimestampFormat::ISOString(_) => Some(
                    compare_seconds(self.to_epoch_number(), other.to_epoch_number()),
                ),
                TimestampFormat::EpochNunber(b) => Some(compare_seconds(*a, *b)),
            },
        }
    }
}

impl PartialOrdSpecImpl for TimestampFormat {
    open spec fn obeys_partial_cmp_spec() -> bool {
        true
    }

    open spec fn partial_cmp_spec(&self, other: &Self) -> Option<Ordering> {
        Some(timestamp_order(self@, other@))
    }
}

} // verus!
