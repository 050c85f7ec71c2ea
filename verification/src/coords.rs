//! Latitude and longitude as fixed-point numbers.
use vstd::prelude::*;

verus! {

/// A latitude, stored as a 32-bit signed integer in units of 100 nanodegrees:
/// seven decimal places, the precision of OpenStreetMap.
#[derive(Copy, Clone, PartialEq, Eq, PartialOrd, Ord, Debug, Structural)]
pub struct Lat(pub i32);

/// A longitude, stored as a 32-bit signed integer in units of 100 nanodegrees.
#[derive(Copy, Clone, PartialEq, Eq, PartialOrd, Ord, Debug, Structural)]
pub struct Lon(pub i32);

impl Lat {
    /// Builds a latitude from its inner representation, which is degrees times
    /// ten million.
    pub fn from_inner(inner: i32) -> (r: Self)
        ensures
            r == Lat(inner),
    {
        Lat(inner)
    }

    /// The inner representation: degrees times ten million.
    pub fn inner(&self) -> (r: i32)
        ensures
            r == self.0,
    {
        self.0
    }
}

impl Lon {
    /// Builds a longitude from its inner representation, which is degrees
    /// times ten million.
    pub fn from_inner(inner: i32) -> (r: Self)
        ensures
            r == Lon(inner),
    {
        Lon(inner)
    }

    /// The inner representation: degrees times ten million.
    pub fn inner(&self) -> (r: i32)
        ensures
            r == self.0,
    {
        self.0
    }
}

} // verus!
