//! Reading OpenStreetMap data from the binary PBF container.
//!
//! The crate decodes the framed blob stream, the protocol-buffer block schema,
//! the delta-coded columns and the interned strings of a PBF file into typed
//! nodes, ways and relations. Every function carries a contract that Verus
//! proves; the few calls into other crates are isolated in small wrappers whose
//! contracts are stated beside them.
use vstd::prelude::*;

pub mod error;
pub mod delta;
pub mod wire;
pub mod encoding;
pub mod fields;
pub mod message;
pub mod fileformat;
pub mod osmformat;
pub mod strings;
pub mod decode;
pub mod block;
pub mod pbf;
pub mod framer;
pub mod reader;
pub mod node_id_pos;
pub mod text;
pub mod opl;
pub mod coords;
pub mod timestamp;
pub mod timestamp_order;
pub mod changesets;
pub mod objects;
pub mod arc_types;

verus! {

/// Type that stores the OSM Id
pub type ObjId = i64;

/// How many nanodegrees are represented by each unit of a coordinate's inner value.
/// The internal precision is that of OpenStreetMap.org, 100 nanodegrees.
pub const COORD_PRECISION_NANOS: i32 = 100;

/// The version string of this library.
pub fn version() -> (r: &'static str)
    ensures
        r@ == "0.14.0"@,
{
    "0.14.0"
}

} // verus!
