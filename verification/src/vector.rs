//! Vector layer records.
//!
//! Vector files are opened and converted to GeoJSON by the unverified
//! shell; the library holds the plain record describing a layer's fields.

use vstd::prelude::*;

verus! {

/// One attribute field of a vector layer: its name and the name of its
/// type.
#[derive(Clone, Debug)]
pub struct FieldInfo {
    pub name: String,
    pub field_type: String,
}

} // verus!
