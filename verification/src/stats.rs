//! Band statistics defaults.
//!
//! Band minimum/maximum come from the raster library (or from embedded
//! statistics metadata); mean and standard deviation are then approximated
//! from them by the shell. For remote rasters without embedded statistics a
//! data-type default range allows instant display before real statistics
//! are available. The table is exact in tenths, so that the unit-range
//! default for floating-point samples needs no fractional values here.

use vstd::prelude::*;

verus! {

/// The sample data type of a raster band, as far as the default ranges
/// distinguish them.
#[derive(Clone, Copy, Debug, PartialEq, Eq, Structural)]
pub enum RasterDataType {
    UInt8,
    Int8,
    UInt16,
    Int16,
    UInt32,
    Float32,
    Float64,
    Other,
}

/// The default display range of a data type, as
/// (min, max, mean, standard deviation) in tenths.
pub fn default_stats_tenths(t: RasterDataType) -> (r: (i64, i64, i64, i64))
    ensures
        t is UInt8 ==> r == (0i64, 2550i64, 1280i64, 640i64),
        t is Int8 ==> r == (-1280i64, 1270i64, 0i64, 640i64),
        t is UInt16 ==> r == (0i64, 100000i64, 30000i64, 20000i64),
        t is Int16 ==> r == (-100000i64, 100000i64, 0i64, 20000i64),
        t is UInt32 ==> r == (0i64, 100000i64, 30000i64, 20000i64),
        t is Float32 || t is Float64 ==> r == (0i64, 10i64, 3i64, 2i64),
        t is Other ==> r == (0i64, 100000i64, 30000i64, 20000i64),
{
    match t {
        RasterDataType::UInt8 => (0, 2550, 1280, 640),
        RasterDataType::Int8 => (-1280, 1270, 0, 640),
        RasterDataType::UInt16 => (0, 100000, 30000, 20000),
        RasterDataType::Int16 => (-100000, 100000, 0, 20000),
        RasterDataType::UInt32 => (0, 100000, 30000, 20000),
        RasterDataType::Float32 => (0, 10, 3, 2),
        RasterDataType::Float64 => (0, 10, 3, 2),
        RasterDataType::Other => (0, 100000, 30000, 20000),
    }
}

} // verus!
