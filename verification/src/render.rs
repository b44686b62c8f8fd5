//! Tile rendering: compositing the sampled channels and encoding the RGBA
//! buffer as PNG.
//!
//! The unverified shell samples the raster and normalizes each sample to an
//! `Option<u8>` (the stretch/gamma step); rendering from there on is
//! verified. A tile whose bounds do not intersect the source is rendered
//! without any samples and comes out fully transparent.

use crate::composite::{
    compose_gray, compose_rgb, gray_rgba, rgb_rgba, transparent_buffer, transparent_rgba,
};
use crate::tile::TileRequest;
use vstd::prelude::*;

verus! {

/// The PNG encoding of an RGBA buffer of `size` × `size` pixels.
/// The encoder is deterministic: the bytes depend on the buffer and the
/// size alone.
pub uninterp spec fn png_of(rgba: Seq<u8>, size: nat) -> Seq<u8>;

/// Relies on image::ImageBuffer::from_raw and ImageBuffer::write_to with
/// the PNG format: from_raw accepts a container of at least
/// width × height × 4 bytes (the precondition pins it exactly), and the
/// PNG encoder writes a deterministic function of the pixel data and
/// dimensions into the memory buffer, failing only for an image with zero
/// width or height.
#[verifier::external_body]
fn encode_png(rgba: &Vec<u8>, size: usize) -> (r: Result<Vec<u8>, String>)
    requires
        rgba@.len() == size * size * 4,
        size <= u32::MAX,
    ensures
        size >= 1 ==> r is Ok,
        r is Ok ==> r.unwrap()@ == png_of(rgba@, size as nat),
{
    let img: image::ImageBuffer<image::Rgba<u8>, Vec<u8>> =
        match image::ImageBuffer::from_raw(size as u32, size as u32, rgba.clone()) {
        Some(i) => i,
        None => {
            return Err("Failed to create image buffer".to_string());
        },
    };
    let mut bytes: Vec<u8> = Vec::new();
    let mut cursor = std::io::Cursor::new(&mut bytes);
    match img.write_to(&mut cursor, image::ImageFormat::Png) {
        Ok(()) => Ok(bytes),
        Err(e) => Err(format!("Failed to encode PNG: {}", e)),
    }
}

/// The RGBA buffer of a rendered single-band tile: the grayscale composite
/// of its channel when the tile intersects the source, fully transparent
/// when it does not.
pub open spec fn rendered_gray(intersects: bool, ch: Seq<Option<u8>>, tile_size: nat) -> Seq<u8> {
    if intersects {
        gray_rgba(ch)
    } else {
        transparent_rgba(tile_size * tile_size * 4)
    }
}

/// The RGBA buffer of a rendered RGB tile.
pub open spec fn rendered_rgb(
    intersects: bool,
    r: Seq<Option<u8>>,
    g: Seq<Option<u8>>,
    b: Seq<Option<u8>>,
    tile_size: nat,
) -> Seq<u8> {
    if intersects {
        rgb_rgba(r, g, b)
    } else {
        transparent_rgba(tile_size * tile_size * 4)
    }
}

/// Render a single-band tile from its normalized samples and encode it.
/// `intersects` is the bounding-box gate: when false the samples are not
/// consulted and the tile is the transparent baseline.
pub fn extract_tile(request: &TileRequest, intersects: bool, channel: &Vec<Option<u8>>) -> (r:
    Result<Vec<u8>, String>)
    requires
        intersects ==> channel@.len() == request.tile_size * request.tile_size,
        request.tile_size * request.tile_size <= usize::MAX / 4,
        request.tile_size <= u32::MAX,
    ensures
        request.tile_size >= 1 ==> r is Ok,
        r is Ok ==> r.unwrap()@ == png_of(
            rendered_gray(intersects, channel@, request.tile_size as nat),
            request.tile_size as nat,
        ),
{
    let size = request.tile_size;
    if !intersects {
        let rgba = transparent_buffer(size * size * 4);
        encode_png(&rgba, size)
    } else {
        let rgba = compose_gray(channel);
        encode_png(&rgba, size)
    }
}

/// Render an RGB composite tile from three normalized channels and encode
/// it. The channels may come from different bands or different datasets;
/// each has been resampled into the same tile grid.
pub fn extract_rgb_tile(
    request: &TileRequest,
    intersects: bool,
    red: &Vec<Option<u8>>,
    green: &Vec<Option<u8>>,
    blue: &Vec<Option<u8>>,
) -> (r: Result<Vec<u8>, String>)
    requires
        intersects ==> red@.len() == request.tile_size * request.tile_size,
        red@.len() == green@.len(),
        red@.len() == blue@.len(),
        request.tile_size * request.tile_size <= usize::MAX / 4,
        request.tile_size <= u32::MAX,
    ensures
        request.tile_size >= 1 ==> r is Ok,
        r is Ok ==> r.unwrap()@ == png_of(
            rendered_rgb(intersects, red@, green@, blue@, request.tile_size as nat),
            request.tile_size as nat,
        ),
{
    let size = request.tile_size;
    if !intersects {
        let rgba = transparent_buffer(size * size * 4);
        encode_png(&rgba, size)
    } else {
        let rgba = compose_rgb(red, green, blue);
        encode_png(&rgba, size)
    }
}

/// Encode the fully transparent baseline tile of the given size.
pub fn create_empty_tile(tile_size: usize) -> (r: Result<Vec<u8>, String>)
    requires
        tile_size * tile_size <= usize::MAX / 4,
        tile_size <= u32::MAX,
    ensures
        tile_size >= 1 ==> r is Ok,
        r is Ok ==> r.unwrap()@ == png_of(
            transparent_rgba((tile_size * tile_size * 4) as nat),
            tile_size as nat,
        ),
{
    let rgba = transparent_buffer(tile_size * tile_size * 4);
    encode_png(&rgba, tile_size)
}

/// A tile request whose bounds miss the source entirely renders to exactly
/// the bytes of the transparent baseline tile of the same size, whatever
/// the channel holds.
pub proof fn lemma_out_of_extent_tile_is_baseline(ch: Seq<Option<u8>>, tile_size: nat)
    ensures
        png_of(rendered_gray(false, ch, tile_size), tile_size) == png_of(
            transparent_rgba(tile_size * tile_size * 4),
            tile_size,
        ),
{
}

} // verus!
