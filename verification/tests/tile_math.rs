use heimdall::sampler::{clamp_source_window, pixel_in_bounds};
use heimdall::tile::{tile_to_geo_lon_bounds, tile_to_web_mercator_bounds, TileRequest};

#[test]
fn test_tile_request_copy() {
    let req = TileRequest {
        x: 10,
        y: 20,
        z: 5,
        band: 1,
        tile_size: 256,
    };
    let copy = req;
    assert_eq!(copy.x, 10);
    assert_eq!(copy.y, 20);
    assert_eq!(copy.z, 5);
}

#[test]
fn test_tile_to_web_mercator_bounds_zoom_0() {
    let bounds = tile_to_web_mercator_bounds(0, 0, 0);
    // Full extent in Web Mercator; exact in nanometers at zoom 0.
    let expected_extent: i128 = 20_037_508_342_789_244;
    assert_eq!(bounds.min_x, -expected_extent);
    assert_eq!(bounds.max_x, expected_extent);
    assert_eq!(bounds.min_y, -expected_extent);
    assert_eq!(bounds.max_y, expected_extent);
}

#[test]
fn test_tile_to_web_mercator_bounds_symmetry() {
    // At zoom 1, tiles (0,0) and (1,1) should be symmetric about origin
    let nw = tile_to_web_mercator_bounds(0, 0, 1);
    let se = tile_to_web_mercator_bounds(1, 1, 1);

    assert_eq!(nw.min_x + se.max_x, 0);
    assert_eq!(nw.max_y + se.min_y, 0);
    assert_eq!(nw.max_x + se.min_x, 0);
    assert_eq!(nw.min_y + se.max_y, 0);
}

#[test]
fn test_tile_to_geo_bounds_zoom_0() {
    // At zoom 0, one tile covers the whole longitude range exactly.
    let (min_lon, max_lon) = tile_to_geo_lon_bounds(0, 0);
    assert_eq!(min_lon, -180_000_000_000);
    assert_eq!(max_lon, 180_000_000_000);
}

#[test]
fn test_tile_to_geo_bounds_zoom_1() {
    // At zoom 1, tile column 0 spans the western hemisphere: −180°..0°,
    // scaled by 2 at zoom 1.
    let (min_lon, max_lon) = tile_to_geo_lon_bounds(0, 1);
    assert_eq!(min_lon, -360_000_000_000);
    assert_eq!(max_lon, 0);
}

#[test]
fn test_mercator_tiles_partition_the_axis() {
    let a = tile_to_web_mercator_bounds(3, 2, 4);
    let b = tile_to_web_mercator_bounds(4, 2, 4);
    assert_eq!(a.max_x, b.min_x);
    let below = tile_to_web_mercator_bounds(3, 3, 4);
    assert_eq!(a.min_y, below.max_y);
}

#[test]
fn test_clamp_source_window_inside() {
    // A rectangle fully inside the image passes through unchanged.
    let r = clamp_source_window(10, 20, 110, 220, 1000, 800).unwrap();
    assert_eq!(r, (10, 20, 100, 200));
}

#[test]
fn test_clamp_source_window_clamps_edges() {
    // Negative origin clamps to zero, far edge clamps to the image.
    let r = clamp_source_window(-50, -10, 2000, 900, 1000, 800).unwrap();
    assert_eq!(r, (0, 0, 1000, 800));
}

#[test]
fn test_clamp_source_window_degenerate_is_one_pixel() {
    // A collapsed rectangle still reads at least one pixel.
    let r = clamp_source_window(5, 5, 5, 5, 100, 100).unwrap();
    assert_eq!(r, (5, 5, 1, 1));
}

#[test]
fn test_clamp_source_window_outside_image() {
    // A rectangle beyond the image is not read at all.
    assert_eq!(clamp_source_window(100, 0, 200, 50, 100, 100), None);
    assert_eq!(clamp_source_window(0, 80, 50, 90, 100, 80), None);
}

#[test]
fn test_pixel_in_bounds() {
    assert!(pixel_in_bounds(0, 0, 10, 10));
    assert!(pixel_in_bounds(9, 9, 10, 10));
    assert!(!pixel_in_bounds(10, 9, 10, 10));
    assert!(!pixel_in_bounds(9, 10, 10, 10));
    assert!(!pixel_in_bounds(-1, 0, 10, 10));
    assert!(!pixel_in_bounds(0, -1, 10, 10));
}
