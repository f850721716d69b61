use googleprojection::grid::map_size_for;
use googleprojection::grid::Grid;
use googleprojection::zoom::supports_zoom;
use googleprojection::zoom::MAX_ZOOM;

#[test]
fn it_supports_exactly_the_zoom_levels_up_to_29() {
    assert_eq!(MAX_ZOOM, 29);
    assert!(supports_zoom(0));
    assert!(supports_zoom(1));
    assert!(supports_zoom(29));
    assert!(!supports_zoom(30));
    assert!(!supports_zoom(100));
    assert!(!supports_zoom(usize::MAX));
}

#[test]
fn it_rejects_a_zero_tile_size() {
    assert!(Grid::with_size(0).is_none());
    assert_eq!(map_size_for(0, 5), None);
}

#[test]
fn it_uses_256_pixel_tiles_by_default() {
    let grid = Grid::default();
    assert_eq!(grid.tile_size(), 256);
    assert_eq!(grid.map_size(0), Some(256));
}

#[test]
fn it_precomputes_exact_map_sizes() {
    let grid = Grid::with_size(256).unwrap();
    assert_eq!(grid.tile_size(), 256);
    assert_eq!(grid.map_size(0), Some(256));
    assert_eq!(grid.map_size(1), Some(512));
    assert_eq!(grid.map_size(2), Some(1024));
    assert_eq!(grid.map_size(12), Some(1048576));
    assert_eq!(grid.map_size(29), Some(137438953472));
}

#[test]
fn it_places_the_origin_at_the_map_centre() {
    let grid = Grid::with_size(256).unwrap();
    assert_eq!(grid.origin_offset(0), Some(128));
    assert_eq!(grid.origin_offset(1), Some(256));
    assert_eq!(grid.origin_offset(12), Some(524288));
    assert_eq!(grid.origin_offset(29), Some(68719476736));
}

#[test]
fn it_returns_none_when_zooming_too_far() {
    let grid = Grid::with_size(256).unwrap();
    assert_eq!(grid.map_size(30), None);
    assert_eq!(grid.origin_offset(30), None);
    assert_eq!(grid.map_size(usize::MAX), None);
    assert_eq!(map_size_for(256, 30), None);
}

#[test]
fn it_doubles_the_map_size_at_each_zoom_step() {
    let grid = Grid::with_size(256).unwrap();
    for zoom in 0..29 {
        let here = grid.map_size(zoom).unwrap();
        let above = grid.map_size(zoom + 1).unwrap();
        assert_eq!(above, 2 * here);
        assert_eq!(grid.origin_offset(zoom + 1).unwrap(), here);
        assert_eq!(grid.origin_offset(zoom + 1).unwrap(), 2 * grid.origin_offset(zoom).unwrap());
    }
}

#[test]
fn it_computes_the_same_sizes_on_demand() {
    let grid = Grid::with_size(256).unwrap();
    let wide = Grid::with_size(512).unwrap();
    for zoom in 0..=29 {
        assert_eq!(map_size_for(256, zoom), grid.map_size(zoom));
        assert_eq!(map_size_for(512, zoom), wide.map_size(zoom));
    }
}

#[test]
fn it_scales_with_the_tile_size() {
    let grid = Grid::with_size(512).unwrap();
    assert_eq!(grid.tile_size(), 512);
    assert_eq!(grid.map_size(0), Some(512));
    assert_eq!(grid.map_size(1), Some(1024));
    assert_eq!(grid.origin_offset(1), Some(512));
}

#[test]
fn it_tolerates_an_odd_tile_size() {
    let grid = Grid::with_size(257).unwrap();
    assert_eq!(grid.map_size(0), Some(257));
    assert_eq!(grid.origin_offset(0), Some(128));
    assert_eq!(grid.map_size(1), Some(514));
    assert_eq!(grid.origin_offset(1), Some(257));
}
