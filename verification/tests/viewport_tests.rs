use mir_explorer::viewport::Viewport;

#[test]
fn new_viewport_is_identity() {
    let v = Viewport::new();
    assert_eq!((v.scale, v.offset_x, v.offset_y), (1000, 0, 0));
}

#[test]
fn pan_moves_offsets_by_pixels() {
    let mut v = Viewport::new();
    v.pan(10, -4);
    assert_eq!((v.offset_x, v.offset_y), (10_000, -4_000));
    v.pan(-10, 4);
    assert_eq!((v.offset_x, v.offset_y), (0, 0));
    assert_eq!(v.scale, 1000);
}

#[test]
fn zoom_in_scales_by_eleven_tenths() {
    let mut v = Viewport::new();
    v.zoom(true, 0, 0);
    assert_eq!(v.scale, 1100);
    assert_eq!((v.offset_x, v.offset_y), (0, 0));
}

#[test]
fn zoom_out_scales_by_nine_tenths() {
    let mut v = Viewport::new();
    v.zoom(false, 0, 0);
    assert_eq!(v.scale, 900);
}

#[test]
fn zoom_clamps_at_bounds() {
    let mut v = Viewport::new();
    for _ in 0..40 {
        v.zoom(false, 0, 0);
    }
    assert_eq!(v.scale, 200);
    v.zoom(false, 0, 0);
    assert_eq!(v.scale, 200);
    for _ in 0..40 {
        v.zoom(true, 0, 0);
    }
    assert_eq!(v.scale, 3000);
    v.zoom(true, 0, 0);
    assert_eq!(v.scale, 3000);
}

/// Zoom toward a pivot keeps the graph point under the pivot at the same
/// screen position: with scale 1.0 and no offset, the graph point 100 sits
/// under the pivot (100, 100); after one zoom step it still maps there.
#[test]
fn zoom_keeps_pivot_point_fixed() {
    let mut v = Viewport::new();
    // screen(g) = g * scale + offset, all in thousandths of a pixel
    let g = 100i64;
    let before_x = g * v.scale + v.offset_x;
    assert_eq!(before_x, 100_000); // pivot (100, 100) in pixels
    v.zoom(true, 100, 100);
    assert_eq!(v.scale, 1100);
    let after_x = g * v.scale + v.offset_x;
    let after_y = g * v.scale + v.offset_y;
    assert_eq!(after_x, before_x);
    assert_eq!(after_y, before_x);
}

#[test]
fn zoom_away_from_origin_updates_offset() {
    let mut v = Viewport::new();
    v.zoom(true, 100, 50);
    // offset' = pivot - (pivot - offset) * new / old
    assert_eq!(v.offset_x, 100_000 - 100_000 * 1100 / 1000);
    assert_eq!(v.offset_y, 50_000 - 50_000 * 1100 / 1000);
}

#[test]
fn fit_to_view_scales_and_centers() {
    let mut v = Viewport::new();
    // canvas 800x600, graph box (-30, 0, 30, 135): gw 60, gh 135
    v.fit_to_view(800, 600, -30, 0, 30, 135);
    // sx = (800-120)*1000/60 = 11333, sy = (600-120)*1000/135 = 3555 -> clamp 2000
    assert_eq!(v.scale, 2000);
    // offset = (canvas*1000 - (min+max)*scale) / 2
    assert_eq!(v.offset_x, (800_000 - 0 * 2000) / 2);
    assert_eq!(v.offset_y, (600_000 - 135 * 2000) / 2);
}

#[test]
fn fit_to_view_clamps_small_scale_up() {
    let mut v = Viewport::new();
    // huge graph: scale would be tiny, clamps to 0.5
    v.fit_to_view(800, 600, 0, 0, 100_000, 100_000);
    assert_eq!(v.scale, 500);
}

#[test]
fn fit_to_view_degenerate_box_is_noop() {
    let mut v = Viewport::new();
    v.pan(3, 7);
    let before = v;
    v.fit_to_view(800, 600, 10, 10, 10, 50); // zero width
    assert_eq!(v, before);
    v.fit_to_view(800, 600, 10, 10, 50, 10); // zero height
    assert_eq!(v, before);
}

#[test]
fn center_on_maps_rect_center_to_canvas_center() {
    let mut v = Viewport::new();
    v.center_on(-30, 100, 60, 35, 800, 600);
    // rect center (0, 117.5); offset = (canvas*1000 - (2*pos + size)*scale)/2
    assert_eq!(v.offset_x, (800_000 - (2 * -30 + 60) * 1000) / 2);
    assert_eq!(v.offset_y, (600_000 - (2 * 100 + 35) * 1000) / 2);
    assert_eq!(v.offset_x, 400_000);
}
