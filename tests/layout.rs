use watermarker::config::WatermarkConfig;
use watermarker::layout::layout;
use watermarker::tiles::{plan_tiles, tile};

#[test]
fn geometry_of_800_by_600_with_defaults() {
    let c = WatermarkConfig::default();
    let g = layout(800, 600, &c);
    assert_eq!(g.font_height, 60_000);
    assert_eq!(g.scale_x, 36_000_000);
    assert_eq!(g.scale_y, 60_000_000);
    assert_eq!(g.spacing_x, 39_600_000_000);
    assert_eq!(g.spacing_y, 24_000_000_000);
    assert_eq!(g.columns, 21);
    assert_eq!(g.rows, 26);
    assert_eq!(g.shadow_offset_x, 2);
    assert_eq!(g.shadow_offset_y, 4);
    assert_eq!(g.offset_x, -19_800_000_000_000);
    assert_eq!(g.offset_y, -28_800_000_000_000);
}

#[test]
fn one_pixel_image_has_one_column() {
    let c = WatermarkConfig::default();
    let g = layout(1, 1, &c);
    assert_eq!(g.font_height, 10_000);
    assert_eq!(g.columns, 1);
    assert_eq!(g.rows, 2);
    let tiles = plan_tiles(&g, &vec!['Z']);
    assert_eq!(tiles.len(), 2);
    assert!(tiles.iter().all(|t| t.ch == 'Z'));
}

#[test]
fn one_pixel_image_without_extra_row() {
    let mut c = WatermarkConfig::default();
    c.global_offset_y_ratio = 0;
    let g = layout(1, 1, &c);
    assert_eq!(g.columns, 1);
    assert_eq!(g.rows, 1);
}

#[test]
fn counts_stay_positive_for_any_size() {
    let c = WatermarkConfig::default();
    for (w, h) in [(1u32, 1u32), (0, 0), (u32::MAX, u32::MAX), (3, 70000), (70000, 3)] {
        let g = layout(w, h, &c);
        assert!(g.columns >= 1);
        assert!(g.rows >= 1);
    }
}

#[test]
fn non_positive_spacing_gives_one_tile() {
    let mut c = WatermarkConfig::default();
    c.char_spacing_x_ratio = 0;
    c.char_spacing_y_ratio = -400;
    let g = layout(800, 600, &c);
    assert_eq!(g.columns, 1);
    assert_eq!(g.rows, 2);
}

#[test]
fn small_ratio_gives_min_font_height() {
    let c = WatermarkConfig::default();
    let g = layout(50, 50, &c);
    assert_eq!(g.font_height, 10_000);
    assert_eq!(g.spacing_x, 6_600_000_000);
    assert_eq!(g.columns, 8);
}

#[test]
fn anchors_of_first_tiles() {
    let c = WatermarkConfig::default();
    let g = layout(800, 600, &c);
    let text = vec!['A', 'B'];
    let t00 = tile(&g, &text, 0, 0);
    assert_eq!((t00.x, t00.y), (-20, -29));
    assert_eq!((t00.shadow_x, t00.shadow_y), (-18, -25));
    let t10 = tile(&g, &text, 1, 0);
    assert_eq!((t10.x, t10.y), (0, -5));
    let t21 = tile(&g, &text, 2, 1);
    assert_eq!((t21.x, t21.y), (20, 19));
}

#[test]
fn odd_rows_shift_by_half_a_spacing() {
    let mut c = WatermarkConfig::default();
    c.global_offset_x_ratio = 0;
    let g = layout(800, 600, &c);
    let text = vec!['A'];
    for col in 0..5u64 {
        let even = tile(&g, &text, 2, col);
        let odd = tile(&g, &text, 3, col);
        let next_even = tile(&g, &text, 4, col);
        assert_eq!(even.x, next_even.x);
        let shift = odd.x - even.x;
        assert!(shift == 19 || shift == 20);
    }
    assert_eq!(tile(&g, &text, 1, 0).x, 20);
}

#[test]
fn characters_run_diagonally() {
    let c = WatermarkConfig::default();
    let g = layout(800, 600, &c);
    let text = vec!['A', 'B', 'C'];
    assert_eq!(tile(&g, &text, 0, 0).ch, 'A');
    assert_eq!(tile(&g, &text, 0, 1).ch, 'B');
    assert_eq!(tile(&g, &text, 1, 0).ch, 'B');
    assert_eq!(tile(&g, &text, 1, 1).ch, 'C');
    assert_eq!(tile(&g, &text, 2, 4).ch, 'A');
    assert_eq!(tile(&g, &text, 5, 1).ch, 'A');
}

#[test]
fn plan_lists_tiles_row_by_row() {
    let c = WatermarkConfig::default();
    let g = layout(800, 600, &c);
    let text = vec!['A', 'B'];
    let tiles = plan_tiles(&g, &text);
    assert_eq!(tiles.len(), 21 * 26);
    assert_eq!(tiles[0], tile(&g, &text, 0, 0));
    assert_eq!(tiles[22], tile(&g, &text, 1, 1));
    assert_eq!(tiles[21 * 26 - 1], tile(&g, &text, 25, 20));
}

#[test]
fn huge_ratios_saturate_anchors() {
    let mut c = WatermarkConfig::default();
    c.font_height_ratio = 1_000_000;
    c.font_width_ratio = 1_000_000;
    c.char_spacing_x_ratio = 1_000_000;
    c.global_offset_x_ratio = 1_000_000;
    c.shadow_offset_ratio = 1_000_000;
    let g = layout(u32::MAX, 10, &c);
    assert_eq!(g.columns, 1);
    assert_eq!(g.shadow_offset_x, i32::MAX);
    let t = tile(&g, &vec!['x'], 0, 0);
    assert_eq!(t.x, i32::MAX);
}
