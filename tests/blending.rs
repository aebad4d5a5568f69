use watermarker::blend::{blend_channel, merge_overlay};

#[test]
fn opaque_pixel_replaces_channel() {
    for (fg, bg) in [(0u8, 255u8), (255, 0), (17, 200), (128, 128)] {
        assert_eq!(blend_channel(fg, bg, 255), fg);
    }
}

#[test]
fn transparent_pixel_keeps_channel() {
    for (fg, bg) in [(0u8, 255u8), (255, 0), (17, 200), (128, 128)] {
        assert_eq!(blend_channel(fg, bg, 0), bg);
    }
}

#[test]
fn blend_rounds_to_nearest() {
    assert_eq!(blend_channel(255, 0, 46), 46);
    assert_eq!(blend_channel(0, 200, 46), 164);
    assert_eq!(blend_channel(255, 0, 128), 128);
    assert_eq!(blend_channel(255, 0, 127), 127);
    assert_eq!(blend_channel(100, 101, 1), 101);
}

#[test]
fn blending_twice_changes_the_result() {
    let once = blend_channel(255, 0, 46);
    let twice = blend_channel(255, once, 46);
    assert_eq!(once, 46);
    assert_eq!(twice, 84);
    assert_ne!(once, twice);
}

#[test]
fn merge_blends_colour_and_makes_opaque() {
    let mut base = vec![10u8, 20, 30, 0, 200, 100, 50, 7];
    let overlay = vec![255u8, 255, 255, 255, 0, 0, 0, 0];
    merge_overlay(&mut base, &overlay);
    assert_eq!(base, vec![255, 255, 255, 255, 200, 100, 50, 255]);
}

#[test]
fn merge_with_translucent_overlay() {
    let mut base = vec![0u8, 0, 0, 255];
    let overlay = vec![255u8, 255, 255, 46];
    merge_overlay(&mut base, &overlay);
    assert_eq!(base, vec![46, 46, 46, 255]);
}

#[test]
fn merge_of_empty_buffers() {
    let mut base: Vec<u8> = Vec::new();
    merge_overlay(&mut base, &Vec::new());
    assert!(base.is_empty());
}
