use std::io::Cursor;
use watermarker::config::WatermarkConfig;
use watermarker::error::WatermarkError;
use watermarker::raster::{decode_image, encode_jpeg, Raster};
use watermarker::watermark::{chars_of, finish, prepare, Prepared};

fn png_bytes(width: u32, height: u32) -> Vec<u8> {
    let mut img = image::RgbaImage::new(width, height);
    for (x, y, p) in img.enumerate_pixels_mut() {
        *p = image::Rgba([(x * 40) as u8, (y * 40) as u8, 90, 255]);
    }
    let mut out = Cursor::new(Vec::new());
    img.write_to(&mut out, image::ImageOutputFormat::Png).unwrap();
    out.into_inner()
}

#[test]
fn empty_text_passes_bytes_through() {
    let bytes = png_bytes(3, 2);
    match prepare(bytes.clone(), "", &WatermarkConfig::default()) {
        Ok(Prepared::PassThrough(out)) => assert_eq!(out, bytes),
        _ => panic!("expected the input back"),
    }
}

#[test]
fn empty_text_passes_even_undecodable_bytes() {
    let bytes = vec![1u8, 2, 3];
    match prepare(bytes.clone(), "", &WatermarkConfig::default()) {
        Ok(Prepared::PassThrough(out)) => assert_eq!(out, bytes),
        _ => panic!("expected the input back"),
    }
}

#[test]
fn undecodable_bytes_are_a_decode_error() {
    let r = prepare(vec![0u8, 1, 2, 3, 4], "AB", &WatermarkConfig::default());
    assert!(matches!(r, Err(WatermarkError::Decode)));
}

#[test]
fn decode_gives_rgba_pixels() {
    let bytes = png_bytes(4, 3);
    let raster = decode_image(&bytes).unwrap();
    assert_eq!((raster.width, raster.height), (4, 3));
    assert_eq!(raster.pixels.len(), 48);
    assert_eq!(&raster.pixels[0..4], &[0, 0, 90, 255]);
    assert_eq!(&raster.pixels[4..8], &[40, 0, 90, 255]);
    assert_ne!(raster.pixels, bytes);
}

#[test]
fn encode_gives_jpeg() {
    let raster = Raster { width: 2, height: 2, pixels: vec![200u8; 16] };
    let out = encode_jpeg(&raster, 90).unwrap();
    assert_eq!(&out[0..2], &[0xFF, 0xD8]);
    let back = image::load_from_memory(&out).unwrap();
    assert_eq!((back.width(), back.height()), (2, 2));
}

#[test]
fn oversized_jpeg_is_an_encode_error() {
    let raster = Raster { width: 70_000, height: 1, pixels: vec![0u8; 280_000] };
    assert_eq!(encode_jpeg(&raster, 90), Err(WatermarkError::Encode));
}

#[test]
fn text_prepares_a_composition() {
    let bytes = png_bytes(4, 3);
    let c = WatermarkConfig::default();
    match prepare(bytes, "AB", &c) {
        Ok(Prepared::Compose(comp)) => {
            assert_eq!((comp.base.width, comp.base.height), (4, 3));
            assert_eq!(comp.text, vec!['A', 'B']);
            assert_eq!(comp.geometry.columns, 1);
            assert_eq!(comp.geometry.rows, 2);
            assert_eq!(comp.tiles.len(), 2);
            assert_eq!(comp.tiles[1].ch, 'B');
        }
        _ => panic!("expected a composition"),
    }
}

#[test]
fn one_pixel_image_round_trip() {
    let bytes = png_bytes(1, 1);
    let c = WatermarkConfig::default();
    let comp = match prepare(bytes, "W", &c) {
        Ok(Prepared::Compose(comp)) => comp,
        _ => panic!("expected a composition"),
    };
    assert_eq!(comp.geometry.columns, 1);
    let overlay = vec![0u8; 4];
    let out = finish(comp, &overlay, c.jpeg_quality).unwrap();
    let back = image::load_from_memory(&out).unwrap();
    assert_eq!((back.width(), back.height()), (1, 1));
}

#[test]
fn finish_merges_before_encoding() {
    let bytes = png_bytes(8, 8);
    let c = WatermarkConfig::default();
    let comp = match prepare(bytes, "X", &c) {
        Ok(Prepared::Compose(comp)) => comp,
        _ => panic!("expected a composition"),
    };
    let overlay: Vec<u8> = [255u8, 255, 255, 255].repeat(64);
    let out = finish(comp, &overlay, 100).unwrap();
    let back = image::load_from_memory(&out).unwrap().into_rgba8();
    for p in back.pixels() {
        assert!(p[0] > 240 && p[1] > 240 && p[2] > 240);
    }
}

#[test]
fn chars_of_keeps_unicode() {
    assert_eq!(chars_of("ação"), vec!['a', 'ç', 'ã', 'o']);
    assert!(chars_of("").is_empty());
}
