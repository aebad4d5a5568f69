use watermarker::config::{Color, Config, ConfigError, WatermarkConfig};
use watermarker::settings::{
    parse_ratio, parse_unsigned, ratio_or, setting_valid, watermark_config_from,
};

fn vars(pairs: &[(&str, &str)]) -> Vec<(String, String)> {
    pairs.iter().map(|(k, v)| (k.to_string(), v.to_string())).collect()
}

fn store_vars() -> Vec<(String, String)> {
    vars(&[
        ("MINIO_ENDPOINT", "http://store:9000"),
        ("MINIO_ACCESS_KEY", "access"),
        ("MINIO_SECRET_KEY", "SECRET-REDACTED"),
        ("MINIO_SECURE", "true"),
    ])
}

#[test]
fn ratios_in_thousandths() {
    assert_eq!(parse_ratio("1.1"), Some(1100));
    assert_eq!(parse_ratio("-1.2"), Some(-1200));
    assert_eq!(parse_ratio("0.065"), Some(65));
    assert_eq!(parse_ratio("+0.4"), Some(400));
    assert_eq!(parse_ratio(".5"), Some(500));
    assert_eq!(parse_ratio("10."), Some(10_000));
    assert_eq!(parse_ratio("1.2349"), Some(1234));
    assert_eq!(parse_ratio("1000"), Some(1_000_000));
    assert_eq!(parse_ratio("-1000.000"), Some(-1_000_000));
}

#[test]
fn invalid_ratios() {
    for t in ["", "-", ".", "abc", "1.2.3", "1e3", " 1", "1001", "99999999999999999999"] {
        assert_eq!(parse_ratio(t), None, "{t}");
    }
}

#[test]
fn unsigned_settings() {
    assert_eq!(parse_unsigned("42", 255), Some(42));
    assert_eq!(parse_unsigned("+7", 255), Some(7));
    assert_eq!(parse_unsigned("255", 255), Some(255));
    assert_eq!(parse_unsigned("256", 255), None);
    assert_eq!(parse_unsigned("-1", 255), None);
    assert_eq!(parse_unsigned("", 255), None);
    assert_eq!(parse_unsigned("+", 255), None);
    assert_eq!(parse_unsigned("00012", 100), Some(12));
}

#[test]
fn default_watermark_settings() {
    let c = WatermarkConfig::default();
    assert_eq!(c.font_height_ratio, 100);
    assert_eq!(c.font_height_min, 10_000);
    assert_eq!(c.watermark_color, Color { r: 255, g: 255, b: 255, a: 46 });
    assert_eq!(c.shadow_color, Color { r: 0, g: 0, b: 0, a: 46 });
    assert_eq!(c.jpeg_quality, 90);
    assert_eq!(watermark_config_from(&Vec::new()), c);
    assert!(c.is_valid());
}

#[test]
fn out_of_range_settings_are_not_valid() {
    let mut c = WatermarkConfig::default();
    c.char_spacing_x_ratio = 1_000_001;
    assert!(!c.is_valid());
    let mut c = WatermarkConfig::default();
    c.jpeg_quality = 0;
    assert!(!c.is_valid());
}

#[test]
fn invalid_settings_fall_back() {
    let v = vars(&[
        ("FONT_HEIGHT_RATIO", "0.2"),
        ("FONT_WIDTH_RATIO", "wide"),
        ("WATERMARK_COLOR_A", "300"),
        ("SHADOW_COLOR_R", "12"),
        ("JPEG_QUALITY", "0"),
    ]);
    let c = watermark_config_from(&v);
    assert_eq!(c.font_height_ratio, 200);
    assert_eq!(c.font_width_ratio, 600);
    assert_eq!(c.watermark_color.a, 46);
    assert_eq!(c.shadow_color.r, 12);
    assert_eq!(c.jpeg_quality, 90);
}

#[test]
fn first_setting_of_a_name_counts() {
    let v = vars(&[("CHAR_SPACING_X_RATIO", "2"), ("CHAR_SPACING_X_RATIO", "3")]);
    assert_eq!(ratio_or(&v, "CHAR_SPACING_X_RATIO", 1100), 2000);
}

#[test]
fn config_with_store_settings() {
    let mut v = store_vars();
    v.push(("PORT".to_string(), "8080".to_string()));
    v.push(("HOST".to_string(), "127.0.0.1".to_string()));
    v.push(("GLOBAL_OFFSET_Y_RATIO".to_string(), "0.25".to_string()));
    let c = Config::from_vars(&v).unwrap();
    assert_eq!(c.host, "127.0.0.1");
    assert_eq!(c.port, 8080);
    assert_eq!(c.workers, 0);
    assert_eq!(c.log_level, "error");
    assert_eq!(c.font_path, "assets/DejaVuSans.ttf");
    assert_eq!(c.watermark.global_offset_y_ratio, 250);
    assert_eq!(c.minio_endpoint, "http://store:9000");
    assert_eq!(c.minio_access_key, "access");
    assert!(c.minio_secure);
}

#[test]
fn secure_flag_is_on_only_for_true() {
    let mut v = store_vars();
    v[3].1 = "yes".to_string();
    assert!(!Config::from_vars(&v).unwrap().minio_secure);
}

#[test]
fn missing_store_settings_fail() {
    let all = store_vars();
    let expected = [
        ConfigError::MissingEndpoint,
        ConfigError::MissingAccessKey,
        ConfigError::MissingSecretKey,
        ConfigError::MissingSecure,
    ];
    for (i, e) in expected.iter().enumerate() {
        let v: Vec<(String, String)> = all.iter().take(i).cloned().collect();
        assert!(matches!(Config::from_vars(&v), Err(x) if x == *e));
    }
}

#[test]
fn validity_depends_on_the_setting() {
    assert!(setting_valid("FONT_HEIGHT_RATIO", "0.1"));
    assert!(!setting_valid("FONT_HEIGHT_RATIO", "tall"));
    assert!(setting_valid("SHADOW_COLOR_A", "255"));
    assert!(!setting_valid("SHADOW_COLOR_A", "256"));
    assert!(!setting_valid("JPEG_QUALITY", "0"));
    assert!(setting_valid("JPEG_QUALITY", "100"));
    assert!(!setting_valid("PORT", "65536"));
    assert!(setting_valid("WORKERS", "16"));
    assert!(setting_valid("HOST", "anything at all"));
    assert!(setting_valid("UNRELATED", "x"));
}
