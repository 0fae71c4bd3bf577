use image_converter::format_file_size;
use image_converter::quality_label;
use image_converter::OutputFormat;

#[test]
fn test_format_file_size() {
    assert_eq!(format_file_size(0), "0.00 B");
    assert_eq!(format_file_size(512), "512.00 B");
    assert_eq!(format_file_size(1024), "1.00 KB");
    assert_eq!(format_file_size(1536), "1.50 KB");
    assert_eq!(format_file_size(1048576), "1.00 MB");
    assert_eq!(format_file_size(1073741824), "1.00 GB");
}

#[test]
fn test_format_file_size_edge_cases() {
    assert_eq!(format_file_size(1023), "1023.00 B");
    assert_eq!(format_file_size(1024 * 1024 - 1), "1024.00 KB");
    assert_eq!(format_file_size(1024 * 1024 * 1024 - 1), "1024.00 MB");
}

#[test]
fn test_output_format_extension_matching() {
    assert!(OutputFormat::Webp.matches_extension("webp"));
    assert!(OutputFormat::Avif.matches_extension("AVIF"));
    assert!(OutputFormat::Png.matches_extension("png"));
    assert!(OutputFormat::Jpeg.matches_extension("jpg"));
    assert!(OutputFormat::Jpg.matches_extension("jpeg"));
    assert!(!OutputFormat::Webp.matches_extension("jpg"));
}

#[test]
fn test_invalid_format() {
    let result = "xyz".parse::<OutputFormat>();
    assert!(result.is_err(), "지원하지 않는 형식은 에러를 반환해야 함");
    let err_msg = result.unwrap_err().to_string();
    assert!(
        err_msg.contains("지원하지 않는 포맷입니다") && err_msg.contains("xyz"),
        "에러 메시지가 예상과 다름: {}",
        err_msg
    );
}

/// The size formatted with floats: `{:.2}` of the size divided by 1024
/// while at least 1024, up to GB.
fn float_file_size(size: u64) -> String {
    let units = ["B", "KB", "MB", "GB"];
    let mut value = size as f64;
    let mut unit = 0;
    while value >= 1024.0 && unit < units.len() - 1 {
        value /= 1024.0;
        unit += 1;
    }
    format!("{:.2} {}", value, units[unit])
}

#[test]
fn format_file_size_matches_float_formatting() {
    let mut samples: Vec<u64> = vec![
        0,
        1,
        9,
        10,
        99,
        100,
        1000,
        1023,
        1024,
        1025,
        1152,
        1160,
        1167,
        1178,
        1536,
        2047,
        2048,
        10 * 1024 + 5,
        1024 * 1024 - 1,
        1024 * 1024,
        1024 * 1024 + 5120,
        1024 * 1024 * 1024 - 1,
        1024 * 1024 * 1024,
        5 * 1024 * 1024 * 1024 + 3,
        (1u64 << 53) - 1,
        1u64 << 53,
        (1u64 << 53) + 1,
        (1u64 << 53) + 3,
        (1u64 << 60) + 12345,
        u64::MAX - 1,
        u64::MAX,
    ];
    // every exact tie between two hundredths of a kilobyte below 64 KB
    for k in 0..64u64 {
        samples.push(1024 * k + 128);
        samples.push(1024 * k + 384);
        samples.push(1024 * k + 640);
        samples.push(1024 * k + 896);
    }
    let mut x: u64 = 0x9e37_79b9_7f4a_7c15;
    for _ in 0..2000 {
        x ^= x << 13;
        x ^= x >> 7;
        x ^= x << 17;
        samples.push(x >> (x % 64));
    }
    for s in samples {
        assert_eq!(format_file_size(s), float_file_size(s), "size {}", s);
    }
}

#[test]
fn format_file_size_rounds_ties_to_even() {
    // 1152 bytes are exactly 1.125 KB
    assert_eq!(format_file_size(1152), "1.12 KB");
    // 1408 bytes are exactly 1.375 KB
    assert_eq!(format_file_size(1408), "1.38 KB");
}

#[test]
fn format_file_size_large_values() {
    assert_eq!(format_file_size(5 * 1024 * 1024 * 1024), "5.00 GB");
    assert_eq!(format_file_size(2 * 1024 * 1024 * 1024 * 1024), "2048.00 GB");
    assert_eq!(format_file_size(u64::MAX), "17179869184.00 GB");
}

/// The summary shows the quality truncated to a whole percentage, as
/// `quality as u32` does.
fn format_quality_label(format: OutputFormat, quality: f32) -> String {
    quality_label(format, quality as u32)
}

#[test]
fn test_format_quality_label_for_lossy_formats() {
    assert_eq!(format_quality_label(OutputFormat::Webp, 90.0), "품질: 90%");
    assert_eq!(format_quality_label(OutputFormat::Jpeg, 85.5), "품질: 85%");
    assert_eq!(format_quality_label(OutputFormat::Avif, 100.0), "품질: 100%");
}

#[test]
fn test_format_quality_label_for_png() {
    assert_eq!(format_quality_label(OutputFormat::Png, 90.0), "무손실");
}

#[test]
fn png_label_ignores_quality() {
    for q in [1u32, 50, 90, 100] {
        assert_eq!(quality_label(OutputFormat::Png, q), "무손실");
        assert_ne!(quality_label(OutputFormat::Webp, q), quality_label(OutputFormat::Webp, q + 1));
    }
}
