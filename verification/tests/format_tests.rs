use image_converter::format::chars_equal;
use image_converter::ConverterError;
use image_converter::OutputFormat;

const ALL: [OutputFormat; 5] = [
    OutputFormat::Png,
    OutputFormat::Jpg,
    OutputFormat::Jpeg,
    OutputFormat::Webp,
    OutputFormat::Avif,
];

#[test]
fn format_names_and_labels() {
    assert_eq!(OutputFormat::Png.as_str(), "png");
    assert_eq!(OutputFormat::Jpg.as_str(), "jpg");
    assert_eq!(OutputFormat::Jpeg.as_str(), "jpeg");
    assert_eq!(OutputFormat::Webp.as_str(), "webp");
    assert_eq!(OutputFormat::Avif.as_str(), "avif");
    assert_eq!(OutputFormat::Webp.display_name(), "WEBP");
    assert_eq!(OutputFormat::Jpeg.display_name(), "JPEG");
    assert_eq!(OutputFormat::Jpg.allowed_extensions(), &["jpg", "jpeg"]);
    assert_eq!(OutputFormat::Png.allowed_extensions(), &["png"]);
    assert_eq!(OutputFormat::Jpeg.allowed_extensions_label(), ".jpg 또는 .jpeg");
    assert_eq!(OutputFormat::Avif.allowed_extensions_label(), ".avif");
}

#[test]
fn format_predicates() {
    assert!(OutputFormat::Png.is_png());
    assert!(!OutputFormat::Webp.is_png());
    assert!(OutputFormat::Avif.is_avif());
    assert!(OutputFormat::Jpg.is_jpeg() && OutputFormat::Jpeg.is_jpeg());
    assert!(!OutputFormat::Png.is_jpeg());
}

#[test]
fn format_parse_round_trip_and_case() {
    for f in ALL {
        assert_eq!(f.as_str().parse::<OutputFormat>().unwrap(), f);
        assert_eq!(OutputFormat::parse(&f.as_str().to_uppercase()).unwrap(), f);
        assert!(f.matches_extension(f.as_str()));
    }
    assert_eq!("WebP".parse::<OutputFormat>().unwrap(), OutputFormat::Webp);
    match OutputFormat::parse(" png") {
        Err(ConverterError::UnsupportedFormat(s)) => assert_eq!(s, " png"),
        _ => panic!("앞 공백은 포맷 이름이 아님"),
    }
}

#[test]
fn format_matches_extension_rejects_others() {
    assert!(!OutputFormat::Png.matches_extension(""));
    assert!(!OutputFormat::Png.matches_extension("pn"));
    assert!(!OutputFormat::Png.matches_extension("pngg"));
    assert!(OutputFormat::Jpeg.matches_extension("JpEg"));
    assert!(!OutputFormat::Avif.matches_extension("webp"));
}

#[test]
fn chars_equal_compares_exactly() {
    assert!(chars_equal("abc", "abc"));
    assert!(!chars_equal("abc", "abC"));
    assert!(!chars_equal("abc", "ab"));
    assert!(chars_equal("", ""));
}

#[test]
fn error_messages() {
    let e = ConverterError::OutputExists("out.webp".to_string());
    assert_eq!(e.to_string(), "출력 경로가 이미 존재합니다: out.webp");
    let e = ConverterError::BatchPartialFailure { failed: 3 };
    assert_eq!(e.to_string(), "일괄 변환 중 3개 파일이 실패했습니다");
    let e = ConverterError::Io("boom".to_string());
    assert_eq!(e.to_string(), "입출력 오류: boom");
}
