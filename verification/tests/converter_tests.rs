use image_converter::cli::{build_conversion_options, parse_jpeg_background};
use image_converter::converter::{
    flatten_for_jpeg, format_output_dimensions, resize_target_width, validate_output_extension,
};
use image_converter::{ConversionOptions, ConvertStats, ConverterError, JpegBackground};
use image_converter::{OutputFormat, ResizeOptions};

#[test]
fn flatten_for_jpeg_composites_transparent_pixels_over_background() {
    let rgba: Vec<u8> = vec![255, 0, 0, 0, 255, 0, 0, 255];

    let flattened = flatten_for_jpeg(&rgba, JpegBackground::white());

    assert_eq!(flattened[0..3], [255, 255, 255]);
    assert_eq!(flattened[3..6], [255, 0, 0]);
}

#[test]
fn flatten_for_jpeg_blends_partial_alpha() {
    let rgba: Vec<u8> = vec![255, 0, 0, 128];

    let flattened = flatten_for_jpeg(&rgba, JpegBackground::black());

    assert_eq!(flattened[0..3], [128, 0, 0]);
}

#[test]
fn parse_jpeg_background_accepts_named_and_hex_values() {
    assert_eq!(
        parse_jpeg_background("white").unwrap(),
        JpegBackground::white()
    );
    assert_eq!(
        parse_jpeg_background("BLACK").unwrap(),
        JpegBackground::black()
    );
    assert_eq!(
        parse_jpeg_background("#1A2b3C").unwrap(),
        JpegBackground {
            r: 0x1A,
            g: 0x2B,
            b: 0x3C,
        }
    );
}

#[test]
fn parse_jpeg_background_rejects_invalid_values() {
    assert!(parse_jpeg_background("#fff").is_err());
    assert!(parse_jpeg_background("blue").is_err());
}

#[test]
fn build_conversion_options_maps_cli_values() {
    let options = build_conversion_options(
        OutputFormat::Jpeg,
        Some(1200),
        Some(JpegBackground::black()),
    )
    .unwrap();

    assert_eq!(options.resize, Some(ResizeOptions { max_width: 1200 }));
    assert_eq!(options.jpeg_background, Some(JpegBackground::black()));
}

#[test]
fn build_conversion_options_rejects_jpeg_background_for_non_jpeg() {
    let err = build_conversion_options(OutputFormat::Webp, None, Some(JpegBackground::white()))
        .unwrap_err();
    assert!(err.contains("JPG/JPEG 출력"));
}

#[test]
fn jpeg_background_hex_variants() {
    assert_eq!(
        JpegBackground::from_hex("  ffffff\n").unwrap(),
        JpegBackground::white()
    );
    assert_eq!(
        JpegBackground::from_hex("#000000").unwrap(),
        JpegBackground::black()
    );
    assert_eq!(
        JpegBackground::from_hex("#ff8000").unwrap(),
        JpegBackground { r: 255, g: 128, b: 0 }
    );
    assert_eq!(
        JpegBackground::from_hex("##ff8000").unwrap_err(),
        "#RRGGBB 형식으로 입력하세요"
    );
    assert!(JpegBackground::from_hex("#ff80g0").is_err());
    assert!(JpegBackground::from_hex("#ff800").is_err());
    assert!(JpegBackground::from_hex("").is_err());
    assert_eq!(
        JpegBackground::from_name_or_hex("  White ").unwrap(),
        JpegBackground::white()
    );
}

#[test]
fn conversion_options_for_format() {
    assert_eq!(
        ConversionOptions::for_format(OutputFormat::Png, Some(800), None).unwrap(),
        ConversionOptions {
            resize: Some(ResizeOptions { max_width: 800 }),
            jpeg_background: None,
        }
    );
    assert_eq!(
        ConversionOptions::for_format(OutputFormat::Avif, None, Some(JpegBackground::white()))
            .unwrap_err(),
        "JPEG 배경색은 JPG/JPEG 출력에서만 사용할 수 있습니다"
    );
    assert!(ConversionOptions::for_format(OutputFormat::Jpg, None, Some(JpegBackground::white()))
        .is_ok());
    assert_eq!(
        ConversionOptions::default(),
        ConversionOptions {
            resize: None,
            jpeg_background: None
        }
    );
}

#[test]
fn output_extension_validation() {
    assert!(validate_output_extension("out/photo.webp", OutputFormat::Webp).is_ok());
    assert!(validate_output_extension("photo.JPEG", OutputFormat::Jpg).is_ok());
    match validate_output_extension("photo.png", OutputFormat::Avif) {
        Err(ConverterError::OutputExtensionMismatch {
            output_path,
            actual,
            expected,
        }) => {
            assert_eq!(output_path, "photo.png");
            assert_eq!(actual, ".png");
            assert_eq!(expected, ".avif");
        }
        _ => panic!("확장자 불일치 에러여야 함"),
    }
    match validate_output_extension("photo", OutputFormat::Png) {
        Err(ConverterError::OutputExtensionMismatch { actual, .. }) => assert_eq!(actual, "없음"),
        _ => panic!("확장자 없음 에러여야 함"),
    }
}

#[test]
fn resize_targets() {
    let opts = ConversionOptions {
        resize: Some(ResizeOptions { max_width: 100 }),
        jpeg_background: None,
    };
    assert_eq!(resize_target_width(200, opts), Some(100));
    assert_eq!(resize_target_width(100, opts), None);
    assert_eq!(resize_target_width(50, opts), None);
    let zero = ConversionOptions {
        resize: Some(ResizeOptions { max_width: 0 }),
        jpeg_background: None,
    };
    assert_eq!(resize_target_width(200, zero), None);
    assert_eq!(resize_target_width(200, ConversionOptions::default()), None);
}

#[test]
fn output_dimensions_note() {
    let mut stats = ConvertStats {
        input_size: 10,
        output_size: 5,
        width: 40,
        height: 20,
        output_width: 40,
        output_height: 20,
    };
    assert_eq!(format_output_dimensions(&stats), "");
    stats.output_width = 16;
    stats.output_height = 8;
    assert_eq!(format_output_dimensions(&stats), ", 16x8 px");
}

#[test]
fn flatten_matches_formula_for_all_alphas() {
    let bg = JpegBackground { r: 10, g: 200, b: 77 };
    let mut rgba = Vec::new();
    for a in 0..=255u32 {
        rgba.extend_from_slice(&[250, 3, 128, a as u8]);
    }
    let rgb = flatten_for_jpeg(&rgba, bg);
    assert_eq!(rgb.len(), 256 * 3);
    for a in 0..=255u32 {
        let blend = |f: u32, b: u32| ((f * a + b * (255 - a) + 127) / 255) as u8;
        let i = (a as usize) * 3;
        assert_eq!(rgb[i], blend(250, 10));
        assert_eq!(rgb[i + 1], blend(3, 200));
        assert_eq!(rgb[i + 2], blend(128, 77));
    }
}
