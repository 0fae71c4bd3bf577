use image_converter::server::config::{
    parse_env_number, ConfigEnv, ConfigError, EnvValue, ServerConfig,
};
use image_converter::server::conversion::{ensure_pixel_limit, temp_input_name, temp_output_name};
use image_converter::server::error::ApiError;
use image_converter::server::request::{
    input_extension, parse_jpeg_background, parse_max_width, parse_output_format, text_field,
    MultipartForm,
};
use image_converter::server::response::{
    content_type, download_file_name, output_extension, sanitize_file_stem,
};
use image_converter::{ConverterError, JpegBackground, OutputFormat, ResizeOptions};

fn env(values: [EnvValue; 5]) -> ConfigEnv {
    let [q, t, u, p, c] = values;
    ConfigEnv {
        queue_timeout_seconds: q,
        timeout_seconds: t,
        max_upload_bytes: u,
        max_pixels: p,
        max_concurrency: c,
    }
}

fn present(s: &str) -> EnvValue {
    EnvValue::Present(s.to_string())
}

#[test]
fn config_defaults_and_overrides() {
    let defaults = ServerConfig::from_env(&env([
        EnvValue::Missing,
        EnvValue::Missing,
        EnvValue::Missing,
        EnvValue::Missing,
        EnvValue::Missing,
    ]))
    .unwrap();
    assert_eq!(defaults, ServerConfig::default());
    assert_eq!(defaults.max_upload_bytes, 25 * 1024 * 1024);
    assert_eq!(defaults.max_pixels, 80_000_000);
    assert_eq!(defaults.max_concurrency, 2);
    assert_eq!(defaults.queue_timeout_seconds, 10);
    assert_eq!(defaults.conversion_timeout_seconds, 120);

    let raised = ServerConfig::from_env(&env([
        present("0"),
        present("0"),
        present("5"),
        present("6"),
        present("0"),
    ]))
    .unwrap();
    assert_eq!(raised.queue_timeout_seconds, 1);
    assert_eq!(raised.conversion_timeout_seconds, 1);
    assert_eq!(raised.max_concurrency, 1);
    assert_eq!(raised.max_upload_bytes, 5);
    assert_eq!(raised.max_pixels, 6);
}

#[test]
fn config_reports_first_bad_variable() {
    match ServerConfig::from_env(&env([
        EnvValue::Missing,
        present("soon"),
        EnvValue::NotUnicode,
        EnvValue::Missing,
        EnvValue::Missing,
    ])) {
        Err(ConfigError::InvalidNumber { name, value }) => {
            assert_eq!(name, "CONVERT_TIMEOUT_SECONDS");
            assert_eq!(value, "soon");
        }
        _ => panic!("첫 번째 잘못된 변수가 보고되어야 함"),
    }
    match ServerConfig::from_env(&env([
        EnvValue::Missing,
        EnvValue::Missing,
        EnvValue::NotUnicode,
        EnvValue::Missing,
        EnvValue::Missing,
    ])) {
        Err(ConfigError::NotUnicode { name }) => assert_eq!(name, "CONVERT_MAX_UPLOAD_BYTES"),
        _ => panic!("유니코드가 아닌 변수가 보고되어야 함"),
    }
    assert_eq!(
        parse_env_number("PORT", &present("8080"), 4000, u16::MAX as u64).unwrap(),
        8080
    );
    assert!(parse_env_number("PORT", &present("70000"), 4000, u16::MAX as u64).is_err());
    assert!(parse_env_number("PORT", &present(" 80"), 4000, u16::MAX as u64).is_err());
}

fn code(e: &ApiError) -> &str {
    &e.code
}

#[test]
fn request_field_parsers() {
    assert_eq!(
        parse_output_format(" WEBP ".to_string()).unwrap(),
        OutputFormat::Webp
    );
    let e = parse_output_format("xyz".to_string()).unwrap_err();
    assert_eq!((e.status, code(&e)), (400, "unsupported_output_format"));
    assert_eq!(e.message, "지원하지 않는 출력 포맷입니다: xyz");

    assert_eq!(parse_max_width(" 16 ").unwrap(), 16);
    let e = parse_max_width("0").unwrap_err();
    assert_eq!(code(&e), "invalid_max_width");
    assert!(parse_max_width("x").is_err());

    assert_eq!(parse_jpeg_background("black").unwrap(), JpegBackground::black());
    assert_eq!(
        code(&parse_jpeg_background("red").unwrap_err()),
        "invalid_jpeg_background"
    );

    assert_eq!(input_extension("Photo.PNG").unwrap(), "png");
    assert_eq!(input_extension("x.heic").unwrap(), "heic");
    assert_eq!(
        code(&input_extension("noext").unwrap_err()),
        "missing_input_extension"
    );
    let e = input_extension("a.gif").unwrap_err();
    assert_eq!(code(&e), "unsupported_input_extension");
    assert_eq!(e.message, "지원하지 않는 입력 확장자입니다: .gif");

    assert_eq!(text_field("format", b"webp".to_vec()).unwrap(), "webp");
    let e = text_field("format", vec![0xff, 0xfe]).unwrap_err();
    assert_eq!(code(&e), "invalid_text_field");
    assert_eq!(e.message, "format 필드는 UTF-8 문자열이어야 합니다");
}

fn field(name: &str) -> Option<String> {
    Some(name.to_string())
}

#[test]
fn multipart_form_collects_fields() {
    let mut form = MultipartForm::new();
    assert_eq!(form.accept_field(None, None, b"x".to_vec(), 100).unwrap(), None);
    assert_eq!(form.accept_field(field("other"), None, b"x".to_vec(), 100).unwrap(), None);
    assert_eq!(
        form.accept_field(field("format"), None, b"jpeg".to_vec(), 100).unwrap(),
        None
    );
    assert_eq!(
        form.accept_field(field("quality"), None, b"80".to_vec(), 100).unwrap(),
        Some("80".to_string())
    );
    assert_eq!(
        form.accept_field(field("max_width"), None, b"  ".to_vec(), 100).unwrap(),
        None
    );
    assert_eq!(
        form.accept_field(field("max_width"), None, b"12".to_vec(), 100).unwrap(),
        None
    );
    assert_eq!(
        form.accept_field(field("jpeg_background"), None, b"#ff0000".to_vec(), 100).unwrap(),
        None
    );
    assert_eq!(
        form.accept_field(field("file"), field("cat.png"), vec![1, 2, 3], 100).unwrap(),
        None
    );
    let e = form
        .accept_field(field("file"), field("dog.png"), vec![1], 100)
        .unwrap_err();
    assert_eq!(code(&e), "duplicate_file");

    let (image, format, options) = form.finish().unwrap();
    assert_eq!(image.file_name, "cat.png");
    assert_eq!(image.extension, "png");
    assert_eq!(image.bytes, vec![1, 2, 3]);
    assert_eq!(format, OutputFormat::Jpeg);
    assert_eq!(options.resize, Some(ResizeOptions { max_width: 12 }));
    assert_eq!(
        options.jpeg_background,
        Some(JpegBackground { r: 255, g: 0, b: 0 })
    );
}

#[test]
fn multipart_form_rejections() {
    let mut form = MultipartForm::new();
    assert_eq!(
        code(&form.accept_field(field("file"), field("a.png"), vec![], 100).unwrap_err()),
        "empty_file"
    );
    let e = form
        .accept_field(field("file"), field("a.png"), vec![0; 11], 10)
        .unwrap_err();
    assert_eq!(e.status, 413);
    assert_eq!(e.message, "업로드 파일은 최대 10 bytes 까지만 허용됩니다");
    assert_eq!(
        code(&form.accept_field(field("file"), None, vec![1], 10).unwrap_err()),
        "missing_file_name"
    );
    assert_eq!(
        code(&form.accept_field(field("file"), field("a.txt"), vec![1], 10).unwrap_err()),
        "unsupported_input_extension"
    );
    assert_eq!(code(&form.finish().unwrap_err()), "missing_file");

    let mut form = MultipartForm::new();
    form.accept_field(field("file"), field("a.png"), vec![1], 10).unwrap();
    assert_eq!(code(&form.finish().unwrap_err()), "missing_format");

    let mut form = MultipartForm::new();
    form.accept_field(field("file"), field("a.png"), vec![1], 10).unwrap();
    form.accept_field(field("format"), None, b"webp".to_vec(), 10).unwrap();
    form.accept_field(field("jpeg_background"), None, b"white".to_vec(), 10).unwrap();
    assert_eq!(code(&form.finish().unwrap_err()), "invalid_jpeg_background");
}

#[test]
fn response_naming() {
    assert_eq!(output_extension(OutputFormat::Jpeg), "jpg");
    assert_eq!(output_extension(OutputFormat::Jpg), "jpg");
    assert_eq!(output_extension(OutputFormat::Avif), "avif");
    assert_eq!(content_type(OutputFormat::Png), "image/png");
    assert_eq!(content_type(OutputFormat::Jpg), "image/jpeg");
    assert_eq!(content_type(OutputFormat::Webp), "image/webp");
    assert_eq!(content_type(OutputFormat::Avif), "image/avif");
    assert_eq!(sanitize_file_stem("my photo (1)-final_v2"), "my_photo_1-final_v2");
    assert_eq!(sanitize_file_stem("사진"), "");
    assert_eq!(
        download_file_name("my photo.png", OutputFormat::Webp),
        "my_photo.webp"
    );
    assert_eq!(download_file_name("사진.png", OutputFormat::Jpeg), "converted.jpg");
    assert_eq!(download_file_name("", OutputFormat::Png), "converted.png");
    assert_eq!(temp_input_name("png"), "input.png");
    assert_eq!(temp_output_name(OutputFormat::Jpeg), "output.jpg");
}

#[test]
fn pixel_limit_and_errors() {
    assert!(ensure_pixel_limit(100, 100, 10_000).is_ok());
    let e = ensure_pixel_limit(32, 24, 10).unwrap_err();
    assert_eq!(e.status, 413);
    assert_eq!(
        e.message,
        "이미지가 너무 큽니다: 32x24 px (768 pixels, 제한: 10)"
    );
    assert!(ensure_pixel_limit(u32::MAX, u32::MAX, u64::MAX).is_ok());

    let e = ApiError::too_many_requests("wait".to_string());
    assert_eq!((e.status, code(&e)), (429, "conversion_queue_full"));
    let e = ApiError::conversion(ConverterError::UnsupportedFormat("x".to_string()));
    assert_eq!(e.status, 422);
    assert_eq!(e.message, "지원하지 않는 포맷입니다: x");
}

#[test]
fn quality_field_must_be_utf8() {
    let mut form = MultipartForm::new();
    let err = form.accept_field(field("quality"), None, vec![0xff, 0xfe], 100).unwrap_err();
    assert_eq!(err.status, 400);
    assert_eq!(err.code, "invalid_text_field");
    assert_eq!(err.message, "quality 필드는 UTF-8 문자열이어야 합니다");
    assert_eq!(form.accept_field(field("quality"), None, b"85".to_vec(), 100).unwrap(), Some("85".to_string()));
}
