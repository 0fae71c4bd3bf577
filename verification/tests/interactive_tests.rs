use image_converter::interactive::{
    default_output_file_name, default_output_path_for_dir, format_for_selection, format_labels,
    quality_for_selection, quality_options, threads_answer, validate_output_file_path,
    validate_threads_input,
};
use image_converter::session::{background_labels, input_prompt, QualityChoice, Session, Step};
use image_converter::{ConversionOptions, JpegBackground, ResizeOptions};
use image_converter::OutputFormat;

#[test]
fn quality_options_put_web_recommended_first() {
    let options = quality_options();
    assert_eq!(options[0], "웹 권장 (90%)");
    assert_eq!(options[4], "직접 입력");
}

#[test]
fn quality_for_selection_maps_presets() {
    assert_eq!(quality_for_selection(0).map(|q| q as f32), Some(90.0));
    assert_eq!(quality_for_selection(1).map(|q| q as f32), Some(80.0));
    assert_eq!(quality_for_selection(2).map(|q| q as f32), Some(70.0));
    assert_eq!(quality_for_selection(3).map(|q| q as f32), Some(100.0));
    assert_eq!(quality_for_selection(4), None);
}

#[test]
fn validate_threads_input_accepts_positive() {
    assert!(validate_threads_input("1").is_ok());
    assert!(validate_threads_input("16").is_ok());
}

#[test]
fn validate_threads_input_rejects_invalid() {
    assert!(validate_threads_input("0").is_err());
    assert!(validate_threads_input("-1").is_err());
    assert!(validate_threads_input("abc").is_err());
    assert!(validate_threads_input("").is_err());
}

#[test]
fn validate_output_file_path_accepts_matching_extension() {
    assert!(validate_output_file_path("photo.webp", OutputFormat::Webp).is_ok());
    assert!(validate_output_file_path("photo.AVIF", OutputFormat::Avif).is_ok());
    assert!(validate_output_file_path("photo.png", OutputFormat::Png).is_ok());
}

#[test]
fn validate_output_file_path_accepts_jpg_jpeg_aliases() {
    assert!(validate_output_file_path("photo.jpg", OutputFormat::Jpeg).is_ok());
    assert!(validate_output_file_path("photo.jpeg", OutputFormat::Jpg).is_ok());
}

#[test]
fn validate_output_file_path_rejects_mismatch_or_missing_extension() {
    let mismatch = validate_output_file_path("photo.jpg", OutputFormat::Webp).unwrap_err();
    assert!(mismatch.contains("허용: .webp"));

    let missing = validate_output_file_path("photo", OutputFormat::Png).unwrap_err();
    assert!(missing.contains("현재: 없음"));
}

#[test]
fn default_output_path_for_dir_uses_dirname() {
    let path = "/tmp/photos";
    assert_eq!(
        default_output_path_for_dir(path, OutputFormat::Webp),
        "photos_converted_webp"
    );
}

#[test]
fn default_output_path_for_dir_handles_trailing_slash() {
    let path = "/tmp/photos/";
    assert_eq!(
        default_output_path_for_dir(path, OutputFormat::Avif),
        "photos_converted_avif"
    );
}

#[test]
fn default_output_path_for_dir_without_name() {
    assert_eq!(
        default_output_path_for_dir("/", OutputFormat::Png),
        "output_converted_png"
    );
}

#[test]
fn default_output_file_names_in_order() {
    assert_eq!(
        default_output_file_name("dir/photo.png", OutputFormat::Webp, 0),
        "photo.webp"
    );
    assert_eq!(
        default_output_file_name("dir/photo.png", OutputFormat::Webp, 1),
        "photo_converted.webp"
    );
    assert_eq!(
        default_output_file_name("dir/photo.png", OutputFormat::Webp, 2),
        "photo_converted_2.webp"
    );
    assert_eq!(
        default_output_file_name("no_ext", OutputFormat::Png, 0),
        "no_ext.png"
    );
    assert_eq!(default_output_file_name("/", OutputFormat::Avif, 0), "output.avif");
    for attempt in 0..5 {
        let name = default_output_file_name("a.b/c.d.e", OutputFormat::Jpeg, attempt);
        assert!(validate_output_file_path(&name, OutputFormat::Jpeg).is_ok());
    }
}

#[test]
fn format_question_offers_webp_first() {
    let labels = format_labels();
    assert_eq!(labels[0], "WebP - 웹 권장");
    assert_eq!(labels[3], "JPEG - 사진 호환성");
    assert_eq!(format_for_selection(0), Some(OutputFormat::Webp));
    assert_eq!(format_for_selection(1), Some(OutputFormat::Avif));
    assert_eq!(format_for_selection(2), Some(OutputFormat::Png));
    assert_eq!(format_for_selection(3), Some(OutputFormat::Jpeg));
    assert_eq!(format_for_selection(4), None);
}

#[test]
fn threads_answer_blank_is_automatic() {
    assert_eq!(threads_answer(""), Ok(None));
    assert_eq!(threads_answer("   "), Ok(None));
}

#[test]
fn threads_answer_reads_trimmed_count() {
    assert_eq!(threads_answer(" 4 "), Ok(Some(4)));
    assert_eq!(threads_answer("16"), Ok(Some(16)));
}

#[test]
fn threads_answer_rejects_zero_and_text() {
    assert_eq!(threads_answer("0"), Err("1 이상의 정수를 입력하세요"));
    assert_eq!(threads_answer("abc"), Err("1 이상의 정수를 입력하세요"));
    assert_eq!(threads_answer("-2"), Err("1 이상의 정수를 입력하세요"));
}

#[test]
fn session_single_png_skips_quality_and_threads() {
    let s = Session::start();
    assert_eq!(s.step, Step::Mode);
    let s = s.choose_mode(0);
    assert_eq!(s.step, Step::Input);
    assert!(!s.batch);
    let s = s.enter_input("photo.webp".to_string());
    assert_eq!(s.step, Step::Format);
    let s = s.choose_format(2);
    assert_eq!(s.format, Some(OutputFormat::Png));
    assert!(matches!(s.quality, Some(QualityChoice::Lossless)));
    assert_eq!(s.step, Step::Resize);
    let s = s.enter_resize(None);
    assert_eq!(s.step, Step::Output);
    let s = s.enter_output("photo.png".to_string());
    assert_eq!(s.step, Step::Done);
    assert_eq!(s.input, "photo.webp");
    assert_eq!(s.output, "photo.png");
    assert_eq!(s.threads, None);
    assert_eq!(s.background, None);
    assert!(!s.recursive);
    assert_eq!(s.conversion_options(), ConversionOptions::default());
}

#[test]
fn session_default_single_flow_asks_resize_after_quality() {
    let s = Session::start().choose_mode(0).enter_input("sample.png".to_string()).choose_format(0);
    assert_eq!(s.format, Some(OutputFormat::Webp));
    let s = s.choose_quality(0);
    assert!(matches!(s.quality, Some(QualityChoice::Preset(90))));
    assert_eq!(s.step, Step::Resize);
    let s = s.enter_resize(None);
    assert_eq!(s.step, Step::Output);
}

#[test]
fn session_batch_png_flow_applies_resize() {
    let s = Session::start().choose_mode(1);
    assert_eq!(input_prompt(s.batch), "이미지가 들어 있는 폴더 경로");
    let s = s.enter_input("input".to_string()).choose_recursive(false).choose_format(2);
    assert_eq!(s.step, Step::Resize);
    let s = s.enter_resize(Some(16));
    assert_eq!(s.step, Step::Threads);
    let s = s.enter_threads(None).enter_output("output".to_string());
    assert_eq!(s.step, Step::Done);
    assert_eq!(
        s.conversion_options(),
        ConversionOptions { resize: Some(ResizeOptions { max_width: 16 }), jpeg_background: None }
    );
}

#[test]
fn session_jpeg_custom_background_flow() {
    let s = Session::start().choose_mode(0).enter_input("transparent.png".to_string()).choose_format(3);
    assert_eq!(s.format, Some(OutputFormat::Jpeg));
    let s = s.choose_quality(0);
    assert_eq!(s.step, Step::Background);
    assert_eq!(background_labels()[2], "직접 입력 (#RRGGBB)");
    let s = s.choose_background(2);
    assert_eq!(s.step, Step::CustomBackground);
    let s = s.enter_custom_background(JpegBackground::from_hex("#000000").unwrap());
    assert_eq!(s.step, Step::Resize);
    let s = s.enter_resize(None).enter_output("transparent.jpeg".to_string());
    assert_eq!(s.step, Step::Done);
    assert_eq!(
        s.conversion_options(),
        ConversionOptions { resize: None, jpeg_background: Some(JpegBackground::black()) }
    );
}

#[test]
fn session_jpeg_background_presets() {
    let s = Session::start().choose_mode(0).enter_input("a.png".to_string()).choose_format(3);
    let s = s.choose_quality(4).enter_custom_quality("85".to_string());
    assert_eq!(s.step, Step::Background);
    let s = s.choose_background(0);
    assert_eq!(s.background, Some(JpegBackground::white()));
    assert_eq!(s.step, Step::Resize);
}

#[test]
fn session_folder_with_custom_quality_asks_every_question() {
    let s = Session::start().choose_mode(1);
    assert!(s.batch);
    let s = s.enter_input("/tmp/photos".to_string());
    assert_eq!(s.step, Step::Recursive);
    let s = s.choose_recursive(true);
    assert_eq!(s.step, Step::Format);
    let s = s.choose_format(1);
    assert_eq!(s.format, Some(OutputFormat::Avif));
    assert_eq!(s.step, Step::Quality);
    let s = s.choose_quality(4);
    assert_eq!(s.step, Step::CustomQuality);
    let s = s.enter_custom_quality("85.5".to_string());
    assert!(matches!(&s.quality, Some(QualityChoice::Custom(t)) if t == "85.5"));
    assert_eq!(s.step, Step::Resize);
    let s = s.enter_resize(Some(800));
    assert_eq!(s.step, Step::Threads);
    let s = s.enter_threads(Some(4));
    assert_eq!(s.step, Step::Output);
    assert_eq!(s.default_output_dir(), "photos_converted_avif");
    let s = s.enter_output("out".to_string());
    assert_eq!(s.step, Step::Done);
    assert!(s.recursive);
    assert_eq!(s.threads, Some(4));
    assert_eq!(s.max_width, Some(800));
}

#[test]
fn session_quality_presets_go_straight_on() {
    let s = Session::start().choose_mode(0).enter_input("a.png".to_string()).choose_format(0);
    assert_eq!(s.step, Step::Quality);
    let s = s.choose_quality(1);
    assert!(matches!(s.quality, Some(QualityChoice::Preset(80))));
    assert_eq!(s.step, Step::Resize);
    assert_eq!(input_prompt(false), "변환할 이미지 파일 경로");
}
