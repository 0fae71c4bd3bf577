use image_converter::batch::{
    batch_summary_to_result, precheck_outcome, classify_conversion, is_supported_image, summarize,
};
use image_converter::cli::{
    missing_non_interactive_args, parse_jpeg_background, parse_max_width, parse_threads,
    should_enter_interactive,
};
use image_converter::input::{is_supported_input_extension, supported_input_extensions_label};
use image_converter::{
    BatchSummary, ConvertStats, ConverterError, JpegBackground, OutputFormat, ProcessOutcome,
};

#[test]
fn parse_threads_accepts_positive() {
    assert_eq!(parse_threads("1").unwrap(), 1);
    assert_eq!(parse_threads("16").unwrap(), 16);
}

#[test]
fn parse_threads_rejects_zero() {
    let err = parse_threads("0").unwrap_err();
    assert!(err.contains("1 이상"));
}

#[test]
fn parse_threads_rejects_non_numeric() {
    assert!(parse_threads("abc").is_err());
    assert!(parse_threads("-1").is_err());
}

#[test]
fn parse_max_width_accepts_positive_pixels() {
    assert_eq!(parse_max_width("1").unwrap(), 1);
    assert_eq!(parse_max_width("1600").unwrap(), 1600);
}

#[test]
fn parse_max_width_rejects_invalid_values() {
    assert!(parse_max_width("0").is_err());
    assert!(parse_max_width("-1").is_err());
    assert!(parse_max_width("abc").is_err());
}

#[test]
fn parse_messages_quote_input() {
    assert_eq!(
        parse_threads("abc").unwrap_err(),
        "'abc' 는 유효한 정수가 아닙니다"
    );
    assert_eq!(
        parse_max_width("4294967296").unwrap_err(),
        "'4294967296' 는 유효한 픽셀 값이 아닙니다"
    );
}

#[test]
fn batch_summary_to_result_accepts_success_and_skips() {
    let summary = BatchSummary {
        total_files: 2,
        succeeded: 1,
        failed: 0,
        skipped: 1,
        total_input_size: 100,
        total_output_size: 50,
    };

    assert!(batch_summary_to_result(summary).is_ok());
}

#[test]
fn batch_summary_to_result_rejects_partial_failures() {
    let summary = BatchSummary {
        total_files: 3,
        succeeded: 2,
        failed: 1,
        skipped: 0,
        total_input_size: 100,
        total_output_size: 50,
    };

    let err = batch_summary_to_result(summary).unwrap_err();
    assert!(matches!(
        err,
        ConverterError::BatchPartialFailure { failed: 1 }
    ));
}

#[test]
fn interactive_decision_and_missing_args() {
    assert!(should_enter_interactive(false, true));
    assert!(should_enter_interactive(true, false));
    assert!(!should_enter_interactive(false, false));
    assert_eq!(
        missing_non_interactive_args(false, false, false),
        vec!["-i/--input", "-o/--output", "-f/--format"]
    );
    assert_eq!(missing_non_interactive_args(true, false, true), vec!["-o/--output"]);
    assert!(missing_non_interactive_args(true, true, true).is_empty());
}

fn stats(input: u64, output: u64) -> ConvertStats {
    ConvertStats {
        input_size: input,
        output_size: output,
        width: 1,
        height: 1,
        output_width: 1,
        output_height: 1,
    }
}

#[test]
fn classify_and_summarize() {
    assert_eq!(classify_conversion(Ok(stats(5, 3))), ProcessOutcome::Converted(stats(5, 3)));
    assert_eq!(
        classify_conversion(Err(ConverterError::OutputExists("x".to_string()))),
        ProcessOutcome::Skipped
    );
    assert_eq!(
        classify_conversion(Err(ConverterError::Image("bad".to_string()))),
        ProcessOutcome::Failed
    );
    let outcomes = vec![
        ProcessOutcome::Converted(stats(100, 40)),
        ProcessOutcome::Skipped,
        ProcessOutcome::Failed,
        ProcessOutcome::Converted(stats(60, 30)),
    ];
    let s = summarize(&outcomes);
    assert_eq!(
        s,
        BatchSummary {
            total_files: 4,
            succeeded: 2,
            failed: 1,
            skipped: 1,
            total_input_size: 160,
            total_output_size: 70,
        }
    );
    assert!(batch_summary_to_result(s).is_err());
    let empty = summarize(&[]);
    assert_eq!(empty.total_files, 0);
    assert!(batch_summary_to_result(empty).is_ok());
}

#[test]
fn supported_images_and_inputs() {
    assert!(is_supported_image("a/b/photo.PNG"));
    assert!(is_supported_image("scan.tif"));
    assert!(!is_supported_image("notes.txt"));
    assert!(!is_supported_image("photo.heic"));
    assert!(!is_supported_image("png"));
    assert!(is_supported_input_extension("HEIC"));
    assert!(is_supported_input_extension("ico"));
    assert!(!is_supported_input_extension("gif"));
    assert!(!is_supported_input_extension(".png"));
    assert_eq!(
        supported_input_extensions_label(),
        ".png/.jpg/.jpeg/.webp/.avif/.heic/.heif/.tiff/.tif/.bmp/.ico"
    );
}

// The command line below is what clap hands the library: whether `-I` was
// given, whether there were arguments at all, and which of `-i`, `-o`, `-f`
// are present.

#[test]
fn parse_format_accepts_valid_values_case_insensitive() {
    assert_eq!("WEBP".parse::<OutputFormat>().unwrap(), OutputFormat::Webp);
}

#[test]
fn parse_no_args_is_valid_for_interactive_default() {
    assert!(should_enter_interactive(false, true));
    assert!(missing_non_interactive_args(false, false, false).contains(&"-i/--input"));
}

#[test]
fn interactive_flag_enters_interactive_even_with_no_paths() {
    assert!(should_enter_interactive(true, false));
}

#[test]
fn non_interactive_mode_reports_missing_required_args() {
    // `image_converter -q 80`
    assert!(!should_enter_interactive(false, false));
    assert_eq!(
        missing_non_interactive_args(false, false, false),
        vec!["-i/--input", "-o/--output", "-f/--format"]
    );
}

#[test]
fn non_interactive_mode_accepts_required_args() {
    // `image_converter -i input.png -o output.webp -f webp`
    assert!(!should_enter_interactive(false, false));
    assert!(missing_non_interactive_args(true, true, true).is_empty());
}

#[test]
fn non_interactive_mode_parses_conversion_options() {
    // `--max-width 800 --jpeg-background #ffffff`
    assert_eq!(parse_max_width("800"), Ok(800));
    assert_eq!(parse_jpeg_background("#ffffff"), Ok(JpegBackground::white()));
}

#[test]
fn precheck_outcome_follows_the_order_of_checks() {
    assert_eq!(precheck_outcome(false, true, false, false), Some(ProcessOutcome::Failed));
    assert_eq!(precheck_outcome(true, true, false, false), Some(ProcessOutcome::Skipped));
    assert_eq!(precheck_outcome(true, false, false, true), Some(ProcessOutcome::Failed));
    assert_eq!(precheck_outcome(true, false, true, false), Some(ProcessOutcome::Failed));
    assert_eq!(precheck_outcome(true, false, true, true), None);
}
