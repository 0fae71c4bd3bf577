//! The error type of the converter.
use vstd::prelude::*;

use crate::text::{concat2, concat3, decimal_string, decimal_text};

verus! {

/// Everything that can go wrong while converting images. Errors that come
/// from outside libraries (I/O, decoders, encoders, prompts, thread pools)
/// carry that library's message.
#[derive(Debug)]
pub enum ConverterError {
    Io(String),
    Image(String),
    Webp(String),
    Avif(String),
    UnsupportedFormat(String),
    InvalidPath(String),
    OutputExists(String),
    OutputExtensionMismatch { output_path: String, actual: String, expected: String },
    BatchPartialFailure { failed: usize },
    Dialog(String),
    QualityParse(String),
    ThreadPool(String),
}

/// The result type of the converter.
pub type Result<T> = core::result::Result<T, ConverterError>;

/// The user-facing message of an error.
pub open spec fn error_message(e: ConverterError) -> Seq<char> {
    match e {
        ConverterError::Io(m) => "입출력 오류: "@ + m@,
        ConverterError::Image(m) => "이미지 디코딩 오류: "@ + m@,
        ConverterError::Webp(m) => "WebP 인코딩 오류: "@ + m@,
        ConverterError::Avif(m) => "AVIF 인코딩 오류: "@ + m@,
        ConverterError::UnsupportedFormat(m) => "지원하지 않는 포맷입니다: "@ + m@,
        ConverterError::InvalidPath(m) => "경로 오류: "@ + m@,
        ConverterError::OutputExists(m) => "출력 경로가 이미 존재합니다: "@ + m@,
        ConverterError::OutputExtensionMismatch { output_path, actual, expected } =>
            "출력 파일 확장자가 선택한 포맷과 맞지 않습니다: "@ + output_path@ + " (현재: "@
                + actual@ + ", 허용: "@ + expected@ + ")"@,
        ConverterError::BatchPartialFailure { failed } => "일괄 변환 중 "@ + decimal_text(
            failed as nat,
        ) + "개 파일이 실패했습니다"@,
        ConverterError::Dialog(m) => "대화형 입력 오류: "@ + m@,
        ConverterError::QualityParse(m) => "품질 값 파싱 오류: "@ + m@,
        ConverterError::ThreadPool(m) => "스레드 풀 생성 오류: "@ + m@,
    }
}

impl ConverterError {
    /// The user-facing message, as `Display` shows it.
    pub fn to_string(&self) -> (s: String)
        ensures
            s@ == error_message(*self),
    {
        match self {
            ConverterError::Io(m) => concat2("입출력 오류: ", m.as_str()),
            ConverterError::Image(m) => concat2("이미지 디코딩 오류: ", m.as_str()),
            ConverterError::Webp(m) => concat2("WebP 인코딩 오류: ", m.as_str()),
            ConverterError::Avif(m) => concat2("AVIF 인코딩 오류: ", m.as_str()),
            ConverterError::UnsupportedFormat(m) => concat2("지원하지 않는 포맷입니다: ", m.as_str()),
            ConverterError::InvalidPath(m) => concat2("경로 오류: ", m.as_str()),
            ConverterError::OutputExists(m) => concat2("출력 경로가 이미 존재합니다: ", m.as_str()),
            ConverterError::OutputExtensionMismatch { output_path, actual, expected } => {
                let mut s = concat3(
                    "출력 파일 확장자가 선택한 포맷과 맞지 않습니다: ",
                    output_path.as_str(),
                    " (현재: ",
                );
                s.append(actual.as_str());
                s.append(", 허용: ");
                s.append(expected.as_str());
                s.append(")");
                s
            },
            ConverterError::BatchPartialFailure { failed } => {
                let n = decimal_string(*failed as u64);
                concat3("일괄 변환 중 ", n.as_str(), "개 파일이 실패했습니다")
            },
            ConverterError::Dialog(m) => concat2("대화형 입력 오류: ", m.as_str()),
            ConverterError::QualityParse(m) => concat2("품질 값 파싱 오류: ", m.as_str()),
            ConverterError::ThreadPool(m) => concat2("스레드 풀 생성 오류: ", m.as_str()),
        }
    }
}

} // verus!
