//! The fields of a conversion request, read one by one.
use vstd::prelude::*;
use vstd::utf8::{decode_utf8, valid_utf8};

use crate::converter::{
    background_format_message, hex_format_message, named_or_hex_color, ConversionOptions,
    JpegBackground, ResizeOptions,
};
use crate::format::{chars_equal, format_named, OutputFormat};
use crate::input::{is_supported_input, is_supported_input_extension};
use crate::path::{extension_of, path_extension};
use crate::server::error::ApiError;
use crate::text::{
    ascii_lower, concat2, concat3, decimal_string, decimal_text, parse_unsigned,
    parse_unsigned_decimal, to_ascii_lowercase, trim, trim_string,
};

verus! {

/// The image part of a request.
#[derive(Debug)]
pub struct UploadedImage {
    pub file_name: String,
    pub extension: String,
    pub bytes: Vec<u8>,
}

/// The request fields read so far.
#[derive(Debug)]
pub struct MultipartForm {
    pub image: Option<UploadedImage>,
    pub format: Option<OutputFormat>,
    pub max_width: Option<u32>,
    pub jpeg_background: Option<JpegBackground>,
}

/// `String::from_utf8`: the text the bytes encode, if they are UTF-8.
#[verifier::external_body]
fn string_from_utf8(bytes: Vec<u8>) -> (r: Option<String>)
    ensures
        r is Some <==> valid_utf8(bytes@),
        r matches Some(s) ==> s@ == decode_utf8(bytes@),
{
    String::from_utf8(bytes).ok()
}

/// A text field's value: its bytes must be UTF-8.
pub fn text_field(name: &str, bytes: Vec<u8>) -> (r: Result<String, ApiError>)
    ensures
        valid_utf8(bytes@) ==> (r matches Ok(s) && s@ == decode_utf8(bytes@)),
        !valid_utf8(bytes@) ==> (r matches Err(e) && e.status == 400 && e.code@
            == "invalid_text_field"@ && e.message@ == name@ + " 필드는 UTF-8 문자열이어야 합니다"@),
{
    match string_from_utf8(bytes) {
        Some(s) => Ok(s),
        None => {
            let m = concat2(name, " 필드는 UTF-8 문자열이어야 합니다");
            Err(ApiError::bad_request("invalid_text_field", m.as_str()))
        },
    }
}

/// The output format field, trimmed and matched ignoring ASCII case.
pub fn parse_output_format(value: String) -> (r: Result<OutputFormat, ApiError>)
    ensures
        match format_named(trim(value@)) {
            Some(f) => r matches Ok(g) && g == f,
            None => r matches Err(e) && e.status == 400 && e.code@
                == "unsupported_output_format"@ && e.message@ == "지원하지 않는 출력 포맷입니다: "@
                + trim(value@),
        },
{
    let trimmed = trim_string(value.as_str());
    match OutputFormat::parse(trimmed.as_str()) {
        Ok(f) => Ok(f),
        Err(_) => {
            let m = concat2("지원하지 않는 출력 포맷입니다: ", trimmed.as_str());
            Err(ApiError::bad_request("unsupported_output_format", m.as_str()))
        },
    }
}

/// The maximum width field: a trimmed pixel count of at least one.
pub fn parse_max_width(value: &str) -> (r: Result<u32, ApiError>)
    ensures
        match parse_unsigned(trim(value@), u32::MAX as nat) {
            Some(n) => if n >= 1 {
                r matches Ok(w) && w == n
            } else {
                r matches Err(e) && e.status == 400 && e.code@ == "invalid_max_width"@ && e.message@
                    == "max_width 는 1 이상이어야 합니다"@
            },
            None => r matches Err(e) && e.status == 400 && e.code@ == "invalid_max_width"@
                && e.message@ == "max_width 는 1 이상의 픽셀 값이어야 합니다: "@ + trim(value@),
        },
{
    let trimmed = trim_string(value);
    match parse_unsigned_decimal(trimmed.as_str(), u32::MAX as u64) {
        Some(n) => {
            if n == 0 {
                Err(ApiError::bad_request("invalid_max_width", "max_width 는 1 이상이어야 합니다"))
            } else {
                Ok(n as u32)
            }
        },
        None => {
            let m = concat2("max_width 는 1 이상의 픽셀 값이어야 합니다: ", trimmed.as_str());
            Err(ApiError::bad_request("invalid_max_width", m.as_str()))
        },
    }
}

/// The JPEG background field: `white`, `black` or `#RRGGBB`.
pub fn parse_jpeg_background(value: &str) -> (r: Result<JpegBackground, ApiError>)
    ensures
        match named_or_hex_color(value@) {
            Some(bg) => r matches Ok(b) && b == bg,
            None => r matches Err(e) && e.status == 400 && e.code@ == "invalid_jpeg_background"@
                && e.message@ == hex_format_message(),
        },
{
    match JpegBackground::from_name_or_hex(value) {
        Ok(bg) => Ok(bg),
        Err(message) => Err(ApiError::bad_request("invalid_jpeg_background", message.as_str())),
    }
}

/// The lowercased extension of an uploaded file, which must be a
/// supported input format.
pub fn input_extension(file_name: &str) -> (r: Result<String, ApiError>)
    ensures
        match path_extension(file_name@) {
            None => r matches Err(e) && e.status == 400 && e.code@ == "missing_input_extension"@
                && e.message@ == "업로드 파일 확장자를 확인할 수 없습니다"@,
            Some(x) => if is_supported_input(ascii_lower(x)) {
                r matches Ok(s) && s@ == ascii_lower(x)
            } else {
                r matches Err(e) && e.status == 400 && e.code@ == "unsupported_input_extension"@
                    && e.message@ == "지원하지 않는 입력 확장자입니다: ."@ + ascii_lower(x)
            },
        },
{
    let extension = match extension_of(file_name) {
        Some(x) => to_ascii_lowercase(x.as_str()),
        None => {
            return Err(
                ApiError::bad_request(
                    "missing_input_extension",
                    "업로드 파일 확장자를 확인할 수 없습니다",
                ),
            );
        },
    };
    if is_supported_input_extension(extension.as_str()) {
        Ok(extension)
    } else {
        let m = concat2("지원하지 않는 입력 확장자입니다: .", extension.as_str());
        Err(ApiError::bad_request("unsupported_input_extension", m.as_str()))
    }
}

/// The message of an upload larger than the limit.
pub open spec fn upload_limit_message(max_upload_bytes: nat) -> Seq<char> {
    "업로드 파일은 최대 "@ + decimal_text(max_upload_bytes) + " bytes 까지만 허용됩니다"@
}

impl MultipartForm {
    /// A form with no field read yet.
    pub fn new() -> (f: Self)
        ensures
            f.image is None,
            f.format is None,
            f.max_width is None,
            f.jpeg_background is None,
    {
        MultipartForm { image: None, format: None, max_width: None, jpeg_background: None }
    }

    /// Reads one field. Unnamed and unknown fields are ignored. The
    /// `quality` field's text is handed back for the caller to read as a
    /// number; every other field is checked and kept here.
    pub fn accept_field(
        &mut self,
        name: Option<String>,
        file_name: Option<String>,
        bytes: Vec<u8>,
        max_upload_bytes: usize,
    ) -> (r: Result<Option<String>, ApiError>)
        ensures
            // a refused field changes nothing
            r is Err ==> final(self).image == old(self).image && final(self).format == old(
                self,
            ).format && final(self).max_width == old(self).max_width
                && final(self).jpeg_background == old(self).jpeg_background,
            // fields other than the one read keep their value
            r is Ok && !(name matches Some(n) && n@ == "file"@) ==> final(self).image == old(
                self,
            ).image,
            r is Ok && !(name matches Some(n) && n@ == "format"@) ==> final(self).format == old(
                self,
            ).format,
            r is Ok && !(name matches Some(n) && n@ == "max_width"@) ==> final(self).max_width
                == old(self).max_width,
            r is Ok && !(name matches Some(n) && n@ == "jpeg_background"@)
                ==> final(self).jpeg_background == old(self).jpeg_background,
            // only the quality field hands text back
            r matches Ok(Some(t)) ==> (name matches Some(n) && n@ == "quality"@)
                && valid_utf8(bytes@) && t@ == decode_utf8(bytes@),
            name matches Some(n) && n@ == "quality"@ && valid_utf8(bytes@) ==> (r matches Ok(
                Some(t),
            ) && t@ == decode_utf8(bytes@)),
            name matches Some(n) && n@ == "quality"@ && !valid_utf8(bytes@) ==> (r matches Err(e)
                && e.status == 400 && e.code@ == "invalid_text_field"@ && e.message@ == "quality"@
                + " 필드는 UTF-8 문자열이어야 합니다"@),
            // the image
            name matches Some(n) && n@ == "file"@ ==> {
                if old(self).image is Some {
                    r matches Err(e) && e.status == 400 && e.code@ == "duplicate_file"@ && e.message@
                        == "이미지 파일은 하나만 업로드할 수 있습니다"@
                } else if bytes@.len() == 0 {
                    r matches Err(e) && e.status == 400 && e.code@ == "empty_file"@ && e.message@
                        == "업로드 파일이 비어 있습니다"@
                } else if bytes@.len() > max_upload_bytes {
                    r matches Err(e) && e.status == 413 && e.code@ == "payload_too_large"@ && e.message@ == upload_limit_message(
                        max_upload_bytes as nat,
                    )
                } else if file_name is None {
                    r matches Err(e) && e.status == 400 && e.code@ == "missing_file_name"@ && e.message@
                        == "업로드 파일 이름을 확인할 수 없습니다"@
                } else {
                    match path_extension(file_name->0@) {
                        Some(x) => if is_supported_input(ascii_lower(x)) {
                            r == Ok::<Option<String>, ApiError>(None) && (final(self).image matches Some(
                                img,
                            ) && img.file_name == file_name->0 && img.extension@ == ascii_lower(x)
                                && img.bytes@ == bytes@)
                        } else {
                            r matches Err(e) && e.status == 400 && e.code@
                                == "unsupported_input_extension"@ && e.message@
                                == "지원하지 않는 입력 확장자입니다: ."@ + ascii_lower(x)
                        },
                        None => r matches Err(e) && e.status == 400 && e.code@
                            == "missing_input_extension"@ && e.message@
                            == "업로드 파일 확장자를 확인할 수 없습니다"@,
                    }
                }
            },
            // the output format
            name matches Some(n) && n@ == "format"@ ==> {
                if !valid_utf8(bytes@) {
                    r matches Err(e) && e.status == 400 && e.code@ == "invalid_text_field"@
                        && e.message@ == "format"@ + " 필드는 UTF-8 문자열이어야 합니다"@
                } else {
                    match format_named(trim(decode_utf8(bytes@))) {
                        Some(f) => r == Ok::<Option<String>, ApiError>(None) && final(self).format
                            == Some(f),
                        None => r matches Err(e) && e.status == 400 && e.code@
                            == "unsupported_output_format"@ && e.message@
                            == "지원하지 않는 출력 포맷입니다: "@ + trim(decode_utf8(bytes@)),
                    }
                }
            },
            // the maximum width, unless left blank
            name matches Some(n) && n@ == "max_width"@ ==> {
                if !valid_utf8(bytes@) {
                    r matches Err(e) && e.status == 400 && e.code@ == "invalid_text_field"@
                        && e.message@ == "max_width"@ + " 필드는 UTF-8 문자열이어야 합니다"@
                } else if trim(decode_utf8(bytes@)).len() == 0 {
                    r == Ok::<Option<String>, ApiError>(None) && final(self).max_width == old(
                        self,
                    ).max_width
                } else {
                    match parse_unsigned(trim(decode_utf8(bytes@)), u32::MAX as nat) {
                        Some(w) => if w >= 1 {
                            r == Ok::<Option<String>, ApiError>(None) && final(self).max_width
                                == Some(w as u32)
                        } else {
                            r matches Err(e) && e.status == 400 && e.code@
                                == "invalid_max_width"@ && e.message@
                                == "max_width 는 1 이상이어야 합니다"@
                        },
                        None => r matches Err(e) && e.status == 400 && e.code@
                            == "invalid_max_width"@ && e.message@
                            == "max_width 는 1 이상의 픽셀 값이어야 합니다: "@ + trim(
                            decode_utf8(bytes@),
                        ),
                    }
                }
            },
            // the JPEG background, unless left blank
            name matches Some(n) && n@ == "jpeg_background"@ ==> {
                if !valid_utf8(bytes@) {
                    r matches Err(e) && e.status == 400 && e.code@ == "invalid_text_field"@
                        && e.message@ == "jpeg_background"@ + " 필드는 UTF-8 문자열이어야 합니다"@
                } else if trim(decode_utf8(bytes@)).len() == 0 {
                    r == Ok::<Option<String>, ApiError>(None) && final(self).jpeg_background == old(
                        self,
                    ).jpeg_background
                } else {
                    match named_or_hex_color(decode_utf8(bytes@)) {
                        Some(bg) => r == Ok::<Option<String>, ApiError>(None)
                            && final(self).jpeg_background == Some(bg),
                        None => r matches Err(e) && e.status == 400 && e.code@
                            == "invalid_jpeg_background"@ && e.message@ == hex_format_message(),
                    }
                }
            },
            // anything else is ignored
            !(name matches Some(n) && (n@ == "file"@ || n@ == "format"@ || n@ == "quality"@ || n@
                == "max_width"@ || n@ == "jpeg_background"@)) ==> r == Ok::<
                Option<String>,
                ApiError,
            >(None),
    {
        proof {
            reveal_strlit("file");
            reveal_strlit("format");
            reveal_strlit("quality");
            reveal_strlit("max_width");
            reveal_strlit("jpeg_background");
            assert("file"@.len() == 4);
            assert("format"@.len() == 6);
            assert("quality"@.len() == 7);
            assert("max_width"@.len() == 9);
            assert("jpeg_background"@.len() == 15);
        }
        let name = match name {
            Some(n) => n,
            None => return Ok(None),
        };
        if chars_equal(name.as_str(), "file") {
            if self.image.is_some() {
                return Err(
                    ApiError::bad_request(
                        "duplicate_file",
                        "이미지 파일은 하나만 업로드할 수 있습니다",
                    ),
                );
            }
            if bytes.len() == 0 {
                return Err(ApiError::bad_request("empty_file", "업로드 파일이 비어 있습니다"));
            }
            if bytes.len() > max_upload_bytes {
                let m = concat3(
                    "업로드 파일은 최대 ",
                    decimal_string(max_upload_bytes as u64).as_str(),
                    " bytes 까지만 허용됩니다",
                );
                return Err(ApiError::payload_too_large(m));
            }
            let file_name = match file_name {
                Some(f) => f,
                None => {
                    return Err(
                        ApiError::bad_request(
                            "missing_file_name",
                            "업로드 파일 이름을 확인할 수 없습니다",
                        ),
                    );
                },
            };
            let extension = input_extension(file_name.as_str())?;
            self.image = Some(UploadedImage { file_name, extension, bytes });
            Ok(None)
        } else if chars_equal(name.as_str(), "format") {
            let text = text_field("format", bytes)?;
            let format = parse_output_format(text)?;
            self.format = Some(format);
            Ok(None)
        } else if chars_equal(name.as_str(), "quality") {
            let text = text_field("quality", bytes)?;
            Ok(Some(text))
        } else if chars_equal(name.as_str(), "max_width") {
            let text = text_field("max_width", bytes)?;
            let trimmed = trim_string(text.as_str());
            if !trimmed.as_str().is_empty() {
                let w = parse_max_width(text.as_str())?;
                self.max_width = Some(w);
            }
            Ok(None)
        } else if chars_equal(name.as_str(), "jpeg_background") {
            let text = text_field("jpeg_background", bytes)?;
            let trimmed = trim_string(text.as_str());
            if !trimmed.as_str().is_empty() {
                let bg = parse_jpeg_background(text.as_str())?;
                self.jpeg_background = Some(bg);
            }
            Ok(None)
        } else {
            Ok(None)
        }
    }

    /// Ends the request: the image and the format are required, and a JPEG
    /// background only goes with JPG/JPEG.
    pub fn finish(self) -> (r: Result<(UploadedImage, OutputFormat, ConversionOptions), ApiError>)
        ensures
            self.image is None ==> (r matches Err(e) && e.status == 400 && e.code@
                == "missing_file"@ && e.message@ == "file 필드가 필요합니다"@),
            self.image is Some && self.format is None ==> (r matches Err(e) && e.status == 400
                && e.code@ == "missing_format"@ && e.message@ == "format 필드가 필요합니다"@),
            self.image is Some && self.format is Some && self.jpeg_background is Some && !(
            self.format->0 == OutputFormat::Jpg || self.format->0 == OutputFormat::Jpeg) ==> (
            r matches Err(e) && e.status == 400 && e.code@ == "invalid_jpeg_background"@
                && e.message@ == "jpeg_background 은 JPG/JPEG 출력에서만 사용할 수 있습니다"@),
            r matches Ok((img, f, o)) ==> self.image == Some(img) && self.format == Some(f) && o
                == (ConversionOptions {
                resize: match self.max_width {
                    Some(w) => Some(ResizeOptions { max_width: w }),
                    None => None,
                },
                jpeg_background: self.jpeg_background,
            }),
            self.image is Some && self.format is Some && !(self.jpeg_background is Some && !(
            self.format->0 == OutputFormat::Jpg || self.format->0 == OutputFormat::Jpeg))
                ==> r is Ok,
    {
        let image = match self.image {
            Some(i) => i,
            None => return Err(ApiError::bad_request("missing_file", "file 필드가 필요합니다")),
        };
        let format = match self.format {
            Some(f) => f,
            None => return Err(ApiError::bad_request("missing_format", "format 필드가 필요합니다")),
        };
        match ConversionOptions::for_format(format, self.max_width, self.jpeg_background) {
            Ok(options) => Ok((image, format, options)),
            Err(_) => Err(
                ApiError::bad_request(
                    "invalid_jpeg_background",
                    "jpeg_background 은 JPG/JPEG 출력에서만 사용할 수 있습니다",
                ),
            ),
        }
    }
}

} // verus!
