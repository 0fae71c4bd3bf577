//! Checks of command-line option values and of the command line as a whole.
use vstd::prelude::*;

use crate::converter::{named_or_hex_color, hex_format_message, ConversionOptions, JpegBackground, ResizeOptions};
use crate::format::OutputFormat;
use crate::text::{concat3, parse_unsigned, parse_unsigned_decimal};

verus! {

/// The message of a `--jpeg-background` given with a non-JPEG format.
pub open spec fn background_option_message() -> Seq<char> {
    "--jpeg-background 옵션은 JPG/JPEG 출력에서만 사용할 수 있습니다"@
}

/// `--threads`: a whole number of at least one.
pub fn parse_threads(s: &str) -> (r: Result<usize, String>)
    ensures
        match parse_unsigned(s@, usize::MAX as nat) {
            Some(n) => if n >= 1 {
                r == Ok::<usize, String>(n as usize)
            } else {
                r matches Err(m) && m@ == "스레드 수는 1 이상이어야 합니다"@
            },
            None => r matches Err(m) && m@ == "'"@ + s@ + "' 는 유효한 정수가 아닙니다"@,
        },
{
    match parse_unsigned_decimal(s, usize::MAX as u64) {
        Some(n) => {
            if n == 0 {
                Err("스레드 수는 1 이상이어야 합니다".to_owned())
            } else {
                Ok(n as usize)
            }
        },
        None => Err(concat3("'", s, "' 는 유효한 정수가 아닙니다")),
    }
}

/// `--max-width`: a pixel count of at least one.
pub fn parse_max_width(s: &str) -> (r: Result<u32, String>)
    ensures
        match parse_unsigned(s@, u32::MAX as nat) {
            Some(n) => if n >= 1 {
                r == Ok::<u32, String>(n as u32)
            } else {
                r matches Err(m) && m@ == "최대 가로 크기는 1 이상이어야 합니다"@
            },
            None => r matches Err(m) && m@ == "'"@ + s@ + "' 는 유효한 픽셀 값이 아닙니다"@,
        },
{
    match parse_unsigned_decimal(s, u32::MAX as u64) {
        Some(n) => {
            if n == 0 {
                Err("최대 가로 크기는 1 이상이어야 합니다".to_owned())
            } else {
                Ok(n as u32)
            }
        },
        None => Err(concat3("'", s, "' 는 유효한 픽셀 값이 아닙니다")),
    }
}

/// `--jpeg-background`: `white`, `black` or `#RRGGBB`.
pub fn parse_jpeg_background(s: &str) -> (r: Result<JpegBackground, String>)
    ensures
        match named_or_hex_color(s@) {
            Some(bg) => r == Ok::<JpegBackground, String>(bg),
            None => r matches Err(m) && m@ == hex_format_message(),
        },
{
    JpegBackground::from_name_or_hex(s)
}

/// The conversion options of the command line. `--jpeg-background` is
/// refused unless the output format is JPG/JPEG.
pub fn build_conversion_options(
    format: OutputFormat,
    max_width: Option<u32>,
    jpeg_background: Option<JpegBackground>,
) -> (r: Result<ConversionOptions, String>)
    ensures
        if jpeg_background is Some && !(format == OutputFormat::Jpg || format
            == OutputFormat::Jpeg) {
            r matches Err(m) && m@ == background_option_message()
        } else {
            r == Ok::<ConversionOptions, String>(
                ConversionOptions {
                    resize: match max_width {
                        Some(w) => Some(ResizeOptions { max_width: w }),
                        None => None,
                    },
                    jpeg_background,
                },
            )
        },
{
    if jpeg_background.is_some() && !format.is_jpeg() {
        return Err("--jpeg-background 옵션은 JPG/JPEG 출력에서만 사용할 수 있습니다".to_owned());
    }
    let resize = match max_width {
        Some(w) => Some(ResizeOptions { max_width: w }),
        None => None,
    };
    Ok(ConversionOptions { resize, jpeg_background })
}

/// The interactive mode runs when asked for or when no argument was given.
pub fn should_enter_interactive(interactive: bool, invoked_without_args: bool) -> (b: bool)
    ensures
        b == (interactive || invoked_without_args),
{
    interactive || invoked_without_args
}

/// The options the non-interactive mode still needs, in the order
/// `-i/--input`, `-o/--output`, `-f/--format`.
pub fn missing_non_interactive_args(has_input: bool, has_output: bool, has_format: bool) -> (m: Vec<
    &'static str,
>)
    ensures
        m@.map_values(|a: &str| a@) == (if has_input {
            Seq::empty()
        } else {
            seq!["-i/--input"@]
        }) + (if has_output {
            Seq::empty()
        } else {
            seq!["-o/--output"@]
        }) + (if has_format {
            Seq::empty()
        } else {
            seq!["-f/--format"@]
        }),
{
    let mut missing: Vec<&'static str> = Vec::new();
    if !has_input {
        missing.push("-i/--input");
    }
    if !has_output {
        missing.push("-o/--output");
    }
    if !has_format {
        missing.push("-f/--format");
    }
    let ghost expected = (if has_input {
        Seq::<Seq<char>>::empty()
    } else {
        seq!["-i/--input"@]
    }) + (if has_output {
        Seq::<Seq<char>>::empty()
    } else {
        seq!["-o/--output"@]
    }) + (if has_format {
        Seq::<Seq<char>>::empty()
    } else {
        seq!["-f/--format"@]
    });
    assert(missing@.map_values(|a: &str| a@) =~= expected);
    missing
}

} // verus!
