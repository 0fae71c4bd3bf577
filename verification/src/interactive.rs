//! The answers the interactive mode checks and the defaults it proposes.
use vstd::prelude::*;

use crate::converter::validate_output_extension;
use crate::error::error_message;
use crate::format::OutputFormat;
use crate::path::{
    file_name, file_name_of, file_stem_of, lemma_name_after_dir, lemma_name_with_extension,
    lemma_no_slash_concat, trim_trailing_slashes,
    lemma_path_stem_shape, no_dot, no_slash, path_stem,
};
use crate::format::lemma_format_name_round_trip;
use crate::text::{is_ascii_digit, lemma_decimal_text_digits};
use crate::text::{
    decimal_string, decimal_text, parse_unsigned, parse_unsigned_decimal, trim, trim_string,
};
use crate::converter::extension_mismatch;

verus! {

/// The message of an invalid thread count answer.
pub open spec fn threads_message() -> Seq<char> {
    "1 이상의 정수를 입력하세요"@
}

/// The stem used for default output names: the input's file stem, or
/// `output` when it has none.
pub open spec fn default_stem(input: Seq<char>) -> Seq<char> {
    match path_stem(input) {
        Some(s) => s,
        None => "output"@,
    }
}

/// The `attempt`-th candidate file name for converting `input`: first
/// `stem.ext`, then `stem_converted.ext`, then `stem_converted_N.ext` for
/// N = 2, 3, ...
pub open spec fn candidate_name(input: Seq<char>, format: OutputFormat, attempt: nat) -> Seq<
    char,
> {
    let stem = default_stem(input);
    if attempt == 0 {
        stem + "."@ + format.name()
    } else if attempt == 1 {
        stem + "_converted."@ + format.name()
    } else {
        stem + "_converted_"@ + decimal_text(attempt) + "."@ + format.name()
    }
}

/// The default output directory for converting the directory `input`.
pub open spec fn default_dir_name(input: Seq<char>, format: OutputFormat) -> Seq<char> {
    let name = match file_name(input) {
        Some(n) => n,
        None => "output"@,
    };
    name + "_converted_"@ + format.name()
}

/// The quality percentage behind each preset of the quality question;
/// the last choice asks for a custom value.
pub open spec fn preset_quality(selection: nat) -> Option<u32> {
    if selection == 0 {
        Some(90)
    } else if selection == 1 {
        Some(80)
    } else if selection == 2 {
        Some(70)
    } else if selection == 3 {
        Some(100)
    } else {
        None
    }
}

/// Checks a thread count answer: a whole number of at least one.
pub fn validate_threads_input(input: &str) -> (r: Result<(), &'static str>)
    ensures
        match parse_unsigned(input@, usize::MAX as nat) {
            Some(n) => if n >= 1 {
                r is Ok
            } else {
                r matches Err(m) && m@ == threads_message()
            },
            None => r matches Err(m) && m@ == threads_message(),
        },
{
    match parse_unsigned_decimal(input, usize::MAX as u64) {
        Some(n) => {
            if n >= 1 {
                Ok(())
            } else {
                Err("1 이상의 정수를 입력하세요")
            }
        },
        None => Err("1 이상의 정수를 입력하세요"),
    }
}

/// Checks an output file answer against the chosen format, giving the
/// error's message when the extension does not fit.
pub fn validate_output_file_path(input: &str, format: OutputFormat) -> (r: Result<(), String>)
    ensures
        match extension_mismatch(input@, format) {
            None => r is Ok,
            Some(actual) => r matches Err(m) && m@ == "출력 파일 확장자가 선택한 포맷과 맞지 않습니다: "@
                + input@ + " (현재: "@ + actual + ", 허용: "@ + format.extensions_label() + ")"@,
        },
{
    match validate_output_extension(input, format) {
        Ok(()) => Ok(()),
        Err(e) => Err(e.to_string()),
    }
}

/// The `attempt`-th candidate file name for the output of `input`; the
/// caller puts it next to the input and takes the first one that is free.
pub fn default_output_file_name(input: &str, format: OutputFormat, attempt: u64) -> (s: String)
    ensures
        s@ == candidate_name(input@, format, attempt as nat),
{
    let mut s = match file_stem_of(input) {
        Some(stem) => stem,
        None => "output".to_owned(),
    };
    if attempt == 0 {
        s.append(".");
    } else if attempt == 1 {
        s.append("_converted.");
    } else {
        s.append("_converted_");
        let n = decimal_string(attempt);
        s.append(n.as_str());
        s.append(".");
    }
    s.append(format.as_str());
    s
}

/// The default output directory for converting the directory `input`:
/// `<name>_converted_<format>`.
pub fn default_output_path_for_dir(input: &str, format: OutputFormat) -> (s: String)
    ensures
        s@ == default_dir_name(input@, format),
{
    let mut s = match file_name_of(input) {
        Some(name) => name,
        None => "output".to_owned(),
    };
    s.append("_converted_");
    s.append(format.as_str());
    s
}

/// The output format behind each choice of the format question.
pub open spec fn offered_format(selection: nat) -> Option<OutputFormat> {
    if selection == 0 {
        Some(OutputFormat::Webp)
    } else if selection == 1 {
        Some(OutputFormat::Avif)
    } else if selection == 2 {
        Some(OutputFormat::Png)
    } else if selection == 3 {
        Some(OutputFormat::Jpeg)
    } else {
        None
    }
}

/// The choices of the format question, WebP first.
pub fn format_labels() -> (o: [&'static str; 4])
    ensures
        o@[0]@ == "WebP - 웹 권장"@,
        o@[1]@ == "AVIF - 더 작은 용량"@,
        o@[2]@ == "PNG - 무손실"@,
        o@[3]@ == "JPEG - 사진 호환성"@,
{
    ["WebP - 웹 권장", "AVIF - 더 작은 용량", "PNG - 무손실", "JPEG - 사진 호환성"]
}

/// The format of a choice of the format question; `None` past the last one.
pub fn format_for_selection(selection: usize) -> (f: Option<OutputFormat>)
    ensures
        f == offered_format(selection as nat),
{
    match selection {
        0 => Some(OutputFormat::Webp),
        1 => Some(OutputFormat::Avif),
        2 => Some(OutputFormat::Png),
        3 => Some(OutputFormat::Jpeg),
        _ => None,
    }
}

/// The thread count answer: blank (after trimming) leaves the choice to
/// the thread pool, anything else must be a whole number of at least one.
pub fn threads_answer(input: &str) -> (r: Result<Option<usize>, &'static str>)
    ensures
        trim(input@).len() == 0 ==> r == Ok::<Option<usize>, &'static str>(None),
        trim(input@).len() > 0 ==> match parse_unsigned(trim(input@), usize::MAX as nat) {
            Some(n) => if n >= 1 {
                r == Ok::<Option<usize>, &'static str>(Some(n as usize))
            } else {
                r matches Err(m) && m@ == threads_message()
            },
            None => r matches Err(m) && m@ == threads_message(),
        },
{
    let trimmed = trim_string(input);
    if trimmed.as_str().is_empty() {
        return Ok(None);
    }
    match parse_unsigned_decimal(trimmed.as_str(), usize::MAX as u64) {
        Some(n) => {
            if n >= 1 {
                Ok(Some(n as usize))
            } else {
                Err("1 이상의 정수를 입력하세요")
            }
        },
        None => Err("1 이상의 정수를 입력하세요"),
    }
}

/// The choices of the quality question, the web preset first.
pub fn quality_options() -> (o: [&'static str; 5])
    ensures
        o@[0]@ == "웹 권장 (90%)"@,
        o@[1]@ == "균형 (80%)"@,
        o@[2]@ == "작게 저장 (70%)"@,
        o@[3]@ == "원본에 가깝게 (100%)"@,
        o@[4]@ == "직접 입력"@,
{
    ["웹 권장 (90%)", "균형 (80%)", "작게 저장 (70%)", "원본에 가깝게 (100%)", "직접 입력"]
}

/// The quality percentage of a preset choice; `None` for the custom entry.
pub fn quality_for_selection(selection: usize) -> (q: Option<u32>)
    ensures
        q == preset_quality(selection as nat),
{
    match selection {
        0 => Some(90),
        1 => Some(80),
        2 => Some(70),
        3 => Some(100),
        _ => None,
    }
}

} // verus!

verus! {

/// Every default output name the interactive mode proposes passes the
/// output extension check for the chosen format.
pub proof fn lemma_default_name_fits_format(input: Seq<char>, format: OutputFormat, attempt: nat)
    ensures
        extension_mismatch(candidate_name(input, format, attempt), format) is None,
{
    reveal_strlit("output");
    reveal_strlit(".");
    reveal_strlit("_converted.");
    reveal_strlit("_converted_");
    reveal_strlit("png");
    reveal_strlit("jpg");
    reveal_strlit("jpeg");
    reveal_strlit("webp");
    reveal_strlit("avif");
    let stem = default_stem(input);
    lemma_path_stem_shape(input);
    assert(stem.len() > 0 && no_slash(stem));
    let ext = format.name();
    assert(ext.len() > 0 && no_slash(ext) && no_dot(ext));
    lemma_format_name_round_trip(format);
    let c = candidate_name(input, format, attempt);
    if attempt == 0 {
        assert(c =~= stem + seq!['.'] + ext);
        lemma_name_with_extension(stem, ext);
    } else if attempt == 1 {
        let mid = "_converted."@.subrange(0, 10);
        assert(no_slash(mid));
        lemma_no_slash_concat(stem, mid);
        assert(c =~= (stem + mid) + seq!['.'] + ext);
        lemma_name_with_extension(stem + mid, ext);
    } else {
        let digits = decimal_text(attempt);
        lemma_decimal_text_digits(attempt);
        assert(no_slash(digits)) by {
            assert forall|i: int| 0 <= i < digits.len() implies digits[i] != '/' by {
                assert(is_ascii_digit(digits[i]));
            }
        }
        assert(no_slash("_converted_"@));
        lemma_no_slash_concat(stem, "_converted_"@);
        lemma_no_slash_concat(stem + "_converted_"@, digits);
        assert(c =~= (stem + "_converted_"@ + digits) + seq!['.'] + ext);
        lemma_name_with_extension(stem + "_converted_"@ + digits, ext);
    }
}

} // verus!

verus! {

/// The folder proposed for a folder conversion is the input folder's
/// whole name, dots included, followed by `_converted_` and the format's
/// name, whatever the parent directory and with or without a trailing `/`.
pub proof fn lemma_default_dir_keeps_folder_name(
    parent: Seq<char>,
    name: Seq<char>,
    format: OutputFormat,
)
    requires
        parent.len() == 0 || parent.last() == '/',
        name.len() > 0,
        no_slash(name),
        name != seq!['.'],
        name != seq!['.', '.'],
    ensures
        default_dir_name(parent + name, format) == name + "_converted_"@ + format.name(),
        default_dir_name(parent + name + seq!['/'], format) == name + "_converted_"@
            + format.name(),
{
    lemma_name_after_dir(parent, name);
    let p = parent + name;
    let q = p + seq!['/'];
    assert(q.last() == '/');
    assert(q.drop_last() =~= p);
    assert(p.last() == name.last());
    assert(trim_trailing_slashes(p) == p);
    assert(trim_trailing_slashes(q) == p);
    assert(file_name(q) == file_name(p));
}

} // verus!
