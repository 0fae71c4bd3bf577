//! How converted images are named and typed in responses.
use vstd::prelude::*;

use crate::format::OutputFormat;
use crate::path::{file_stem_of, path_stem};
use crate::text::{chars_of, char_is_whitespace, is_ascii_alphanumeric, is_unicode_whitespace, push_char};

verus! {

/// The extension of a downloaded file: `jpg` for both JPEG formats, the
/// format's own name otherwise.
pub open spec fn download_extension(format: OutputFormat) -> Seq<char> {
    if format == OutputFormat::Jpg || format == OutputFormat::Jpeg {
        "jpg"@
    } else {
        format.name()
    }
}

/// The MIME type of a format.
pub open spec fn mime_type(format: OutputFormat) -> Seq<char> {
    match format {
        OutputFormat::Png => "image/png"@,
        OutputFormat::Jpg | OutputFormat::Jpeg => "image/jpeg"@,
        OutputFormat::Webp => "image/webp"@,
        OutputFormat::Avif => "image/avif"@,
    }
}

/// What one character of a file stem becomes in a download name: ASCII
/// letters, digits, `-` and `_` stay, whitespace turns into `_`, anything
/// else is dropped.
pub open spec fn safe_chars(c: char) -> Seq<char> {
    if is_ascii_alphanumeric(c) || c == '-' || c == '_' {
        seq![c]
    } else if is_unicode_whitespace(c) {
        seq!['_']
    } else {
        Seq::empty()
    }
}

/// A file stem reduced to header-safe characters.
pub open spec fn sanitized(s: Seq<char>) -> Seq<char>
    decreases s.len(),
{
    if s.len() == 0 {
        Seq::empty()
    } else {
        sanitized(s.drop_last()) + safe_chars(s.last())
    }
}

/// The stem of a download name: the sanitized stem of the uploaded name,
/// or `converted` when that leaves nothing.
pub open spec fn download_stem(input_file_name: Seq<char>) -> Seq<char> {
    match path_stem(input_file_name) {
        Some(stem) => if sanitized(stem).len() > 0 {
            sanitized(stem)
        } else {
            "converted"@
        },
        None => "converted"@,
    }
}

/// A character kept in download names.
pub open spec fn is_safe_name_char(c: char) -> bool {
    is_ascii_alphanumeric(c) || c == '-' || c == '_'
}

pub fn output_extension(format: OutputFormat) -> (s: &'static str)
    ensures
        s@ == download_extension(format),
{
    match format {
        OutputFormat::Jpg | OutputFormat::Jpeg => "jpg",
        _ => format.as_str(),
    }
}

pub fn content_type(format: OutputFormat) -> (s: &'static str)
    ensures
        s@ == mime_type(format),
{
    match format {
        OutputFormat::Png => "image/png",
        OutputFormat::Jpg | OutputFormat::Jpeg => "image/jpeg",
        OutputFormat::Webp => "image/webp",
        OutputFormat::Avif => "image/avif",
    }
}

/// Keeps ASCII letters, digits, `-` and `_`, turns whitespace into `_`
/// and drops every other character.
pub fn sanitize_file_stem(value: &str) -> (s: String)
    ensures
        s@ == sanitized(value@),
{
    let v = chars_of(value);
    let mut out = String::new();
    let mut i: usize = 0;
    while i < v.len()
        invariant
            v@ == value@,
            i <= v@.len(),
            out@ == sanitized(value@.subrange(0, i as int)),
        decreases v.len() - i,
    {
        let ch = v[i];
        let ghost before = out@;
        if ('a' <= ch && ch <= 'z') || ('A' <= ch && ch <= 'Z') || ('0' <= ch && ch <= '9')
            || ch == '-' || ch == '_' {
            push_char(&mut out, ch);
        } else if char_is_whitespace(ch) {
            push_char(&mut out, '_');
        }
        i = i + 1;
        let ghost prefix = value@.subrange(0, i as int);
        assert(prefix.drop_last() =~= value@.subrange(0, i - 1));
        assert(prefix.last() == ch);
        assert(out@ =~= before + safe_chars(ch));
    }
    assert(value@.subrange(0, v@.len() as int) =~= value@);
    out
}

/// The file name a converted upload is downloaded as: the sanitized stem
/// of the uploaded name (or `converted`) with the format's extension.
pub fn download_file_name(input_file_name: &str, format: OutputFormat) -> (s: String)
    ensures
        s@ == download_stem(input_file_name@) + "."@ + download_extension(format),
{
    let mut s = match file_stem_of(input_file_name) {
        Some(stem) => {
            let clean = sanitize_file_stem(stem.as_str());
            if clean.as_str().is_empty() {
                "converted".to_owned()
            } else {
                clean
            }
        },
        None => "converted".to_owned(),
    };
    s.append(".");
    s.append(output_extension(format));
    s
}

} // verus!

verus! {

/// A character allowed in download names: a kept stem character or `.`.
pub open spec fn is_download_name_char(c: char) -> bool {
    is_safe_name_char(c) || c == '.'
}

proof fn lemma_safe_chars_safe(c: char)
    ensures
        forall|i: int| 0 <= i < safe_chars(c).len() ==> is_safe_name_char(#[trigger] safe_chars(c)[i]),
{
}

/// A sanitized stem holds only kept characters.
pub proof fn lemma_sanitized_is_safe(s: Seq<char>)
    ensures
        forall|i: int| 0 <= i < sanitized(s).len() ==> is_safe_name_char(#[trigger] sanitized(s)[i]),
    decreases s.len(),
{
    if s.len() > 0 {
        lemma_sanitized_is_safe(s.drop_last());
        lemma_safe_chars_safe(s.last());
        let a = sanitized(s.drop_last());
        let b = safe_chars(s.last());
        assert forall|i: int| 0 <= i < (a + b).len() implies is_safe_name_char(#[trigger] (a + b)[i]) by {
            if i < a.len() {
                assert((a + b)[i] == a[i]);
            } else {
                assert((a + b)[i] == b[i - a.len()]);
            }
        }
    }
}

/// Text made only of kept characters is left as it is.
pub proof fn lemma_sanitized_keeps_safe(s: Seq<char>)
    requires
        forall|i: int| 0 <= i < s.len() ==> is_safe_name_char(#[trigger] s[i]),
    ensures
        sanitized(s) == s,
    decreases s.len(),
{
    if s.len() > 0 {
        lemma_sanitized_keeps_safe(s.drop_last());
        assert(s.drop_last().push(s.last()) =~= s);
        assert(safe_chars(s.last()) =~= seq![s.last()]);
    }
}

/// Sanitizing twice is sanitizing once.
pub proof fn lemma_sanitize_idempotent(s: Seq<char>)
    ensures
        sanitized(sanitized(s)) == sanitized(s),
{
    lemma_sanitized_is_safe(s);
    lemma_sanitized_keeps_safe(sanitized(s));
}

/// A download name holds only ASCII letters, digits, `-`, `_` and `.`, so
/// it can stand in a `Content-Disposition` header as it is.
pub proof fn lemma_download_name_is_header_safe(input_file_name: Seq<char>, format: OutputFormat)
    ensures
        ({
            let n = download_stem(input_file_name) + "."@ + download_extension(format);
            forall|i: int| 0 <= i < n.len() ==> is_download_name_char(#[trigger] n[i])
        }),
{
    reveal_strlit("converted");
    reveal_strlit(".");
    reveal_strlit("png");
    reveal_strlit("jpg");
    reveal_strlit("webp");
    reveal_strlit("avif");
    let stem = download_stem(input_file_name);
    let ext = download_extension(format);
    if let Some(st) = path_stem(input_file_name) {
        lemma_sanitized_is_safe(st);
    }
    assert(forall|i: int| 0 <= i < stem.len() ==> is_safe_name_char(#[trigger] stem[i]));
    assert(forall|i: int| 0 <= i < ext.len() ==> is_safe_name_char(#[trigger] ext[i]));
    let n = stem + "."@ + ext;
    assert forall|i: int| 0 <= i < n.len() implies is_download_name_char(#[trigger] n[i]) by {
        if i < stem.len() {
            assert(n[i] == stem[i]);
        } else if i == stem.len() {
            assert(n[i] == '.');
        } else {
            assert(n[i] == ext[i - stem.len() - 1]);
        }
    }
}

} // verus!
