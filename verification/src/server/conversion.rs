//! Limits and file names of one service conversion.
use vstd::prelude::*;

use crate::format::OutputFormat;
use crate::server::error::ApiError;
use crate::server::response::{download_extension, output_extension};
use crate::converter::extension_mismatch;
use crate::format::lemma_format_name_round_trip;
use crate::path::{lemma_name_with_extension, no_dot, no_slash};
use crate::text::{ascii_lower, concat2, decimal_string, decimal_text, eq_ignore_ascii_case};

verus! {

/// The message of an image with more pixels than allowed.
pub open spec fn too_many_pixels_message(width: nat, height: nat, max_pixels: nat) -> Seq<char> {
    "이미지가 너무 큽니다: "@ + decimal_text(width) + "x"@ + decimal_text(height) + " px ("@
        + decimal_text(width * height) + " pixels, 제한: "@ + decimal_text(max_pixels) + ")"@
}

/// Refuses an image whose pixel count exceeds `max_pixels`.
pub fn ensure_pixel_limit(width: u32, height: u32, max_pixels: u64) -> (r: Result<(), ApiError>)
    ensures
        width * height <= max_pixels ==> r is Ok,
        width * height > max_pixels ==> (r matches Err(e) && e.status == 413 && e.code@
            == "payload_too_large"@ && e.message@ == too_many_pixels_message(
            width as nat,
            height as nat,
            max_pixels as nat,
        )),
{
    let w = width as u64;
    let h = height as u64;
    assert(w * h <= 0xffff_ffff * 0xffff_ffff) by (nonlinear_arith)
        requires
            w <= 0xffff_ffff,
            h <= 0xffff_ffff,
    ;
    let pixels = w * h;
    if pixels > max_pixels {
        let mut m = "이미지가 너무 큽니다: ".to_owned();
        m.append(decimal_string(w).as_str());
        m.append("x");
        m.append(decimal_string(h).as_str());
        m.append(" px (");
        m.append(decimal_string(pixels).as_str());
        m.append(" pixels, 제한: ");
        m.append(decimal_string(max_pixels).as_str());
        m.append(")");
        return Err(ApiError::payload_too_large(m));
    }
    Ok(())
}

/// The name of the uploaded file inside the conversion's temporary
/// directory.
pub fn temp_input_name(extension: &str) -> (s: String)
    ensures
        s@ == "input."@ + extension@,
{
    concat2("input.", extension)
}

/// The name of the converted file inside the conversion's temporary
/// directory.
pub fn temp_output_name(format: OutputFormat) -> (s: String)
    ensures
        s@ == "output."@ + download_extension(format),
{
    concat2("output.", output_extension(format))
}

} // verus!

verus! {

/// The temporary output file of a conversion always passes the converter's
/// output extension check for the requested format.
pub proof fn lemma_temp_output_name_fits_format(format: OutputFormat)
    ensures
        extension_mismatch("output."@ + download_extension(format), format) is None,
{
    reveal_strlit("output.");
    reveal_strlit("png");
    reveal_strlit("jpg");
    reveal_strlit("jpeg");
    reveal_strlit("webp");
    reveal_strlit("avif");
    let base = "output."@.subrange(0, 6);
    let ext = download_extension(format);
    assert(no_slash(base));
    assert(ext.len() > 0 && no_slash(ext) && no_dot(ext));
    assert("output."@ + ext =~= base + seq!['.'] + ext);
    lemma_name_with_extension(base, ext);
    lemma_format_name_round_trip(format);
    if format == OutputFormat::Jpeg {
        assert(ascii_lower("jpg"@) =~= "jpg"@);
        assert(eq_ignore_ascii_case(ext, format.extensions()[0]));
    }
}

} // verus!
