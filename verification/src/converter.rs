//! The decisions of a single conversion: options, output extension checks,
//! JPEG background parsing and alpha flattening, resize targets.
use vstd::prelude::*;

use crate::error::ConverterError;
use crate::format::OutputFormat;
use crate::path::{extension_of, path_extension};
use crate::text::{
    ascii_lower, chars_of, concat2, decimal_string, decimal_text, is_ascii_digit,
    is_ascii_hexdigit, is_unicode_whitespace, to_ascii_lowercase, trim, trim_chars, trim_end,
    trim_start, trim_string,
};
use crate::format::chars_equal;

verus! {

/// Sizes and dimensions of one finished conversion.
#[derive(Clone, Copy, Debug, PartialEq, Eq, Structural)]
pub struct ConvertStats {
    pub input_size: u64,
    pub output_size: u64,
    pub width: u32,
    pub height: u32,
    pub output_width: u32,
    pub output_height: u32,
}

/// Resize applied before encoding.
#[derive(Clone, Copy, Debug, PartialEq, Eq, Structural)]
pub struct ResizeOptions {
    pub max_width: u32,
}

/// Colour put under transparent pixels when writing JPEG.
#[derive(Clone, Copy, Debug, PartialEq, Eq, Structural)]
pub struct JpegBackground {
    pub r: u8,
    pub g: u8,
    pub b: u8,
}

/// Extra options applied around a conversion.
#[derive(Clone, Copy, Debug, PartialEq, Eq, Structural)]
pub struct ConversionOptions {
    pub resize: Option<ResizeOptions>,
    pub jpeg_background: Option<JpegBackground>,
}

/// Value of an ASCII hex digit.
pub open spec fn hex_value(c: char) -> nat {
    if is_ascii_digit(c) {
        ((c as u32) - ('0' as u32)) as nat
    } else if 'a' <= c && c <= 'f' {
        ((c as u32) - ('a' as u32) + 10) as nat
    } else {
        ((c as u32) - ('A' as u32) + 10) as nat
    }
}

/// The two hex digits at `i` and `i + 1` as one byte.
pub open spec fn hex_byte(h: Seq<char>, i: int) -> nat {
    16 * hex_value(h[i]) + hex_value(h[i + 1])
}

/// The digits of a `#RRGGBB` colour: the trimmed input without one
/// leading `#`.
pub open spec fn hex_body(input: Seq<char>) -> Seq<char> {
    let t = trim(input);
    if t.len() > 0 && t[0] == '#' {
        t.drop_first()
    } else {
        t
    }
}

/// The colour `#RRGGBB` (or `RRGGBB`) stands for, if it is one.
pub open spec fn hex_color(input: Seq<char>) -> Option<JpegBackground> {
    let h = hex_body(input);
    if h.len() == 6 && (forall|i: int| 0 <= i < 6 ==> is_ascii_hexdigit(#[trigger] h[i])) {
        Some(
            JpegBackground {
                r: hex_byte(h, 0) as u8,
                g: hex_byte(h, 2) as u8,
                b: hex_byte(h, 4) as u8,
            },
        )
    } else {
        None
    }
}

/// The colour a user value names: `white`, `black` (trimmed, any ASCII
/// case) or a `#RRGGBB` value.
pub open spec fn named_or_hex_color(input: Seq<char>) -> Option<JpegBackground> {
    let l = ascii_lower(trim(input));
    if l == "white"@ {
        Some(JpegBackground { r: 255, g: 255, b: 255 })
    } else if l == "black"@ {
        Some(JpegBackground { r: 0, g: 0, b: 0 })
    } else {
        hex_color(input)
    }
}

/// One colour channel of a pixel with opacity `alpha` laid over `back`,
/// rounded to nearest.
pub open spec fn blend(fore: nat, back: nat, alpha: nat) -> int {
    (fore * alpha + back * (255 - alpha) + 127) / 255
}

/// The channel `c` (0 red, 1 green, 2 blue) of a background colour.
pub open spec fn background_channel(bg: JpegBackground, c: int) -> nat {
    if c == 0 {
        bg.r as nat
    } else if c == 1 {
        bg.g as nat
    } else {
        bg.b as nat
    }
}

/// The RGB pixels of `rgba` (four bytes a pixel) laid over `bg`.
pub open spec fn flattened(rgba: Seq<u8>, bg: JpegBackground) -> Seq<u8> {
    Seq::new(
        (rgba.len() / 4 * 3) as nat,
        |j: int|
            blend(
                rgba[(j / 3) * 4 + j % 3] as nat,
                background_channel(bg, j % 3),
                rgba[(j / 3) * 4 + 3] as nat,
            ) as u8,
    )
}

/// The output extension check: `None` when the path's extension fits the
/// format, else how the actual extension is shown (`.ext`, or `없음` when
/// the path has none).
pub open spec fn extension_mismatch(path: Seq<char>, format: OutputFormat) -> Option<Seq<char>> {
    match path_extension(path) {
        Some(e) => if format.accepts_extension(e) {
            None
        } else {
            Some("."@ + e)
        },
        None => Some("없음"@),
    }
}

/// The width an image is resized to before encoding, if it is resized at
/// all: only images wider than a non-zero maximum width shrink.
pub open spec fn resize_width(width: u32, options: ConversionOptions) -> Option<u32> {
    match options.resize {
        Some(resize) => if resize.max_width == 0 || width <= resize.max_width {
            None
        } else {
            Some(resize.max_width)
        },
        None => None,
    }
}

/// The dimension note of a single-file summary: empty when the image kept
/// its size, otherwise `, WxH px` with the output size.
pub open spec fn dimensions_note(stats: ConvertStats) -> Seq<char> {
    if stats.width == stats.output_width && stats.height == stats.output_height {
        Seq::empty()
    } else {
        ", "@ + decimal_text(stats.output_width as nat) + "x"@ + decimal_text(
            stats.output_height as nat,
        ) + " px"@
    }
}

/// The message of a malformed `#RRGGBB` value.
pub open spec fn hex_format_message() -> Seq<char> {
    "#RRGGBB 형식으로 입력하세요"@
}

/// The message given when a JPEG background is asked for another format.
pub open spec fn background_format_message() -> Seq<char> {
    "JPEG 배경색은 JPG/JPEG 출력에서만 사용할 수 있습니다"@
}

fn hex_digit_value(c: char) -> (v: u8)
    requires
        is_ascii_hexdigit(c),
    ensures
        v as nat == hex_value(c),
        v < 16,
{
    if '0' <= c && c <= '9' {
        ((c as u32) - ('0' as u32)) as u8
    } else if 'a' <= c && c <= 'f' {
        ((c as u32) - ('a' as u32) + 10) as u8
    } else {
        ((c as u32) - ('A' as u32) + 10) as u8
    }
}

fn char_is_hexdigit(c: char) -> (b: bool)
    ensures
        b == is_ascii_hexdigit(c),
{
    ('0' <= c && c <= '9') || ('a' <= c && c <= 'f') || ('A' <= c && c <= 'F')
}

impl JpegBackground {
    pub fn white() -> (bg: Self)
        ensures
            bg == (JpegBackground { r: 255, g: 255, b: 255 }),
    {
        Self { r: 255, g: 255, b: 255 }
    }

    pub fn black() -> (bg: Self)
        ensures
            bg == (JpegBackground { r: 0, g: 0, b: 0 }),
    {
        Self { r: 0, g: 0, b: 0 }
    }

    /// Parses `#RRGGBB` (the `#` may be left out; surrounding whitespace is
    /// ignored).
    pub fn from_hex(input: &str) -> (r: Result<Self, String>)
        ensures
            match hex_color(input@) {
                Some(bg) => r == Ok::<JpegBackground, String>(bg),
                None => r matches Err(m) && m@ == hex_format_message(),
            },
    {
        let t = trim_chars(input);
        let start: usize = if t.len() > 0 && t[0] == '#' {
            1
        } else {
            0
        };
        let ghost h = hex_body(input@);
        assert(h =~= t@.subrange(start as int, t@.len() as int));
        if t.len() - start != 6 {
            return Err("#RRGGBB 형식으로 입력하세요".to_owned());
        }
        let mut i: usize = 0;
        while i < 6
            invariant
                t@ == trim(input@),
                h == t@.subrange(start as int, t@.len() as int),
                h.len() == 6,
                start <= 1,
                t@.len() == start + 6,
                i <= 6,
                forall|k: int| 0 <= k < i ==> is_ascii_hexdigit(#[trigger] h[k]),
            decreases 6 - i,
        {
            if !char_is_hexdigit(t[start + i]) {
                assert(!is_ascii_hexdigit(h[i as int]));
                return Err("#RRGGBB 형식으로 입력하세요".to_owned());
            }
            i = i + 1;
        }
        let r = hex_digit_value(t[start]) * 16 + hex_digit_value(t[start + 1]);
        let g = hex_digit_value(t[start + 2]) * 16 + hex_digit_value(t[start + 3]);
        let b = hex_digit_value(t[start + 4]) * 16 + hex_digit_value(t[start + 5]);
        Ok(Self { r, g, b })
    }

    /// Parses `white`, `black` (any ASCII case) or a `#RRGGBB` value.
    pub fn from_name_or_hex(input: &str) -> (r: Result<Self, String>)
        ensures
            match named_or_hex_color(input@) {
                Some(bg) => r == Ok::<JpegBackground, String>(bg),
                None => r matches Err(m) && m@ == hex_format_message(),
            },
    {
        let trimmed = trim_string(input);
        let lowered = to_ascii_lowercase(trimmed.as_str());
        if chars_equal(lowered.as_str(), "white") {
            Ok(Self::white())
        } else if chars_equal(lowered.as_str(), "black") {
            Ok(Self::black())
        } else {
            Self::from_hex(input)
        }
    }
}

impl Default for ConversionOptions {
    fn default() -> (o: Self)
        ensures
            o == (ConversionOptions { resize: None, jpeg_background: None }),
    {
        ConversionOptions { resize: None, jpeg_background: None }
    }
}

impl ConversionOptions {
    /// Options for a given output format. A JPEG background is refused for
    /// formats other than JPG/JPEG.
    pub fn for_format(
        format: OutputFormat,
        max_width: Option<u32>,
        jpeg_background: Option<JpegBackground>,
    ) -> (r: Result<Self, String>)
        ensures
            if jpeg_background is Some && !(format == OutputFormat::Jpg || format
                == OutputFormat::Jpeg) {
                r matches Err(m) && m@ == background_format_message()
            } else {
                r == Ok::<ConversionOptions, String>(
                    ConversionOptions {
                        resize: match max_width {
                            Some(w) => Some(ResizeOptions { max_width: w }),
                            None => None,
                        },
                        jpeg_background,
                    },
                )
            },
    {
        if jpeg_background.is_some() && !format.is_jpeg() {
            return Err("JPEG 배경색은 JPG/JPEG 출력에서만 사용할 수 있습니다".to_owned());
        }
        let resize = match max_width {
            Some(w) => Some(ResizeOptions { max_width: w }),
            None => None,
        };
        Ok(Self { resize, jpeg_background })
    }
}

/// The error of an output path whose extension does not fit `format`.
pub fn output_extension_mismatch(output_path: &str, format: OutputFormat, actual: String) -> (e:
    ConverterError)
    ensures
        e matches ConverterError::OutputExtensionMismatch { output_path: p, actual: a, expected }
            && p@ == output_path@ && a@ == actual@ && expected@ == format.extensions_label(),
{
    ConverterError::OutputExtensionMismatch {
        output_path: output_path.to_owned(),
        actual,
        expected: format.allowed_extensions_label().to_owned(),
    }
}

/// Checks that the output file's extension fits the chosen format.
pub fn validate_output_extension(output_path: &str, format: OutputFormat) -> (r: Result<
    (),
    ConverterError,
>)
    ensures
        match extension_mismatch(output_path@, format) {
            None => r is Ok,
            Some(actual) => r matches Err(
                ConverterError::OutputExtensionMismatch { output_path: p, actual: a, expected },
            ) && p@ == output_path@ && a@ == actual && expected@ == format.extensions_label(),
        },
{
    match extension_of(output_path) {
        Some(extension) => {
            if format.matches_extension(extension.as_str()) {
                Ok(())
            } else {
                let actual = concat2(".", extension.as_str());
                Err(output_extension_mismatch(output_path, format, actual))
            }
        },
        None => Err(output_extension_mismatch(output_path, format, "없음".to_owned())),
    }
}

/// One channel of a pixel laid over a background channel.
pub fn blend_channel(fore: u8, back: u8, alpha: u8) -> (v: u8)
    ensures
        v == blend(fore as nat, back as nat, alpha as nat),
{
    let a = alpha as u32;
    let f = fore as u32;
    let b = back as u32;
    proof {
        assert(f * a <= 255 * 255) by (nonlinear_arith)
            requires
                f <= 255,
                a <= 255,
        ;
        assert(b * (255 - a) <= 255 * 255) by (nonlinear_arith)
            requires
                b <= 255,
                a <= 255,
        ;
        assert(f * a + b * (255 - a) <= 255 * 255) by (nonlinear_arith)
            requires
                f <= 255,
                b <= 255,
                a <= 255,
        ;
    }
    let sum = f * a + b * (255 - a) + 127;
    (sum / 255) as u8
}

/// Lays RGBA pixels (four bytes each) over a background colour, giving RGB
/// pixels (three bytes each).
pub fn flatten_for_jpeg(rgba: &[u8], background: JpegBackground) -> (rgb: Vec<u8>)
    requires
        rgba@.len() % 4 == 0,
    ensures
        rgb@ == flattened(rgba@, background),
{
    let n = rgba.len() / 4;
    let mut out: Vec<u8> = Vec::new();
    let mut p: usize = 0;
    while p < n
        invariant
            n == rgba@.len() / 4,
            rgba@.len() % 4 == 0,
            4 * n == rgba@.len(),
            rgba@.len() <= usize::MAX,
            p <= n,
            out@.len() == 3 * p,
            forall|j: int| 0 <= j < out@.len() ==> #[trigger] out@[j] == flattened(rgba@, background)[j],
        decreases n - p,
    {
        let base = 4 * p;
        let alpha = rgba[base + 3];
        let red = blend_channel(rgba[base], background.r, alpha);
        let green = blend_channel(rgba[base + 1], background.g, alpha);
        let blue = blend_channel(rgba[base + 2], background.b, alpha);
        let ghost before = out@;
        out.push(red);
        out.push(green);
        out.push(blue);
        proof {
            assert forall|j: int| 0 <= j < out@.len() implies #[trigger] out@[j] == flattened(
                rgba@,
                background,
            )[j] by {
                if j >= 3 * p {
                    assert((j / 3) == p as int && j % 3 == j - 3 * p) by (nonlinear_arith)
                        requires
                            3 * p <= j < 3 * p + 3,
                    ;
                } else {
                    assert(out@[j] == before[j]);
                }
            }
        }
        p = p + 1;
    }
    assert(out@ =~= flattened(rgba@, background));
    out
}

/// The width an image is resized to, if it is resized: only when a
/// non-zero maximum width is set and the image is wider than it.
pub fn resize_target_width(width: u32, options: ConversionOptions) -> (w: Option<u32>)
    ensures
        w == resize_width(width, options),
{
    match options.resize {
        Some(resize) => {
            if resize.max_width == 0 || width <= resize.max_width {
                None
            } else {
                Some(resize.max_width)
            }
        },
        None => None,
    }
}

/// The dimension note of a single-file summary (`, WxH px` when the image
/// was resized, empty otherwise).
pub fn format_output_dimensions(stats: &ConvertStats) -> (s: String)
    ensures
        s@ == dimensions_note(*stats),
{
    if stats.width == stats.output_width && stats.height == stats.output_height {
        String::new()
    } else {
        let mut s = ", ".to_owned();
        let w = decimal_string(stats.output_width as u64);
        s.append(w.as_str());
        s.append("x");
        let h = decimal_string(stats.output_height as u64);
        s.append(h.as_str());
        s.append(" px");
        s
    }
}

} // verus!

verus! {

/// A fully opaque pixel keeps its colour and a fully transparent one shows
/// the background; partial opacity lands between the two.
pub proof fn lemma_blend_bounds(fore: nat, back: nat, alpha: nat)
    requires
        fore <= 255,
        back <= 255,
        alpha <= 255,
    ensures
        blend(fore, back, 255) == fore,
        blend(fore, back, 0) == back,
        fore <= back ==> fore <= blend(fore, back, alpha) <= back,
        back <= fore ==> back <= blend(fore, back, alpha) <= fore,
{
    assert(blend(fore, back, 255) == fore) by (nonlinear_arith)
        requires
            fore <= 255,
    ;
    assert(blend(fore, back, 0) == back) by (nonlinear_arith)
        requires
            back <= 255,
    ;
    assert(fore <= back ==> fore <= blend(fore, back, alpha) <= back) by (nonlinear_arith)
        requires
            fore <= 255,
            back <= 255,
            alpha <= 255,
    ;
    assert(back <= fore ==> back <= blend(fore, back, alpha) <= fore) by (nonlinear_arith)
        requires
            fore <= 255,
            back <= 255,
            alpha <= 255,
    ;
}

/// Resizing never enlarges an image and only happens to images wider than
/// the maximum width.
pub proof fn lemma_resize_only_shrinks(width: u32, options: ConversionOptions)
    ensures
        resize_width(width, options) matches Some(w) ==> 0 < w < width,
        resize_width(width, options) is Some <==> (options.resize matches Some(r) && r.max_width
            > 0 && width > r.max_width),
{
}

/// The two-hex-digit text of a byte.
pub open spec fn hex_pair(v: nat) -> Seq<char> {
    seq![hex_digit_char(v / 16), hex_digit_char(v % 16)]
}

/// The uppercase hex digit of a value below sixteen.
pub open spec fn hex_digit_char(d: nat) -> char {
    if d < 10 {
        ((d + 48) as u32) as char
    } else {
        ((d + 55) as u32) as char
    }
}

/// A colour written as `#RRGGBB` is read back as the same colour.
pub proof fn lemma_hex_color_round_trip(bg: JpegBackground)
    ensures
        hex_color(seq!['#'] + hex_pair(bg.r as nat) + hex_pair(bg.g as nat) + hex_pair(
            bg.b as nat,
        )) == Some(bg),
{
    let s = seq!['#'] + hex_pair(bg.r as nat) + hex_pair(bg.g as nat) + hex_pair(bg.b as nat);
    assert(s.len() == 7);
    assert forall|d: nat| d < 16 implies is_ascii_hexdigit(#[trigger] hex_digit_char(d))
        && hex_value(hex_digit_char(d)) == d by {}
    assert(!is_unicode_whitespace(s[0]));
    assert(!is_unicode_whitespace(s[6]));
    assert(trim_start(s) == s);
    assert(trim_end(s) == s);
    let h = hex_body(s);
    assert(h =~= s.drop_first());
    assert((bg.r as nat) / 16 < 16 && (bg.g as nat) / 16 < 16 && (bg.b as nat) / 16 < 16);
    assert(hex_byte(h, 0) == bg.r as nat);
    assert(hex_byte(h, 2) == bg.g as nat);
    assert(hex_byte(h, 4) == bg.b as nat);
}

} // verus!

verus! {

/// The output check accepts a path exactly when its extension, in any ASCII
/// case, belongs to the chosen format: `png` for PNG, `jpg` or `jpeg` for
/// JPG and JPEG, `webp` for WebP, `avif` for AVIF. A refused path is
/// reported with its own extension, or as `없음` when it has none.
pub proof fn lemma_output_extension_rule(path: Seq<char>, format: OutputFormat)
    ensures
        extension_mismatch(path, format) is None <==> (path_extension(path) matches Some(e) && {
            let l = ascii_lower(e);
            match format {
                OutputFormat::Png => l == "png"@,
                OutputFormat::Jpg | OutputFormat::Jpeg => l == "jpg"@ || l == "jpeg"@,
                OutputFormat::Webp => l == "webp"@,
                OutputFormat::Avif => l == "avif"@,
            }
        }),
        path_extension(path) matches Some(e) ==> (extension_mismatch(path, format) is Some
            ==> extension_mismatch(path, format) == Some("."@ + e)),
        path_extension(path) is None ==> extension_mismatch(path, format) == Some("없음"@),
{
    reveal_strlit("png");
    reveal_strlit("jpg");
    reveal_strlit("jpeg");
    reveal_strlit("webp");
    reveal_strlit("avif");
    let x = format.extensions();
    assert forall|i: int| 0 <= i < x.len() implies ascii_lower(#[trigger] x[i]) == x[i] by {
        assert(ascii_lower(x[i]) =~= x[i]);
    }
    if let Some(e) = path_extension(path) {
        let l = ascii_lower(e);
        assert(format.accepts_extension(e) <==> exists|i: int|
            0 <= i < x.len() && l == #[trigger] x[i]);
        match format {
            OutputFormat::Jpg | OutputFormat::Jpeg => {
                if l == "jpg"@ {
                    assert(l == x[0]);
                } else if l == "jpeg"@ {
                    assert(l == x[1]);
                }
            },
            _ => {
                if l == x[0] {
                    assert(l == x[0]);
                }
            },
        }
    }
}

} // verus!
