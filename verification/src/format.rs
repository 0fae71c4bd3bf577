//! The output formats and their names, labels and file extensions.
use vstd::prelude::*;

use crate::error::ConverterError;
use crate::text::{
    ascii_lower, chars_of, eq_ignore_ascii_case, str_eq_ignore_ascii_case, to_ascii_lowercase,
};

verus! {

/// An output image format the converter can write.
#[derive(Clone, Copy, Debug, PartialEq, Eq, Structural)]
pub enum OutputFormat {
    Png,
    Jpg,
    Jpeg,
    Webp,
    Avif,
}

/// Every output format, in declaration order.
pub open spec fn all_formats() -> Seq<OutputFormat> {
    seq![
        OutputFormat::Png,
        OutputFormat::Jpg,
        OutputFormat::Jpeg,
        OutputFormat::Webp,
        OutputFormat::Avif,
    ]
}

/// The format a user string names, ignoring ASCII case: `png`, `jpg`,
/// `jpeg`, `webp` or `avif`.
pub open spec fn format_named(s: Seq<char>) -> Option<OutputFormat> {
    let l = ascii_lower(s);
    if l == "png"@ {
        Some(OutputFormat::Png)
    } else if l == "jpg"@ {
        Some(OutputFormat::Jpg)
    } else if l == "jpeg"@ {
        Some(OutputFormat::Jpeg)
    } else if l == "webp"@ {
        Some(OutputFormat::Webp)
    } else if l == "avif"@ {
        Some(OutputFormat::Avif)
    } else {
        None
    }
}

impl OutputFormat {
    /// The lowercase name of the format, also its usual file extension.
    pub open spec fn name(self) -> Seq<char> {
        match self {
            OutputFormat::Png => "png"@,
            OutputFormat::Jpg => "jpg"@,
            OutputFormat::Jpeg => "jpeg"@,
            OutputFormat::Webp => "webp"@,
            OutputFormat::Avif => "avif"@,
        }
    }

    /// The uppercase name shown to users.
    pub open spec fn display(self) -> Seq<char> {
        match self {
            OutputFormat::Png => "PNG"@,
            OutputFormat::Jpg => "JPG"@,
            OutputFormat::Jpeg => "JPEG"@,
            OutputFormat::Webp => "WEBP"@,
            OutputFormat::Avif => "AVIF"@,
        }
    }

    /// The file extensions an output file of this format may have. JPG and
    /// JPEG accept each other's extension.
    pub open spec fn extensions(self) -> Seq<Seq<char>> {
        match self {
            OutputFormat::Png => seq!["png"@],
            OutputFormat::Jpg | OutputFormat::Jpeg => seq!["jpg"@, "jpeg"@],
            OutputFormat::Webp => seq!["webp"@],
            OutputFormat::Avif => seq!["avif"@],
        }
    }

    /// How the allowed extensions are described to users.
    pub open spec fn extensions_label(self) -> Seq<char> {
        match self {
            OutputFormat::Png => ".png"@,
            OutputFormat::Jpg | OutputFormat::Jpeg => ".jpg 또는 .jpeg"@,
            OutputFormat::Webp => ".webp"@,
            OutputFormat::Avif => ".avif"@,
        }
    }

    /// `extension` is one of the allowed extensions, ignoring ASCII case.
    pub open spec fn accepts_extension(self, extension: Seq<char>) -> bool {
        exists|i: int|
            0 <= i < self.extensions().len() && eq_ignore_ascii_case(
                extension,
                #[trigger] self.extensions()[i],
            )
    }

    pub fn as_str(self) -> (s: &'static str)
        ensures
            s@ == self.name(),
    {
        match self {
            OutputFormat::Png => "png",
            OutputFormat::Jpg => "jpg",
            OutputFormat::Jpeg => "jpeg",
            OutputFormat::Webp => "webp",
            OutputFormat::Avif => "avif",
        }
    }

    pub fn display_name(self) -> (s: &'static str)
        ensures
            s@ == self.display(),
    {
        match self {
            OutputFormat::Png => "PNG",
            OutputFormat::Jpg => "JPG",
            OutputFormat::Jpeg => "JPEG",
            OutputFormat::Webp => "WEBP",
            OutputFormat::Avif => "AVIF",
        }
    }

    pub fn allowed_extensions(self) -> (exts: &'static [&'static str])
        ensures
            exts@.len() == self.extensions().len(),
            forall|i: int| 0 <= i < exts@.len() ==> #[trigger] exts@[i]@ == self.extensions()[i],
    {
        match self {
            OutputFormat::Png => &["png"],
            OutputFormat::Jpg | OutputFormat::Jpeg => &["jpg", "jpeg"],
            OutputFormat::Webp => &["webp"],
            OutputFormat::Avif => &["avif"],
        }
    }

    pub fn allowed_extensions_label(self) -> (s: &'static str)
        ensures
            s@ == self.extensions_label(),
    {
        match self {
            OutputFormat::Png => ".png",
            OutputFormat::Jpg | OutputFormat::Jpeg => ".jpg 또는 .jpeg",
            OutputFormat::Webp => ".webp",
            OutputFormat::Avif => ".avif",
        }
    }

    /// Whether an output file extension fits this format (ASCII case is
    /// ignored).
    pub fn matches_extension(self, extension: &str) -> (b: bool)
        ensures
            b == self.accepts_extension(extension@),
    {
        let allowed = self.allowed_extensions();
        let mut i: usize = 0;
        while i < allowed.len()
            invariant
                allowed@.len() == self.extensions().len(),
                forall|k: int|
                    0 <= k < allowed@.len() ==> #[trigger] allowed@[k]@ == self.extensions()[k],
                i <= allowed@.len(),
                forall|k: int|
                    0 <= k < i ==> !eq_ignore_ascii_case(extension@, #[trigger] self.extensions()[k]),
            decreases allowed.len() - i,
        {
            if str_eq_ignore_ascii_case(extension, allowed[i]) {
                assert(eq_ignore_ascii_case(extension@, self.extensions()[i as int]));
                return true;
            }
            i = i + 1;
        }
        false
    }

    pub fn is_png(self) -> (b: bool)
        ensures
            b == (self == OutputFormat::Png),
    {
        matches!(self, Self::Png)
    }

    pub fn is_avif(self) -> (b: bool)
        ensures
            b == (self == OutputFormat::Avif),
    {
        matches!(self, Self::Avif)
    }

    pub fn is_jpeg(self) -> (b: bool)
        ensures
            b == (self == OutputFormat::Jpg || self == OutputFormat::Jpeg),
    {
        matches!(self, Self::Jpg | Self::Jpeg)
    }

    /// Parses a format name, ignoring ASCII case. An unknown name is an
    /// `UnsupportedFormat` error that carries the input unchanged.
    pub fn parse(s: &str) -> (r: Result<OutputFormat, ConverterError>)
        ensures
            match format_named(s@) {
                Some(f) => r == Ok::<OutputFormat, ConverterError>(f),
                None => r matches Err(ConverterError::UnsupportedFormat(m)) && m@ == s@,
            },
    {
        let lowered = to_ascii_lowercase(s);
        let l = lowered.as_str();
        if chars_equal(l, "png") {
            Ok(OutputFormat::Png)
        } else if chars_equal(l, "jpg") {
            Ok(OutputFormat::Jpg)
        } else if chars_equal(l, "jpeg") {
            Ok(OutputFormat::Jpeg)
        } else if chars_equal(l, "webp") {
            Ok(OutputFormat::Webp)
        } else if chars_equal(l, "avif") {
            Ok(OutputFormat::Avif)
        } else {
            Err(ConverterError::UnsupportedFormat(s.to_owned()))
        }
    }
}

/// Exact equality of two strings.
pub fn chars_equal(a: &str, b: &str) -> (r: bool)
    ensures
        r == (a@ == b@),
{
    let va = chars_of(a);
    let vb = chars_of(b);
    if va.len() != vb.len() {
        return false;
    }
    let mut i: usize = 0;
    while i < va.len()
        invariant
            va@ == a@,
            vb@ == b@,
            va@.len() == vb@.len(),
            i <= va@.len(),
            forall|k: int| 0 <= k < i ==> a@[k] == b@[k],
        decreases va.len() - i,
    {
        if va[i] != vb[i] {
            return false;
        }
        i = i + 1;
    }
    assert(a@ =~= b@);
    true
}

impl core::str::FromStr for OutputFormat {
    type Err = ConverterError;

    fn from_str(s: &str) -> (r: Result<Self, Self::Err>)
        ensures
            match format_named(s@) {
                Some(f) => r == Ok::<OutputFormat, ConverterError>(f),
                None => r matches Err(ConverterError::UnsupportedFormat(m)) && m@ == s@,
            },
    {
        OutputFormat::parse(s)
    }
}

} // verus!

verus! {

/// `ascii_lower` leaves nothing to lower a second time.
pub proof fn lemma_ascii_lower_idempotent(s: Seq<char>)
    ensures
        ascii_lower(ascii_lower(s)) == ascii_lower(s),
{
    assert(ascii_lower(ascii_lower(s)) =~= ascii_lower(s));
}

/// Parsing a format's own name gives the format back, and its own name is
/// always an accepted output extension.
pub proof fn lemma_format_name_round_trip(f: OutputFormat)
    ensures
        format_named(f.name()) == Some(f),
        f.accepts_extension(f.name()),
{
    reveal_strlit("png");
    reveal_strlit("jpg");
    reveal_strlit("jpeg");
    reveal_strlit("webp");
    reveal_strlit("avif");
    assert(ascii_lower("png"@) =~= "png"@);
    assert(ascii_lower("jpg"@) =~= "jpg"@);
    assert(ascii_lower("jpeg"@) =~= "jpeg"@);
    assert(ascii_lower("webp"@) =~= "webp"@);
    assert(ascii_lower("avif"@) =~= "avif"@);
    assert("jpeg"@.len() == 4 && "jpg"@.len() == 3 && "png"@.len() == 3);
    assert("png"@[0] != "jpg"@[0] && "webp"@[0] != "jpeg"@[0] && "avif"@[0] != "jpeg"@[0]);
    assert("webp"@[0] != "png"@[0] && "avif"@[0] != "png"@[0] && "webp"@[0] != "jpg"@[0]);
    assert("avif"@[0] != "jpg"@[0] && "avif"@[0] != "webp"@[0]);
    match f {
        OutputFormat::Jpeg => {
            assert(eq_ignore_ascii_case(f.name(), f.extensions()[1]));
        },
        _ => {
            assert(eq_ignore_ascii_case(f.name(), f.extensions()[0]));
        },
    }
}

/// Format names are read without regard to ASCII case.
pub proof fn lemma_format_named_ignores_case(s: Seq<char>)
    ensures
        format_named(s) == format_named(ascii_lower(s)),
{
    lemma_ascii_lower_idempotent(s);
}

/// JPG and JPEG output accept both `.jpg` and `.jpeg`, in any case.
pub proof fn lemma_jpeg_aliases(f: OutputFormat, e: Seq<char>)
    requires
        f == OutputFormat::Jpg || f == OutputFormat::Jpeg,
        ascii_lower(e) == "jpg"@ || ascii_lower(e) == "jpeg"@,
    ensures
        f.accepts_extension(e),
{
    reveal_strlit("jpg");
    reveal_strlit("jpeg");
    assert(ascii_lower("jpg"@) =~= "jpg"@);
    assert(ascii_lower("jpeg"@) =~= "jpeg"@);
    if ascii_lower(e) == "jpg"@ {
        assert(eq_ignore_ascii_case(e, f.extensions()[0]));
    } else {
        assert(eq_ignore_ascii_case(e, f.extensions()[1]));
    }
}

} // verus!
