//! Which input files the converter can read.
use vstd::prelude::*;

use crate::text::{ascii_lower, eq_ignore_ascii_case, str_eq_ignore_ascii_case};

verus! {

/// Extensions of the image files the converter accepts as input.
pub const SUPPORTED_INPUT_EXTENSIONS: [&'static str; 11] = [
    "png",
    "jpg",
    "jpeg",
    "webp",
    "avif",
    "heic",
    "heif",
    "tiff",
    "tif",
    "bmp",
    "ico",
];

/// The supported input extensions, in the order they are listed to users.
pub open spec fn supported_inputs() -> Seq<Seq<char>> {
    seq![
        "png"@,
        "jpg"@,
        "jpeg"@,
        "webp"@,
        "avif"@,
        "heic"@,
        "heif"@,
        "tiff"@,
        "tif"@,
        "bmp"@,
        "ico"@,
    ]
}

/// `extension` names a supported input format, ignoring ASCII case.
pub open spec fn is_supported_input(extension: Seq<char>) -> bool {
    exists|i: int|
        0 <= i < supported_inputs().len() && eq_ignore_ascii_case(
            extension,
            #[trigger] supported_inputs()[i],
        )
}

/// `.a/.b/.c` for the extensions `a`, `b`, `c`.
pub open spec fn dotted_list(exts: Seq<Seq<char>>) -> Seq<char>
    decreases exts.len(),
{
    if exts.len() == 0 {
        Seq::empty()
    } else if exts.len() == 1 {
        "."@ + exts[0]
    } else {
        dotted_list(exts.drop_last()) + "/."@ + exts.last()
    }
}

fn supported_list() -> (exts: [&'static str; 11])
    ensures
        exts@.len() == supported_inputs().len(),
        forall|i: int| 0 <= i < exts@.len() ==> #[trigger] exts@[i]@ == supported_inputs()[i],
{
    SUPPORTED_INPUT_EXTENSIONS
}

/// Whether a file extension names a supported input format (ASCII case is
/// ignored).
pub fn is_supported_input_extension(extension: &str) -> (b: bool)
    ensures
        b == is_supported_input(extension@),
{
    let list = supported_list();
    let mut i: usize = 0;
    while i < list.len()
        invariant
            list@.len() == supported_inputs().len(),
            forall|k: int| 0 <= k < list@.len() ==> #[trigger] list@[k]@ == supported_inputs()[k],
            i <= list@.len(),
            forall|k: int|
                0 <= k < i ==> !eq_ignore_ascii_case(extension@, #[trigger] supported_inputs()[k]),
        decreases list.len() - i,
    {
        if str_eq_ignore_ascii_case(extension, list[i]) {
            assert(eq_ignore_ascii_case(extension@, supported_inputs()[i as int]));
            return true;
        }
        i = i + 1;
    }
    false
}

/// The supported input extensions for user messages, as `.png/.jpg/...`.
pub fn supported_input_extensions_label() -> (s: String)
    ensures
        s@ == dotted_list(supported_inputs()),
{
    let list = supported_list();
    let mut s = String::new();
    let mut i: usize = 0;
    while i < list.len()
        invariant
            list@.len() == supported_inputs().len(),
            forall|k: int| 0 <= k < list@.len() ==> #[trigger] list@[k]@ == supported_inputs()[k],
            i <= list@.len(),
            s@ == dotted_list(supported_inputs().subrange(0, i as int)),
        decreases list.len() - i,
    {
        let ghost before = s@;
        if i > 0 {
            s.append("/.");
        } else {
            s.append(".");
        }
        s.append(list[i]);
        i = i + 1;
        let ghost prefix = supported_inputs().subrange(0, i as int);
        assert(prefix.drop_last() =~= supported_inputs().subrange(0, i - 1));
        assert(prefix.last() == supported_inputs()[i - 1]);
        if i == 1 {
            assert(before =~= Seq::<char>::empty());
            assert(s@ =~= "."@ + prefix[0]);
        }
        assert(s@ =~= dotted_list(prefix));
    }
    assert(supported_inputs().subrange(0, list@.len() as int) =~= supported_inputs());
    s
}

} // verus!

verus! {

/// The converter reads exactly the files whose extension, in any ASCII
/// case, is `png`, `jpg`, `jpeg`, `webp`, `avif`, `heic`, `heif`, `tiff`,
/// `tif`, `bmp` or `ico`.
pub proof fn lemma_supported_input_extensions(extension: Seq<char>)
    ensures
        is_supported_input(extension) <==> ({
            let l = ascii_lower(extension);
            ||| l == "png"@
            ||| l == "jpg"@
            ||| l == "jpeg"@
            ||| l == "webp"@
            ||| l == "avif"@
            ||| l == "heic"@
            ||| l == "heif"@
            ||| l == "tiff"@
            ||| l == "tif"@
            ||| l == "bmp"@
            ||| l == "ico"@
        }),
{
    reveal_strlit("png");
    reveal_strlit("jpg");
    reveal_strlit("jpeg");
    reveal_strlit("webp");
    reveal_strlit("avif");
    reveal_strlit("heic");
    reveal_strlit("heif");
    reveal_strlit("tiff");
    reveal_strlit("tif");
    reveal_strlit("bmp");
    reveal_strlit("ico");
    let s = supported_inputs();
    assert forall|i: int| 0 <= i < s.len() implies ascii_lower(#[trigger] s[i]) == s[i] by {
        assert(ascii_lower(s[i]) =~= s[i]);
    }
    let l = ascii_lower(extension);
    if l == "png"@ {
        assert(eq_ignore_ascii_case(extension, s[0]));
    } else if l == "jpg"@ {
        assert(eq_ignore_ascii_case(extension, s[1]));
    } else if l == "jpeg"@ {
        assert(eq_ignore_ascii_case(extension, s[2]));
    } else if l == "webp"@ {
        assert(eq_ignore_ascii_case(extension, s[3]));
    } else if l == "avif"@ {
        assert(eq_ignore_ascii_case(extension, s[4]));
    } else if l == "heic"@ {
        assert(eq_ignore_ascii_case(extension, s[5]));
    } else if l == "heif"@ {
        assert(eq_ignore_ascii_case(extension, s[6]));
    } else if l == "tiff"@ {
        assert(eq_ignore_ascii_case(extension, s[7]));
    } else if l == "tif"@ {
        assert(eq_ignore_ascii_case(extension, s[8]));
    } else if l == "bmp"@ {
        assert(eq_ignore_ascii_case(extension, s[9]));
    } else if l == "ico"@ {
        assert(eq_ignore_ascii_case(extension, s[10]));
    } else {
        assert forall|i: int| 0 <= i < s.len() implies !eq_ignore_ascii_case(
            extension,
            #[trigger] s[i],
        ) by {
            assert(ascii_lower(s[i]) == s[i]);
        }
    }
}

} // verus!
