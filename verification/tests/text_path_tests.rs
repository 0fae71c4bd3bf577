use image_converter::batch::map_output_path;
use image_converter::path::{
    extension_of, file_name_of, file_stem_of, join_paths, relative_path, with_extension_of,
};
use image_converter::OutputFormat;
use image_converter::text::{
    decimal_string, parse_unsigned_decimal, str_eq_ignore_ascii_case, to_ascii_lowercase,
    trim_string,
};
use std::path::Path;

const PATHS: [&str; 40] = [
    "",
    "/",
    "//",
    ".",
    "..",
    "./",
    "../",
    "a",
    "a/",
    "a//",
    "a/.",
    "a/./",
    "a/..",
    "./a",
    "/a",
    "/a/b",
    "/a/b/",
    "photo.png",
    "photo.PNG",
    "dir/photo.webp",
    "/tmp/photos",
    "/tmp/photos/",
    "a.b.c",
    ".hidden",
    ".hidden.png",
    "..png",
    "file.",
    "file..",
    "no_ext",
    "dir.d/file",
    "dir.d/file.txt",
    "a/b/.",
    "./.",
    "x/../y.jpg",
    "사진.jpeg",
    "공백 있는 이름.tif",
    "a b/c d.e f",
    "/a/b/c.tar.gz",
    ".../x",
    "...",
];

#[test]
fn path_model_matches_std() {
    for p in PATHS {
        let std_path = Path::new(p);
        assert_eq!(
            file_name_of(p).as_deref(),
            std_path.file_name().and_then(|s| s.to_str()),
            "file_name of {:?}",
            p
        );
        assert_eq!(
            extension_of(p).as_deref(),
            std_path.extension().and_then(|s| s.to_str()),
            "extension of {:?}",
            p
        );
        assert_eq!(
            file_stem_of(p).as_deref(),
            std_path.file_stem().and_then(|s| s.to_str()),
            "file_stem of {:?}",
            p
        );
    }
}

#[test]
fn text_helpers_match_std() {
    let samples = [
        "", " ", "  a  ", "\tX\n", "\u{3000}전각\u{3000}", "\u{a0}nbsp", "MiXeD", "ÄÖü", "x\u{85}",
        "\u{200b}zero width\u{200b}",
    ];
    for s in samples {
        assert_eq!(trim_string(s), s.trim(), "trim {:?}", s);
        assert_eq!(to_ascii_lowercase(s), s.to_ascii_lowercase(), "lower {:?}", s);
        for t in samples {
            assert_eq!(str_eq_ignore_ascii_case(s, t), s.eq_ignore_ascii_case(t));
        }
    }
}

#[test]
fn unsigned_parsing_matches_std() {
    let samples = [
        "", "0", "1", "+1", "+", "-1", "-0", "007", " 1", "1 ", "12a", "4294967295", "4294967296",
        "18446744073709551615", "18446744073709551616", "99999999999999999999999", "+0",
        "١٢", "1_000",
    ];
    for s in samples {
        assert_eq!(
            parse_unsigned_decimal(s, u32::MAX as u64).map(|v| v as u32),
            s.parse::<u32>().ok(),
            "u32 {:?}",
            s
        );
        assert_eq!(parse_unsigned_decimal(s, u64::MAX), s.parse::<u64>().ok(), "u64 {:?}", s);
    }
}

#[test]
fn decimal_strings() {
    for n in [0u64, 7, 10, 99, 100, 12345, u64::MAX] {
        assert_eq!(decimal_string(n), n.to_string());
        assert_eq!(parse_unsigned_decimal(&decimal_string(n), u64::MAX), Some(n));
    }
}

#[test]
fn with_extension_matches_std() {
    for p in PATHS {
        for ext in ["webp", "png", "jpeg"] {
            let expected = Path::new(p).with_extension(ext);
            assert_eq!(
                with_extension_of(p, ext),
                expected.to_str().unwrap(),
                "with_extension of {:?}",
                p
            );
        }
    }
}

#[test]
fn join_matches_std() {
    for a in PATHS {
        for b in PATHS {
            let expected = Path::new(a).join(b);
            assert_eq!(join_paths(a, b), expected.to_str().unwrap(), "join {:?} {:?}", a, b);
        }
    }
}

const DIRS: [&str; 8] = ["photos", "photos/", "./photos", "/tmp/photos", ".", "/", "a//b", "photos/."];
const RELS: [&str; 4] = ["a.png", "sub/b.JPG", "sub/deeper/c.tar.tiff", "x.y.webp"];

#[test]
fn relative_path_matches_strip_prefix_for_walked_files() {
    for dir in DIRS {
        for rel in RELS {
            let file = Path::new(dir).join(rel);
            let file = file.to_str().unwrap();
            let expected = Path::new(file).strip_prefix(dir).unwrap();
            assert_eq!(relative_path(file, dir), expected.to_str().unwrap(), "{:?} in {:?}", file, dir);
        }
    }
}

#[test]
fn relative_path_keeps_files_outside_the_directory() {
    assert_eq!(relative_path("other/a.png", "photos"), "other/a.png");
    assert_eq!(relative_path("photos2/a.png", "photos"), "photos2/a.png");
    assert_eq!(relative_path("/abs/a.png", "photos"), "/abs/a.png");
}

#[test]
fn map_output_path_mirrors_the_input_tree() {
    for dir in DIRS {
        for out in ["out", "out/", "/srv/out", ""] {
            for rel in RELS {
                let file = Path::new(dir).join(rel);
                let file = file.to_str().unwrap();
                let expected = Path::new(out).join(
                    Path::new(file).strip_prefix(dir).unwrap().with_extension("webp"),
                );
                assert_eq!(
                    map_output_path(file, dir, out, OutputFormat::Webp),
                    expected.to_str().unwrap(),
                    "{:?} in {:?} to {:?}",
                    file,
                    dir,
                    out
                );
            }
        }
    }
    assert_eq!(
        map_output_path("photos/sub/b.JPG", "photos", "photos_webp", OutputFormat::Avif),
        "photos_webp/sub/b.avif"
    );
}

#[test]
fn map_output_path_gives_the_format_extension() {
    assert_eq!(
        map_output_path("photos/sub/x.tar.PNG", "photos", "out", OutputFormat::Jpeg),
        "out/sub/x.tar.jpeg"
    );
    assert_eq!(map_output_path("photos/.hidden.png", "photos", "out", OutputFormat::Png), "out/.hidden.png");
    // a name whose stem is `.` keeps no file name, as `Path::with_extension` does
    assert_eq!(map_output_path("photos/..png", "photos", "out", OutputFormat::Webp), "out/..");
}
