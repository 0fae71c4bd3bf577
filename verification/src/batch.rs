//! The decisions of a directory conversion: which files take part, what
//! each file's result counts as, and the summary over all files.
use vstd::prelude::*;

use crate::converter::ConvertStats;
use crate::error::ConverterError;
use crate::input::{is_supported_input, supported_inputs};
use crate::format::OutputFormat;
use crate::path::{
    extension_of, join, join_paths, lemma_with_extension_sets_extension, name_stem, no_slash,
    path_extension, relative_path, relative_to, trim_leading_slashes, under_dir, with_extension,
    with_extension_of,
};
use crate::text::{ascii_lower, eq_ignore_ascii_case, str_eq_ignore_ascii_case};

verus! {

/// Totals of a directory conversion.
#[derive(Clone, Copy, Debug, PartialEq, Eq, Structural)]
pub struct BatchSummary {
    pub total_files: usize,
    pub succeeded: usize,
    pub failed: usize,
    pub skipped: usize,
    pub total_input_size: u64,
    pub total_output_size: u64,
}

/// What happened to one file of a directory conversion.
#[derive(Clone, Copy, Debug, PartialEq, Eq, Structural)]
pub enum ProcessOutcome {
    Converted(ConvertStats),
    Skipped,
    Failed,
}

/// Extensions a directory conversion picks up.
pub open spec fn batch_inputs() -> Seq<Seq<char>> {
    seq!["png"@, "jpg"@, "jpeg"@, "webp"@, "avif"@, "tiff"@, "tif"@, "bmp"@, "ico"@]
}

/// A file takes part in a directory conversion when its extension,
/// lowercased, is one of `batch_inputs()`. (None of those extensions holds a
/// letter that a non-ASCII character lowercases to, so Unicode and ASCII
/// lowercasing agree here.)
pub open spec fn is_batch_input(path: Seq<char>) -> bool {
    match path_extension(path) {
        Some(e) => exists|i: int|
            0 <= i < batch_inputs().len() && eq_ignore_ascii_case(e, #[trigger] batch_inputs()[i]),
        None => false,
    }
}

/// How one file's conversion result counts: a conversion that found its
/// output already there is skipped, any other error is a failure.
pub open spec fn outcome_of(result: Result<ConvertStats, ConverterError>) -> ProcessOutcome {
    match result {
        Ok(stats) => ProcessOutcome::Converted(stats),
        Err(ConverterError::OutputExists(_)) => ProcessOutcome::Skipped,
        Err(_) => ProcessOutcome::Failed,
    }
}

pub open spec fn converted_count(s: Seq<ProcessOutcome>) -> nat
    decreases s.len(),
{
    if s.len() == 0 {
        0
    } else {
        converted_count(s.drop_last()) + if s.last() is Converted {
            1nat
        } else {
            0nat
        }
    }
}

pub open spec fn skipped_count(s: Seq<ProcessOutcome>) -> nat
    decreases s.len(),
{
    if s.len() == 0 {
        0
    } else {
        skipped_count(s.drop_last()) + if s.last() is Skipped {
            1nat
        } else {
            0nat
        }
    }
}

pub open spec fn failed_count(s: Seq<ProcessOutcome>) -> nat
    decreases s.len(),
{
    if s.len() == 0 {
        0
    } else {
        failed_count(s.drop_last()) + if s.last() is Failed {
            1nat
        } else {
            0nat
        }
    }
}

/// Sum of the input sizes of the converted files.
pub open spec fn input_total(s: Seq<ProcessOutcome>) -> nat
    decreases s.len(),
{
    if s.len() == 0 {
        0
    } else {
        input_total(s.drop_last()) + match s.last() {
            ProcessOutcome::Converted(stats) => stats.input_size as nat,
            _ => 0nat,
        }
    }
}

/// Sum of the output sizes of the converted files.
pub open spec fn output_total(s: Seq<ProcessOutcome>) -> nat
    decreases s.len(),
{
    if s.len() == 0 {
        0
    } else {
        output_total(s.drop_last()) + match s.last() {
            ProcessOutcome::Converted(stats) => stats.output_size as nat,
            _ => 0nat,
        }
    }
}

/// The summary of a directory conversion with one outcome per file.
pub open spec fn summary_of(s: Seq<ProcessOutcome>) -> BatchSummary {
    BatchSummary {
        total_files: s.len() as usize,
        succeeded: converted_count(s) as usize,
        failed: failed_count(s) as usize,
        skipped: skipped_count(s) as usize,
        total_input_size: input_total(s) as u64,
        total_output_size: output_total(s) as u64,
    }
}

/// Every outcome is exactly one of converted, skipped or failed.
pub proof fn lemma_counts_partition(s: Seq<ProcessOutcome>)
    ensures
        converted_count(s) + skipped_count(s) + failed_count(s) == s.len(),
    decreases s.len(),
{
    if s.len() > 0 {
        lemma_counts_partition(s.drop_last());
    }
}

proof fn lemma_totals_prefix(s: Seq<ProcessOutcome>, k: int)
    requires
        0 <= k <= s.len(),
    ensures
        input_total(s.subrange(0, k)) <= input_total(s),
        output_total(s.subrange(0, k)) <= output_total(s),
    decreases s.len(),
{
    if k < s.len() {
        lemma_totals_prefix(s.drop_last(), k);
        assert(s.drop_last().subrange(0, k) =~= s.subrange(0, k));
    } else {
        assert(s.subrange(0, k) =~= s);
    }
}

/// Whether a file takes part in a directory conversion, judged by its
/// extension (`png`, `jpg`, `jpeg`, `webp`, `avif`, `tiff`, `tif`, `bmp`,
/// `ico`, in any case).
pub fn is_supported_image(path: &str) -> (b: bool)
    ensures
        b == is_batch_input(path@),
{
    let ext = match extension_of(path) {
        Some(e) => e,
        None => return false,
    };
    let list: [&'static str; 9] = ["png", "jpg", "jpeg", "webp", "avif", "tiff", "tif", "bmp", "ico"];
    assert(list@.len() == batch_inputs().len());
    let mut i: usize = 0;
    while i < 9
        invariant
            ext@ == path_extension(path@)->0,
            path_extension(path@) is Some,
            i <= 9,
            list@.len() == 9,
            forall|k: int| 0 <= k < 9 ==> #[trigger] list@[k]@ == batch_inputs()[k],
            forall|k: int|
                0 <= k < i ==> !eq_ignore_ascii_case(ext@, #[trigger] batch_inputs()[k]),
        decreases 9 - i,
    {
        if str_eq_ignore_ascii_case(ext.as_str(), list[i]) {
            assert(eq_ignore_ascii_case(ext@, batch_inputs()[i as int]));
            return true;
        }
        i = i + 1;
    }
    false
}

/// How a file's conversion result counts in the summary.
pub fn classify_conversion(result: Result<ConvertStats, ConverterError>) -> (o: ProcessOutcome)
    ensures
        o == outcome_of(result),
{
    match result {
        Ok(stats) => ProcessOutcome::Converted(stats),
        Err(ConverterError::OutputExists(_)) => ProcessOutcome::Skipped,
        Err(_) => ProcessOutcome::Failed,
    }
}

/// The checks made on one file before it is converted, in their order: a
/// missing output folder that could not be made fails the file, an output
/// that is already there skips it, and a path that is not UTF-8 fails it.
/// `None` means the file goes on to the conversion.
pub fn precheck_outcome(
    dir_created: bool,
    output_exists: bool,
    input_utf8: bool,
    output_utf8: bool,
) -> (o: Option<ProcessOutcome>)
    ensures
        o == (if !dir_created {
            Some(ProcessOutcome::Failed)
        } else if output_exists {
            Some(ProcessOutcome::Skipped)
        } else if !input_utf8 || !output_utf8 {
            Some(ProcessOutcome::Failed)
        } else {
            None
        }),
{
    if !dir_created {
        Some(ProcessOutcome::Failed)
    } else if output_exists {
        Some(ProcessOutcome::Skipped)
    } else if !input_utf8 || !output_utf8 {
        Some(ProcessOutcome::Failed)
    } else {
        None
    }
}

/// Adds up the outcomes of a directory conversion, one per file.
pub fn summarize(outcomes: &[ProcessOutcome]) -> (s: BatchSummary)
    requires
        input_total(outcomes@) <= u64::MAX,
        output_total(outcomes@) <= u64::MAX,
    ensures
        s == summary_of(outcomes@),
        s.succeeded + s.skipped + s.failed == s.total_files,
{
    let mut summary = BatchSummary {
        total_files: outcomes.len(),
        succeeded: 0,
        failed: 0,
        skipped: 0,
        total_input_size: 0,
        total_output_size: 0,
    };
    let mut i: usize = 0;
    while i < outcomes.len()
        invariant
            i <= outcomes@.len(),
            input_total(outcomes@) <= u64::MAX,
            output_total(outcomes@) <= u64::MAX,
            summary.total_files == outcomes@.len(),
            summary.succeeded == converted_count(outcomes@.subrange(0, i as int)),
            summary.skipped == skipped_count(outcomes@.subrange(0, i as int)),
            summary.failed == failed_count(outcomes@.subrange(0, i as int)),
            summary.total_input_size == input_total(outcomes@.subrange(0, i as int)),
            summary.total_output_size == output_total(outcomes@.subrange(0, i as int)),
        decreases outcomes.len() - i,
    {
        let ghost prefix = outcomes@.subrange(0, i + 1);
        assert(prefix.drop_last() =~= outcomes@.subrange(0, i as int));
        proof {
            lemma_totals_prefix(outcomes@, i + 1);
            lemma_counts_partition(outcomes@.subrange(0, i as int));
        }
        match outcomes[i] {
            ProcessOutcome::Converted(stats) => {
                summary.succeeded = summary.succeeded + 1;
                summary.total_input_size = summary.total_input_size + stats.input_size;
                summary.total_output_size = summary.total_output_size + stats.output_size;
            },
            ProcessOutcome::Skipped => {
                summary.skipped = summary.skipped + 1;
            },
            ProcessOutcome::Failed => {
                summary.failed = summary.failed + 1;
            },
        }
        i = i + 1;
    }
    assert(outcomes@.subrange(0, outcomes@.len() as int) =~= outcomes@);
    proof {
        lemma_counts_partition(outcomes@);
    }
    summary
}

/// A directory conversion succeeds when no file failed; skipped files do
/// not count as failures.
pub fn batch_summary_to_result(summary: BatchSummary) -> (r: Result<(), ConverterError>)
    ensures
        summary.failed > 0 ==> (r matches Err(ConverterError::BatchPartialFailure { failed })
            && failed == summary.failed),
        summary.failed == 0 ==> r is Ok,
{
    if summary.failed > 0 {
        Err(ConverterError::BatchPartialFailure { failed: summary.failed })
    } else {
        Ok(())
    }
}

} // verus!

verus! {

/// A directory conversion with no failed file succeeds, however many
/// files were skipped because their output already existed.
pub proof fn lemma_success_without_failures(s: Seq<ProcessOutcome>)
    requires
        forall|i: int| 0 <= i < s.len() ==> !(#[trigger] s[i] is Failed),
    ensures
        failed_count(s) == 0,
        summary_of(s).failed == 0,
    decreases s.len(),
{
    if s.len() > 0 {
        assert forall|i: int| 0 <= i < s.drop_last().len() implies !(
        #[trigger] s.drop_last()[i] is Failed) by {
            assert(s.drop_last()[i] == s[i]);
        }
        lemma_success_without_failures(s.drop_last());
        assert(!(s[s.len() - 1] is Failed));
    }
}

/// A failed file anywhere makes the directory conversion fail.
pub proof fn lemma_any_failure_fails(s: Seq<ProcessOutcome>, k: int)
    requires
        0 <= k < s.len(),
        s[k] is Failed,
    ensures
        failed_count(s) >= 1,
    decreases s.len(),
{
    if k < s.len() - 1 {
        assert(s.drop_last()[k] == s[k]);
        lemma_any_failure_fails(s.drop_last(), k);
    }
}

/// Every file a directory conversion picks up is a supported input format.
pub proof fn lemma_batch_inputs_are_supported(path: Seq<char>)
    requires
        is_batch_input(path),
    ensures
        is_supported_input(path_extension(path)->0),
{
    let e = path_extension(path)->0;
    let i = choose|i: int|
        0 <= i < batch_inputs().len() && eq_ignore_ascii_case(e, #[trigger] batch_inputs()[i]);
    let j: int = if i <= 4 {
        i
    } else {
        i + 2
    };
    assert(batch_inputs()[i] == supported_inputs()[j]);
    assert(eq_ignore_ascii_case(e, supported_inputs()[j]));
}

} // verus!

verus! {

/// Where a directory conversion writes the output of `input_file`, found
/// under `input_dir`: its path relative to `input_dir`, with the format's
/// extension, under `output_dir`.
pub open spec fn mirrored_output(
    input_file: Seq<char>,
    input_dir: Seq<char>,
    output_dir: Seq<char>,
    format: OutputFormat,
) -> Seq<char> {
    join(output_dir, with_extension(relative_to(input_file, input_dir), format.name()))
}

/// The output path of one file of a directory conversion.
pub fn map_output_path(
    input_file: &str,
    input_dir: &str,
    output_dir: &str,
    target_format: OutputFormat,
) -> (s: String)
    ensures
        s@ == mirrored_output(input_file@, input_dir@, output_dir@, target_format),
{
    let relative = relative_path(input_file, input_dir);
    let renamed = with_extension_of(relative.as_str(), target_format.as_str());
    join_paths(output_dir, renamed.as_str())
}

proof fn lemma_trim_leading_after_slash(rel: Seq<char>)
    requires
        rel.len() == 0 || rel[0] != '/',
    ensures
        trim_leading_slashes(seq!['/'] + rel) == rel,
        trim_leading_slashes(rel) == rel,
{
    assert(trim_leading_slashes(rel) == rel);
    assert((seq!['/'] + rel)[0] == '/');
    assert((seq!['/'] + rel).drop_first() =~= rel);
}

/// A directory conversion mirrors the input tree: the file at the relative
/// path `rel` under `input_dir` is written at the same relative path under
/// `output_dir`, with the format's extension in place of its own.
pub proof fn lemma_output_mirrors_input(
    input_dir: Seq<char>,
    rel: Seq<char>,
    output_dir: Seq<char>,
    format: OutputFormat,
)
    requires
        input_dir.len() > 0,
        rel.len() == 0 || rel[0] != '/',
    ensures
        mirrored_output(join(input_dir, rel), input_dir, output_dir, format) == join(
            output_dir,
            with_extension(rel, format.name()),
        ),
{
    let file = join(input_dir, rel);
    let n = input_dir.len() as int;
    lemma_trim_leading_after_slash(rel);
    if input_dir.last() != '/' {
        assert(file =~= input_dir + seq!['/'] + rel);
        assert(file.subrange(0, n) =~= input_dir);
        assert(file[n] == '/');
        assert(file.subrange(n, file.len() as int) =~= seq!['/'] + rel);
    } else {
        assert(file =~= input_dir + rel);
        assert(file.subrange(0, n) =~= input_dir);
        assert(file.subrange(n, file.len() as int) =~= rel);
    }
    assert(under_dir(file, input_dir));
    assert(relative_to(file, input_dir) == rel);
}

/// Every file a directory conversion writes carries the extension of the
/// chosen format, whatever the input's own extension was: the file `name`
/// found in the subdirectory `sub` of `input_dir` is written under
/// `output_dir` as its stem, `.` and the format's name. Names whose stem is
/// `.` (such as `..png`) are left out: their output path ends in `..`.
pub proof fn lemma_output_has_format_extension(
    input_dir: Seq<char>,
    sub: Seq<char>,
    name: Seq<char>,
    output_dir: Seq<char>,
    format: OutputFormat,
)
    requires
        input_dir.len() > 0,
        sub.len() == 0 || (sub[0] != '/' && sub.last() == '/'),
        name.len() > 0,
        no_slash(name),
        name != seq!['.'],
        name != seq!['.', '.'],
        name_stem(name) != seq!['.'],
    ensures
        mirrored_output(join(input_dir, sub + name), input_dir, output_dir, format) == join(
            output_dir,
            sub + name_stem(name) + seq!['.'] + format.name(),
        ),
        path_extension(
            mirrored_output(join(input_dir, sub + name), input_dir, output_dir, format),
        ) == Some(format.name()),
{
    reveal_strlit("png");
    reveal_strlit("jpg");
    reveal_strlit("jpeg");
    reveal_strlit("webp");
    reveal_strlit("avif");
    let rel = sub + name;
    assert(rel[0] != '/') by {
        if sub.len() == 0 {
            assert(rel[0] == name[0]);
        } else {
            assert(rel[0] == sub[0]);
        }
    }
    lemma_output_mirrors_input(input_dir, rel, output_dir, format);
    lemma_with_extension_sets_extension(output_dir, sub, name, format.name());
}

} // verus!

verus! {

/// A directory conversion takes a file exactly when its extension, in any
/// ASCII case, is `png`, `jpg`, `jpeg`, `webp`, `avif`, `tiff`, `tif`,
/// `bmp` or `ico`.
pub proof fn lemma_batch_input_extensions(path: Seq<char>)
    ensures
        is_batch_input(path) <==> (path_extension(path) matches Some(e) && {
            let l = ascii_lower(e);
            ||| l == "png"@
            ||| l == "jpg"@
            ||| l == "jpeg"@
            ||| l == "webp"@
            ||| l == "avif"@
            ||| l == "tiff"@
            ||| l == "tif"@
            ||| l == "bmp"@
            ||| l == "ico"@
        }),
{
    reveal_strlit("png");
    reveal_strlit("jpg");
    reveal_strlit("jpeg");
    reveal_strlit("webp");
    reveal_strlit("avif");
    reveal_strlit("tiff");
    reveal_strlit("tif");
    reveal_strlit("bmp");
    reveal_strlit("ico");
    let s = batch_inputs();
    assert forall|i: int| 0 <= i < s.len() implies ascii_lower(#[trigger] s[i]) == s[i] by {
        assert(ascii_lower(s[i]) =~= s[i]);
    }
    if let Some(e) = path_extension(path) {
        let l = ascii_lower(e);
        if l == "png"@ {
            assert(eq_ignore_ascii_case(e, s[0]));
        } else if l == "jpg"@ {
            assert(eq_ignore_ascii_case(e, s[1]));
        } else if l == "jpeg"@ {
            assert(eq_ignore_ascii_case(e, s[2]));
        } else if l == "webp"@ {
            assert(eq_ignore_ascii_case(e, s[3]));
        } else if l == "avif"@ {
            assert(eq_ignore_ascii_case(e, s[4]));
        } else if l == "tiff"@ {
            assert(eq_ignore_ascii_case(e, s[5]));
        } else if l == "tif"@ {
            assert(eq_ignore_ascii_case(e, s[6]));
        } else if l == "bmp"@ {
            assert(eq_ignore_ascii_case(e, s[7]));
        } else if l == "ico"@ {
            assert(eq_ignore_ascii_case(e, s[8]));
        } else {
            assert forall|i: int| 0 <= i < s.len() implies !eq_ignore_ascii_case(
                e,
                #[trigger] s[i],
            ) by {
                assert(ascii_lower(s[i]) == s[i]);
            }
        }
    }
}

/// In a directory conversion, a converted file counts with its sizes, a
/// file whose output already existed counts as skipped, and every other
/// error counts as a failure.
pub proof fn lemma_outcome_by_result(result: Result<ConvertStats, ConverterError>)
    ensures
        result matches Ok(stats) ==> outcome_of(result) == ProcessOutcome::Converted(stats),
        outcome_of(result) is Skipped <==> result matches Err(ConverterError::OutputExists(_)),
        outcome_of(result) is Failed <==> (result is Err && !(result matches Err(
            ConverterError::OutputExists(_),
        ))),
{
}

} // verus!
