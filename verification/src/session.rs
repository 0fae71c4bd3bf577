//! The course of the interactive mode: which question comes next after
//! each answer, and what the answers add up to. The program asks the
//! questions and hands the answers back one by one.
use vstd::prelude::*;

use crate::converter::{ConversionOptions, JpegBackground, ResizeOptions};
use crate::format::OutputFormat;
use crate::interactive::{
    default_dir_name, default_output_path_for_dir, format_for_selection, offered_format,
    preset_quality, quality_for_selection,
};

verus! {

/// The questions of the interactive mode, in the order they come.
#[derive(Clone, Copy, Debug, PartialEq, Eq, Structural)]
pub enum Step {
    /// One image or a whole folder.
    Mode,
    /// The input file or folder.
    Input,
    /// Whether subfolders are included (folders only).
    Recursive,
    /// The output format.
    Format,
    /// A quality preset (lossy formats only).
    Quality,
    /// A quality typed in by hand.
    CustomQuality,
    /// The colour under transparent pixels (JPEG only).
    Background,
    /// A `#RRGGBB` background typed in by hand (JPEG only).
    CustomBackground,
    /// Whether to shrink to a maximum width, and to which.
    Resize,
    /// The number of threads (folders only).
    Threads,
    /// The output file or folder.
    Output,
    /// Every answer is in.
    Done,
}

/// The quality the answers lead to.
#[derive(Debug)]
pub enum QualityChoice {
    /// PNG is lossless: no question, full quality.
    Lossless,
    /// One of the presets, as a percentage.
    Preset(u32),
    /// The text typed in for the custom quality.
    Custom(String),
}

/// The answers given so far and the question that comes next.
#[derive(Debug)]
pub struct Session {
    pub step: Step,
    pub batch: bool,
    pub input: String,
    pub recursive: bool,
    pub format: Option<OutputFormat>,
    pub quality: Option<QualityChoice>,
    pub background: Option<JpegBackground>,
    pub max_width: Option<u32>,
    pub threads: Option<usize>,
    pub output: String,
}

/// Position of a question in the order of the interactive mode.
pub open spec fn rank(step: Step) -> nat {
    match step {
        Step::Mode => 0,
        Step::Input => 1,
        Step::Recursive => 2,
        Step::Format => 3,
        Step::Quality => 4,
        Step::CustomQuality => 5,
        Step::Background => 6,
        Step::CustomBackground => 7,
        Step::Resize => 8,
        Step::Threads => 9,
        Step::Output => 10,
        Step::Done => 11,
    }
}

/// JPG and JPEG output asks for the colour under transparent pixels.
pub open spec fn asks_background(format: Option<OutputFormat>) -> bool {
    format == Some(OutputFormat::Jpg) || format == Some(OutputFormat::Jpeg)
}

/// The question after the quality: the background for JPEG, the resize
/// question otherwise.
pub open spec fn after_quality(format: Option<OutputFormat>) -> Step {
    if asks_background(format) {
        Step::Background
    } else {
        Step::Resize
    }
}

/// The question after the resize question: the thread count for a folder,
/// the output otherwise.
pub open spec fn after_resize(batch: bool) -> Step {
    if batch {
        Step::Threads
    } else {
        Step::Output
    }
}

/// The background behind each choice of the background question; the last
/// choice asks for a `#RRGGBB` value.
pub open spec fn background_preset(selection: nat) -> Option<JpegBackground> {
    if selection == 0 {
        Some(JpegBackground { r: 255, g: 255, b: 255 })
    } else if selection == 1 {
        Some(JpegBackground { r: 0, g: 0, b: 0 })
    } else {
        None
    }
}

/// The choices of the background question, white first.
pub fn background_labels() -> (o: [&'static str; 3])
    ensures
        o@[0]@ == "흰색"@,
        o@[1]@ == "검정"@,
        o@[2]@ == "직접 입력 (#RRGGBB)"@,
{
    ["흰색", "검정", "직접 입력 (#RRGGBB)"]
}

impl Session {
    /// What holds of every session the interactive mode goes through:
    /// folder-only questions come only for folders, the quality questions
    /// never come for PNG, the background questions only for JPEG, and each
    /// answer is there once its question has been passed.
    pub open spec fn consistent(&self) -> bool {
        &&& (self.step == Step::Recursive || self.step == Step::Threads) ==> self.batch
        &&& !self.batch ==> !self.recursive && self.threads is None
        &&& rank(self.step) < 3 ==> !self.recursive
        &&& rank(self.step) < 10 ==> self.threads is None
        &&& rank(self.step) >= 4 ==> self.format is Some
        &&& rank(self.step) < 4 ==> self.format is None
        &&& (self.step == Step::Quality || self.step == Step::CustomQuality) ==> self.format
            != Some(OutputFormat::Png)
        &&& rank(self.step) < 6 ==> self.quality is None
        &&& rank(self.step) >= 6 ==> self.quality is Some
        &&& self.format == Some(OutputFormat::Png) && rank(self.step) >= 6 ==> self.quality
            == Some(QualityChoice::Lossless)
        &&& self.format != Some(OutputFormat::Png) ==> !(self.quality
            == Some(QualityChoice::Lossless))
        &&& (self.quality matches Some(QualityChoice::Preset(p)) ==> exists|i: nat|
            preset_quality(i) == Some(p))
        &&& (self.step == Step::Background || self.step == Step::CustomBackground)
            ==> asks_background(self.format)
        &&& rank(self.step) < 8 ==> self.background is None
        &&& !asks_background(self.format) ==> self.background is None
        &&& asks_background(self.format) && rank(self.step) >= 8 ==> self.background is Some
        &&& rank(self.step) < 9 ==> self.max_width is None
    }

    /// A session that has not asked anything yet.
    pub fn start() -> (s: Session)
        ensures
            s.step == Step::Mode,
            !s.batch,
            s.input@.len() == 0,
            !s.recursive,
            s.format is None,
            s.quality is None,
            s.background is None,
            s.max_width is None,
            s.threads is None,
            s.output@.len() == 0,
            s.consistent(),
    {
        Session {
            step: Step::Mode,
            batch: false,
            input: String::new(),
            recursive: false,
            format: None,
            quality: None,
            background: None,
            max_width: None,
            threads: None,
            output: String::new(),
        }
    }

    /// The mode question: the second choice converts a whole folder.
    pub fn choose_mode(self, selection: usize) -> (s: Session)
        requires
            self.step == Step::Mode,
        ensures
            s.step == Step::Input,
            s.batch == (selection == 1),
            s.input == self.input,
            s.recursive == self.recursive,
            s.format == self.format,
            s.quality == self.quality,
            s.background == self.background,
            s.max_width == self.max_width,
            s.threads == self.threads,
            s.output == self.output,
            rank(self.step) < rank(s.step),
            self.consistent() ==> s.consistent(),
    {
        Session { step: Step::Input, batch: selection == 1, ..self }
    }

    /// The input path, checked by the program against the file system.
    /// A folder goes on to the subfolder question, a file to the format.
    pub fn enter_input(self, path: String) -> (s: Session)
        requires
            self.step == Step::Input,
        ensures
            s.step == (if self.batch {
                Step::Recursive
            } else {
                Step::Format
            }),
            s.input == path,
            s.batch == self.batch,
            s.recursive == self.recursive,
            s.format == self.format,
            s.quality == self.quality,
            s.background == self.background,
            s.max_width == self.max_width,
            s.threads == self.threads,
            s.output == self.output,
            rank(self.step) < rank(s.step),
            self.consistent() ==> s.consistent(),
    {
        let step = if self.batch {
            Step::Recursive
        } else {
            Step::Format
        };
        Session { step, input: path, ..self }
    }

    /// The subfolder question of a folder conversion.
    pub fn choose_recursive(self, recursive: bool) -> (s: Session)
        requires
            self.step == Step::Recursive,
        ensures
            s.step == Step::Format,
            s.recursive == recursive,
            s.batch == self.batch,
            s.input == self.input,
            s.format == self.format,
            s.quality == self.quality,
            s.background == self.background,
            s.max_width == self.max_width,
            s.threads == self.threads,
            s.output == self.output,
            rank(self.step) < rank(s.step),
            self.consistent() ==> s.consistent(),
    {
        Session { step: Step::Format, recursive, ..self }
    }

    /// The format question. PNG skips the quality questions, as it is
    /// lossless, and goes on to the resize question.
    pub fn choose_format(self, selection: usize) -> (s: Session)
        requires
            self.step == Step::Format,
            selection < 4,
        ensures
            s.format == offered_format(selection as nat),
            offered_format(selection as nat) == Some(OutputFormat::Png) ==> s.step
                == Step::Resize && s.quality == Some(QualityChoice::Lossless),
            offered_format(selection as nat) != Some(OutputFormat::Png) ==> s.step
                == Step::Quality && s.quality == self.quality,
            s.batch == self.batch,
            s.input == self.input,
            s.recursive == self.recursive,
            s.background == self.background,
            s.max_width == self.max_width,
            s.threads == self.threads,
            s.output == self.output,
            rank(self.step) < rank(s.step),
            self.consistent() ==> s.consistent(),
    {
        let format = format_for_selection(selection);
        let is_png = match format {
            Some(f) => f.is_png(),
            None => false,
        };
        if is_png {
            Session { step: Step::Resize, format, quality: Some(QualityChoice::Lossless), ..self }
        } else {
            Session { step: Step::Quality, format, ..self }
        }
    }

    /// The question after a quality answer for the session's format.
    fn next_after_quality(&self) -> (step: Step)
        ensures
            step == after_quality(self.format),
    {
        let jpeg = match self.format {
            Some(f) => f.is_jpeg(),
            None => false,
        };
        if jpeg {
            Step::Background
        } else {
            Step::Resize
        }
    }

    /// The quality preset question; the last choice asks for a value.
    pub fn choose_quality(self, selection: usize) -> (s: Session)
        requires
            self.step == Step::Quality,
        ensures
            match preset_quality(selection as nat) {
                Some(p) => s.step == after_quality(self.format) && s.quality == Some(
                    QualityChoice::Preset(p),
                ),
                None => s.step == Step::CustomQuality && s.quality == self.quality,
            },
            s.batch == self.batch,
            s.input == self.input,
            s.recursive == self.recursive,
            s.format == self.format,
            s.background == self.background,
            s.max_width == self.max_width,
            s.threads == self.threads,
            s.output == self.output,
            rank(self.step) < rank(s.step),
            self.consistent() ==> s.consistent(),
    {
        match quality_for_selection(selection) {
            Some(p) => {
                let step = self.next_after_quality();
                Session { step, quality: Some(QualityChoice::Preset(p)), ..self }
            },
            None => Session { step: Step::CustomQuality, ..self },
        }
    }

    /// The quality typed in by hand, as checked by the program.
    pub fn enter_custom_quality(self, text: String) -> (s: Session)
        requires
            self.step == Step::CustomQuality,
        ensures
            s.step == after_quality(self.format),
            s.quality == Some(QualityChoice::Custom(text)),
            s.batch == self.batch,
            s.input == self.input,
            s.recursive == self.recursive,
            s.format == self.format,
            s.background == self.background,
            s.max_width == self.max_width,
            s.threads == self.threads,
            s.output == self.output,
            rank(self.step) < rank(s.step),
            self.consistent() ==> s.consistent(),
    {
        let step = self.next_after_quality();
        Session { step, quality: Some(QualityChoice::Custom(text)), ..self }
    }

    /// The background question of JPEG output: white, black, or a value
    /// typed in next.
    pub fn choose_background(self, selection: usize) -> (s: Session)
        requires
            self.step == Step::Background,
        ensures
            match background_preset(selection as nat) {
                Some(bg) => s.step == Step::Resize && s.background == Some(bg),
                None => s.step == Step::CustomBackground && s.background == self.background,
            },
            s.batch == self.batch,
            s.input == self.input,
            s.recursive == self.recursive,
            s.format == self.format,
            s.quality == self.quality,
            s.max_width == self.max_width,
            s.threads == self.threads,
            s.output == self.output,
            rank(self.step) < rank(s.step),
            self.consistent() ==> s.consistent(),
    {
        if selection == 0 {
            Session { step: Step::Resize, background: Some(JpegBackground::white()), ..self }
        } else if selection == 1 {
            Session { step: Step::Resize, background: Some(JpegBackground::black()), ..self }
        } else {
            Session { step: Step::CustomBackground, ..self }
        }
    }

    /// The background typed in as `#RRGGBB`, as read by
    /// `JpegBackground::from_hex`.
    pub fn enter_custom_background(self, background: JpegBackground) -> (s: Session)
        requires
            self.step == Step::CustomBackground,
        ensures
            s.step == Step::Resize,
            s.background == Some(background),
            s.batch == self.batch,
            s.input == self.input,
            s.recursive == self.recursive,
            s.format == self.format,
            s.quality == self.quality,
            s.max_width == self.max_width,
            s.threads == self.threads,
            s.output == self.output,
            rank(self.step) < rank(s.step),
            self.consistent() ==> s.consistent(),
    {
        Session { step: Step::Resize, background: Some(background), ..self }
    }

    /// The resize question: `None` keeps the size, `Some(w)` shrinks
    /// images wider than `w` pixels.
    pub fn enter_resize(self, max_width: Option<u32>) -> (s: Session)
        requires
            self.step == Step::Resize,
        ensures
            s.step == after_resize(self.batch),
            s.max_width == max_width,
            s.batch == self.batch,
            s.input == self.input,
            s.recursive == self.recursive,
            s.format == self.format,
            s.quality == self.quality,
            s.background == self.background,
            s.threads == self.threads,
            s.output == self.output,
            rank(self.step) < rank(s.step),
            self.consistent() ==> s.consistent(),
    {
        let step = if self.batch {
            Step::Threads
        } else {
            Step::Output
        };
        Session { step, max_width, ..self }
    }

    /// The thread count of a folder conversion; `None` leaves it to the
    /// thread pool.
    pub fn enter_threads(self, threads: Option<usize>) -> (s: Session)
        requires
            self.step == Step::Threads,
        ensures
            s.step == Step::Output,
            s.threads == threads,
            s.batch == self.batch,
            s.input == self.input,
            s.recursive == self.recursive,
            s.format == self.format,
            s.quality == self.quality,
            s.background == self.background,
            s.max_width == self.max_width,
            s.output == self.output,
            rank(self.step) < rank(s.step),
            self.consistent() ==> s.consistent(),
    {
        Session { step: Step::Output, threads, ..self }
    }

    /// The output path; every answer is then in.
    pub fn enter_output(self, path: String) -> (s: Session)
        requires
            self.step == Step::Output,
        ensures
            s.step == Step::Done,
            s.output == path,
            s.batch == self.batch,
            s.input == self.input,
            s.recursive == self.recursive,
            s.format == self.format,
            s.quality == self.quality,
            s.background == self.background,
            s.max_width == self.max_width,
            s.threads == self.threads,
            rank(self.step) < rank(s.step),
            self.consistent() ==> s.consistent(),
    {
        Session { step: Step::Done, output: path, ..self }
    }

    /// The output folder proposed for a folder conversion.
    pub fn default_output_dir(&self) -> (s: String)
        requires
            self.consistent(),
            self.step == Step::Output,
        ensures
            s@ == default_dir_name(self.input@, self.format->0),
    {
        let format = match self.format {
            Some(f) => f,
            None => OutputFormat::Webp,
        };
        default_output_path_for_dir(self.input.as_str(), format)
    }

    /// The conversion options the answers give: the maximum width, if one
    /// was entered, and the JPEG background.
    pub fn conversion_options(&self) -> (o: ConversionOptions)
        ensures
            o == (ConversionOptions {
                resize: match self.max_width {
                    Some(w) => Some(ResizeOptions { max_width: w }),
                    None => None,
                },
                jpeg_background: self.background,
            }),
    {
        let resize = match self.max_width {
            Some(w) => Some(ResizeOptions { max_width: w }),
            None => None,
        };
        ConversionOptions { resize, jpeg_background: self.background }
    }
}

/// The prompt of the input question.
pub fn input_prompt(batch: bool) -> (s: &'static str)
    ensures
        s@ == (if batch {
            "이미지가 들어 있는 폴더 경로"@
        } else {
            "변환할 이미지 파일 경로"@
        }),
{
    if batch {
        "이미지가 들어 있는 폴더 경로"
    } else {
        "변환할 이미지 파일 경로"
    }
}

} // verus!
