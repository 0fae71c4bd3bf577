//! Image conversion between PNG, JPEG, WebP and AVIF: the formats, the
//! rules and the decisions of the converter, verified with Verus.
use vstd::prelude::*;

pub mod batch;
pub mod cli;
pub mod converter;
pub mod error;
pub mod format;
pub mod input;
pub mod interactive;
pub mod path;
pub mod server;
pub mod session;
pub mod text;
pub mod utils;

pub use batch::{BatchSummary, ProcessOutcome};
pub use converter::{ConversionOptions, ConvertStats, JpegBackground, ResizeOptions};
pub use error::{ConverterError, Result};
pub use format::OutputFormat;
pub use utils::{format_file_size, quality_label};
