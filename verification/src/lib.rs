//! A library to process and rename files or text.
//!
//! An input string is split into segments by configured delimiters, the
//! segments are trimmed and rewritten, selectors and extractors pick out
//! substrings, and a format template maps the results onto an output string.

mod chars;
mod error;
mod patterns;
mod processor;

pub use crate::error::Error;
pub use crate::processor::ProcessorBuilder;
pub use crate::processor::delimiter::{Delimiter, DelimiterType};
pub use crate::processor::extractor::Extractor;
pub use crate::processor::format::{get_format_type, Format, FormatPattern, FormatType};
pub use crate::processor::inputs::{FileInput, InputType, TextInput};
pub use crate::processor::rename::{
    file_name_of, process_format, with_file_name, FileRenamer, RenameProcessor, Renamed,
    RenamedFile, RenamedText, TextRenamer,
};
pub use crate::processor::replacer::Replacer;
pub use crate::processor::selector::Selector;
pub use crate::processor::trim::Trim;
