//! Sorting media files into directories by rules: which rule takes a file,
//! where the rule sends it, and what to do when that place is taken.
//!
//! The library touches no file and reads no clock. It is handed names,
//! sizes and dates, and says what to do next.

pub mod classifier;
pub mod config;
pub mod conflict;
pub mod decimal;
pub mod file_size;
pub mod filter;
pub mod media_types;
pub mod metadata;
pub mod names;
pub mod paths;
pub mod report;
mod rule_index;
pub mod rule_matcher;
pub mod template;
pub mod text;

pub use classifier::{
    classify_file, classify_file_with_config, classify_step, ClassifyError, ClassifyResult, Phase,
    Reply, Request, Transition,
};
pub use config::{
    AliasGroup, Config, ExcludeConfig, FileSizeFilter, GlobalConfig, Rule,
};
pub use conflict::{
    generate_unique_name, resolve_conflict, ConflictProgress, ConflictResolution, ConflictStep,
};
pub use file_size::{FileSize, SizeParseError};
pub use filter::{Entry, FileFilter};
pub use media_types::{
    get_media_info, is_audio_extension, is_image_extension, is_media_extension,
    is_video_extension, MediaInfo, MediaType,
};
pub use metadata::{exif_date_candidates, parse_exif_datetime, ClockReading};
pub use paths::{is_classified_file, SourcePath, TargetPath};
pub use report::{format_size_for_display_str, rules_to_gui, RuleItem, Statistics};
pub use rule_matcher::{PathError, RuleMatcher};
pub use template::{expand_template, format_date, format_date_string, DateStamp};
