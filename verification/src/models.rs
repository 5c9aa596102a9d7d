//! Data model: the persisted configuration, the command surface, the error
//! taxonomy and the result value that every operation returns.

use vstd::prelude::*;

verus! {

/// Unit of the automatic-rotation interval.
#[derive(Clone, Copy, Debug, PartialEq, Eq, Structural)]
pub enum DwPreset {
    HOUR,
    MINUTE,
    DAY,
}

/// Interval configuration for automatic rotation: `interval` is counted in
/// the unit named by `preset`.
#[derive(Clone, Copy, Debug, PartialEq, Eq, Structural)]
pub struct DwTimeConfig {
    pub preset: DwPreset,
    pub interval: u8,
}

/// The wallpaper that is currently applied.
///
/// `index` points into the candidate list; `child` says whether `path` is an
/// image drawn from inside a directory candidate, in which case `sub_index`
/// is its position in that directory's sorted image listing.  `date_set` is
/// the Unix timestamp (seconds) of the last change.
#[derive(Clone, Debug)]
pub struct DwWallpaperCandidate {
    pub index: usize,
    pub path: String,
    pub date_set: i64,
    pub child: bool,
    pub sub_index: usize,
}

/// The persisted root: current wallpaper, rotation interval, and the ordered
/// candidate list (each entry a path to an image file or to a directory).
#[derive(Clone, Debug)]
pub struct DwConfig {
    pub actual_wallpaper: DwWallpaperCandidate,
    pub time_config: DwTimeConfig,
    pub candidates: Vec<String>,
}

/// What every operation hands back to the command-line boundary: a success
/// flag, a process exit code, and an optional message.
#[derive(Clone, Debug)]
pub struct DwOperationExecutionResult {
    pub success: bool,
    pub exit_code: i32,
    pub message: Option<String>,
}

/// The recoverable failures of the library and of its collaborators.
#[derive(Clone, Copy, Debug, PartialEq, Eq, Structural)]
pub enum DwError {
    ConfigNotFound,
    ConfigParseError,
    PathNotFound,
    NotAnImage,
    EmptyCycle,
    EmptyDirectory,
    IndexOutOfRange,
    SchedulerCommandFailed,
    ApplyCommandFailed,
    UnsupportedPlatform,
}

/// What the navigation functions see of one candidate: whether the path is a
/// directory, and, if so, the sorted listing of the image files directly
/// inside it.  For a plain file the listing is empty.
#[derive(Clone, Debug)]
pub struct CandidateSnapshot {
    pub is_dir: bool,
    pub images: Vec<String>,
}

/// The parsed command line.
#[derive(Clone, Debug, PartialEq)]
pub struct Cli {
    pub command: Commands,
}

/// The command surface of the utility.
#[derive(Clone, Debug, PartialEq)]
pub enum Commands {
    AddWallpaper { path: String },
    RmWallpaper { path: String },
    Preset { preset: String, interval: Option<u8> },
    Reset,
    SetWallpaper { path: String },
    Next,
    Previous,
    Off,
    On,
    ShowConfig,
    SetConfig { path: String },
    Init,
}

/// Exit code of each failure category; `0` is success.  The codes are fixed
/// here so that every operation reports a category consistently.
pub open spec fn error_exit_code(e: DwError) -> i32 {
    match e {
        DwError::ApplyCommandFailed => 1,
        DwError::ConfigNotFound => 2,
        DwError::ConfigParseError => 3,
        DwError::PathNotFound => 5,
        DwError::NotAnImage => 6,
        DwError::EmptyCycle => 13,
        DwError::IndexOutOfRange => 14,
        DwError::EmptyDirectory => 28,
        DwError::SchedulerCommandFailed => 34,
        DwError::UnsupportedPlatform => 35,
    }
}

/// Message reported with each failure category.
pub open spec fn error_message_view(e: DwError) -> Seq<char> {
    match e {
        DwError::ApplyCommandFailed => "The command to change the wallpaper failed"@,
        DwError::ConfigNotFound => "Config file not found"@,
        DwError::ConfigParseError => "Config file could not be parsed"@,
        DwError::PathNotFound => "The specified file or directory does not exist"@,
        DwError::NotAnImage => "The specified file or directory isn't an image or directory"@,
        DwError::EmptyCycle => "The candidates list is empty"@,
        DwError::IndexOutOfRange => "The stored wallpaper index is out of range"@,
        DwError::EmptyDirectory => "The directory is empty"@,
        DwError::SchedulerCommandFailed => "The scheduler command failed"@,
        DwError::UnsupportedPlatform => "Unsupported platform"@,
    }
}

/// The result value for a failure: not successful, with the category's exit
/// code and message.
pub fn error_result(e: DwError) -> (r: DwOperationExecutionResult)
    ensures
        !r.success,
        r.exit_code == error_exit_code(e),
        (r.message matches Some(m) && m@ == error_message_view(e)),
{
    let message: String = match e {
        DwError::ApplyCommandFailed => "The command to change the wallpaper failed".to_owned(),
        DwError::ConfigNotFound => "Config file not found".to_owned(),
        DwError::ConfigParseError => "Config file could not be parsed".to_owned(),
        DwError::PathNotFound => "The specified file or directory does not exist".to_owned(),
        DwError::NotAnImage => "The specified file or directory isn't an image or directory".to_owned(),
        DwError::EmptyCycle => "The candidates list is empty".to_owned(),
        DwError::IndexOutOfRange => "The stored wallpaper index is out of range".to_owned(),
        DwError::EmptyDirectory => "The directory is empty".to_owned(),
        DwError::SchedulerCommandFailed => "The scheduler command failed".to_owned(),
        DwError::UnsupportedPlatform => "Unsupported platform".to_owned(),
    };
    let exit_code: i32 = match e {
        DwError::ApplyCommandFailed => 1,
        DwError::ConfigNotFound => 2,
        DwError::ConfigParseError => 3,
        DwError::PathNotFound => 5,
        DwError::NotAnImage => 6,
        DwError::EmptyCycle => 13,
        DwError::IndexOutOfRange => 14,
        DwError::EmptyDirectory => 28,
        DwError::SchedulerCommandFailed => 34,
        DwError::UnsupportedPlatform => 35,
    };
    DwOperationExecutionResult { success: false, exit_code, message: Some(message) }
}

/// The result value for a success without a message.
pub fn success_result() -> (r: DwOperationExecutionResult)
    ensures
        r.success,
        r.exit_code == 0,
        r.message is None,
{
    DwOperationExecutionResult { success: true, exit_code: 0, message: None }
}

} // verus!
