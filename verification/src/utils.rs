//! Shared constants, the checks on the inputs of the program, and byte
//! counts as text.

use crate::format::{bytes_text, decimal, divide_half_even, push_decimal, ulp_at};
use vstd::prelude::*;
use vstd::string::*;

verus! {

/// Seconds between two automatic reloads of the watched source.
pub const FILE_WATCH_INTERVAL_SECS: u64 = 1;

/// Seconds a status message stays visible.
pub const STATUS_MESSAGE_TIMEOUT_SECS: u64 = 3;

/// Milliseconds the input loop waits for one event.
pub const INPUT_POLL_INTERVAL_MS: u64 = 100;

/// Lines without a mapping after which format detection stops scanning.
pub const MAX_LINES_AFTER_MAPPING: usize = 20;

/// Bytes in a kibibyte, and kibibytes in a mebibyte.
pub const BYTES_PER_KB: u64 = 1024;

/// Largest number of bars a chart shows.
pub const TOP_CHART_RANGES: usize = 8;

/// Width of a bar of the chart, in columns.
pub const CHART_BAR_WIDTH: u16 = 9;

/// Four kibibytes, where the second size range of the chart starts.
pub const SIZE_4KB: u64 = 4096;

/// Sixty-four kibibytes, where the third size range starts.
pub const SIZE_64KB: u64 = 65536;

/// One mebibyte, where the fourth size range starts.
pub const SIZE_1MB: u64 = 1048576;

/// Sixteen mebibytes, where the fifth size range starts.
pub const SIZE_16MB: u64 = 16777216;

/// Two hundred and fifty-six mebibytes, where the last size range starts.
pub const SIZE_256MB: u64 = 268435456;

/// The largest process id.
pub const MAX_PID: u32 = 4194304;

/// Why an input of the program is refused.
#[derive(Debug)]
pub enum InputError {
    /// The process id is zero.
    ZeroPid,
    /// The process id is above `MAX_PID`.
    PidTooLarge(u32),
    /// No process has this id.
    NoSuchProcess(u32),
    /// Nothing exists at the path.
    NoSuchFile(String),
    /// The path does not name a file.
    NotAFile(String),
    /// The file at the path cannot be opened, for the given reason.
    Unreadable(String, String),
}

/// What an `InputError` holds, with its texts as sequences of characters.
pub enum InputErrorView {
    ZeroPid,
    PidTooLarge(u32),
    NoSuchProcess(u32),
    NoSuchFile(Seq<char>),
    NotAFile(Seq<char>),
    Unreadable(Seq<char>, Seq<char>),
}

impl View for InputError {
    type V = InputErrorView;

    open spec fn view(&self) -> InputErrorView {
        match self {
            InputError::ZeroPid => InputErrorView::ZeroPid,
            InputError::PidTooLarge(pid) => InputErrorView::PidTooLarge(*pid),
            InputError::NoSuchProcess(pid) => InputErrorView::NoSuchProcess(*pid),
            InputError::NoSuchFile(p) => InputErrorView::NoSuchFile(p@),
            InputError::NotAFile(p) => InputErrorView::NotAFile(p@),
            InputError::Unreadable(p, why) => InputErrorView::Unreadable(p@, why@),
        }
    }
}

/// The words in which an input error is reported.
pub open spec fn input_error_text(e: InputErrorView) -> Seq<char> {
    match e {
        InputErrorView::ZeroPid => "PID cannot be 0"@,
        InputErrorView::PidTooLarge(pid) => "PID "@ + decimal(pid as nat)
            + " is too large (max: 4194304)"@,
        InputErrorView::NoSuchProcess(pid) => "Process with PID "@ + decimal(pid as nat)
            + " does not exist"@,
        InputErrorView::NoSuchFile(p) => "File '"@ + p + "' does not exist"@,
        InputErrorView::NotAFile(p) => "'"@ + p + "' is not a file"@,
        InputErrorView::Unreadable(p, why) => "Cannot read file '"@ + p + "': "@ + why,
    }
}

impl InputError {
    /// The words in which this error is reported.
    pub fn message(&self) -> (text: String)
        ensures
            text@ == input_error_text(self@),
    {
        match self {
            InputError::ZeroPid => String::from_str("PID cannot be 0"),
            InputError::PidTooLarge(pid) => {
                let mut text = String::from_str("PID ");
                push_decimal(&mut text, *pid as u64);
                text.append(" is too large (max: 4194304)");
                text
            },
            InputError::NoSuchProcess(pid) => {
                let mut text = String::from_str("Process with PID ");
                push_decimal(&mut text, *pid as u64);
                text.append(" does not exist");
                text
            },
            InputError::NoSuchFile(p) => {
                let mut text = String::from_str("File '");
                text.append(p.as_str());
                text.append("' does not exist");
                text
            },
            InputError::NotAFile(p) => {
                let mut text = String::from_str("'");
                text.append(p.as_str());
                text.append("' is not a file");
                text
            },
            InputError::Unreadable(p, why) => {
                let mut text = String::from_str("Cannot read file '");
                text.append(p.as_str());
                text.append("': ");
                text.append(why.as_str());
                text
            },
        }
    }
}

/// The directory that holds the information on a process.
pub open spec fn process_dir_text(pid: u32) -> Seq<char> {
    "/proc/"@ + decimal(pid as nat)
}

/// The directory that holds the information on a process.
pub fn process_dir(pid: u32) -> (path: String)
    ensures
        path@ == process_dir_text(pid),
{
    let mut path = String::from_str("/proc/");
    push_decimal(&mut path, pid as u64);
    path
}

/// The file that holds the memory map of a process.
pub fn smaps_path(pid: u32) -> (path: String)
    ensures
        path@ == process_dir_text(pid) + "/smaps"@,
{
    let mut path = process_dir(pid);
    path.append("/smaps");
    path
}

/// The file that holds the short name of a process.
pub fn comm_path(pid: u32) -> (path: String)
    ensures
        path@ == process_dir_text(pid) + "/comm"@,
{
    let mut path = process_dir(pid);
    path.append("/comm");
    path
}

/// What is wrong with a process id, if anything: it is zero, or above
/// `MAX_PID`, or no directory exists for the process.
pub open spec fn pid_fault(pid: u32, dir_exists: bool) -> Option<InputErrorView> {
    if pid == 0 {
        Some(InputErrorView::ZeroPid)
    } else if pid > MAX_PID {
        Some(InputErrorView::PidTooLarge(pid))
    } else if !dir_exists {
        Some(InputErrorView::NoSuchProcess(pid))
    } else {
        None
    }
}

/// Checks a process id, given whether the directory of the process exists.
pub fn validate_pid(pid: u32, dir_exists: bool) -> (r: Result<(), InputError>)
    ensures
        match r {
            Ok(()) => pid_fault(pid, dir_exists) is None,
            Err(e) => pid_fault(pid, dir_exists) == Some(e@),
        },
{
    if pid == 0 {
        return Err(InputError::ZeroPid);
    }
    if pid > MAX_PID {
        return Err(InputError::PidTooLarge(pid));
    }
    if !dir_exists {
        return Err(InputError::NoSuchProcess(pid));
    }
    Ok(())
}

/// What is wrong with the path of an input file, if anything: nothing
/// exists there, or what exists is no file, or the file cannot be opened.
pub open spec fn path_fault(
    path: Seq<char>,
    exists: bool,
    is_file: bool,
    open_error: Option<String>,
) -> Option<InputErrorView> {
    if !exists {
        Some(InputErrorView::NoSuchFile(path))
    } else if !is_file {
        Some(InputErrorView::NotAFile(path))
    } else {
        match open_error {
            Some(why) => Some(InputErrorView::Unreadable(path, why@)),
            None => None,
        }
    }
}

/// Checks the path of an input file against what the file system says of
/// it: whether anything is there, whether it is a file, and why it could
/// not be opened, if it could not.
pub fn validate_file_path(path: &str, exists: bool, is_file: bool, open_error: Option<String>) -> (r:
    Result<(), InputError>)
    ensures
        match r {
            Ok(()) => path_fault(path@, exists, is_file, open_error) is None,
            Err(e) => path_fault(path@, exists, is_file, open_error) == Some(e@),
        },
{
    if !exists {
        return Err(InputError::NoSuchFile(String::from_str(path)));
    }
    if !is_file {
        return Err(InputError::NotAFile(String::from_str(path)));
    }
    match open_error {
        Some(why) => Err(InputError::Unreadable(String::from_str(path), why)),
        None => Ok(()),
    }
}

/// Integer mean of `total` over `count` items; zero where there are none.
pub open spec fn average(total: u64, count: u32) -> u64 {
    if count > 0 {
        (total / (count as u64)) as u64
    } else {
        0
    }
}

/// Integer mean of `total` over `count` items, zero for an empty group.
pub fn calculate_average(total: u64, count: u32) -> (avg: u64)
    ensures
        avg == average(total, count),
        count > 0 ==> avg == total as int / count as int,
        count == 0 ==> avg == 0,
{
    if count > 0 {
        total / (count as u64)
    } else {
        0
    }
}

/// A byte count as text, scaled to the largest unit that is not above it.
/// From `KB` on the number is the one that double-precision arithmetic
/// gives, with one decimal place.
pub fn format_bytes(bytes: u64) -> (text: String)
    ensures
        text@ == bytes_text(bytes as nat),
{
    let mut text = String::new();
    if bytes < 0x400 {
        push_decimal(&mut text, bytes);
        text.append(" ");
        text.append("B");
        assert(text@ =~= bytes_text(bytes as nat));
        return text;
    }
    let size: u128 = if bytes < 0x10_0000 {
        0x400
    } else if bytes < 0x4000_0000 {
        0x10_0000
    } else if bytes < 0x100_0000_0000 {
        0x4000_0000
    } else {
        0x100_0000_0000
    };
    let step: u128 = ulp_at(bytes) as u128;
    let wide: u128 = bytes as u128;
    let rounded: u128 = divide_half_even(wide, step);
    let double: u128 = rounded * step;
    let tenths: u128 = divide_half_even(double * 10, size);
    assert(tenths * size <= double * 10 + size);
    assert(tenths <= 0xFFFF_FFFF_FFFF_FFFF) by (nonlinear_arith)
        requires
            tenths * size <= double * 10 + size,
            size >= 0x400,
            double <= 0x1_0000_0000_0000_0800,
    ;
    push_decimal(&mut text, (tenths / 10) as u64);
    text.append(".");
    push_decimal(&mut text, (tenths % 10) as u64);
    text.append(" ");
    if bytes < 0x10_0000 {
        text.append("KB");
    } else if bytes < 0x4000_0000 {
        text.append("MB");
    } else if bytes < 0x100_0000_0000 {
        text.append("GB");
    } else {
        text.append("TB");
    }
    assert(text@ =~= bytes_text(bytes as nat));
    text
}

} // verus!
