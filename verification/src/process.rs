//! Tracking of the processes that run in a silo: where their records are
//! kept and what a record holds.

use vstd::prelude::*;
use vstd::string::StringExecFns;
use crate::numbers::{parse_u32, parsed_u32};
use crate::paths::{file_name, file_name_of, join_path, joined_path, parent, parent_of};
use crate::scan::{after_prefix, lines, lines_of, strip_prefix};
use crate::text::{concat_str, opt_text};

verus! {

/// A process that was started in a silo.
#[derive(Debug, Clone)]
pub struct ProcessInfo {
    pub pid: u32,
    pub command: String,
}

/// The directory above a path, or the path itself where nothing is above.
pub open spec fn parent_or_self(path: Seq<char>) -> Seq<char> {
    match parent_of(path) {
        Some(above) => above,
        None => path,
    }
}

/// The last component of a path, or nothing where it has none.
pub open spec fn name_or_empty(path: Seq<char>) -> Seq<char> {
    match file_name_of(path) {
        Some(name) => name,
        None => Seq::<char>::empty(),
    }
}

/// Where the records of a silo are kept: beside the silo, under
/// `.tracking`, in a directory of the silo's name.
pub open spec fn tracking_path(silo_path: Seq<char>) -> Seq<char> {
    joined_path(joined_path(parent_or_self(silo_path), ".tracking"@), name_or_empty(silo_path))
}

/// The directory that holds what is tracked of the silo at `silo_path`.
pub fn tracking_dir(silo_path: &str) -> (dir: String)
    ensures
        dir@ == tracking_path(silo_path@),
{
    let above = match parent(silo_path) {
        Some(p) => p,
        None => String::from_str(silo_path),
    };
    let branch = match file_name(silo_path) {
        Some(n) => n,
        None => String::new(),
    };
    let tracking = join_path(above.as_str(), ".tracking");
    join_path(tracking.as_str(), branch.as_str())
}

/// The directory that holds one record for every process of the silo.
pub fn pids_dir(silo_path: &str) -> (dir: String)
    ensures
        dir@ == joined_path(tracking_path(silo_path@), "pids"@),
{
    let tracking = tracking_dir(silo_path);
    join_path(tracking.as_str(), "pids")
}

/// The record of a process: one line that names its command.
pub fn record_content(command: &str) -> (content: String)
    ensures
        content@ == "command="@ + command@ + "\n"@,
{
    let mut content = concat_str("command=", command);
    content.append("\n");
    content
}

/// The command in the first of `report` that names one.
pub open spec fn command_in(report: Seq<Seq<char>>) -> Option<Seq<char>>
    decreases report.len(),
{
    if report.len() == 0 {
        None
    } else {
        match after_prefix(report[0], "command="@) {
            Some(command) => Some(command),
            None => command_in(report.drop_first()),
        }
    }
}

/// The command that a record names: what follows `command=` on the first
/// line that begins with it.
pub fn read_command(content: &str) -> (command: Option<String>)
    ensures
        opt_text(command) == command_in(lines_of(content@)),
{
    let report = lines(content);
    let mut i: usize = 0;
    assert(report.deep_view().skip(0) =~= report.deep_view());
    while i < report.len()
        invariant
            i <= report.len(),
            report.deep_view() == lines_of(content@),
            command_in(report.deep_view()) == command_in(report.deep_view().skip(i as int)),
        decreases report.len() - i,
    {
        let ghost rest = report.deep_view().skip(i as int);
        assert(rest.drop_first() =~= report.deep_view().skip(i + 1));
        match strip_prefix(report[i].as_str(), "command=") {
            Some(command) => {
                return Some(command);
            },
            None => {},
        }
        i += 1;
    }
    None
}

/// The process that a record stands for, by the name of its file: a name
/// that is no number is no record.
pub fn tracked_pid(file_name: &str) -> (pid: Option<u32>)
    ensures
        pid == parsed_u32(file_name@),
{
    parse_u32(file_name)
}

/// What is known of a running process: its number and the command that its
/// record names, or no command where the record could not be read or names
/// none.
pub fn process_info(pid: u32, content: Option<&str>) -> (info: ProcessInfo)
    ensures
        info.pid == pid,
        info.command@ == match content {
            Some(text) => match command_in(lines_of(text@)) {
                Some(command) => command,
                None => Seq::<char>::empty(),
            },
            None => Seq::<char>::empty(),
        },
{
    let command = match content {
        Some(text) => match read_command(text) {
            Some(command) => command,
            None => String::new(),
        },
        None => String::new(),
    };
    ProcessInfo { pid, command }
}

} // verus!
