//! The error type of dano, and what the program prints.
use vstd::prelude::*;
use vstd::string::StringExecFns;

use crate::config::{Config, ExecMode};
use crate::lookup::FileInfo;
use crate::paths::{path_debug, path_debug_text};
use crate::text::{pad_right, push_padded};
use crate::lookup::DANO_FILE_INFO_VERSION;
use crate::versions::{legacy_type_name, legacy_version_of, replace_all, LegacyVersion};

verus! {

/// An error with a message for the user.
#[derive(Debug)]
pub struct DanoError {
    pub details: String,
}

impl Clone for DanoError {
    fn clone(&self) -> (r: Self)
        ensures
            r == *self,
    {
        DanoError { details: self.details.clone() }
    }
}

impl DanoError {
    /// An error with the message `msg`.
    pub fn new(msg: &str) -> (r: DanoError)
        ensures
            r.details@ == msg@,
    {
        DanoError { details: String::from_str(msg) }
    }

    /// An error with the message `msg`, followed by ` : ` and the
    /// description of the error that caused it.
    pub fn with_context(msg: &str, cause: &str) -> (r: DanoError)
        ensures
            r.details@ == msg@ + " : "@ + cause@,
    {
        let mut details = String::from_str(msg);
        details.append(" : ");
        details.append(cause);
        DanoError { details }
    }
}

/// Where a message is printed.
#[derive(Debug, PartialEq, Eq, Structural)]
pub enum Stream {
    Stdout,
    Stderr,
}

/// A message for the user, and where it is printed.
#[derive(Debug)]
pub struct Notice {
    pub stream: Stream,
    pub text: String,
}

/// Hash values are printed left-aligned in a field this wide.
pub const HASH_VALUE_MIN_WIDTH: usize = 32;

/// Where file information is printed in a mode: standard output where
/// printing is the point, standard error where writing is.
pub open spec fn file_info_stream(mode: ExecMode) -> Stream {
    match mode {
        ExecMode::Print | ExecMode::Duplicates | ExecMode::Test(_) => Stream::Stdout,
        _ => Stream::Stderr,
    }
}

/// The line printed for file information that has metadata:
/// `algo=value : "path"`, the value padded to 32 characters.
pub open spec fn file_info_text(algo: Seq<char>, value: Seq<char>, path: Seq<char>) -> Seq<char> {
    algo + "="@ + pad_right(value, HASH_VALUE_MIN_WIDTH as nat) + " : "@ + path_debug_text(path)
        + "\n"@
}

/// The message of the error for file information without metadata.
pub open spec fn no_metadata_text(path: Seq<char>) -> Seq<char> {
    "Could not find file metadata for: "@ + path_debug_text(path) + "\n"@
}

/// What printing file information shows: its line, on the stream of the
/// mode, or an error when it has no metadata.
pub fn print_file_info(config: &Config, file_info: &FileInfo) -> (r: Result<Notice, DanoError>)
    ensures
        match file_info.metadata {
            Some(m) => r matches Ok(n) && n.stream == file_info_stream(config.exec_mode) && n.text@
                == file_info_text(m.hash_algo@, m.hash_value.value@, file_info.path@),
            None => r matches Err(e) && e.details@ == no_metadata_text(file_info.path@),
        },
{
    match &file_info.metadata {
        Some(metadata) => {
            let mut text = metadata.hash_algo.clone();
            text.append("=");
            push_padded(&mut text, metadata.hash_value.value.as_str(), HASH_VALUE_MIN_WIDTH);
            text.append(" : ");
            let p = path_debug(file_info.path.as_str());
            text.append(p.as_str());
            text.append("\n");
            let stream = match &config.exec_mode {
                ExecMode::Print | ExecMode::Duplicates | ExecMode::Test(_) => Stream::Stdout,
                _ => Stream::Stderr,
            };
            Ok(Notice { stream, text })
        },
        None => {
            let mut text = String::from_str("Could not find file metadata for: ");
            let p = path_debug(file_info.path.as_str());
            text.append(p.as_str());
            text.append("\n");
            Err(DanoError { details: text })
        },
    }
}

/// The number that the `version` member of a JSON line reads as: none
/// where the line is not JSON, has no `version` member, or the member does
/// not read as a `usize`.
pub uninterp spec fn json_version(line: Seq<char>) -> Option<usize>;

/// The line is JSON, but has no `version` member.
pub uninterp spec fn json_lacks_version(line: Seq<char>) -> bool;

/// The version a JSON line records: `serde_json::from_str::<Value>(line)`,
/// then `Value::get("version")` on the value, then
/// `serde_json::from_value::<usize>` on the member.  The number read where all
/// three succeed (`json_version`); `Err(None)` exactly where the line is JSON
/// without a `version` member (`json_lacks_version`); otherwise the message
/// of serde_json's error, which is not stated here.  serde_json's results
/// depend on the line alone.
#[verifier::external_body]
fn json_version_of(line: &str) -> (r: Result<usize, Option<String>>)
    ensures
        match json_version(line@) {
            Some(n) => r == Ok::<usize, Option<String>>(n),
            None => r is Err,
        },
        (r matches Err(None)) <==> json_lacks_version(line@),
{
    let root: serde_json::Value = serde_json::from_str(line).map_err(|e| Some(e.to_string()))?;
    let member = root.get("version").cloned().ok_or(None)?;
    serde_json::from_value(member).map_err(|e| Some(e.to_string()))
}

/// The message of the error for a JSON line without a `version` member.
pub open spec fn no_version_text() -> Seq<char> {
    "Could not get version value from JSON."@
}

/// The format version a recorded line declares in its `version` member (see
/// `json_version`): an error where there is none, with a message of its own
/// where the line is JSON without the member, otherwise serde_json's message.
pub fn line_version(line: &str) -> (r: Result<usize, DanoError>)
    ensures
        match json_version(line@) {
            Some(n) => r == Ok::<usize, DanoError>(n),
            None => r is Err,
        },
        json_lacks_version(line@) ==> (r matches Err(e) && e.details@ == no_version_text()),
{
    match json_version_of(line) {
        Ok(n) => Ok(n),
        Err(None) => Err(DanoError::new("Could not get version value from JSON.")),
        Err(Some(msg)) => Err(DanoError { details: msg }),
    }
}

/// How a recorded line is to be read.
#[derive(Debug)]
pub enum ParsePlan {
    /// As file information of the current version.
    Current,
    /// As file information of a legacy version, from the rewritten line.
    Legacy { version: LegacyVersion, line: String },
}

/// How a recorded line of the given version is read: as the current format,
/// or, rewritten, as one of the legacy formats.  Other versions are an
/// error.
pub fn plan_for_version(version: usize, line: &str) -> (r: Result<ParsePlan, DanoError>)
    ensures
        version == DANO_FILE_INFO_VERSION ==> r matches Ok(ParsePlan::Current),
        version != DANO_FILE_INFO_VERSION ==> match legacy_version_of(version) {
            Some(v) => r matches Ok(ParsePlan::Legacy { version: lv, line: l }) && lv == v && l@
                == replace_all(line@, "FileInfo"@, legacy_type_name(v)),
            None => r matches Err(e) && e.details@ == "Legacy version number is invalid"@,
        },
{
    if version == DANO_FILE_INFO_VERSION {
        return Ok(ParsePlan::Current);
    }
    let v = LegacyVersion::number_to_version(version)?;
    let l = v.rewrite_line(line);
    Ok(ParsePlan::Legacy { version: v, line: l })
}

/// `p` is how a line of version `version` is read (see
/// `plan_for_version`).
pub open spec fn plan_of_version(version: usize, line: Seq<char>, p: ParsePlan) -> bool {
    if version == DANO_FILE_INFO_VERSION {
        p is Current
    } else {
        match legacy_version_of(version) {
            Some(v) => p matches ParsePlan::Legacy { version: lv, line: l } && lv == v && l@
                == replace_all(line, "FileInfo"@, legacy_type_name(v)),
            None => false,
        }
    }
}

/// How a recorded line is read: by the version it records (see
/// `line_version`), as `plan_for_version` says; an error where it records
/// none.
pub fn deserialize_plan(line: &str) -> (r: Result<ParsePlan, DanoError>)
    ensures
        match json_version(line@) {
            Some(v) => if v == DANO_FILE_INFO_VERSION || legacy_version_of(v) is Some {
                r matches Ok(p) && plan_of_version(v, line@, p)
            } else {
                r matches Err(e) && e.details@ == "Legacy version number is invalid"@
            },
            None => r is Err,
        },
        json_lacks_version(line@) ==> (r matches Err(e) && e.details@ == no_version_text()),
{
    let version = line_version(line)?;
    plan_for_version(version, line)
}

} // verus!
