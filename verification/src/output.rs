//! What is written out, and what is printed about it, once file information
//! has been checked: "write" is writing to the output file or to extended
//! attributes, "print" is printing for the user.
use vstd::prelude::*;
use vstd::string::StringExecFns;

use crate::config::{notice_texts, Config, ExecMode};
use crate::dedup::{latest_of, latest_per_hash, info_hash_key, with_hash_key};
use crate::ingest::RecordedFileInfo;
use crate::lookup::FileInfo;
use crate::paths::{lemma_only_empty_path_is_empty, path_debug, path_debug_text, same_path};
use crate::process::{ProcessedFiles, RemainderBundle};
use crate::utility::{DanoError, Notice, Stream};

verus! {

/// How the output file is written: appended to, or replaced as a whole.
#[derive(Debug, PartialEq, Eq, Structural)]
pub enum WriteType {
    Append,
    OverwriteAll,
}

/// Where file information is written.
#[derive(Debug, PartialEq, Eq, Structural)]
pub enum WriteTarget {
    /// The extended attributes of each file.
    Xattr,
    /// The output file.
    OutputFile,
}

/// What writing out a list of file information does: print the notices on
/// standard error, write the files to the target, then, where asked, read
/// the output file back, keep the latest file information for each hash
/// and replace the output file with it.
#[derive(Debug)]
pub struct WritePlan {
    pub notices: Vec<Notice>,
    pub files: Vec<FileInfo>,
    pub target: WriteTarget,
    pub rewrite_output: bool,
}

pub open spec fn write_new_prefix() -> Seq<char> {
    "Writing dano hash for: "@
}

pub open spec fn overwrite_old_prefix() -> Seq<char> {
    "Overwriting dano hash for: "@
}

pub open spec fn not_write_new_prefix() -> Seq<char> {
    "WARN: Not writing dano hash for (as writing is not specified): "@
}

pub open spec fn not_write_new_suffix() -> Seq<char> {
    ", --write-new was not specified."@
}

pub open spec fn not_overwrite_old_prefix() -> Seq<char> {
    "WARN: Not overwriting dano hash for (as overwriting is not specified): "@
}

pub open spec fn not_overwrite_old_suffix() -> Seq<char> {
    ", --overwrite was not specified."@
}

pub open spec fn new_files_empty() -> Seq<char> {
    "No new file paths to write."@
}

pub open spec fn modified_file_names_empty() -> Seq<char> {
    "No old file data to overwrite."@
}

/// The line printed for each file: prefix, the path as shown to the user,
/// suffix.
pub open spec fn action_texts(files: Seq<FileInfo>, prefix: Seq<char>, suffix: Seq<char>) -> Seq<
    Seq<char>,
> {
    files.map_values(|f: FileInfo| prefix + path_debug_text(f.path@) + suffix + "\n"@)
}

/// Where the files are written: extended attributes when asked for,
/// except when dumping, which always writes the output file.
pub open spec fn target_of(mode: ExecMode, xattr: bool) -> WriteTarget {
    if xattr && !(mode is Dump) {
        WriteTarget::Xattr
    } else {
        WriteTarget::OutputFile
    }
}

/// A list of file information about to be written or printed.
#[derive(Debug)]
pub struct WriteableFileInfo {
    pub inner: Vec<FileInfo>,
}

impl WriteableFileInfo {
    /// The files of a bundle.
    pub fn from_files(files: Vec<FileInfo>) -> (r: WriteableFileInfo)
        ensures
            r.inner == files,
    {
        WriteableFileInfo { inner: files }
    }

    /// The recorded file information.
    pub fn from_recorded(recorded: RecordedFileInfo) -> (r: WriteableFileInfo)
        ensures
            r.inner@ == recorded.entries(),
    {
        WriteableFileInfo { inner: recorded.into_inner() }
    }

    /// One line on standard error for each file (see `action_texts`).
    pub fn print_action(&self, prefix: &str, suffix: &str) -> (r: Vec<Notice>)
        ensures
            notice_texts(r@) == action_texts(self.inner@, prefix@, suffix@),
            forall|i: int| 0 <= i < r@.len() ==> (#[trigger] r@[i]).stream == Stream::Stderr,
    {
        let mut out: Vec<Notice> = Vec::new();
        let mut i: usize = 0;
        while i < self.inner.len()
            invariant
                i <= self.inner@.len(),
                notice_texts(out@) == action_texts(self.inner@.take(i as int), prefix@, suffix@),
                forall|k: int| 0 <= k < out@.len() ==> (#[trigger] out@[k]).stream == Stream::Stderr,
            decreases self.inner@.len() - i,
        {
            let f = &self.inner[i];
            let mut text = String::from_str(prefix);
            let d = path_debug(f.path.as_str());
            text.append(d.as_str());
            text.append(suffix);
            text.append("\n");
            let ghost before = out@;
            out.push(Notice { stream: Stream::Stderr, text });
            assert(notice_texts(out@) =~= notice_texts(before).push(
                prefix@ + path_debug_text(f.path@) + suffix@ + "\n"@,
            ));
            assert(self.inner@.take(i + 1) =~= self.inner@.take(i as int).push(*f));
            assert(action_texts(self.inner@.take(i + 1), prefix@, suffix@) =~= action_texts(
                self.inner@.take(i as int),
                prefix@,
                suffix@,
            ).push(prefix@ + path_debug_text(f.path@) + suffix@ + "\n"@));
            i = i + 1;
        }
        assert(self.inner@.take(self.inner@.len() as int) =~= self.inner@);
        out
    }

    /// Writing the files: in a dry run, a line with the dry prefix for each
    /// file and nothing written; otherwise a line with the other prefix for
    /// each file, the files written to the target, and, in write mode to the
    /// output file, the output file rewritten with the latest file
    /// information for each hash.
    pub fn write_action(self, config: &Config, dry_prefix: &str, wet_prefix: &str) -> (r: WritePlan)
        ensures
            notice_texts(r.notices@) == action_texts(
                self.inner@,
                if config.opt_dry_run {
                    dry_prefix@
                } else {
                    wet_prefix@
                },
                ""@,
            ),
            forall|i: int|
                0 <= i < r.notices@.len() ==> (#[trigger] r.notices@[i]).stream == Stream::Stderr,
            r.files@ == (if config.opt_dry_run {
                Seq::<FileInfo>::empty()
            } else {
                self.inner@
            }),
            r.target == target_of(config.exec_mode, config.opt_xattr),
            r.rewrite_output == (!config.opt_dry_run && config.exec_mode is Write && !config.opt_xattr),
    {
        let target = if config.opt_xattr && !matches!(config.exec_mode, ExecMode::Dump) {
            WriteTarget::Xattr
        } else {
            WriteTarget::OutputFile
        };
        if config.opt_dry_run {
            let notices = self.print_action(dry_prefix, "");
            WritePlan { notices, files: Vec::new(), target, rewrite_output: false }
        } else {
            let notices = self.print_action(wet_prefix, "");
            let rewrite_output = matches!(config.exec_mode, ExecMode::Write(_)) && !config.opt_xattr;
            WritePlan { notices, files: self.inner, target, rewrite_output }
        }
    }
}

/// The files of a bundle.
pub open spec fn bundle_files(b: RemainderBundle) -> Seq<FileInfo> {
    match b {
        RemainderBundle::NewFile(v) => v@,
        RemainderBundle::ModifiedFilename(v) => v@,
    }
}

/// The mode writes the bundle: write mode writes both bundles, test mode
/// the new files when asked to write new files and the renamed files when
/// asked to overwrite.
pub open spec fn bundle_writes(mode: ExecMode, is_new: bool) -> bool {
    match mode {
        ExecMode::Write(_) => true,
        ExecMode::Test(t) => if is_new {
            t.opt_write_new
        } else {
            t.opt_overwrite_old
        },
        _ => false,
    }
}

/// The prefix of the lines for a bundle that is not written.
pub open spec fn quiet_prefix(is_new: bool) -> Seq<char> {
    if is_new {
        not_write_new_prefix()
    } else {
        not_overwrite_old_prefix()
    }
}

/// The suffix of the lines for a bundle that test mode does not write.
pub open spec fn quiet_suffix(is_new: bool) -> Seq<char> {
    if is_new {
        not_write_new_suffix()
    } else {
        not_overwrite_old_suffix()
    }
}

/// The prefix of the lines for a bundle that is written.
pub open spec fn loud_prefix(is_new: bool) -> Seq<char> {
    if is_new {
        write_new_prefix()
    } else {
        overwrite_old_prefix()
    }
}

/// The lines printed for a non-empty bundle.
pub open spec fn bundle_texts(mode: ExecMode, dry_run: bool, files: Seq<FileInfo>, is_new: bool) -> Seq<
    Seq<char>,
> {
    if bundle_writes(mode, is_new) {
        action_texts(
            files,
            if dry_run {
                quiet_prefix(is_new)
            } else {
                loud_prefix(is_new)
            },
            ""@,
        )
    } else {
        action_texts(files, quiet_prefix(is_new), quiet_suffix(is_new))
    }
}

/// The line printed for an empty bundle, none in a single-path run.  Test
/// mode that was not asked to write a bundle of this kind adds which flag
/// was not given.
pub open spec fn empty_bundle_text(mode: ExecMode, single: bool, is_new: bool) -> Option<Seq<char>> {
    if single {
        None
    } else {
        match mode {
            ExecMode::Test(t) if !bundle_writes(mode, is_new) => if is_new {
                Some(new_files_empty() + not_write_new_suffix() + "\n"@)
            } else {
                Some(modified_file_names_empty() + not_overwrite_old_suffix() + "\n"@)
            },
            _ => if is_new {
                Some(new_files_empty() + "\n"@)
            } else {
                Some(modified_file_names_empty() + "\n"@)
            },
        }
    }
}

/// A bundle can be written out: an empty one in any mode, another one in
/// write or test mode.
pub open spec fn bundle_writable(mode: ExecMode, single: bool, b: RemainderBundle) -> bool {
    bundle_files(b).len() == 0 || mode is Write || mode is Test
}

/// `p` is the plan for writing out bundle `b`: for an empty bundle, its
/// line and nothing written; otherwise the lines for its files (see
/// `bundle_texts`) and, where the mode writes the bundle and it is not a dry
/// run, its files written and, in write mode to the output file, the output
/// file rewritten.  All lines go to standard error.
pub open spec fn bundle_plan(config: Config, b: RemainderBundle, p: WritePlan) -> bool {
    let is_new = b is NewFile;
    let files = bundle_files(b);
    let writes = bundle_writes(config.exec_mode, is_new) && !config.opt_dry_run;
    &&& files.len() == 0 ==> p.files@.len() == 0 && !p.rewrite_output && notice_texts(p.notices@)
        == match empty_bundle_text(config.exec_mode, config.is_single_path, is_new) {
        Some(t) => seq![t],
        None => Seq::<Seq<char>>::empty(),
    }
    &&& files.len() > 0 ==> notice_texts(p.notices@) == bundle_texts(
        config.exec_mode,
        config.opt_dry_run,
        files,
        is_new,
    ) && p.files@ == (if writes {
        files
    } else {
        Seq::<FileInfo>::empty()
    }) && p.rewrite_output == (writes && config.exec_mode is Write && !config.opt_xattr)
    &&& p.target == target_of(config.exec_mode, config.opt_xattr)
    &&& forall|i: int| 0 <= i < p.notices@.len() ==> (#[trigger] p.notices@[i]).stream == Stream::Stderr
}

impl RemainderBundle {
    /// The line printed for an empty bundle (see `empty_bundle_text`).
    pub fn print_bundle_empty(config: &Config, is_new: bool) -> (r: Option<Notice>)
        ensures
            match empty_bundle_text(config.exec_mode, config.is_single_path, is_new) {
                Some(t) => r matches Some(n) && n.text@ == t && n.stream == Stream::Stderr,
                None => r is None,
            },
    {
        if config.is_single_path {
            return None;
        }
        let text = match &config.exec_mode {
            ExecMode::Test(t) if !(if is_new {
                t.opt_write_new
            } else {
                t.opt_overwrite_old
            }) => {
                if is_new {
                    let mut s = String::from_str("No new file paths to write.");
                    s.append(", --write-new was not specified.");
                    s.append("\n");
                    s
                } else {
                    let mut s = String::from_str("No old file data to overwrite.");
                    s.append(", --overwrite was not specified.");
                    s.append("\n");
                    s
                }
            },
            _ => {
                if is_new {
                    let mut s = String::from_str("No new file paths to write.");
                    s.append("\n");
                    s
                } else {
                    let mut s = String::from_str("No old file data to overwrite.");
                    s.append("\n");
                    s
                }
            },
        };
        Some(Notice { stream: Stream::Stderr, text })
    }

    /// Writing out a bundle: for an empty bundle, its line; otherwise the
    /// lines for its files (see `bundle_texts`) and, where the mode writes
    /// it and it is not a dry run, the files to write.
    pub fn write_out(self, config: &Config) -> (r: WritePlan)
        requires
            bundle_writable(config.exec_mode, config.is_single_path, self),
        ensures
            bundle_plan(*config, self, r),
    {
        let is_new = matches!(self, RemainderBundle::NewFile(_));
        let files = match self {
            RemainderBundle::NewFile(v) => v,
            RemainderBundle::ModifiedFilename(v) => v,
        };
        let target = if config.opt_xattr && !matches!(config.exec_mode, ExecMode::Dump) {
            WriteTarget::Xattr
        } else {
            WriteTarget::OutputFile
        };
        if files.len() == 0 {
            let mut notices: Vec<Notice> = Vec::new();
            match Self::print_bundle_empty(config, is_new) {
                Some(n) => {
                    notices.push(n);
                    assert(notice_texts(notices@) =~= seq![notices@[0].text@]);
                },
                None => {
                    assert(notice_texts(notices@) =~= Seq::<Seq<char>>::empty());
                },
            }
            return WritePlan { notices, files, target, rewrite_output: false };
        }
        let writable = WriteableFileInfo::from_files(files);
        let writes = match &config.exec_mode {
            ExecMode::Write(_) => true,
            ExecMode::Test(t) => if is_new {
                t.opt_write_new
            } else {
                t.opt_overwrite_old
            },
            _ => false,
        };
        if writes {
            if is_new {
                writable.write_action(
                    config,
                    "WARN: Not writing dano hash for (as writing is not specified): ",
                    "Writing dano hash for: ",
                )
            } else {
                writable.write_action(
                    config,
                    "WARN: Not overwriting dano hash for (as overwriting is not specified): ",
                    "Overwriting dano hash for: ",
                )
            }
        } else {
            let notices = if is_new {
                writable.print_action(
                    "WARN: Not writing dano hash for (as writing is not specified): ",
                    ", --write-new was not specified.",
                )
            } else {
                writable.print_action(
                    "WARN: Not overwriting dano hash for (as overwriting is not specified): ",
                    ", --overwrite was not specified.",
                )
            };
            WritePlan { notices, files: Vec::new(), target, rewrite_output: false }
        }
    }
}

impl ProcessedFiles {
    /// Writing out the result of a check: the plan for the new files, then
    /// the plan for the renamed files (see `RemainderBundle::write_out`),
    /// and the exit code of the check.
    pub fn write_out(self, config: &Config) -> (r: (Vec<WritePlan>, i32))
        requires
            bundle_writable(config.exec_mode, config.is_single_path, self.new_files),
            bundle_writable(config.exec_mode, config.is_single_path, self.modified_file_names),
            self.new_files is NewFile,
            self.modified_file_names is ModifiedFilename,
        ensures
            r.0@.len() == 2,
            bundle_plan(*config, self.new_files, r.0@[0]),
            bundle_plan(*config, self.modified_file_names, r.0@[1]),
            r.1 == self.exit_code,
    {
        let exit_code = self.exit_code;
        let first = self.new_files.write_out(config);
        let second = self.modified_file_names.write_out(config);
        let mut plans: Vec<WritePlan> = Vec::new();
        plans.push(first);
        plans.push(second);
        (plans, exit_code)
    }
}

/// The message of the error for rewriting an output file that is not there.
pub open spec fn no_output_file_text() -> Seq<char> {
    "No valid output file exists"@
}

/// What replaces the output file after new file information was appended
/// to it: of the file information read back, for each hash the latest
/// written (see `latest_per_hash`); an error when there is no output file.
pub fn overwrite_all(output_exists: bool, read_back: &Vec<FileInfo>) -> (r: Result<Vec<FileInfo>, DanoError>)
    ensures
        !output_exists ==> (r matches Err(e) && e.details@ == no_output_file_text()),
        output_exists ==> (r matches Ok(v) && (forall|i: int| 0 <= i < v@.len() ==> (#[trigger] v@[i]).metadata is Some
            && v@[i] == latest_of(with_hash_key(read_back@, info_hash_key(v@[i]))))
            && (forall|i: int, j: int| 0 <= i < j < v@.len() ==> info_hash_key(#[trigger] v@[i]) != info_hash_key(#[trigger] v@[j]))
            && (forall|k: int| 0 <= k < read_back@.len() && (#[trigger] read_back@[k]).metadata is Some ==> exists|i: int| 0 <= i < v@.len() && info_hash_key(v@[i]) == info_hash_key(read_back@[k]))),
{
    if !output_exists {
        return Err(DanoError::new("No valid output file exists"));
    }
    Ok(latest_per_hash(read_back))
}

/// The temporary file that replaces the output file: its path with `.tmp`
/// appended.
pub fn make_tmp_file(path: &str) -> (r: String)
    ensures
        r@ == path@ + ".tmp"@,
{
    let mut r = String::from_str(path);
    r.append(".tmp");
    r
}

/// The first line of a new output file, naming the working directory.
pub fn file_header(pwd: &str) -> (r: String)
    ensures
        r@ == "// DANO, Invoked from: "@ + path_debug_text(pwd@) + "\n"@,
{
    let mut r = String::from_str("// DANO, Invoked from: ");
    let d = path_debug(pwd);
    r.append(d.as_str());
    r.append("\n");
    r
}

/// What extended attributes record of a file: its file information without
/// the path, which may change when the file is renamed.
pub fn xattr_record(file_info: &FileInfo) -> (r: FileInfo)
    ensures
        r.version == file_info.version,
        r.path@ == Seq::<char>::empty(),
        r.metadata == file_info.metadata,
{
    let metadata = match &file_info.metadata {
        Some(m) => Some(m.clone()),
        None => None,
    };
    FileInfo { version: file_info.version, path: String::new(), metadata }
}

/// File information written to a file's extended attributes holds no path
/// (see `xattr_record`); read back (see `ingest::with_actual_path`), it
/// names the path it was read from.
pub proof fn lemma_xattr_read_back_path(path: Seq<char>)
    ensures
        (if same_path(path, Seq::<char>::empty()) {
            Seq::<char>::empty()
        } else {
            path
        }) == path,
{
    lemma_only_empty_path_is_empty(path);
    if same_path(path, Seq::<char>::empty()) {
        assert(path =~= Seq::<char>::empty());
    }
}

/// A dry run writes nothing: no bundle's plan writes files or rewrites the
/// output file.
pub proof fn lemma_dry_run_writes_nothing(config: Config, b: RemainderBundle, p: WritePlan)
    requires
        config.opt_dry_run,
        bundle_plan(config, b, p),
    ensures
        p.files@.len() == 0,
        !p.rewrite_output,
{
}

/// Write mode writes what it was given: outside a dry run, the plan of a
/// non-empty bundle writes exactly the bundle's files.
pub proof fn lemma_write_mode_writes_bundle(config: Config, b: RemainderBundle, p: WritePlan)
    requires
        config.exec_mode is Write,
        !config.opt_dry_run,
        bundle_files(b).len() > 0,
        bundle_plan(config, b, p),
    ensures
        p.files@ == bundle_files(b),
{
}

} // verus!
