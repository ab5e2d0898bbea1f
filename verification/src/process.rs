//! Checking freshly computed file information against recorded file
//! information.
use vstd::prelude::*;
use vstd::string::StringExecFns;

use crate::config::{Config, ExecMode};
use crate::ingest::RecordedFileInfo;
use crate::lookup::{same_hash_value, FileInfo};
use crate::paths::{path_debug, path_debug_text, paths_equal, same_path};
use crate::sorting::{sort_by_path, sorted_by_path, strictly_sorted_by_path};
use crate::utility::{
    file_info_stream, file_info_text, no_metadata_text, print_file_info, DanoError, Notice, Stream,
};

verus! {

/// Exit code of a run in which every check passed.
pub const DANO_CLEAN_EXIT_CODE: i32 = 0;

/// Exit code of a run that failed with an error.
pub const DANO_ERROR_EXIT_CODE: i32 = 1;

/// Exit code of a check that found a recorded file missing.
pub const DANO_DISORDER_EXIT_CODE: i32 = 2;

/// Exit code of a check that found a new hash for a recorded file name.
pub const DANO_HASH_MISMATCH_EXIT_CODE: i32 = 3;

/// How freshly computed file information relates to the recorded entries.
#[derive(Debug, PartialEq, Eq, Structural)]
pub enum Outcome {
    /// No checksum could be computed: the file is missing or unreadable.
    Missing,
    /// Neither its name nor its hash is recorded.
    NewFile,
    /// Its name is recorded with its hash.
    Unchanged,
    /// Its hash is recorded, but not under its name.
    Renamed,
    /// Its name is recorded, but with another hash.
    Changed,
}

/// Some recorded entry has the path.
pub open spec fn has_recorded_path(entries: Seq<FileInfo>, p: Seq<char>) -> bool {
    exists|i: int| 0 <= i < entries.len() && same_path(#[trigger] entries[i].path@, p)
}

/// The file information has a hash, and some recorded entry has the same hash.
pub open spec fn has_recorded_hash(entries: Seq<FileInfo>, f: FileInfo) -> bool {
    match f.metadata {
        Some(m) => exists|i: int|
            0 <= i < entries.len() && (#[trigger] entries[i]).metadata is Some && same_hash_value(
                entries[i].metadata->0.hash_value,
                m.hash_value,
            ),
        None => false,
    }
}

/// The outcome of checking `f` against the recorded entries.
pub open spec fn outcome_of(entries: Seq<FileInfo>, f: FileInfo) -> Outcome {
    let name = has_recorded_path(entries, f.path@);
    let hash = has_recorded_hash(entries, f);
    if f.metadata is None {
        Outcome::Missing
    } else if !name && !hash {
        Outcome::NewFile
    } else if name && hash {
        Outcome::Unchanged
    } else if hash {
        Outcome::Renamed
    } else {
        Outcome::Changed
    }
}

/// The exit code an outcome asks for.
pub open spec fn outcome_code(o: Outcome) -> i32 {
    match o {
        Outcome::Missing => DANO_DISORDER_EXIT_CODE,
        Outcome::Changed => DANO_HASH_MISMATCH_EXIT_CODE,
        _ => DANO_CLEAN_EXIT_CODE,
    }
}

/// What the user is told about an outcome in test mode.
pub open spec fn test_notice_text(o: Outcome, overwrite_old: bool, path: Seq<char>) -> Seq<char> {
    let p = path_debug_text(path);
    match o {
        Outcome::Missing => "WARN: "@ + p + ": Path does not exist.\n"@,
        Outcome::NewFile => p + ": Path is a new file.\n"@,
        Outcome::Unchanged => p + ": OK\n"@,
        Outcome::Renamed => if overwrite_old {
            p + ": OK, but path has same hash for new filename.  Old file info has been overwritten.\n"@
        } else {
            p + ": OK, but path has same hash for new filename.\n"@
        },
        Outcome::Changed => "WARN: "@ + p + ": Path has new hash for same filename.\n"@,
    }
}

/// A notice, as plain values.
pub open spec fn notice_view(n: Notice) -> (Stream, Seq<char>) {
    (n.stream, n.text@)
}

/// Notices, as plain values.
pub open spec fn notice_views(s: Seq<Notice>) -> Seq<(Stream, Seq<char>)> {
    s.map_values(|n: Notice| notice_view(n))
}

/// The check of `f` is an error: in write mode, file information without
/// metadata cannot be printed.
pub open spec fn check_fails(mode: ExecMode, f: FileInfo) -> bool {
    mode is Write && f.metadata is None
}

/// What the user is told about checking `f`, if anything (when the check
/// does not fail).
pub open spec fn check_notice(mode: ExecMode, silent: bool, entries: Seq<FileInfo>, f: FileInfo) -> Option<
    (Stream, Seq<char>),
> {
    let o = outcome_of(entries, f);
    if o == Outcome::Unchanged && silent {
        None
    } else {
        match mode {
            ExecMode::Test(t) => Some(
                (Stream::Stdout, test_notice_text(o, t.opt_overwrite_old, f.path@)),
            ),
            _ => Some(
                (
                    file_info_stream(mode),
                    file_info_text(
                        f.metadata->0.hash_algo@,
                        f.metadata->0.hash_value.value@,
                        f.path@,
                    ),
                ),
            ),
        }
    }
}

/// The recorded entries that fresh file information is checked against.
struct FileMap {
    entries: Vec<FileInfo>,
}

impl FileMap {
    /// Some recorded entry has the path of `f`.
    fn is_same_filename(&self, f: &FileInfo) -> (r: bool)
        ensures
            r == has_recorded_path(self.entries@, f.path@),
    {
        let mut i: usize = 0;
        while i < self.entries.len()
            invariant
                i <= self.entries@.len(),
                forall|k: int| 0 <= k < i ==> !same_path(#[trigger] self.entries@[k].path@, f.path@),
            decreases self.entries@.len() - i,
        {
            if paths_equal(self.entries[i].path.as_str(), f.path.as_str()) {
                return true;
            }
            i = i + 1;
        }
        false
    }

    /// `f` has a hash and some recorded entry has the same hash.
    fn is_same_hash(&self, f: &FileInfo) -> (r: bool)
        ensures
            r == has_recorded_hash(self.entries@, *f),
    {
        match &f.metadata {
            None => false,
            Some(m) => {
                let mut i: usize = 0;
                while i < self.entries.len()
                    invariant
                        i <= self.entries@.len(),
                        f.metadata == Some(*m),
                        forall|k: int|
                            0 <= k < i ==> !((#[trigger] self.entries@[k]).metadata is Some
                                && same_hash_value(self.entries@[k].metadata->0.hash_value, m.hash_value)),
                    decreases self.entries@.len() - i,
                {
                    match &self.entries[i].metadata {
                        Some(em) => {
                            if em.hash_value.equals(&m.hash_value) {
                                return true;
                            }
                        },
                        None => {},
                    }
                    i = i + 1;
                }
                false
            },
        }
    }

    /// Checks `f` against the recorded entries: its outcome, and what the
    /// user is told.
    fn verify(&self, config: &Config, f: &FileInfo) -> (r: Result<
        (Outcome, Option<Notice>),
        DanoError,
    >)
        requires
            config.exec_mode is Test || config.exec_mode is Write,
        ensures
            check_fails(config.exec_mode, *f) <==> r is Err,
            r matches Err(e) ==> e.details@ == no_metadata_text(f.path@),
            r matches Ok((o, n)) ==> o == outcome_of(self.entries@, *f) && match n {
                Some(n) => check_notice(config.exec_mode, config.opt_silent, self.entries@, *f) == Some(
                    notice_view(n),
                ),
                None => check_notice(config.exec_mode, config.opt_silent, self.entries@, *f) is None,
            },
    {
        let same_hash = self.is_same_hash(f);
        let same_name = self.is_same_filename(f);
        let outcome = if f.metadata.is_none() {
            Outcome::Missing
        } else if !same_name && !same_hash {
            Outcome::NewFile
        } else if same_name && same_hash {
            Outcome::Unchanged
        } else if same_hash {
            Outcome::Renamed
        } else {
            Outcome::Changed
        };
        if outcome == Outcome::Unchanged && config.opt_silent {
            return Ok((outcome, None));
        }
        match &config.exec_mode {
            ExecMode::Test(t) => {
                let p = path_debug(f.path.as_str());
                let text = match outcome {
                    Outcome::Missing => {
                        let mut text = String::from_str("WARN: ");
                        text.append(p.as_str());
                        text.append(": Path does not exist.\n");
                        text
                    },
                    Outcome::NewFile => {
                        let mut text = p;
                        text.append(": Path is a new file.\n");
                        text
                    },
                    Outcome::Unchanged => {
                        let mut text = p;
                        text.append(": OK\n");
                        text
                    },
                    Outcome::Renamed => {
                        let mut text = p;
                        if t.opt_overwrite_old {
                            text.append(
                                ": OK, but path has same hash for new filename.  Old file info has been overwritten.\n",
                            );
                        } else {
                            text.append(": OK, but path has same hash for new filename.\n");
                        }
                        text
                    },
                    Outcome::Changed => {
                        let mut text = String::from_str("WARN: ");
                        text.append(p.as_str());
                        text.append(": Path has new hash for same filename.\n");
                        text
                    },
                };
                Ok((outcome, Some(Notice { stream: Stream::Stdout, text })))
            },
            _ => {
                let n = print_file_info(config, f)?;
                Ok((outcome, Some(n)))
            },
        }
    }
}

/// The file information that remains to be written after a check.
#[derive(Debug)]
pub enum RemainderBundle {
    /// Files whose name and hash were both new.
    NewFile(Vec<FileInfo>),
    /// Files whose hash was recorded under another name.
    ModifiedFilename(Vec<FileInfo>),
}

/// The result of checking fresh file information against the record.
#[derive(Debug)]
pub struct ProcessedFiles {
    pub new_files: RemainderBundle,
    pub modified_file_names: RemainderBundle,
    pub exit_code: i32,
}

/// The items whose check has the given outcome, in order.
pub open spec fn with_outcome(entries: Seq<FileInfo>, items: Seq<FileInfo>, o: Outcome) -> Seq<FileInfo> {
    items.filter(|f: FileInfo| outcome_of(entries, f) == o)
}

/// The exit code of a sequence of checks: the code of the last check that
/// failed, or the clean code when none failed.
pub open spec fn exit_code_of(entries: Seq<FileInfo>, items: Seq<FileInfo>) -> i32
    decreases items.len(),
{
    if items.len() == 0 {
        DANO_CLEAN_EXIT_CODE
    } else {
        let c = outcome_code(outcome_of(entries, items.last()));
        if c != DANO_CLEAN_EXIT_CODE {
            c
        } else {
            exit_code_of(entries, items.drop_last())
        }
    }
}

/// The notices of a sequence of checks, none of which fails.
pub open spec fn notices_of(mode: ExecMode, silent: bool, entries: Seq<FileInfo>, items: Seq<FileInfo>) -> Seq<
    (Stream, Seq<char>),
>
    decreases items.len(),
{
    if items.len() == 0 {
        Seq::empty()
    } else {
        let before = notices_of(mode, silent, entries, items.drop_last());
        match check_notice(mode, silent, entries, items.last()) {
            Some(n) => before.push(n),
            None => before,
        }
    }
}

/// The index of the first check that fails, or the number of items.
pub open spec fn first_failure(mode: ExecMode, items: Seq<FileInfo>) -> int
    decreases items.len(),
{
    if items.len() == 0 {
        0
    } else if check_fails(mode, items[0]) {
        0
    } else {
        1 + first_failure(mode, items.drop_first())
    }
}

proof fn lemma_first_failure(mode: ExecMode, items: Seq<FileInfo>)
    ensures
        0 <= first_failure(mode, items) <= items.len(),
        forall|k: int| 0 <= k < first_failure(mode, items) ==> !check_fails(mode, #[trigger] items[k]),
        first_failure(mode, items) < items.len() ==> check_fails(mode, items[first_failure(mode, items)]),
    decreases items.len(),
{
    if items.len() > 0 && !check_fails(mode, items[0]) {
        lemma_first_failure(mode, items.drop_first());
        assert forall|k: int| 0 <= k < first_failure(mode, items) implies !check_fails(
            mode,
            #[trigger] items[k],
        ) by {
            if k > 0 {
                assert(items[k] == items.drop_first()[k - 1]);
            }
        }
    }
}

impl ProcessedFiles {
    /// Checks each received file information, in the order received, against
    /// the recorded file information.  Returns what the user is told, in that
    /// order, and the files that remain to be written, each group ordered by
    /// path, with the exit code of the checks: that of the last failed check.
    /// In write mode a received file without metadata stops the checks with
    /// an error; the notices of the checks before it are returned.
    pub fn new(config: &Config, recorded: RecordedFileInfo, received: Vec<FileInfo>) -> (r: (
        Vec<Notice>,
        Result<ProcessedFiles, DanoError>,
    ))
        requires
            config.exec_mode is Test || config.exec_mode is Write,
        ensures
            ({
                let mode = config.exec_mode;
                let entries = recorded.entries();
                let stop = first_failure(mode, received@);
                &&& notice_views(r.0@) == notices_of(
                    mode,
                    config.opt_silent,
                    entries,
                    received@.take(stop),
                )
                &&& (stop < received@.len()) <==> r.1 is Err
                &&& r.1 matches Err(e) ==> e.details@ == no_metadata_text(received@[stop].path@)
                &&& r.1 matches Ok(p) ==> {
                    &&& p.new_files matches RemainderBundle::NewFile(nf) && sorted_by_path(nf@)
                        && nf@.to_multiset() == with_outcome(
                        entries,
                        received@,
                        Outcome::NewFile,
                    ).to_multiset()
                    &&& p.modified_file_names matches RemainderBundle::ModifiedFilename(mf)
                        && sorted_by_path(mf@) && mf@.to_multiset() == with_outcome(
                        entries,
                        received@,
                        Outcome::Renamed,
                    ).to_multiset()
                    &&& p.exit_code == exit_code_of(entries, received@)
                }
            }),
    {
        let ghost entries = recorded.entries();
        let file_map = FileMap { entries: recorded.into_inner() };
        let ghost mode = config.exec_mode;
        proof {
            lemma_first_failure(mode, received@);
        }
        let mut notices: Vec<Notice> = Vec::new();
        let mut new_files: Vec<FileInfo> = Vec::new();
        let mut modified_file_names: Vec<FileInfo> = Vec::new();
        let mut exit_code: i32 = DANO_CLEAN_EXIT_CODE;
        let mut i: usize = 0;
        while i < received.len()
            invariant
                config.exec_mode is Test || config.exec_mode is Write,
                mode == config.exec_mode,
                entries == file_map.entries@,
                entries == recorded.entries(),
                0 <= first_failure(mode, received@) <= received@.len(),
                forall|k: int|
                    0 <= k < first_failure(mode, received@) ==> !check_fails(
                        mode,
                        #[trigger] received@[k],
                    ),
                first_failure(mode, received@) < received@.len() ==> check_fails(
                    mode,
                    received@[first_failure(mode, received@)],
                ),
                i <= first_failure(mode, received@),
                notice_views(notices@) == notices_of(
                    mode,
                    config.opt_silent,
                    entries,
                    received@.take(i as int),
                ),
                new_files@ == with_outcome(entries, received@.take(i as int), Outcome::NewFile),
                modified_file_names@ == with_outcome(
                    entries,
                    received@.take(i as int),
                    Outcome::Renamed,
                ),
                exit_code == exit_code_of(entries, received@.take(i as int)),
            decreases received@.len() - i,
        {
            let f = &received[i];
            let checked = file_map.verify(config, f);
            let ghost prefix = received@.take(i as int);
            let ghost next = received@.take(i + 1);
            proof {
                assert(next.drop_last() =~= prefix);
                assert(next.last() == received@[i as int]);
            }
            match checked {
                Err(e) => {
                    proof {
                        if i < first_failure(mode, received@) {
                            assert(!check_fails(mode, received@[i as int]));
                        }
                        assert(i == first_failure(mode, received@));
                    }
                    return (notices, Err(e));
                },
                Ok((outcome, opt_notice)) => {
                    proof {
                        assert(i < first_failure(mode, received@));
                    }
                    let ghost old_notices = notices@;
                    match opt_notice {
                        Some(n) => {
                            notices.push(n);
                            proof {
                                assert(notice_views(notices@) =~= notice_views(old_notices).push(
                                    notice_view(n),
                                ));
                            }
                        },
                        None => {},
                    }
                    let fc = received[i].clone();
                    proof {
                        assert(next.filter(|g: FileInfo| outcome_of(entries, g) == Outcome::NewFile)
                            == prefix.filter(|g: FileInfo| outcome_of(entries, g) == Outcome::NewFile).push(
                            fc,
                        ) || outcome != Outcome::NewFile) by {
                            prefix.lemma_filter_push(
                                fc,
                                |g: FileInfo| outcome_of(entries, g) == Outcome::NewFile,
                            );
                            assert(next =~= prefix.push(fc));
                        }
                        prefix.lemma_filter_push(
                            fc,
                            |g: FileInfo| outcome_of(entries, g) == Outcome::NewFile,
                        );
                        prefix.lemma_filter_push(
                            fc,
                            |g: FileInfo| outcome_of(entries, g) == Outcome::Renamed,
                        );
                        assert(next =~= prefix.push(fc));
                    }
                    if outcome == Outcome::NewFile {
                        new_files.push(fc);
                    } else if outcome == Outcome::Renamed {
                        modified_file_names.push(fc);
                    }
                    let code: i32 = if outcome == Outcome::Missing {
                        DANO_DISORDER_EXIT_CODE
                    } else if outcome == Outcome::Changed {
                        DANO_HASH_MISMATCH_EXIT_CODE
                    } else {
                        DANO_CLEAN_EXIT_CODE
                    };
                    if code != DANO_CLEAN_EXIT_CODE {
                        exit_code = code;
                    }
                },
            }
            i = i + 1;
        }
        proof {
            assert(received@.take(received@.len() as int) =~= received@);
            if i < first_failure(mode, received@) {
                assert(false);
            }
        }
        let new_files = sort_by_path(new_files);
        let modified_file_names = sort_by_path(modified_file_names);
        (
            notices,
            Ok(
                ProcessedFiles {
                    new_files: RemainderBundle::NewFile(new_files),
                    modified_file_names: RemainderBundle::ModifiedFilename(modified_file_names),
                    exit_code,
                },
            ),
        )
    }
}

/// A file that was renamed keeps its checksum: when its hash is recorded
/// under another name and its own name is not recorded, the check passes
/// and the file is kept for rewriting under its new name.
pub proof fn lemma_renamed_file_passes(entries: Seq<FileInfo>, f: FileInfo, k: int)
    requires
        f.metadata is Some,
        0 <= k < entries.len(),
        entries[k].metadata is Some,
        same_hash_value(entries[k].metadata->0.hash_value, f.metadata->0.hash_value),
        forall|i: int| 0 <= i < entries.len() ==> !same_path(#[trigger] entries[i].path@, f.path@),
    ensures
        outcome_of(entries, f) == Outcome::Renamed,
        outcome_code(outcome_of(entries, f)) == DANO_CLEAN_EXIT_CODE,
{
    assert(has_recorded_hash(entries, f)) by {
        assert(entries[k].metadata is Some);
    }
}

/// A check fails exactly when the file is missing or its recorded name
/// has another hash.
pub open spec fn check_failed(entries: Seq<FileInfo>, f: FileInfo) -> bool {
    outcome_of(entries, f) == Outcome::Missing || outcome_of(entries, f) == Outcome::Changed
}

/// The exit code of a run of checks is not clean exactly when some check
/// failed, and then it is the code of the last failed check.
pub proof fn lemma_exit_code_reports_failure(entries: Seq<FileInfo>, items: Seq<FileInfo>)
    ensures
        (exit_code_of(entries, items) != DANO_CLEAN_EXIT_CODE) <==> exists|k: int|
            0 <= k < items.len() && check_failed(entries, #[trigger] items[k]),
        exit_code_of(entries, items) == DANO_CLEAN_EXIT_CODE || exit_code_of(entries, items)
            == DANO_DISORDER_EXIT_CODE || exit_code_of(entries, items) == DANO_HASH_MISMATCH_EXIT_CODE,
    decreases items.len(),
{
    if items.len() > 0 {
        let init = items.drop_last();
        lemma_exit_code_reports_failure(entries, init);
        if exists|k: int| 0 <= k < items.len() && check_failed(entries, #[trigger] items[k]) {
            let k = choose|k: int| 0 <= k < items.len() && check_failed(entries, #[trigger] items[k]);
            if k < items.len() - 1 {
                assert(init[k] == items[k]);
            }
        }
        if exists|k: int| 0 <= k < init.len() && check_failed(entries, #[trigger] init[k]) {
            let k = choose|k: int| 0 <= k < init.len() && check_failed(entries, #[trigger] init[k]);
            assert(items[k] == init[k]);
        }
    }
}

/// A file whose name is recorded with its hash passes its test: what was
/// recorded for a file is confirmed while the file's streams are unchanged.
pub proof fn lemma_recorded_file_passes(entries: Seq<FileInfo>, f: FileInfo, k: int)
    requires
        f.metadata is Some,
        0 <= k < entries.len(),
        entries[k].metadata is Some,
        same_path(entries[k].path@, f.path@),
        same_hash_value(entries[k].metadata->0.hash_value, f.metadata->0.hash_value),
    ensures
        outcome_of(entries, f) == Outcome::Unchanged,
        outcome_code(outcome_of(entries, f)) == DANO_CLEAN_EXIT_CODE,
        !check_failed(entries, f),
{
    assert(has_recorded_path(entries, f.path@));
    assert(has_recorded_hash(entries, f)) by {
        assert(entries[k].metadata is Some);
    }
}

/// A file whose name is recorded, but whose hash is recorded for no file,
/// fails its test.
pub proof fn lemma_changed_file_fails(entries: Seq<FileInfo>, f: FileInfo, k: int)
    requires
        f.metadata is Some,
        0 <= k < entries.len(),
        same_path(entries[k].path@, f.path@),
        forall|i: int|
            0 <= i < entries.len() && (#[trigger] entries[i]).metadata is Some ==> !same_hash_value(
                entries[i].metadata->0.hash_value,
                f.metadata->0.hash_value,
            ),
    ensures
        outcome_of(entries, f) == Outcome::Changed,
        outcome_code(outcome_of(entries, f)) != DANO_CLEAN_EXIT_CODE,
        check_failed(entries, f),
{
    assert(has_recorded_path(entries, f.path@));
}

/// A file whose checksum could not be computed fails its test.
pub proof fn lemma_missing_file_fails(entries: Seq<FileInfo>, f: FileInfo)
    requires
        f.metadata is None,
    ensures
        outcome_of(entries, f) == Outcome::Missing,
        outcome_code(outcome_of(entries, f)) != DANO_CLEAN_EXIT_CODE,
        check_failed(entries, f),
{
}

/// A missing file exits with the disorder code 2 and a changed hash with
/// code 3; every other outcome passes with 0.
pub proof fn lemma_outcome_codes(o: Outcome)
    ensures
        outcome_code(o) == (match o {
            Outcome::Missing => 2i32,
            Outcome::Changed => 3i32,
            _ => 0i32,
        }),
{
}

} // verus!
