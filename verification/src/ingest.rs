//! Recorded file information: what dano read back from extended attributes
//! and from the hash file, one entry per path, ordered by path.
use vstd::prelude::*;

use crate::config::ExecMode;
use crate::lookup::FileInfo;
use crate::paths::{lemma_only_empty_path_is_empty, path_key, paths_equal, same_path};
use crate::lookup::same_hash_value;
use crate::process::{lemma_recorded_file_passes, outcome_of, Outcome};
use crate::sorting::{covers_paths, drawn_from, info_key, sort_dedup_by_path, strictly_sorted_by_path};
use crate::config::notice_texts;
use crate::paths::{path_debug, path_debug_text};
use crate::utility::{DanoError, Notice, Stream};
use vstd::string::StringExecFns;

verus! {

/// Recorded file information, ordered by path, at most one entry per path.
pub struct RecordedFileInfo {
    inner: Vec<FileInfo>,
}

impl RecordedFileInfo {
    #[verifier::type_invariant]
    spec fn ordered(self) -> bool {
        strictly_sorted_by_path(self.inner@)
    }

    /// The entries.
    pub closed spec fn entries(self) -> Seq<FileInfo> {
        self.inner@
    }

    /// No recorded file information.
    pub fn empty() -> (r: RecordedFileInfo)
        ensures
            r.entries() == Seq::<FileInfo>::empty(),
    {
        RecordedFileInfo { inner: Vec::new() }
    }

    /// Gathers file information read back from extended attributes and from
    /// the hash file.  Entries are sorted by path and one entry of each path
    /// is kept.  In test mode with nothing to write, no recorded entry is an
    /// error.
    pub fn new(exec_mode: &ExecMode, gathered: Vec<FileInfo>) -> (r: Result<
        RecordedFileInfo,
        DanoError,
    >)
        ensures
            (match exec_mode {
                ExecMode::Test(t) => gathered@.len() == 0 && !t.opt_overwrite_old
                    && !t.opt_write_new,
                _ => false,
            }) <==> r is Err,
            r matches Err(e) ==> e.details@ == "No valid hashes to test.  Quitting."@,
            r matches Ok(rec) ==> {
                &&& strictly_sorted_by_path(rec.entries())
                &&& drawn_from(rec.entries(), gathered@)
                &&& covers_paths(rec.entries(), gathered@)
            },
    {
        if let ExecMode::Test(t) = exec_mode {
            if gathered.len() == 0 && !t.opt_overwrite_old && !t.opt_write_new {
                return Err(DanoError::new("No valid hashes to test.  Quitting."));
            }
        }
        let inner = sort_dedup_by_path(gathered);
        Ok(RecordedFileInfo { inner })
    }

    /// The number of entries.
    pub fn len(&self) -> (r: usize)
        ensures
            r == self.entries().len(),
    {
        self.inner.len()
    }

    /// There are no entries.
    pub fn is_empty(&self) -> (r: bool)
        ensures
            r == (self.entries().len() == 0),
    {
        self.inner.len() == 0
    }

    /// The entries, ordered by path.
    pub fn as_slice(&self) -> (r: &[FileInfo])
        ensures
            r@ == self.entries(),
            strictly_sorted_by_path(r@),
    {
        proof {
            use_type_invariant(self);
        }
        self.inner.as_slice()
    }

    /// The entries, ordered by path.
    pub fn into_inner(self) -> (r: Vec<FileInfo>)
        ensures
            r@ == self.entries(),
            strictly_sorted_by_path(r@),
    {
        proof {
            use_type_invariant(&self);
        }
        self.inner
    }
}

/// File information read from a path's extended attribute names the path
/// it was written for; dano always uses the path it was read from.
pub fn with_actual_path(path: &str, file_info: FileInfo) -> (r: FileInfo)
    ensures
        r.version == file_info.version,
        r.metadata == file_info.metadata,
        r.path@ == (if same_path(path@, file_info.path@) {
            file_info.path@
        } else {
            path@
        }),
{
    if !paths_equal(path, &file_info.path) {
        FileInfo { version: file_info.version, path: path.to_owned(), metadata: file_info.metadata }
    } else {
        file_info
    }
}

/// The warning for a path whose extended attributes hold no file
/// information.
pub open spec fn no_xattr_text(path: Seq<char>) -> Seq<char> {
    "WARN: No dano extended attribute exists for path: "@ + path_debug_text(path) + "\n"@
}

/// The file information read from the paths' extended attributes, each with
/// the path it was read from (see `with_actual_path`).
pub open spec fn from_xattrs_ok(paths: Seq<String>, read: Seq<Option<FileInfo>>, out: Seq<FileInfo>) -> bool
    decreases paths.len(),
{
    if paths.len() == 0 {
        out.len() == 0
    } else {
        match read.last() {
            Some(f) => out.len() > 0 && from_xattrs_ok(paths.drop_last(), read.drop_last(), out.drop_last())
                && out.last().version == f.version && out.last().metadata == f.metadata
                && out.last().path@ == (if same_path(paths.last()@, f.path@) {
                    f.path@
                } else {
                    paths.last()@
                }),
            None => from_xattrs_ok(paths.drop_last(), read.drop_last(), out),
        }
    }
}

/// The warnings for the paths whose extended attributes hold no file
/// information, in order.
pub open spec fn no_xattr_texts(paths: Seq<String>, read: Seq<Option<FileInfo>>) -> Seq<Seq<char>>
    decreases paths.len(),
{
    if paths.len() == 0 {
        Seq::<Seq<char>>::empty()
    } else {
        let r = no_xattr_texts(paths.drop_last(), read.drop_last());
        if read.last() is None {
            r.push(no_xattr_text(paths.last()@))
        } else {
            r
        }
    }
}

impl RecordedFileInfo {
    /// The file information recorded for the input paths: what their
    /// extended attributes hold (`read`, one entry per path, none where there
    /// is nothing or it could not be read), each with the path it was read
    /// from, followed by what the hash file holds.  A warning on standard
    /// error for each path without file information.
    pub fn from_recorded(
        paths: &Vec<String>,
        read: &Vec<Option<FileInfo>>,
        from_file: Vec<FileInfo>,
    ) -> (r: (Vec<FileInfo>, Vec<Notice>))
        requires
            read@.len() == paths@.len(),
        ensures
            exists|x: Seq<FileInfo>| from_xattrs_ok(paths@, read@, x) && r.0@ == x + from_file@,
            notice_texts(r.1@) == no_xattr_texts(paths@, read@),
            forall|i: int| 0 <= i < r.1@.len() ==> (#[trigger] r.1@[i]).stream == Stream::Stderr,
    {
        let mut out: Vec<FileInfo> = Vec::new();
        let mut notices: Vec<Notice> = Vec::new();
        let ghost all_read = read@;
        let mut i: usize = 0;
        assert(paths@.take(0) =~= Seq::<String>::empty());
        while i < paths.len()
            invariant
                i <= paths@.len(),
                all_read.len() == paths@.len(),
                read@ == all_read,
                from_xattrs_ok(paths@.take(i as int), all_read.take(i as int), out@),
                notice_texts(notices@) == no_xattr_texts(paths@.take(i as int), all_read.take(i as int)),
                forall|k: int| 0 <= k < notices@.len() ==> (#[trigger] notices@[k]).stream == Stream::Stderr,
            decreases paths@.len() - i,
        {
            let ghost pt = paths@.take(i + 1);
            let ghost rt = all_read.take(i + 1);
            assert(pt.drop_last() =~= paths@.take(i as int));
            assert(rt.drop_last() =~= all_read.take(i as int));
            assert(pt.last() == paths@[i as int]);
            assert(rt.last() == all_read[i as int]);
            match &read[i] {
                Some(f) => {
                    let ghost before = out@;
                    let g = with_actual_path(paths[i].as_str(), f.clone());
                    out.push(g);
                    assert(out@.drop_last() =~= before);
                },
                None => {
                    let mut text = String::from_str("WARN: No dano extended attribute exists for path: ");
                    let d = path_debug(paths[i].as_str());
                    text.append(d.as_str());
                    text.append("\n");
                    let ghost nb = notices@;
                    notices.push(Notice { stream: Stream::Stderr, text });
                    assert(notice_texts(notices@) =~= notice_texts(nb).push(no_xattr_text(paths@[i as int]@)));
                },
            }
            i = i + 1;
        }
        assert(paths@.take(paths@.len() as int) =~= paths@);
        assert(all_read.take(paths@.len() as int) =~= all_read);
        let ghost x = out@;
        let mut rest = from_file;
        out.append(&mut rest);
        (out, notices)
    }
}

/// Every gathered entry whose path is that of `f` has metadata with the
/// hash of `f`.
pub open spec fn path_has_one_hash(gathered: Seq<FileInfo>, f: FileInfo) -> bool {
    forall|i: int|
        0 <= i < gathered.len() && info_key(#[trigger] gathered[i]) == info_key(f)
            ==> gathered[i].metadata is Some && same_hash_value(
            gathered[i].metadata->0.hash_value,
            f.metadata->0.hash_value,
        )
}

proof fn lemma_kept_entry_for(gathered: Seq<FileInfo>, kept: Seq<FileInfo>, f: FileInfo) -> (j: int)
    requires
        drawn_from(kept, gathered),
        covers_paths(kept, gathered),
        gathered.contains(f),
        path_has_one_hash(gathered, f),
    ensures
        0 <= j < kept.len(),
        kept[j].metadata is Some,
        info_key(kept[j]) == info_key(f),
        same_hash_value(kept[j].metadata->0.hash_value, f.metadata->0.hash_value),
{
    let i = choose|i: int| 0 <= i < gathered.len() && gathered[i] == f;
    assert(info_key(gathered[i]) == info_key(f));
    let j = choose|j: int| 0 <= j < kept.len() && info_key(gathered[i]) == info_key(kept[j]);
    assert(gathered.contains(kept[j]));
    let m = choose|m: int| 0 <= m < gathered.len() && gathered[m] == kept[j];
    assert(info_key(gathered[m]) == info_key(f));
    j
}

/// What is recorded for a file is confirmed by a test after the recorded
/// file information is gathered (see `RecordedFileInfo::new`): where every
/// gathered entry for the file's path has its hash, a fresh lookup of the
/// file with that hash passes, whichever entry of the path was kept.
pub proof fn lemma_gathered_file_passes(
    gathered: Seq<FileInfo>,
    kept: Seq<FileInfo>,
    f: FileInfo,
    fresh: FileInfo,
)
    requires
        drawn_from(kept, gathered),
        covers_paths(kept, gathered),
        gathered.contains(f),
        f.metadata is Some,
        path_has_one_hash(gathered, f),
        fresh.metadata is Some,
        same_path(fresh.path@, f.path@),
        same_hash_value(fresh.metadata->0.hash_value, f.metadata->0.hash_value),
    ensures
        outcome_of(kept, fresh) == Outcome::Unchanged,
{
    let j = lemma_kept_entry_for(gathered, kept, f);
    lemma_recorded_file_passes(kept, fresh, j);
}

/// File information written to a file's extended attributes without its
/// path (see `output::xattr_record`) and read back with the other recorded
/// file information (see `RecordedFileInfo::from_recorded`) names the path
/// it was read from, with the version and metadata written.
pub proof fn lemma_xattr_round_trip(
    paths: Seq<String>,
    read: Seq<Option<FileInfo>>,
    out: Seq<FileInfo>,
    i: int,
)
    requires
        read.len() == paths.len(),
        from_xattrs_ok(paths, read, out),
        0 <= i < paths.len(),
        read[i] is Some,
        read[i]->0.path@.len() == 0,
    ensures
        exists|j: int|
            0 <= j < out.len() && out[j].path@ == paths[i]@ && out[j].version == read[i]->0.version
                && out[j].metadata == read[i]->0.metadata,
    decreases paths.len(),
{
    let n = paths.len();
    if i == n - 1 {
        let f = read.last()->0;
        lemma_only_empty_path_is_empty(paths.last()@);
        if same_path(paths.last()@, f.path@) {
            assert(paths.last()@ =~= f.path@);
        }
        assert(out[out.len() - 1].path@ == paths[i]@);
    } else {
        let pd = paths.drop_last();
        let rd = read.drop_last();
        assert(rd[i] == read[i]);
        assert(pd[i] == paths[i]);
        match read.last() {
            Some(f) => {
                let od = out.drop_last();
                lemma_xattr_round_trip(pd, rd, od, i);
                let j = choose|j: int|
                    0 <= j < od.len() && od[j].path@ == pd[i]@ && od[j].version == rd[i]->0.version
                        && od[j].metadata == rd[i]->0.metadata;
                assert(out[j] == od[j]);
            },
            None => {
                lemma_xattr_round_trip(pd, rd, out, i);
            },
        }
    }
}

/// Writing file information `f` to a file's extended attribute and reading
/// it back gives it back under the file's own path: the record written
/// holds `f`'s version and metadata and no path (see `output::xattr_record`),
/// and what `RecordedFileInfo::from_recorded` gathers from the paths' extended
/// attributes (`read`) and the hash file (`from_file`) holds `f`'s version and
/// metadata under the path the record was read from.
pub proof fn lemma_xattr_write_read_back(
    f: FileInfo,
    paths: Seq<String>,
    read: Seq<Option<FileInfo>>,
    from_file: Seq<FileInfo>,
    gathered: Seq<FileInfo>,
    i: int,
)
    requires
        read.len() == paths.len(),
        0 <= i < paths.len(),
        read[i] matches Some(g) && g.version == f.version && g.path@.len() == 0 && g.metadata
            == f.metadata,
        exists|x: Seq<FileInfo>| from_xattrs_ok(paths, read, x) && gathered == x + from_file,
    ensures
        exists|j: int|
            0 <= j < gathered.len() && gathered[j].path@ == paths[i]@ && gathered[j].version
                == f.version && gathered[j].metadata == f.metadata,
{
    let x = choose|x: Seq<FileInfo>| from_xattrs_ok(paths, read, x) && gathered == x + from_file;
    lemma_xattr_round_trip(paths, read, x, i);
    let j = choose|j: int|
        0 <= j < x.len() && x[j].path@ == paths[i]@ && x[j].version == read[i]->0.version
            && x[j].metadata == read[i]->0.metadata;
    assert(gathered[j] == x[j]);
}

} // verus!
