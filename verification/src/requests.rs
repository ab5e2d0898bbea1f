//! Requests for file information: which files to hash, and with which
//! settings.
use vstd::prelude::*;

use crate::config::SelectedStreams;
use crate::ingest::RecordedFileInfo;
use crate::lookup::FileInfo;
use crate::order::{lemma_lex_order_basics, lemma_lex_order_transitive, lex_compare, lex_lt};
use crate::paths::{path_key, path_key_of, same_path};
use crate::process::has_recorded_path;
use crate::sorting::strictly_sorted_by_path;

verus! {

/// A request for the file information of one path.  Settings that are not
/// given are taken from the configuration.
#[derive(Debug)]
pub struct FileInfoRequest {
    pub path: String,
    pub hash_algo: Option<String>,
    pub decoded: Option<bool>,
    pub selected_streams: Option<SelectedStreams>,
    pub bits_per_second: Option<u32>,
}

impl Clone for FileInfoRequest {
    fn clone(&self) -> (r: Self)
        ensures
            r == *self,
    {
        FileInfoRequest {
            path: self.path.clone(),
            hash_algo: match &self.hash_algo {
                Some(a) => Some(a.clone()),
                None => None,
            },
            decoded: self.decoded,
            selected_streams: match &self.selected_streams {
                Some(s) => Some(s.clone()),
                None => None,
            },
            bits_per_second: self.bits_per_second,
        }
    }
}

/// A request for a path with no recorded settings.
pub open spec fn new_request(p: String) -> FileInfoRequest {
    FileInfoRequest {
        path: p,
        hash_algo: None,
        decoded: None,
        selected_streams: None,
        bits_per_second: None,
    }
}

/// The request for a recorded file: hashed again with the settings it was
/// recorded with, when it has them.
pub open spec fn request_of(f: FileInfo) -> FileInfoRequest {
    match f.metadata {
        Some(m) => FileInfoRequest {
            path: f.path,
            hash_algo: Some(m.hash_algo),
            decoded: Some(m.decoded),
            selected_streams: Some(m.selected_streams),
            bits_per_second: m.opt_bits_per_second,
        },
        None => new_request(f.path),
    }
}

/// The comparison key of a request's path.
pub open spec fn request_key(q: FileInfoRequest) -> Seq<u32> {
    path_key(q.path@)
}

/// Requests ordered by path, no path twice.
pub open spec fn requests_strictly_sorted(s: Seq<FileInfoRequest>) -> bool {
    forall|i: int, j: int|
        0 <= i < j < s.len() ==> lex_lt(request_key(#[trigger] s[i]), request_key(#[trigger] s[j]))
}

/// No path among `paths[k+1..upto]` is the path `paths[k]`.
pub open spec fn last_of_its_path(paths: Seq<String>, k: int, upto: int) -> bool {
    forall|m: int| k < m < upto ==> !same_path(#[trigger] paths[m]@, paths[k]@)
}

/// A request that merging the recorded files with the first `upto` given
/// paths yields: that of a recorded file, or a new request for the last
/// given spelling of a path that is not recorded.
pub open spec fn is_merged_request(
    recorded: Seq<FileInfo>,
    paths: Seq<String>,
    upto: int,
    q: FileInfoRequest,
) -> bool {
    ||| exists|a: int| 0 <= a < recorded.len() && q == request_of(#[trigger] recorded[a])
    ||| exists|k: int|
        0 <= k < upto && q == new_request(#[trigger] paths[k]) && !has_recorded_path(
            recorded,
            paths[k]@,
        ) && last_of_its_path(paths, k, upto)
}

/// The request for a recorded file (see `request_of`).
fn from_recorded_request(f: &FileInfo) -> (r: FileInfoRequest)
    ensures
        r == request_of(*f),
        r.path == f.path,
        f.metadata matches Some(m) ==> r.hash_algo == Some(m.hash_algo) && r.decoded == Some(
            m.decoded,
        ) && r.selected_streams == Some(m.selected_streams) && r.bits_per_second
            == m.opt_bits_per_second,
{
    match &f.metadata {
        Some(m) => FileInfoRequest {
            path: f.path.clone(),
            hash_algo: Some(m.hash_algo.clone()),
            decoded: Some(m.decoded),
            selected_streams: Some(m.selected_streams.clone()),
            bits_per_second: m.opt_bits_per_second,
        },
        None => as_new_request(&f.path),
    }
}

/// A request with no recorded settings (see `new_request`).
fn as_new_request(p: &String) -> (r: FileInfoRequest)
    ensures
        r == new_request(*p),
{
    FileInfoRequest {
        path: p.clone(),
        hash_algo: None,
        decoded: None,
        selected_streams: None,
        bits_per_second: None,
    }
}

/// The requests of a bundle.
pub struct RequestBundle {
    inner: Vec<FileInfoRequest>,
}

impl RequestBundle {
    /// The requests.
    pub closed spec fn requests(self) -> Seq<FileInfoRequest> {
        self.inner@
    }

    /// The requests, ordered by path.
    pub fn into_inner(self) -> (r: Vec<FileInfoRequest>)
        ensures
            r@ == self.requests(),
    {
        self.inner
    }

    /// A bundle of the given requests.
    pub fn from_requests(v: Vec<FileInfoRequest>) -> (r: RequestBundle)
        ensures
            r.requests() == v@,
    {
        RequestBundle { inner: v }
    }

    /// The requests for the recorded files and the given paths, one per path,
    /// ordered by path.  A recorded file is hashed again with its recorded
    /// settings; a path that is not recorded gets a new request, for the last
    /// of its spellings among the given paths.
    #[verifier::rlimit(40)]
    pub fn new(paths: &Vec<String>, recorded: &RecordedFileInfo) -> (r: RequestBundle)
        ensures
            requests_strictly_sorted(r.requests()),
            forall|a: int|
                0 <= a < recorded.entries().len() ==> r.requests().contains(
                    request_of(#[trigger] recorded.entries()[a]),
                ),
            forall|k: int|
                0 <= k < paths@.len() && !has_recorded_path(recorded.entries(), paths@[k]@)
                    && last_of_its_path(paths@, k, paths@.len() as int) ==> r.requests().contains(
                    new_request(#[trigger] paths@[k]),
                ),
            forall|i: int|
                0 <= i < r.requests().len() ==> is_merged_request(
                    recorded.entries(),
                    paths@,
                    paths@.len() as int,
                    #[trigger] r.requests()[i],
                ),
    {
        let rec = recorded.as_slice();
        let ghost entries = rec@;
        let mut out: Vec<FileInfoRequest> = Vec::new();
        let mut keys: Vec<Vec<u32>> = Vec::new();
        let mut a: usize = 0;
        while a < rec.len()
            invariant
                rec@ == entries,
                strictly_sorted_by_path(entries),
                a <= entries.len(),
                out@.len() == a,
                keys@.len() == a,
                forall|i: int| 0 <= i < a ==> out@[i] == request_of(#[trigger] entries[i]),
                forall|i: int| 0 <= i < a ==> (#[trigger] keys@[i])@ == request_key(out@[i]),
            decreases entries.len() - a,
        {
            out.push(from_recorded_request(&rec[a]));
            keys.push(path_key_of(rec[a].path.as_str()));
            a = a + 1;
        }
        let mut origin: Vec<bool> = Vec::new();
        let mut i0: usize = 0;
        while i0 < out.len()
            invariant
                i0 <= out@.len(),
                origin@.len() == i0,
                forall|i: int| 0 <= i < i0 ==> origin@[i],
            decreases out@.len() - i0,
        {
            origin.push(true);
            i0 = i0 + 1;
        }
        proof {
            assert forall|x: int, y: int| 0 <= x < y < out@.len() implies lex_lt(
                request_key(#[trigger] out@[x]),
                request_key(#[trigger] out@[y]),
            ) by {
                assert(out@[x] == request_of(entries[x]) && out@[y] == request_of(entries[y]));
            }
            assert forall|x: int| 0 <= x < out@.len() implies (#[trigger] origin@[x])
                == has_recorded_path(entries, out@[x].path@) by {
                assert(out@[x] == request_of(entries[x]));
                assert(same_path(entries[x].path@, out@[x].path@));
            }
            assert forall|x: int| 0 <= x < entries.len() implies out@.contains(
                request_of(#[trigger] entries[x]),
            ) by {
                assert(out@[x] == request_of(entries[x]));
            }
            assert forall|x: int| 0 <= x < out@.len() implies is_merged_request(
                entries,
                paths@,
                0,
                #[trigger] out@[x],
            ) by {
                assert(out@[x] == request_of(entries[x]));
            }
        }
        let mut j: usize = 0;
        while j < paths.len()
            invariant
                rec@ == entries,
                entries == recorded.entries(),
                strictly_sorted_by_path(entries),
                j <= paths@.len(),
                out@.len() == keys@.len(),
                out@.len() == origin@.len(),
                forall|i: int| 0 <= i < keys@.len() ==> (#[trigger] keys@[i])@ == request_key(out@[i]),
                requests_strictly_sorted(out@),
                forall|x: int|
                    0 <= x < out@.len() ==> (#[trigger] origin@[x]) == has_recorded_path(
                        entries,
                        out@[x].path@,
                    ),
                forall|x: int|
                    0 <= x < entries.len() ==> out@.contains(request_of(#[trigger] entries[x])),
                forall|k: int|
                    0 <= k < j && !has_recorded_path(entries, paths@[k]@) && last_of_its_path(
                        paths@,
                        k,
                        j as int,
                    ) ==> out@.contains(new_request(#[trigger] paths@[k])),
                forall|x: int|
                    0 <= x < out@.len() ==> is_merged_request(
                        entries,
                        paths@,
                        j as int,
                        #[trigger] out@[x],
                    ),
            decreases paths@.len() - j,
        {
            let kp = path_key_of(paths[j].as_str());
            let mut idx: usize = 0;
            while idx < out.len() && lex_compare(&keys[idx], &kp) < 0
                invariant
                    idx <= out@.len(),
                    out@.len() == keys@.len(),
                    forall|i: int| 0 <= i < keys@.len() ==> (#[trigger] keys@[i])@ == request_key(out@[i]),
                    forall|i: int| 0 <= i < idx ==> lex_lt(request_key(#[trigger] out@[i]), kp@),
                decreases out@.len() - idx,
            {
                idx = idx + 1;
            }
            let found = idx < out.len() && lex_compare(&keys[idx], &kp) == 0;
            let ghost old_out = out@;
            let ghost old_origin = origin@;
            let ghost pj = paths@[j as int];
            proof {
                // entries from idx on have keys not below the new one
                assert forall|m: int| idx <= m < old_out.len() implies !lex_lt(
                    request_key(#[trigger] old_out[m]),
                    kp@,
                ) by {
                    lemma_lex_order_basics(request_key(old_out[idx as int]), kp@);
                    if m > idx {
                        lemma_lex_order_basics(request_key(old_out[m]), kp@);
                        lemma_lex_order_basics(kp@, request_key(old_out[idx as int]));
                        if lex_lt(request_key(old_out[m]), kp@) {
                            lemma_lex_order_transitive(
                                request_key(old_out[idx as int]),
                                request_key(old_out[m]),
                                kp@,
                            );
                        }
                    }
                }
                // the entry with the new path, if any, is at idx
                assert forall|m: int| 0 <= m < old_out.len() && m != idx implies !same_path(
                    (#[trigger] old_out[m]).path@,
                    pj@,
                ) by {
                    lemma_lex_order_basics(request_key(old_out[m]), kp@);
                    if m > idx && found {
                        assert(lex_lt(request_key(old_out[idx as int]), request_key(old_out[m])));
                    }
                }
                if found {
                    lemma_lex_order_basics(request_key(old_out[idx as int]), kp@);
                    assert(same_path(old_out[idx as int].path@, pj@));
                } else if idx < old_out.len() {
                    lemma_lex_order_basics(request_key(old_out[idx as int]), kp@);
                }
                // whether the new path is recorded
                assert(has_recorded_path(entries, pj@) ==> found) by {
                    if has_recorded_path(entries, pj@) {
                        let e = choose|e: int| 0 <= e < entries.len() && same_path(
                            #[trigger] entries[e].path@,
                            pj@,
                        );
                        assert(old_out.contains(request_of(entries[e])));
                        let m = choose|m: int| 0 <= m < old_out.len() && old_out[m] == request_of(entries[e]);
                        assert(same_path(old_out[m].path@, pj@));
                    }
                }
            }
            if found {
                if !origin[idx] {
                    let q = as_new_request(&paths[j]);
                    out.set(idx, q);
                    proof {
                        assert(!has_recorded_path(entries, pj@)) by {
                            assert(!old_origin[idx as int]);
                        }
                    }
                }
            } else {
                let q = as_new_request(&paths[j]);
                out.insert(idx, q);
                keys.insert(idx, kp);
                origin.insert(idx, false);
            }
            proof {
                let nq = new_request(pj);
                let n = out@.len();
                // the request for the new path is present
                assert(!has_recorded_path(entries, pj@) ==> out@.contains(nq)) by {
                    if !has_recorded_path(entries, pj@) {
                        if found {
                            assert(!old_origin[idx as int]);
                            assert(out@[idx as int] == nq);
                        } else {
                            assert(out@[idx as int] == nq);
                        }
                    }
                }
                // where each old entry is now
                assert forall|m: int| 0 <= m < old_out.len() && !(found && m == idx && !old_origin[m])
                    implies out@.contains(#[trigger] old_out[m]) by {
                    if found {
                        assert(out@[m] == old_out[m]);
                    } else if m < idx {
                        assert(out@[m] == old_out[m]);
                    } else {
                        assert(out@[m + 1] == old_out[m]);
                    }
                }
                if found {
                    assert forall|x: int| 0 <= x < n implies (#[trigger] keys@[x])@ == request_key(
                        out@[x],
                    ) by {}
                    assert forall|x: int, y: int| 0 <= x < y < n implies lex_lt(
                        request_key(#[trigger] out@[x]),
                        request_key(#[trigger] out@[y]),
                    ) by {
                        assert(request_key(out@[x]) == request_key(old_out[x]));
                        assert(request_key(out@[y]) == request_key(old_out[y]));
                    }
                    assert forall|x: int| 0 <= x < n implies (#[trigger] origin@[x]) == has_recorded_path(
                        entries,
                        out@[x].path@,
                    ) by {
                        assert(same_path(out@[x].path@, old_out[x].path@));
                    }
                } else {
                    assert forall|x: int| 0 <= x < n implies (#[trigger] keys@[x])@ == request_key(
                        out@[x],
                    ) by {
                        if x < idx {
                            assert(out@[x] == old_out[x]);
                        } else if x > idx {
                            assert(out@[x] == old_out[x - 1]);
                        }
                    }
                    assert forall|x: int, y: int| 0 <= x < y < n implies lex_lt(
                        request_key(#[trigger] out@[x]),
                        request_key(#[trigger] out@[y]),
                    ) by {
                        if y < idx {
                            assert(out@[x] == old_out[x] && out@[y] == old_out[y]);
                        } else if y == idx {
                            assert(out@[x] == old_out[x]);
                        } else if x == idx {
                            assert(out@[y] == old_out[y - 1]);
                            lemma_lex_order_basics(kp@, request_key(old_out[y - 1]));
                        } else if x < idx {
                            assert(out@[x] == old_out[x] && out@[y] == old_out[y - 1]);
                            lemma_lex_order_basics(kp@, request_key(old_out[y - 1]));
                            lemma_lex_order_transitive(
                                request_key(old_out[x]),
                                kp@,
                                request_key(old_out[y - 1]),
                            );
                        } else {
                            assert(out@[x] == old_out[x - 1] && out@[y] == old_out[y - 1]);
                        }
                    }
                    assert forall|x: int| 0 <= x < n implies (#[trigger] origin@[x]) == has_recorded_path(
                        entries,
                        out@[x].path@,
                    ) by {
                        if x < idx {
                            assert(out@[x] == old_out[x]);
                        } else if x > idx {
                            assert(out@[x] == old_out[x - 1]);
                        }
                    }
                }
                // recorded requests stay
                assert forall|x: int| 0 <= x < entries.len() implies out@.contains(
                    request_of(#[trigger] entries[x]),
                ) by {
                    let y = request_of(entries[x]);
                    let m = choose|m: int| 0 <= m < old_out.len() && old_out[m] == y;
                    assert(same_path(entries[x].path@, y.path@));
                    assert(old_origin[m]);
                }
                // new requests for paths whose spelling is the last
                assert forall|k: int|
                    0 <= k < j + 1 && !has_recorded_path(entries, paths@[k]@) && last_of_its_path(
                        paths@,
                        k,
                        j + 1,
                    ) implies out@.contains(new_request(#[trigger] paths@[k])) by {
                    if k < j {
                        assert(last_of_its_path(paths@, k, j as int));
                        assert(!same_path(paths@[j as int]@, paths@[k]@));
                        let y = new_request(paths@[k]);
                        let m = choose|m: int| 0 <= m < old_out.len() && old_out[m] == y;
                        if found && m == idx {
                            assert(same_path(old_out[m].path@, pj@));
                        }
                    }
                }
                // every entry is a merged request
                assert forall|x: int| 0 <= x < n implies is_merged_request(
                    entries,
                    paths@,
                    j + 1,
                    #[trigger] out@[x],
                ) by {
                    let q = out@[x];
                    if q == nq && !has_recorded_path(entries, pj@) {
                        assert(q == new_request(paths@[j as int]));
                    } else {
                        let m = if found {
                            x
                        } else if x < idx {
                            x
                        } else {
                            x - 1
                        };
                        assert(q == old_out[m]);
                        assert(is_merged_request(entries, paths@, j as int, old_out[m]));
                        if !(exists|a: int| 0 <= a < entries.len() && q == request_of(
                            #[trigger] entries[a],
                        )) {
                            let k = choose|k: int|
                                0 <= k < j && q == new_request(#[trigger] paths@[k])
                                    && !has_recorded_path(entries, paths@[k]@) && last_of_its_path(
                                    paths@,
                                    k,
                                    j as int,
                                );
                            assert(!same_path(paths@[j as int]@, paths@[k]@)) by {
                                if same_path(paths@[j as int]@, paths@[k]@) {
                                    assert(same_path(old_out[m].path@, pj@));
                                    assert(m == idx);
                                    assert(!old_origin[m]);
                                }
                            }
                            assert(last_of_its_path(paths@, k, j + 1));
                        }
                    }
                }
            }
            j = j + 1;
        }
        RequestBundle { inner: out }
    }
}

/// Write mode leaves files that already have a recorded hash alone: the
/// request for a recorded file with metadata names its hash algorithm, and
/// write mode only looks up requests that name none.
pub proof fn lemma_recorded_requests_name_algo(f: FileInfo, p: String)
    ensures
        f.metadata is Some ==> request_of(f).hash_algo is Some,
        new_request(p).hash_algo is None,
{
}

/// A recorded file is hashed again with exactly the settings it was
/// recorded with: the request for it names its path, hash algorithm,
/// decoding, stream selection and sample size; a recorded file without
/// metadata gets a request with none of them, so the configuration decides.
pub proof fn lemma_recorded_request_settings(f: FileInfo)
    ensures
        request_of(f).path == f.path,
        f.metadata matches Some(m) ==> request_of(f).hash_algo == Some(m.hash_algo)
            && request_of(f).decoded == Some(m.decoded) && request_of(f).selected_streams
            == Some(m.selected_streams) && request_of(f).bits_per_second == m.opt_bits_per_second,
        f.metadata is None ==> request_of(f).hash_algo is None && request_of(f).decoded is None
            && request_of(f).selected_streams is None && request_of(f).bits_per_second is None,
{
}

} // verus!
