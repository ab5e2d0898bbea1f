//! Decisions of the execution modes that print recorded file information.
use vstd::prelude::*;

use vstd::string::StringExecFns;

use crate::config::{notice_texts, Config, ExecMode, WriteModeConfig};
use crate::ingest::RecordedFileInfo;
use crate::lookup::FileInfo;
use crate::paths::{path_debug, path_debug_text};
use crate::output::{action_texts, bundle_files, WritePlan, WriteTarget, WriteableFileInfo};
use crate::process::{ProcessedFiles, RemainderBundle, DANO_CLEAN_EXIT_CODE, DANO_DISORDER_EXIT_CODE, DANO_ERROR_EXIT_CODE};
use crate::requests::FileInfoRequest;
use crate::text::{contains_str, has_substring};
use crate::utility::{file_info_stream, file_info_text, no_metadata_text, print_file_info, DanoError, Notice, Stream};
use crate::order::{lemma_lex_order_basics, lemma_lex_order_transitive, lex_compare, lex_le, lex_lt};
use crate::text::{code_units, units};

verus! {

broadcast use vstd::seq_lib::group_filter_ensures;

/// The code points of a file information's hash digits.
pub open spec fn value_units(f: FileInfo) -> Seq<u32> {
    units(f.metadata->0.hash_value.value@)
}

/// The file information has metadata whose hash digits are `v`.
pub open spec fn has_value_units(f: FileInfo, v: Seq<u32>) -> bool {
    f.metadata is Some && value_units(f) == v
}

/// The items whose hash digits are `v`, in order.
pub open spec fn with_value(items: Seq<FileInfo>, v: Seq<u32>) -> Seq<FileInfo> {
    items.filter(|f: FileInfo| has_value_units(f, v))
}

/// The items whose hash digits are `v`, when there are at least two of them.
pub open spec fn duplicate_group(items: Seq<FileInfo>, v: Seq<u32>) -> Seq<FileInfo> {
    if with_value(items, v).len() >= 2 {
        with_value(items, v)
    } else {
        Seq::empty()
    }
}

proof fn lemma_filter_all<A>(s: Seq<A>, p: spec_fn(A) -> bool)
    requires
        forall|i: int| 0 <= i < s.len() ==> p(#[trigger] s[i]),
    ensures
        s.filter(p) == s,
    decreases s.len(),
{
    if s.len() > 0 {
        lemma_filter_all(s.drop_last(), p);
        s.drop_last().lemma_filter_push(s.last(), p);
        assert(s.drop_last().push(s.last()) =~= s);
    } else {
        assert(s.filter(p) =~= s);
    }
}

proof fn lemma_filter_none<A>(s: Seq<A>, p: spec_fn(A) -> bool)
    requires
        forall|i: int| 0 <= i < s.len() ==> !p(#[trigger] s[i]),
    ensures
        s.filter(p) == Seq::<A>::empty(),
    decreases s.len(),
{
    if s.len() > 0 {
        lemma_filter_none(s.drop_last(), p);
        s.drop_last().lemma_filter_push(s.last(), p);
        assert(s.drop_last().push(s.last()) =~= s);
    } else {
        assert(s.filter(p) =~= Seq::<A>::empty());
    }
}

/// The items with duplicate hash digits, as duplicates mode shows them:
/// grouped by hash digits, the groups in the order of the digits, each
/// group in the order of `items`, only groups of at least two.
pub fn find_duplicates(items: &[FileInfo]) -> (r: Vec<FileInfo>)
    ensures
        forall|i: int| 0 <= i < r@.len() ==> (#[trigger] r@[i]).metadata is Some,
        forall|i: int, j: int|
            0 <= i < j < r@.len() ==> lex_le(value_units(#[trigger] r@[i]), value_units(#[trigger] r@[j])),
        forall|v: Seq<u32>| #[trigger] with_value(r@, v) == duplicate_group(items@, v),
{
    // the distinct hash digits, in order
    let mut dvals: Vec<Vec<u32>> = Vec::new();
    let mut n: usize = 0;
    while n < items.len()
        invariant
            n <= items@.len(),
            forall|a: int, b: int|
                0 <= a < b < dvals@.len() ==> lex_lt((#[trigger] dvals@[a])@, (#[trigger] dvals@[b])@),
            forall|k: int|
                0 <= k < n && (#[trigger] items@[k]).metadata is Some ==> exists|a: int|
                    0 <= a < dvals@.len() && dvals@[a]@ == value_units(items@[k]),
            forall|a: int|
                0 <= a < dvals@.len() ==> exists|k: int|
                    0 <= k < items@.len() && has_value_units(
                        #[trigger] items@[k],
                        (#[trigger] dvals@[a])@,
                    ),
        decreases items@.len() - n,
    {
        match &items[n].metadata {
            None => {},
            Some(m) => {
                let v = code_units(m.hash_value.value.as_str());
                let mut idx: usize = 0;
                while idx < dvals.len() && lex_compare(&dvals[idx], &v) < 0
                    invariant
                        idx <= dvals@.len(),
                        forall|a: int| 0 <= a < idx ==> lex_lt((#[trigger] dvals@[a])@, v@),
                    decreases dvals@.len() - idx,
                {
                    idx = idx + 1;
                }
                let present = idx < dvals.len() && lex_compare(&dvals[idx], &v) == 0;
                let ghost old_d = dvals@;
                proof {
                    assert(has_value_units(items@[n as int], v@));
                }
                if !present {
                    dvals.insert(idx, v);
                    proof {
                        assert forall|a: int, b: int| 0 <= a < b < dvals@.len() implies lex_lt(
                            (#[trigger] dvals@[a])@,
                            (#[trigger] dvals@[b])@,
                        ) by {
                            if b < idx {
                                assert(dvals@[a] == old_d[a] && dvals@[b] == old_d[b]);
                            } else if b == idx {
                                assert(dvals@[a] == old_d[a]);
                            } else if a == idx {
                                assert(dvals@[b] == old_d[b - 1]);
                                lemma_lex_order_basics(old_d[idx as int]@, v@);
                                if b - 1 > idx {
                                    lemma_lex_order_transitive(v@, old_d[idx as int]@, old_d[b - 1]@);
                                }
                            } else if a < idx {
                                assert(dvals@[a] == old_d[a] && dvals@[b] == old_d[b - 1]);
                                lemma_lex_order_basics(old_d[idx as int]@, v@);
                                if b - 1 > idx {
                                    lemma_lex_order_transitive(v@, old_d[idx as int]@, old_d[b - 1]@);
                                }
                                lemma_lex_order_transitive(old_d[a]@, v@, old_d[b - 1]@);
                            } else {
                                assert(dvals@[a] == old_d[a - 1] && dvals@[b] == old_d[b - 1]);
                            }
                        }
                        assert forall|k: int|
                            0 <= k < n + 1 && (#[trigger] items@[k]).metadata is Some implies exists|a: int|
                            0 <= a < dvals@.len() && dvals@[a]@ == value_units(items@[k]) by {
                            if k == n {
                                assert(dvals@[idx as int]@ == v@);
                            } else {
                                let a = choose|a: int|
                                    0 <= a < old_d.len() && old_d[a]@ == value_units(items@[k]);
                                if a < idx {
                                    assert(dvals@[a] == old_d[a]);
                                } else {
                                    assert(dvals@[a + 1] == old_d[a]);
                                }
                            }
                        }
                        assert forall|a: int| 0 <= a < dvals@.len() implies exists|k: int|
                            0 <= k < items@.len() && has_value_units(
                                #[trigger] items@[k],
                                (#[trigger] dvals@[a])@,
                            ) by {
                            if a < idx {
                                assert(dvals@[a] == old_d[a]);
                            } else if a == idx {
                                assert(has_value_units(items@[n as int], dvals@[a]@));
                            } else {
                                assert(dvals@[a] == old_d[a - 1]);
                            }
                        }
                    }
                } else {
                    proof {
                        lemma_lex_order_basics(old_d[idx as int]@, v@);
                        assert forall|k: int|
                            0 <= k < n + 1 && (#[trigger] items@[k]).metadata is Some implies exists|a: int|
                            0 <= a < dvals@.len() && dvals@[a]@ == value_units(items@[k]) by {
                            if k == n {
                                assert(dvals@[idx as int]@ == v@);
                            }
                        }
                    }
                }
            },
        }
        n = n + 1;
    }
    // collect the groups of at least two, in the order of their digits
    let mut r: Vec<FileInfo> = Vec::new();
    let mut t: usize = 0;
    while t < dvals.len()
        invariant
            t <= dvals@.len(),
            forall|a: int, b: int|
                0 <= a < b < dvals@.len() ==> lex_lt((#[trigger] dvals@[a])@, (#[trigger] dvals@[b])@),
            forall|k: int|
                0 <= k < items@.len() && (#[trigger] items@[k]).metadata is Some ==> exists|a: int|
                    0 <= a < dvals@.len() && dvals@[a]@ == value_units(items@[k]),
            forall|i: int| 0 <= i < r@.len() ==> (#[trigger] r@[i]).metadata is Some,
            forall|i: int, j: int|
                0 <= i < j < r@.len() ==> lex_le(value_units(#[trigger] r@[i]), value_units(#[trigger] r@[j])),
            forall|i: int| 0 <= i < r@.len() ==> exists|a: int| 0 <= a < t && value_units(#[trigger] r@[i]) == dvals@[a]@,
            forall|v: Seq<u32>|
                #[trigger] with_value(r@, v) == if exists|a: int| 0 <= a < t && dvals@[a]@ == v {
                    duplicate_group(items@, v)
                } else {
                    Seq::<FileInfo>::empty()
                },
        decreases dvals@.len() - t,
    {
        let d = &dvals[t];
        let ghost dv = d@;
        let mut g: Vec<FileInfo> = Vec::new();
        let mut k: usize = 0;
        while k < items.len()
            invariant
                k <= items@.len(),
                dv == d@,
                g@ == with_value(items@.take(k as int), dv),
            decreases items@.len() - k,
        {
            let ghost pre = items@.take(k as int);
            proof {
                assert(items@.take(k + 1) =~= pre.push(items@[k as int]));
                pre.lemma_filter_push(items@[k as int], |f: FileInfo| has_value_units(f, dv));
            }
            match &items[k].metadata {
                None => {},
                Some(m) => {
                    let v = code_units(m.hash_value.value.as_str());
                    if lex_compare(&v, d) == 0 {
                        proof {
                            lemma_lex_order_basics(v@, d@);
                        }
                        g.push(items[k].clone());
                    } else {
                        proof {
                            lemma_lex_order_basics(v@, d@);
                        }
                    }
                },
            }
            k = k + 1;
        }
        proof {
            assert(items@.take(items@.len() as int) =~= items@);
        }
        let ghost old_r = r@;
        let ghost gs = g@;
        proof {
            assert forall|i: int| 0 <= i < gs.len() implies has_value_units(#[trigger] gs[i], dv) by {
                assert(gs.contains(gs[i]));
            }
        }
        if g.len() >= 2 {
            r.append(&mut g);
            proof {
                assert(r@ == old_r + gs);
                assert forall|i: int| 0 <= i < r@.len() implies (#[trigger] r@[i]).metadata is Some by {
                    if i >= old_r.len() {
                        assert(r@[i] == gs[i - old_r.len()]);
                    }
                }
                assert forall|i: int, j: int| 0 <= i < j < r@.len() implies lex_le(
                    value_units(#[trigger] r@[i]),
                    value_units(#[trigger] r@[j]),
                ) by {
                    if j < old_r.len() {
                    } else if i >= old_r.len() {
                        assert(r@[i] == gs[i - old_r.len()] && r@[j] == gs[j - old_r.len()]);
                        lemma_lex_order_basics(dv, dv);
                    } else {
                        assert(r@[j] == gs[j - old_r.len()]);
                        let a = choose|a: int| 0 <= a < t && value_units(r@[i]) == dvals@[a]@;
                        assert(lex_lt(dvals@[a]@, dvals@[t as int]@));
                    }
                }
                assert forall|i: int| 0 <= i < r@.len() implies exists|a: int|
                    0 <= a < t + 1 && value_units(#[trigger] r@[i]) == dvals@[a]@ by {
                    if i >= old_r.len() {
                        assert(r@[i] == gs[i - old_r.len()]);
                        assert(value_units(r@[i]) == dvals@[t as int]@);
                    } else {
                        let a = choose|a: int| 0 <= a < t && value_units(old_r[i]) == dvals@[a]@;
                    }
                }
            }
        } else {
            proof {
                assert forall|i: int| 0 <= i < r@.len() implies exists|a: int|
                    0 <= a < t + 1 && value_units(#[trigger] r@[i]) == dvals@[a]@ by {
                    let a = choose|a: int| 0 <= a < t && value_units(old_r[i]) == dvals@[a]@;
                }
            }
        }
        proof {
            assert forall|v: Seq<u32>| #[trigger] with_value(r@, v) == if exists|a: int|
                0 <= a < t + 1 && dvals@[a]@ == v {
                duplicate_group(items@, v)
            } else {
                Seq::<FileInfo>::empty()
            } by {
                let p = |f: FileInfo| has_value_units(f, v);
                let before = exists|a: int| 0 <= a < t && dvals@[a]@ == v;
                assert(with_value(old_r, v) == if before {
                    duplicate_group(items@, v)
                } else {
                    Seq::<FileInfo>::empty()
                });
                if v == dv {
                    assert(!before) by {
                        if before {
                            let a = choose|a: int| 0 <= a < t && dvals@[a]@ == v;
                            assert(lex_lt(dvals@[a]@, dvals@[t as int]@));
                            lemma_lex_order_basics(dvals@[a]@, dvals@[t as int]@);
                        }
                    }
                    assert(exists|a: int| 0 <= a < t + 1 && dvals@[a]@ == v) by {
                        assert(dvals@[t as int]@ == v);
                    }
                    if gs.len() >= 2 {
                        lemma_filter_all(gs, p);
                        assert(r@ == old_r + gs);
                        assert(with_value(r@, v) == old_r.filter(p) + gs.filter(p));
                        assert(with_value(r@, v) =~= gs);
                    } else {
                        assert(with_value(r@, v) =~= Seq::<FileInfo>::empty());
                    }
                } else {
                    assert((exists|a: int| 0 <= a < t + 1 && dvals@[a]@ == v) == before) by {
                        if exists|a: int| 0 <= a < t + 1 && dvals@[a]@ == v {
                            let a = choose|a: int| 0 <= a < t + 1 && dvals@[a]@ == v;
                            assert(a < t);
                        }
                    }
                    if gs.len() >= 2 {
                        lemma_filter_none(gs, p);
                        assert(r@ == old_r + gs);
                        assert(with_value(r@, v) == old_r.filter(p) + gs.filter(p));
                        assert(with_value(r@, v) =~= with_value(old_r, v));
                    }
                }
            }
        }
        t = t + 1;
    }
    proof {
        assert forall|v: Seq<u32>| #[trigger] with_value(r@, v) == duplicate_group(items@, v) by {
            if !(exists|a: int| 0 <= a < dvals@.len() && dvals@[a]@ == v) {
                lemma_filter_none(items@, |f: FileInfo| has_value_units(f, v));
                assert(with_value(items@, v).len() == 0);
            }
        }
    }
    r
}

/// The line printed for file information that has metadata.
pub open spec fn item_text(f: FileInfo) -> Seq<char> {
    file_info_text(f.metadata->0.hash_algo@, f.metadata->0.hash_value.value@, f.path@)
}

/// The lines printed for file information, in order.
pub open spec fn item_texts(items: Seq<FileInfo>) -> Seq<Seq<char>> {
    items.map_values(|f: FileInfo| item_text(f))
}

/// Printing file information one item after the other, as far as the
/// first item without metadata, which ends it with an error.
pub open spec fn print_all_ok(
    mode: ExecMode,
    items: Seq<FileInfo>,
    notices: Seq<Notice>,
    r: Result<(), DanoError>,
) -> bool {
    &&& forall|i: int| 0 <= i < notices.len() ==> (#[trigger] notices[i]).stream == file_info_stream(mode)
    &&& match r {
        Ok(_) => (forall|k: int| 0 <= k < items.len() ==> (#[trigger] items[k]).metadata is Some)
            && notice_texts(notices) == item_texts(items),
        Err(e) => exists|k: int|
            0 <= k < items.len() && (#[trigger] items[k]).metadata is None && (forall|j: int|
                0 <= j < k ==> (#[trigger] items[j]).metadata is Some) && e.details@ == no_metadata_text(
                items[k].path@,
            ) && notice_texts(notices) == item_texts(items.take(k)),
    }
}

/// Prints each item of file information (see `print_file_info`), stopping
/// at the first error.
pub fn print_all(config: &Config, items: &[FileInfo]) -> (r: (Vec<Notice>, Result<(), DanoError>))
    ensures
        print_all_ok(config.exec_mode, items@, r.0@, r.1),
{
    let mut notices: Vec<Notice> = Vec::new();
    let mut i: usize = 0;
    while i < items.len()
        invariant
            i <= items@.len(),
            forall|k: int| 0 <= k < i ==> (#[trigger] items@[k]).metadata is Some,
            notice_texts(notices@) == item_texts(items@.take(i as int)),
            forall|k: int| 0 <= k < notices@.len() ==> (#[trigger] notices@[k]).stream == file_info_stream(config.exec_mode),
        decreases items@.len() - i,
    {
        match print_file_info(config, &items[i]) {
            Ok(n) => {
                let ghost before = notices@;
                notices.push(n);
                assert(notice_texts(notices@) =~= notice_texts(before).push(item_text(items@[i as int])));
                assert(items@.take(i + 1) =~= items@.take(i as int).push(items@[i as int]));
                assert(item_texts(items@.take(i + 1)) =~= item_texts(items@.take(i as int)).push(item_text(items@[i as int])));
            },
            Err(e) => {
                assert(items@[i as int].metadata is None);
                return (notices, Err(e));
            },
        }
        i = i + 1;
    }
    assert(items@.take(items@.len() as int) =~= items@);
    (notices, Ok(()))
}

/// Print mode: the recorded file information printed, or an error when
/// there is none.
pub fn print_mode(config: &Config, recorded: &RecordedFileInfo) -> (r: (Vec<Notice>, Result<i32, DanoError>))
    ensures
        recorded.entries().len() == 0 ==> r.0@.len() == 0 && (r.1 matches Err(e) && e.details@
            == "No recorded file info is available to print."@),
        recorded.entries().len() > 0 ==> print_all_ok(
            config.exec_mode,
            recorded.entries(),
            r.0@,
            match r.1 {
                Ok(_) => Ok(()),
                Err(e) => Err(e),
            },
        ) && (r.1 is Ok ==> r.1 == Ok::<i32, DanoError>(DANO_CLEAN_EXIT_CODE)),
{
    if recorded.is_empty() {
        return (Vec::new(), Err(DanoError::new("No recorded file info is available to print.")));
    }
    let (notices, res) = print_all(config, recorded.as_slice());
    match res {
        Ok(_) => (notices, Ok(DANO_CLEAN_EXIT_CODE)),
        Err(e) => (notices, Err(e)),
    }
}

/// Duplicates mode: an error for fewer than two recorded items; otherwise
/// the items with duplicate hash values printed (see `find_duplicates`)
/// and a warning, exit code 2, or, where there are none, a message, exit
/// code 0.  The messages are left out when silenced.  The items are printed
/// on the stream of the mode (standard output in duplicates mode), the
/// messages on standard error.
pub fn duplicates_mode(config: &Config, recorded: &RecordedFileInfo) -> (r: (Vec<Notice>, Result<i32, DanoError>))
    ensures
        recorded.entries().len() == 0 ==> r.0@.len() == 0 && (r.1 matches Err(e) && e.details@
            == "No recorded file info is available for duplicate comparison."@),
        recorded.entries().len() == 1 ==> r.0@.len() == 0 && (r.1 matches Err(e) && e.details@
            == "Duplicate comparison requires more than one instance of recorded file info."@),
        recorded.entries().len() >= 2 ==> exists|d: Seq<FileInfo>| #![trigger item_texts(d)]
            (forall|v: Seq<u32>| #[trigger] with_value(d, v) == duplicate_group(recorded.entries(), v))
            && (forall|i: int, j: int| 0 <= i < j < d.len() ==> lex_le(value_units(#[trigger] d[i]), value_units(#[trigger] d[j])))
            && (forall|i: int| 0 <= i < d.len() ==> (#[trigger] d[i]).metadata is Some)
            && if d.len() == 0 {
                r.1 == Ok::<i32, DanoError>(DANO_CLEAN_EXIT_CODE) && notice_texts(r.0@) == (if config.opt_silent {
                    Seq::<Seq<char>>::empty()
                } else {
                    seq!["No duplicates found.\n"@]
                })
            } else {
                r.1 == Ok::<i32, DanoError>(DANO_DISORDER_EXIT_CODE) && notice_texts(r.0@) == item_texts(d) + (if config.opt_silent {
                    Seq::<Seq<char>>::empty()
                } else {
                    seq!["WARN: Duplicates found.\n"@]
                })
            },
        recorded.entries().len() >= 2 ==> forall|i: int| 0 <= i < r.0@.len() ==> (#[trigger] r.0@[i]).stream == (
            if r.1 == Ok::<i32, DanoError>(DANO_DISORDER_EXIT_CODE) && i < r.0@.len() - (if config.opt_silent {
                0int
            } else {
                1int
            }) {
                file_info_stream(config.exec_mode)
            } else {
                Stream::Stderr
            }),
{
    if recorded.is_empty() {
        return (
            Vec::new(),
            Err(DanoError::new("No recorded file info is available for duplicate comparison.")),
        );
    }
    if recorded.len() == 1 {
        return (
            Vec::new(),
            Err(DanoError::new("Duplicate comparison requires more than one instance of recorded file info.")),
        );
    }
    let duplicates = find_duplicates(recorded.as_slice());
    if duplicates.len() == 0 {
        let mut notices: Vec<Notice> = Vec::new();
        if !config.opt_silent {
            notices.push(Notice { stream: Stream::Stderr, text: String::from_str("No duplicates found.\n") });
            assert(notice_texts(notices@) =~= seq!["No duplicates found.\n"@]);
        } else {
            assert(notice_texts(notices@) =~= Seq::<Seq<char>>::empty());
        }
        assert(item_texts(duplicates@) == item_texts(duplicates@));
        return (notices, Ok(DANO_CLEAN_EXIT_CODE));
    }
    let (mut notices, res) = print_all(config, duplicates.as_slice());
    proof {
        if res is Err {
            let k = choose|k: int| 0 <= k < duplicates@.len() && (#[trigger] duplicates@[k]).metadata is None && (forall|j: int|
                0 <= j < k ==> (#[trigger] duplicates@[j]).metadata is Some) && res->Err_0.details@ == no_metadata_text(
                duplicates@[k].path@);
            assert(false);
        }
    }
    let ghost printed = notices@;
    if !config.opt_silent {
        notices.push(Notice { stream: Stream::Stderr, text: String::from_str("WARN: Duplicates found.\n") });
        assert(notice_texts(notices@) =~= notice_texts(printed) + seq!["WARN: Duplicates found.\n"@]);
    } else {
        assert(notice_texts(notices@) =~= notice_texts(printed) + Seq::<Seq<char>>::empty());
    }
    (notices, Ok(DANO_DISORDER_EXIT_CODE))
}

/// The summary test mode prints after a check of more than one path: passed
/// for a clean exit code, failed for any other.
pub fn test_summary(is_single_path: bool, exit_code: i32) -> (r: Option<Notice>)
    ensures
        is_single_path ==> r is None,
        !is_single_path && exit_code == DANO_CLEAN_EXIT_CODE ==> (r matches Some(n) && n.stream == Stream::Stderr && n.text@
            == "PASSED: File paths are consistent.  Paths contain no hash or filename mismatches.\n"@),
        !is_single_path && exit_code != DANO_CLEAN_EXIT_CODE ==> (r matches Some(n) && n.stream == Stream::Stderr && n.text@
            == "FAILED: File paths are inconsistent.  Some hash or filename mismatch was detected.\n"@),
{
    if is_single_path {
        None
    } else if exit_code == DANO_CLEAN_EXIT_CODE {
        Some(Notice { stream: Stream::Stderr, text: String::from_str("PASSED: File paths are consistent.  Paths contain no hash or filename mismatches.\n") })
    } else {
        Some(Notice { stream: Stream::Stderr, text: String::from_str("FAILED: File paths are inconsistent.  Some hash or filename mismatch was detected.\n") })
    }
}

/// The requests of write mode: only the paths without recorded file
/// information, in order.
pub fn write_mode_requests(requests: Vec<FileInfoRequest>) -> (r: Vec<FileInfoRequest>)
    ensures
        r@ == requests@.filter(|q: FileInfoRequest| q.hash_algo is None),
{
    let mut out: Vec<FileInfoRequest> = Vec::new();
    let mut i: usize = 0;
    while i < requests.len()
        invariant
            i <= requests@.len(),
            out@ == requests@.take(i as int).filter(|q: FileInfoRequest| q.hash_algo is None),
        decreases requests@.len() - i,
    {
        let q = &requests[i];
        assert(requests@.take(i + 1) =~= requests@.take(i as int).push(*q));
        proof {
            requests@.take(i as int).lemma_filter_push(*q, |q: FileInfoRequest| q.hash_algo is None);
        }
        if q.hash_algo.is_none() {
            out.push(q.clone());
        }
        i = i + 1;
    }
    assert(requests@.take(requests@.len() as int) =~= requests@);
    out
}

/// What write mode writes without hashing anything: when rewriting, all
/// recorded file information as renamed files; when importing FLAC
/// checksums, all of it as new files.
pub fn write_without_lookup(write_config: &WriteModeConfig, recorded: RecordedFileInfo) -> (r: ProcessedFiles)
    requires
        write_config.opt_rewrite || write_config.opt_import_flac,
    ensures
        r.exit_code == DANO_CLEAN_EXIT_CODE,
        r.new_files is NewFile,
        r.modified_file_names is ModifiedFilename,
        write_config.opt_rewrite ==> bundle_files(r.new_files).len() == 0 && bundle_files(
            r.modified_file_names,
        ) == recorded.entries(),
        !write_config.opt_rewrite ==> bundle_files(r.modified_file_names).len() == 0 && bundle_files(
            r.new_files,
        ) == recorded.entries(),
{
    if write_config.opt_rewrite {
        ProcessedFiles {
            new_files: RemainderBundle::NewFile(Vec::new()),
            modified_file_names: RemainderBundle::ModifiedFilename(recorded.into_inner()),
            exit_code: DANO_CLEAN_EXIT_CODE,
        }
    } else {
        ProcessedFiles {
            new_files: RemainderBundle::NewFile(recorded.into_inner()),
            modified_file_names: RemainderBundle::ModifiedFilename(Vec::new()),
            exit_code: DANO_CLEAN_EXIT_CODE,
        }
    }
}

/// The check before dumping: an error when nothing is recorded, or when
/// the output file already exists.
pub fn dump_precheck(is_empty: bool, output_exists: bool) -> (r: Result<(), DanoError>)
    ensures
        is_empty ==> (r matches Err(e) && e.details@ == "No recorded file info is available to dump to file."@),
        !is_empty && output_exists ==> (r matches Err(e) && e.details@
            == "Output file already exists.  Quitting without dumping to file."@),
        !is_empty && !output_exists ==> r is Ok,
{
    if is_empty {
        Err(DanoError::new("No recorded file info is available to dump to file."))
    } else if output_exists {
        Err(DanoError::new("Output file already exists.  Quitting without dumping to file."))
    } else {
        Ok(())
    }
}

/// The prefix of the lines of a dump that writes.
pub open spec fn dump_prefix() -> Seq<char> {
    "Dumping dano hash for: "@
}

/// The prefix of the lines of a dry-run dump.
pub open spec fn not_dump_prefix() -> Seq<char> {
    "WARN: Not dumping dano hash for (because dry run was specified): "@
}

/// Dump mode's plan: a line for each recorded item, with the dump prefix,
/// or in a dry run the prefix that says nothing is dumped; the recorded
/// items written to the output file unless it is a dry run.
pub fn dump_plan(config: &Config, recorded: RecordedFileInfo) -> (r: WritePlan)
    requires
        config.exec_mode is Dump,
    ensures
        notice_texts(r.notices@) == action_texts(
            recorded.entries(),
            if config.opt_dry_run {
                not_dump_prefix()
            } else {
                dump_prefix()
            },
            ""@,
        ),
        r.files@ == (if config.opt_dry_run {
            Seq::<FileInfo>::empty()
        } else {
            recorded.entries()
        }),
        r.target == WriteTarget::OutputFile,
        !r.rewrite_output,
        forall|i: int| 0 <= i < r.notices@.len() ==> (#[trigger] r.notices@[i]).stream == Stream::Stderr,
{
    let writeable = WriteableFileInfo::from_recorded(recorded);
    writeable.write_action(
        config,
        "WARN: Not dumping dano hash for (because dry run was specified): ",
        "Dumping dano hash for: ",
    )
}

/// The message after a dump went through: for a dry run always, otherwise
/// unless silenced.
pub fn dump_done(dry_run: bool, silent: bool) -> (r: Option<Notice>)
    ensures
        dry_run ==> (r matches Some(n) && n.stream == Stream::Stderr && n.text@ == "Dry run dump was successful.\n"@),
        !dry_run && !silent ==> (r matches Some(n) && n.stream == Stream::Stderr && n.text@
            == "Dump to dano output file was successful.\n"@),
        !dry_run && silent ==> r is None,
{
    if dry_run {
        Some(Notice { stream: Stream::Stderr, text: String::from_str("Dry run dump was successful.\n") })
    } else if !silent {
        Some(Notice { stream: Stream::Stderr, text: String::from_str("Dump to dano output file was successful.\n") })
    } else {
        None
    }
}

/// The message after a dump failed, with the reason as shown for
/// debugging; the exit code is the error code.
pub fn dump_failed(reason: &str) -> (r: (Notice, i32))
    ensures
        r.0.stream == Stream::Stderr,
        r.0.text@ == "ERROR: Dump to dano output file was unsuccessful for the following reason: "@
            + reason@ + "\n"@,
        r.1 == DANO_ERROR_EXIT_CODE,
{
    let mut text = String::from_str("ERROR: Dump to dano output file was unsuccessful for the following reason: ");
    text.append(reason);
    text.append("\n");
    (Notice { stream: Stream::Stderr, text }, DANO_ERROR_EXIT_CODE)
}

/// What removing the extended attribute of one path gives in clean mode.
#[derive(Debug)]
pub struct CleanStep {
    pub notice: Notice,
    pub failed: bool,
}

/// Removing an attribute that is not there is no failure.
pub open spec fn no_data_marker() -> Seq<char> {
    "No data available"@
}

/// The outcome of removing the extended attribute of `path`, given the
/// error message of the removal where it failed: removed, a message on
/// standard output; missing, nothing; otherwise the error on standard
/// error, and the path failed.
pub fn clean_step(path: &str, removal: Result<(), String>) -> (r: Option<CleanStep>)
    ensures
        match removal {
            Ok(_) => r matches Some(s) && !s.failed && s.notice.stream == Stream::Stdout
                && s.notice.text@ == "dano successfully removed extended attribute from: "@
                + path_debug_text(path@) + "\n"@,
            Err(m) => if has_substring(m@, no_data_marker()) {
                r is None
            } else {
                r matches Some(s) && s.failed && s.notice.stream == Stream::Stderr && s.notice.text@
                    == "ERROR: "@ + m@ + "\n"@
            },
        },
{
    match removal {
        Ok(_) => {
            let mut text = String::from_str("dano successfully removed extended attribute from: ");
            let d = path_debug(path);
            text.append(d.as_str());
            text.append("\n");
            Some(CleanStep { notice: Notice { stream: Stream::Stdout, text }, failed: false })
        },
        Err(m) => {
            if contains_str(m.as_str(), "No data available") {
                None
            } else {
                let mut text = String::from_str("ERROR: ");
                text.append(m.as_str());
                text.append("\n");
                Some(CleanStep { notice: Notice { stream: Stream::Stderr, text }, failed: true })
            }
        },
    }
}

/// The paths shown as a list for debugging: `[` the paths as shown to the
/// user, separated by `, ` `]`.
pub open spec fn path_list_text(paths: Seq<Seq<char>>) -> Seq<char> {
    "["@ + path_list_items(paths) + "]"@
}

/// The paths as shown to the user, separated by `, `.
pub open spec fn path_list_items(paths: Seq<Seq<char>>) -> Seq<char>
    decreases paths.len(),
{
    if paths.len() == 0 {
        Seq::<char>::empty()
    } else if paths.len() == 1 {
        path_debug_text(paths[0])
    } else {
        path_list_items(paths.drop_last()) + ", "@ + path_debug_text(paths.last())
    }
}

/// The end of clean mode: success when no path failed, otherwise the failed
/// paths and the error code.
pub fn clean_summary(failed: &Vec<String>) -> (r: (Notice, i32))
    ensures
        failed@.len() == 0 ==> r.1 == DANO_CLEAN_EXIT_CODE && r.0.stream == Stream::Stdout && r.0.text@
            == "All dano extended attributes successfully cleaned.\n"@,
        failed@.len() > 0 ==> r.1 == DANO_ERROR_EXIT_CODE && r.0.stream == Stream::Stdout && r.0.text@
            == "ERROR: Could not clean extended attributes form the following paths: "@ + path_list_text(
            failed@.map_values(|p: String| p@),
        ) + "\n"@,
{
    if failed.len() == 0 {
        return (Notice { stream: Stream::Stdout, text: String::from_str("All dano extended attributes successfully cleaned.\n") }, DANO_CLEAN_EXIT_CODE);
    }
    let ghost ps = failed@.map_values(|p: String| p@);
    let mut items = String::new();
    let mut i: usize = 0;
    while i < failed.len()
        invariant
            i <= failed@.len(),
            ps == failed@.map_values(|p: String| p@),
            items@ == path_list_items(ps.take(i as int)),
        decreases failed@.len() - i,
    {
        let ghost before = items@;
        if i > 0 {
            items.append(", ");
        }
        let d = path_debug(failed[i].as_str());
        items.append(d.as_str());
        assert(ps.take(i + 1).drop_last() =~= ps.take(i as int));
        assert(ps.take(i + 1).last() == failed@[i as int]@);
        if i == 0 {
            assert(ps.take(1)[0] == failed@[0]@);
            assert(items@ =~= path_debug_text(failed@[0]@));
        } else {
            assert(items@ =~= before + ", "@ + path_debug_text(failed@[i as int]@));
        }
        i = i + 1;
    }
    assert(ps.take(failed@.len() as int) =~= ps);
    let mut text = String::from_str("ERROR: Could not clean extended attributes form the following paths: ");
    text.append("[");
    text.append(items.as_str());
    text.append("]");
    text.append("\n");
    assert(text@ =~= "ERROR: Could not clean extended attributes form the following paths: "@ + path_list_text(ps) + "\n"@);
    (Notice { stream: Stream::Stdout, text }, DANO_ERROR_EXIT_CODE)
}

} // verus!
