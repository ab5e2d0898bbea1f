//! Sequences of file information ordered by path.
use vstd::prelude::*;

use crate::lookup::FileInfo;
use crate::order::{lemma_lex_order_basics, lemma_lex_order_transitive, lex_compare, lex_le, lex_lt};
use crate::paths::{path_key, path_key_of};

verus! {

broadcast use vstd::seq_lib::group_to_multiset_ensures;

/// The comparison key of a file information's path.
pub open spec fn info_key(f: FileInfo) -> Seq<u32> {
    path_key(f.path@)
}

/// The sequence is ordered by path, equal paths allowed.
pub open spec fn sorted_by_path(s: Seq<FileInfo>) -> bool {
    forall|i: int, j: int|
        0 <= i < j < s.len() ==> lex_le(info_key(#[trigger] s[i]), info_key(#[trigger] s[j]))
}

/// The sequence is ordered by path and no path occurs twice.
pub open spec fn strictly_sorted_by_path(s: Seq<FileInfo>) -> bool {
    forall|i: int, j: int|
        0 <= i < j < s.len() ==> lex_lt(info_key(#[trigger] s[i]), info_key(#[trigger] s[j]))
}

/// Inserting an element adds it to the multiset of elements.
pub proof fn lemma_insert_to_multiset<A>(s: Seq<A>, i: int, a: A)
    requires
        0 <= i <= s.len(),
    ensures
        s.insert(i, a).to_multiset() =~= s.to_multiset().insert(a),
{
    let t = s.insert(i, a);
    assert(t.remove(i) =~= s);
    assert(t[i] == a);
    assert(t.remove(i).to_multiset() =~= t.to_multiset().remove(a));
    assert(t.to_multiset().count(a) > 0) by {
        assert(t.contains(a));
    }
}

/// Sorts file information by path.  Entries with the same path keep no
/// particular order among themselves.
pub fn sort_by_path(v: Vec<FileInfo>) -> (r: Vec<FileInfo>)
    ensures
        sorted_by_path(r@),
        r@.to_multiset() == v@.to_multiset(),
{
    let mut rest = v;
    let mut r: Vec<FileInfo> = Vec::new();
    let mut keys: Vec<Vec<u32>> = Vec::new();
    while rest.len() > 0
        invariant
            r@.len() == keys@.len(),
            forall|i: int| 0 <= i < keys@.len() ==> (#[trigger] keys@[i])@ == info_key(r@[i]),
            sorted_by_path(r@),
            r@.to_multiset().add(rest@.to_multiset()) == v@.to_multiset(),
        decreases rest.len(),
    {
        let ghost before = rest@;
        let x = rest.pop().unwrap();
        proof {
            assert(before =~= rest@.push(x));
        }
        let kx = path_key_of(&x.path);
        let mut j: usize = 0;
        while j < r.len() && lex_compare(&keys[j], &kx) <= 0
            invariant
                j <= r@.len(),
                r@.len() == keys@.len(),
                forall|i: int| 0 <= i < keys@.len() ==> (#[trigger] keys@[i])@ == info_key(r@[i]),
                forall|i: int| 0 <= i < j ==> lex_le(info_key(#[trigger] r@[i]), kx@),
            decreases r@.len() - j,
        {
            j = j + 1;
        }
        proof {
            assert forall|k: int| j <= k < r@.len() implies lex_lt(kx@, info_key(#[trigger] r@[k])) by {
                lemma_lex_order_basics(info_key(r@[j as int]), kx@);
                if k > j {
                    lemma_lex_order_basics(info_key(r@[k]), kx@);
                    lemma_lex_order_basics(kx@, info_key(r@[j as int]));
                    lemma_lex_order_transitive(kx@, info_key(r@[j as int]), info_key(r@[k]));
                }
            }
            lemma_insert_to_multiset(r@, j as int, x);
        }
        let ghost old_r = r@;
        let ghost old_keys = keys@;
        r.insert(j, x);
        keys.insert(j, kx);
        proof {
            assert forall|a: int, b: int| 0 <= a < b < r@.len() implies lex_le(
                info_key(#[trigger] r@[a]),
                info_key(#[trigger] r@[b]),
            ) by {
                if b < j {
                    assert(r@[a] == old_r[a] && r@[b] == old_r[b]);
                } else if b == j {
                    assert(r@[a] == old_r[a]);
                } else if a == j {
                    assert(r@[b] == old_r[b - 1]);
                    lemma_lex_order_basics(kx@, info_key(old_r[b - 1]));
                } else if a < j {
                    assert(r@[a] == old_r[a] && r@[b] == old_r[b - 1]);
                    lemma_lex_order_basics(kx@, info_key(old_r[b - 1]));
                    lemma_lex_order_transitive(info_key(old_r[a]), kx@, info_key(old_r[b - 1]));
                } else {
                    assert(r@[a] == old_r[a - 1] && r@[b] == old_r[b - 1]);
                }
            }
            assert forall|i: int| 0 <= i < keys@.len() implies (#[trigger] keys@[i])@ == info_key(
                r@[i],
            ) by {
                if i < j {
                    assert(keys@[i] == old_keys[i] && r@[i] == old_r[i]);
                } else if i > j {
                    assert(keys@[i] == old_keys[i - 1] && r@[i] == old_r[i - 1]);
                }
            }
            assert(rest@.push(x).to_multiset() =~= rest@.to_multiset().insert(x));
            assert(r@.to_multiset().add(rest@.to_multiset()) =~= old_r.to_multiset().add(
                before.to_multiset(),
            ));
        }
    }
    r
}

/// Every element of `s` has an element of `r` with the same path.
pub open spec fn covers_paths(r: Seq<FileInfo>, s: Seq<FileInfo>) -> bool {
    forall|i: int| 0 <= i < s.len() ==> exists|j: int| 0 <= j < r.len() && info_key(#[trigger] s[i]) == info_key(r[j])
}

/// Every element of `r` is an element of `s`.
pub open spec fn drawn_from(r: Seq<FileInfo>, s: Seq<FileInfo>) -> bool {
    forall|j: int| 0 <= j < r.len() ==> s.contains(#[trigger] r[j])
}

/// Sorts file information by path and keeps one entry of each path.
/// Which of several entries with one path is kept is not fixed.
pub fn sort_dedup_by_path(v: Vec<FileInfo>) -> (r: Vec<FileInfo>)
    ensures
        strictly_sorted_by_path(r@),
        drawn_from(r@, v@),
        covers_paths(r@, v@),
{
    let sorted = sort_by_path(v);
    proof {
        assert forall|x: FileInfo| sorted@.contains(x) <==> v@.contains(x) by {
            assert(sorted@.contains(x) <==> sorted@.to_multiset().count(x) > 0);
            assert(v@.contains(x) <==> v@.to_multiset().count(x) > 0);
        }
    }
    let mut r: Vec<FileInfo> = Vec::new();
    let mut last_key: Vec<u32> = Vec::new();
    let mut i: usize = 0;
    while i < sorted.len()
        invariant
            i <= sorted@.len(),
            sorted_by_path(sorted@),
            forall|x: FileInfo| sorted@.contains(x) <==> v@.contains(x),
            strictly_sorted_by_path(r@),
            drawn_from(r@, sorted@),
            covers_paths(r@, sorted@.take(i as int)),
            i > 0 ==> r@.len() > 0 && last_key@ == info_key(r@.last()) && info_key(r@.last())
                == info_key(sorted@[i - 1]),
            i == 0 ==> r@.len() == 0,
        decreases sorted@.len() - i,
    {
        let k = path_key_of(&sorted[i].path);
        let fresh = if i == 0 {
            true
        } else {
            lex_compare(&last_key, &k) != 0
        };
        let ghost old_r = r@;
        if fresh {
            proof {
                if i > 0 {
                    lemma_lex_order_basics(last_key@, k@);
                    assert(lex_le(info_key(sorted@[i - 1]), info_key(sorted@[i as int])));
                    assert forall|a: int| 0 <= a < old_r.len() implies lex_lt(
                        info_key(#[trigger] old_r[a]),
                        k@,
                    ) by {
                        if a < old_r.len() - 1 {
                            lemma_lex_order_transitive(info_key(old_r[a]), last_key@, k@);
                        }
                    }
                }
            }
            r.push(sorted[i].clone());
            last_key = k;
            proof {
                assert forall|a: int, b: int| 0 <= a < b < r@.len() implies lex_lt(
                    info_key(#[trigger] r@[a]),
                    info_key(#[trigger] r@[b]),
                ) by {
                    if b < old_r.len() {
                        assert(r@[a] == old_r[a] && r@[b] == old_r[b]);
                    } else {
                        assert(r@[a] == old_r[a]);
                    }
                }
                assert(sorted@.contains(sorted@[i as int]));
                assert forall|j: int| 0 <= j < r@.len() implies sorted@.contains(#[trigger] r@[j]) by {
                    if j < old_r.len() {
                        assert(r@[j] == old_r[j]);
                    }
                }
            }
        } else {
            proof {
                lemma_lex_order_basics(last_key@, k@);
            }
        }
        proof {
            assert forall|a: int| 0 <= a < sorted@.take(i + 1).len() implies exists|b: int|
                0 <= b < r@.len() && info_key(#[trigger] sorted@.take(i + 1)[a]) == info_key(r@[b]) by {
                if a < i {
                    assert(sorted@.take(i + 1)[a] == sorted@.take(i as int)[a]);
                    let b = choose|b: int| 0 <= b < old_r.len() && info_key(sorted@.take(i as int)[a]) == info_key(old_r[b]);
                    assert(r@[b] == old_r[b]);
                } else {
                    assert(info_key(r@[r@.len() - 1]) == info_key(sorted@[i as int]));
                }
            }
        }
        i = i + 1;
    }
    proof {
        assert(sorted@.take(sorted@.len() as int) =~= sorted@);
        assert forall|a: int| 0 <= a < v@.len() implies exists|b: int|
            0 <= b < r@.len() && info_key(#[trigger] v@[a]) == info_key(r@[b]) by {
            assert(v@.contains(v@[a]));
            let c = choose|c: int| 0 <= c < sorted@.len() && sorted@[c] == v@[a];
            assert(exists|b: int| 0 <= b < r@.len() && info_key(sorted@[c]) == info_key(r@[b]));
        }
        assert forall|j: int| 0 <= j < r@.len() implies v@.contains(#[trigger] r@[j]) by {
            assert(sorted@.contains(r@[j]));
        }
    }
    r
}

} // verus!
