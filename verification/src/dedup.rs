//! Grouping recorded file information by hash value.
use vstd::prelude::*;

use crate::lookup::{timestamp_le, timestamp_not_after, FileInfo, HashValue};

verus! {

/// A hash value as plain values: radix and digits.
pub open spec fn hash_key(h: HashValue) -> (u32, Seq<char>) {
    (h.radix, h.value@)
}

/// The file information has metadata with a hash of the given key.
pub open spec fn has_hash_key(f: FileInfo, k: (u32, Seq<char>)) -> bool {
    f.metadata is Some && hash_key(f.metadata->0.hash_value) == k
}

/// The items whose hash has the given key, in order.
pub open spec fn with_hash_key(items: Seq<FileInfo>, k: (u32, Seq<char>)) -> Seq<FileInfo> {
    items.filter(|f: FileInfo| has_hash_key(f, k))
}

/// The key of the hash of file information that has metadata.
pub open spec fn info_hash_key(f: FileInfo) -> (u32, Seq<char>) {
    hash_key(f.metadata->0.hash_value)
}

/// The latest written of a non-empty sequence of file information with
/// metadata: the last one whose write time is not before any other's.
pub open spec fn latest_of(s: Seq<FileInfo>) -> FileInfo
    decreases s.len(),
{
    if s.len() <= 1 {
        s[0]
    } else {
        let b = latest_of(s.drop_last());
        if timestamp_le(b.metadata->0.last_written, s.last().metadata->0.last_written) {
            s.last()
        } else {
            b
        }
    }
}

/// The two hash values are equal (as `HashValue::equals`).
fn hash_values_equal(a: &HashValue, b: &HashValue) -> (r: bool)
    ensures
        r == (hash_key(*a) == hash_key(*b)),
{
    a.equals(b)
}

/// `r` keeps, of each group of `items` with one hash value, the latest
/// written (see `latest_of`): every kept item has metadata and is the latest
/// of its group, no two kept items share a hash, and every group with
/// metadata has a kept item.
pub open spec fn latest_per_hash_ok(items: Seq<FileInfo>, r: Seq<FileInfo>) -> bool {
    &&& forall|i: int|
        0 <= i < r.len() ==> (#[trigger] r[i]).metadata is Some && with_hash_key(
            items,
            info_hash_key(r[i]),
        ).len() > 0 && r[i] == latest_of(with_hash_key(items, info_hash_key(r[i])))
    &&& forall|i: int, j: int|
        0 <= i < j < r.len() ==> info_hash_key(#[trigger] r[i]) != info_hash_key(#[trigger] r[j])
    &&& forall|k: int|
        0 <= k < items.len() && (#[trigger] items[k]).metadata is Some ==> exists|i: int|
            0 <= i < r.len() && info_hash_key(r[i]) == info_hash_key(items[k])
}

/// Keeps, of each group of file information with one hash value, the one
/// written last; file information without metadata is dropped.  When
/// several of a group were written at the latest time, the last of them is
/// kept.  The order of the groups is not fixed.
pub fn latest_per_hash(items: &Vec<FileInfo>) -> (r: Vec<FileInfo>)
    ensures
        latest_per_hash_ok(items@, r@),
{
    let mut r: Vec<FileInfo> = Vec::new();
    let mut n: usize = 0;
    while n < items.len()
        invariant
            n <= items@.len(),
            forall|i: int|
                0 <= i < r@.len() ==> (#[trigger] r@[i]).metadata is Some && with_hash_key(
                    items@.take(n as int),
                    info_hash_key(r@[i]),
                ).len() > 0 && r@[i] == latest_of(
                    with_hash_key(items@.take(n as int), info_hash_key(r@[i])),
                ),
            forall|i: int, j: int|
                0 <= i < j < r@.len() ==> info_hash_key(#[trigger] r@[i]) != info_hash_key(
                    #[trigger] r@[j],
                ),
            forall|k: int|
                0 <= k < n && (#[trigger] items@[k]).metadata is Some ==> exists|i: int|
                    0 <= i < r@.len() && info_hash_key(r@[i]) == info_hash_key(items@[k]),
        decreases items@.len() - n,
    {
        let f = &items[n];
        let ghost prefix = items@.take(n as int);
        let ghost next = items@.take(n + 1);
        proof {
            assert(next =~= prefix.push(*f));
        }
        match &f.metadata {
            None => {
                proof {
                    assert forall|key: (u32, Seq<char>)| with_hash_key(next, key) == with_hash_key(
                        prefix,
                        key,
                    ) by {
                        prefix.lemma_filter_push(*f, |g: FileInfo| has_hash_key(g, key));
                    }
                    assert forall|k: int|
                        0 <= k < n + 1 && (#[trigger] items@[k]).metadata is Some implies exists|i: int|
                        0 <= i < r@.len() && info_hash_key(r@[i]) == info_hash_key(items@[k]) by {
                        if k == n {
                            assert(items@[k] == *f);
                        }
                    }
                }
            },
            Some(m) => {
                let ghost key = hash_key(m.hash_value);
                let mut k: usize = 0;
                let mut found = false;
                while k < r.len()
                    invariant_except_break
                        k <= r@.len(),
                        !found,
                        forall|i: int|
                            0 <= i < k ==> info_hash_key(#[trigger] r@[i]) != key,
                    invariant
                        forall|i: int| 0 <= i < r@.len() ==> (#[trigger] r@[i]).metadata is Some,
                        f.metadata == Some(*m),
                        key == hash_key(m.hash_value),
                    ensures
                        found ==> k < r@.len() && info_hash_key(r@[k as int]) == key,
                        !found ==> k == r@.len() && forall|i: int|
                            0 <= i < k ==> info_hash_key(#[trigger] r@[i]) != key,
                    decreases r@.len() - k,
                {
                    let rm = r[k].metadata.as_ref().unwrap();
                    if hash_values_equal(&rm.hash_value, &m.hash_value) {
                        found = true;
                        break;
                    }
                    k = k + 1;
                }
                let ghost old_r = r@;
                proof {
                    assert forall|key2: (u32, Seq<char>)| #[trigger] with_hash_key(next, key2) == (
                    if key2 == key {
                        with_hash_key(prefix, key2).push(*f)
                    } else {
                        with_hash_key(prefix, key2)
                    }) by {
                        prefix.lemma_filter_push(*f, |g: FileInfo| has_hash_key(g, key2));
                    }
                }
                if found {
                    let old_lw = &r[k].metadata.as_ref().unwrap().last_written;
                    if timestamp_not_after(old_lw, &m.last_written) {
                        r.set(k, f.clone());
                    }
                    proof {
                        let s = with_hash_key(prefix, key);
                        assert(with_hash_key(next, key) == s.push(*f));
                        assert(s.push(*f).drop_last() =~= s);
                        assert(latest_of(s.push(*f)) == (if timestamp_le(
                            latest_of(s).metadata->0.last_written,
                            f.metadata->0.last_written,
                        ) {
                            *f
                        } else {
                            latest_of(s)
                        }));
                        assert forall|i: int|
                            0 <= i < r@.len() implies (#[trigger] r@[i]).metadata is Some
                            && with_hash_key(next, info_hash_key(r@[i])).len() > 0 && r@[i]
                            == latest_of(with_hash_key(next, info_hash_key(r@[i]))) by {
                            if i != k {
                                assert(r@[i] == old_r[i]);
                                assert(info_hash_key(old_r[i]) != key) by {
                                    if info_hash_key(old_r[i]) == key {
                                        if i < k {
                                        } else {
                                            assert(info_hash_key(old_r[k as int]) == key);
                                        }
                                    }
                                }
                            }
                        }
                        assert forall|a: int, b: int| 0 <= a < b < r@.len() implies info_hash_key(
                            #[trigger] r@[a],
                        ) != info_hash_key(#[trigger] r@[b]) by {
                            assert(info_hash_key(r@[a]) == info_hash_key(old_r[a]));
                            assert(info_hash_key(r@[b]) == info_hash_key(old_r[b]));
                        }
                        assert forall|q: int|
                            0 <= q < n + 1 && (#[trigger] items@[q]).metadata is Some implies exists|i: int|
                            0 <= i < r@.len() && info_hash_key(r@[i]) == info_hash_key(items@[q]) by {
                            if q == n {
                                assert(items@[q] == *f);
                                assert(info_hash_key(r@[k as int]) == key);
                            } else {
                                let i = choose|i: int|
                                    0 <= i < old_r.len() && info_hash_key(old_r[i]) == info_hash_key(
                                        items@[q],
                                    );
                                assert(info_hash_key(r@[i]) == info_hash_key(old_r[i]));
                            }
                        }
                    }
                } else {
                    r.push(f.clone());
                    proof {
                        let s = with_hash_key(prefix, key);
                        assert(s.len() == 0) by {
                            if s.len() > 0 {
                                assert(s.contains(s[0]));
                                prefix.lemma_filter_contains_rev(|g: FileInfo| has_hash_key(g, key), s[0]);
                                let q = choose|q: int| 0 <= q < prefix.len() && prefix[q] == s[0];
                                assert(items@[q] == prefix[q]);
                                let i = choose|i: int|
                                    0 <= i < old_r.len() && info_hash_key(old_r[i]) == info_hash_key(
                                        items@[q],
                                    );
                            }
                        }
                        assert(with_hash_key(next, key) =~= seq![*f]);
                        assert forall|i: int|
                            0 <= i < r@.len() implies (#[trigger] r@[i]).metadata is Some
                            && with_hash_key(next, info_hash_key(r@[i])).len() > 0 && r@[i]
                            == latest_of(with_hash_key(next, info_hash_key(r@[i]))) by {
                            if i < old_r.len() {
                                assert(r@[i] == old_r[i]);
                            }
                        }
                        assert forall|a: int, b: int| 0 <= a < b < r@.len() implies info_hash_key(
                            #[trigger] r@[a],
                        ) != info_hash_key(#[trigger] r@[b]) by {
                            if b == old_r.len() {
                                assert(r@[a] == old_r[a]);
                            } else {
                                assert(r@[a] == old_r[a] && r@[b] == old_r[b]);
                            }
                        }
                        assert forall|q: int|
                            0 <= q < n + 1 && (#[trigger] items@[q]).metadata is Some implies exists|i: int|
                            0 <= i < r@.len() && info_hash_key(r@[i]) == info_hash_key(items@[q]) by {
                            if q == n {
                                assert(items@[q] == *f);
                                assert(r@[old_r.len() as int] == *f);
                            } else {
                                let i = choose|i: int|
                                    0 <= i < old_r.len() && info_hash_key(old_r[i]) == info_hash_key(
                                        items@[q],
                                    );
                                assert(r@[i] == old_r[i]);
                            }
                        }
                    }
                }
            },
        }
        n = n + 1;
    }
    proof {
        assert(items@.take(items@.len() as int) =~= items@);
    }
    r
}

proof fn lemma_filter_single(s: Seq<FileInfo>, k: (u32, Seq<char>), j: int)
    requires
        0 <= j < s.len(),
        has_hash_key(s[j], k),
        forall|i: int| 0 <= i < s.len() && i != j ==> !has_hash_key(#[trigger] s[i], k),
    ensures
        with_hash_key(s, k) == seq![s[j]],
    decreases s.len(),
{
    let p = |f: FileInfo| has_hash_key(f, k);
    let t = s.drop_last();
    assert(t.push(s.last()) =~= s);
    t.lemma_filter_push(s.last(), p);
    if j == s.len() - 1 {
        assert forall|i: int| 0 <= i < t.len() implies !p(#[trigger] t[i]) by {
            assert(t[i] == s[i]);
        }
        assert(t.filter(p) =~= Seq::<FileInfo>::empty()) by {
            broadcast use vstd::seq_lib::group_filter_ensures;
            if t.filter(p).len() > 0 {
                let x = t.filter(p)[0];
                assert(t.filter(p).contains(x));
                t.lemma_filter_contains_rev(p, x);
                let m = choose|m: int| 0 <= m < t.len() && t[m] == x;
                assert(p(t[m]));
            }
        }
        assert(seq![s[j]] =~= Seq::<FileInfo>::empty().push(s.last()));
    } else {
        assert forall|i: int| 0 <= i < t.len() && i != j implies !has_hash_key(#[trigger] t[i], k) by {
            assert(t[i] == s[i]);
        }
        assert(t[j] == s[j]);
        lemma_filter_single(t, k, j);
        assert(!p(s.last()));
    }
}

/// Keeping the latest file information for each hash a second time changes
/// nothing: what is kept from the kept items is the same set of items.
pub proof fn lemma_latest_per_hash_idempotent(items: Seq<FileInfo>, r: Seq<FileInfo>, r2: Seq<FileInfo>)
    requires
        latest_per_hash_ok(items, r),
        latest_per_hash_ok(r, r2),
    ensures
        forall|x: FileInfo| r2.contains(x) <==> r.contains(x),
{
    broadcast use vstd::seq_lib::group_filter_ensures;

    assert forall|x: FileInfo| r2.contains(x) implies r.contains(x) by {
        let i = choose|i: int| 0 <= i < r2.len() && r2[i] == x;
        let k = info_hash_key(r2[i]);
        let w = with_hash_key(r, k);
        assert(w.len() > 0);
        let y = w[0];
        assert(has_hash_key(y, k));
        assert(w.contains(y));
        r.lemma_filter_contains_rev(|f: FileInfo| has_hash_key(f, k), y);
        let j = choose|j: int| 0 <= j < r.len() && r[j] == y;
        assert forall|m: int| 0 <= m < r.len() && m != j implies !has_hash_key(#[trigger] r[m], k) by {
            if has_hash_key(r[m], k) {
                assert(info_hash_key(r[m]) == info_hash_key(r[j]));
                if m < j {
                    assert(info_hash_key(r[m]) != info_hash_key(r[j]));
                } else {
                    assert(info_hash_key(r[j]) != info_hash_key(r[m]));
                }
            }
        }
        lemma_filter_single(r, k, j);
        assert(latest_of(seq![r[j]]) == r[j]);
    }
    assert forall|x: FileInfo| r.contains(x) implies r2.contains(x) by {
        let j = choose|j: int| 0 <= j < r.len() && r[j] == x;
        assert(r[j].metadata is Some);
        let i = choose|i: int| 0 <= i < r2.len() && info_hash_key(r2[i]) == info_hash_key(r[j]);
        let k = info_hash_key(r2[i]);
        assert(r2[i].metadata is Some);
        assert forall|m: int| 0 <= m < r.len() && m != j implies !has_hash_key(#[trigger] r[m], k) by {
            if has_hash_key(r[m], k) {
                if m < j {
                    assert(info_hash_key(r[m]) != info_hash_key(r[j]));
                } else {
                    assert(info_hash_key(r[j]) != info_hash_key(r[m]));
                }
            }
        }
        lemma_filter_single(r, k, j);
        assert(latest_of(seq![r[j]]) == r[j]);
        assert(r2[i] == r[j]);
    }
}

} // verus!
