//! Paths as UTF-8 strings, and the order and equality that paths have.
//!
//! A path is ordered and compared by its components: an optional root `/`,
//! an optional leading `.`, then the pieces between separators, where empty
//! pieces and `.` pieces are skipped and `..` is the parent-directory
//! component.  Components compare in the order root < current dir <
//! parent dir < named, named components by their characters.  `path_key`
//! encodes the component list as a sequence of code units whose
//! lexicographic order is exactly that order: each component is a tag,
//! for a named component followed by its characters shifted up by one,
//! and a terminating 0.
use vstd::prelude::*;

use crate::order::{lemma_lex_order_basics, lex_compare, lex_order};
use crate::split::{is_separator, lemma_split_by_nonempty, split_by, split_chars, views, Separator};
use crate::text::{chars_of, string_from};

verus! {

/// Tag of the root-directory component.
pub const ROOT_DIR_TAG: u32 = 1;

/// Tag of the current-directory component.
pub const CUR_DIR_TAG: u32 = 2;

/// Tag of the parent-directory component.
pub const PARENT_DIR_TAG: u32 = 3;

/// Tag of a named component.
pub const NORMAL_TAG: u32 = 4;

/// The code unit that stands for a character inside a named component.
pub open spec fn char_unit(c: char) -> u32 {
    (c as u32 + 1) as u32
}

/// The code units of the characters of a piece.
pub open spec fn piece_units(p: Seq<char>) -> Seq<u32> {
    p.map_values(|c: char| char_unit(c))
}

/// The piece is skipped: it is empty or `.`.
pub open spec fn is_skipped_piece(p: Seq<char>) -> bool {
    p.len() == 0 || p == seq!['.']
}

/// The piece is `..`.
pub open spec fn is_parent_piece(p: Seq<char>) -> bool {
    p == seq!['.', '.']
}

/// The encoding of the component that a piece between separators yields,
/// empty for a skipped piece.
pub open spec fn piece_code(p: Seq<char>) -> Seq<u32> {
    if is_skipped_piece(p) {
        Seq::<u32>::empty()
    } else if is_parent_piece(p) {
        seq![PARENT_DIR_TAG, 0u32]
    } else {
        seq![NORMAL_TAG] + piece_units(p) + seq![0u32]
    }
}

/// The encoding of the components that a list of pieces yields.
pub open spec fn pieces_code(pieces: Seq<Seq<char>>) -> Seq<u32>
    decreases pieces.len(),
{
    if pieces.len() == 0 {
        Seq::<u32>::empty()
    } else {
        pieces_code(pieces.drop_last()) + piece_code(pieces.last())
    }
}

/// The path starts with the root `/`.
pub open spec fn has_root(s: Seq<char>) -> bool {
    s.len() > 0 && s[0] == '/'
}

/// The path is `.` or starts with `./`.
pub open spec fn starts_at_cur_dir(s: Seq<char>) -> bool {
    !has_root(s) && (s == seq!['.'] || (s.len() >= 2 && s[0] == '.' && s[1] == '/'))
}

/// The encoding of the leading root or current-directory component.
pub open spec fn start_code(s: Seq<char>) -> Seq<u32> {
    if has_root(s) {
        seq![ROOT_DIR_TAG, 0u32]
    } else if starts_at_cur_dir(s) {
        seq![CUR_DIR_TAG, 0u32]
    } else {
        Seq::<u32>::empty()
    }
}

/// The comparison key of a path: the encoding of its components.
pub open spec fn path_key(s: Seq<char>) -> Seq<u32> {
    start_code(s) + pieces_code(split_by(s, Separator::Slash))
}

/// Three-way order of two paths by their components.
pub open spec fn path_order(a: Seq<char>, b: Seq<char>) -> int {
    lex_order(path_key(a), path_key(b))
}

/// Two strings name the same path: they have the same components.
pub open spec fn same_path(a: Seq<char>, b: Seq<char>) -> bool {
    path_key(a) == path_key(b)
}

/// Appends the encoding of a piece to `out`.
fn push_piece_code(out: &mut Vec<u32>, piece: &Vec<char>)
    ensures
        final(out)@ == old(out)@ + piece_code(piece@),
{
    let n = piece.len();
    if n == 0 || (n == 1 && piece[0] == '.') {
        assert(is_skipped_piece(piece@)) by {
            if n == 1 {
                assert(piece@ =~= seq!['.']);
            }
        }
        assert(old(out)@ + Seq::<u32>::empty() =~= old(out)@);
        return ;
    }
    assert(!is_skipped_piece(piece@)) by {
        if piece@ == seq!['.'] {
            assert(piece@.len() == 1);
        }
    }
    if n == 2 && piece[0] == '.' && piece[1] == '.' {
        assert(piece@ =~= seq!['.', '.']);
        out.push(PARENT_DIR_TAG);
        out.push(0);
        assert(final(out)@ =~= old(out)@ + seq![PARENT_DIR_TAG, 0u32]);
        return ;
    }
    assert(!is_parent_piece(piece@)) by {
        if piece@ == seq!['.', '.'] {
            assert(piece@.len() == 2 && piece@[0] == '.' && piece@[1] == '.');
        }
    }
    let ghost start = out@;
    out.push(NORMAL_TAG);
    let mut i: usize = 0;
    while i < n
        invariant
            n == piece.len(),
            i <= n,
            out@ == start + seq![NORMAL_TAG] + piece_units(piece@.take(i as int)),
        decreases n - i,
    {
        let c = piece[i];
        let code: u32 = c as u32;
        proof {
            vstd::utf8::char_is_scalar(c);
        }
        let unit: u32 = code + 1;
        out.push(unit);
        assert(piece_units(piece@.take(i + 1)) =~= piece_units(piece@.take(i as int)).push(
            char_unit(c),
        ));
        i = i + 1;
    }
    out.push(0);
    assert(piece@.take(n as int) =~= piece@);
    assert(out@ =~= start + (seq![NORMAL_TAG] + piece_units(piece@) + seq![0u32]));
}

/// The comparison key of a path (see `path_key`).
pub fn path_key_of(s: &str) -> (r: Vec<u32>)
    ensures
        r@ == path_key(s@),
{
    let chars = chars_of(s);
    let n = chars.len();
    let mut out: Vec<u32> = Vec::new();
    if n > 0 && chars[0] == '/' {
        out.push(ROOT_DIR_TAG);
        out.push(0);
    } else if (n == 1 && chars[0] == '.') || (n >= 2 && chars[0] == '.' && chars[1] == '/') {
        proof {
            if n == 1 {
                assert(chars@ =~= seq!['.']);
            }
        }
        out.push(CUR_DIR_TAG);
        out.push(0);
    } else {
        proof {
            if chars@ == seq!['.'] {
                assert(chars@.len() == 1 && chars@[0] == '.');
            }
        }
    }
    assert(out@ =~= start_code(s@));
    let ghost start = out@;
    let mut cur: Vec<char> = Vec::new();
    let mut i: usize = 0;
    assert(chars@.take(0) =~= Seq::<char>::empty());
    assert(split_by(Seq::<char>::empty(), Separator::Slash).drop_last() =~= Seq::<Seq<char>>::empty());
    while i < n
        invariant
            n == chars.len(),
            chars@ == s@,
            i <= n,
            split_by(chars@.take(i as int), Separator::Slash).len() >= 1,
            out@ == start + pieces_code(split_by(chars@.take(i as int), Separator::Slash).drop_last()),
            cur@ == split_by(chars@.take(i as int), Separator::Slash).last(),
        decreases n - i,
    {
        let c = chars[i];
        let ghost p = split_by(chars@.take(i as int), Separator::Slash);
        assert(chars@.take(i + 1).drop_last() =~= chars@.take(i as int));
        assert(chars@.take(i + 1).last() == c);
        if c == '/' {
            assert(split_by(chars@.take(i + 1), Separator::Slash) == p.push(Seq::<char>::empty()));
            assert(p.push(Seq::<char>::empty()).drop_last() =~= p);
            assert(p =~= p.drop_last().push(p.last()));
            assert(pieces_code(p) == pieces_code(p.drop_last()) + piece_code(p.last()));
            push_piece_code(&mut out, &cur);
            assert(out@ =~= start + pieces_code(p));
            cur = Vec::new();
        } else {
            let ghost q = p.update(p.len() - 1, p.last().push(c));
            assert(split_by(chars@.take(i + 1), Separator::Slash) == q);
            assert(q.drop_last() =~= p.drop_last());
            cur.push(c);
        }
        i = i + 1;
    }
    let ghost p = split_by(chars@.take(n as int), Separator::Slash);
    assert(chars@.take(n as int) =~= s@);
    assert(p =~= p.drop_last().push(p.last()));
    push_piece_code(&mut out, &cur);
    assert(out@ =~= start_code(s@) + pieces_code(p));
    out
}

/// Three-way order of two paths by their components (see `path_order`).
pub fn compare_paths(a: &str, b: &str) -> (r: i8)
    ensures
        r as int == path_order(a@, b@),
{
    let ka = path_key_of(a);
    let kb = path_key_of(b);
    lex_compare(&ka, &kb)
}

/// The two strings name the same path.
pub fn paths_equal(a: &str, b: &str) -> (r: bool)
    ensures
        r == same_path(a@, b@),
{
    let o = compare_paths(a, b);
    proof {
        lemma_lex_order_basics(path_key(a@), path_key(b@));
    }
    o == 0
}

/// The last piece of a path that names a component, if any (skipped
/// pieces are passed over).
pub open spec fn last_component_piece(ps: Seq<Seq<char>>) -> Option<Seq<char>>
    decreases ps.len(),
{
    if ps.len() == 0 {
        None
    } else if !is_skipped_piece(ps.last()) {
        Some(ps.last())
    } else {
        last_component_piece(ps.drop_last())
    }
}

/// `Path::file_name`: the last component of the path when it is a named
/// component; none for a path that ends in `..` or has no component but a
/// root or `.`.
pub open spec fn file_name(s: Seq<char>) -> Option<Seq<char>> {
    match last_component_piece(split_by(s, Separator::Slash)) {
        Some(p) => if is_parent_piece(p) {
            None
        } else {
            Some(p)
        },
        None => None,
    }
}

/// The index of the last `c` in `s`.
pub open spec fn last_index_of(s: Seq<char>, c: char) -> Option<int>
    decreases s.len(),
{
    if s.len() == 0 {
        None
    } else if s.last() == c {
        Some(s.len() - 1)
    } else {
        last_index_of(s.drop_last(), c)
    }
}

/// The extension of a file name: what follows its last `.`, where that dot
/// is not the first character.
pub open spec fn name_extension(name: Seq<char>) -> Option<Seq<char>> {
    match last_index_of(name, '.') {
        Some(i) => if i == 0 {
            None
        } else {
            Some(name.skip(i + 1))
        },
        None => None,
    }
}

/// `Path::extension`: the extension of the path's file name.
pub open spec fn extension(s: Seq<char>) -> Option<Seq<char>> {
    match file_name(s) {
        Some(n) => name_extension(n),
        None => None,
    }
}

proof fn lemma_last_component_take(ps: Seq<Seq<char>>, j: int)
    requires
        0 <= j <= ps.len(),
        forall|k: int| j <= k < ps.len() ==> is_skipped_piece(#[trigger] ps[k]),
    ensures
        last_component_piece(ps) == last_component_piece(ps.take(j)),
    decreases ps.len() - j,
{
    if j < ps.len() {
        assert(ps.drop_last().take(j) =~= ps.take(j));
        lemma_last_component_take(ps.drop_last(), j);
    } else {
        assert(ps.take(j) =~= ps);
    }
}

/// The piece is skipped (see `is_skipped_piece`).
fn is_skipped(q: &Vec<char>) -> (r: bool)
    ensures
        r == is_skipped_piece(q@),
{
    let r = q.len() == 0 || (q.len() == 1 && q[0] == '.');
    proof {
        if q@.len() == 1 && q@[0] == '.' {
            assert(q@ =~= seq!['.']);
        }
        if q@ == seq!['.'] {
            assert(q@.len() == 1 && q@[0] == '.');
        }
    }
    r
}

/// The file name of a path (see `file_name`).
pub fn file_name_of(path: &str) -> (r: Option<String>)
    ensures
        match file_name(path@) {
            Some(n) => r matches Some(x) && x@ == n,
            None => r is None,
        },
{
    let chars = chars_of(path);
    let pieces = split_chars(&chars, Separator::Slash);
    let ghost ps = split_by(path@, Separator::Slash);
    let n = pieces.len();
    let mut j: usize = n;
    while j > 0 && is_skipped(&pieces[j - 1])
        invariant
            views(pieces@) == ps,
            n == pieces@.len(),
            j <= n,
            forall|k: int| j <= k < n ==> is_skipped_piece(#[trigger] ps[k]),
        decreases j,
    {
        assert(pieces@[j - 1]@ == ps[j - 1]);
        j = j - 1;
    }
    proof {
        lemma_last_component_take(ps, j as int);
    }
    if j == 0 {
        assert(ps.take(0).len() == 0);
        return None;
    }
    let q = &pieces[j - 1];
    proof {
        assert(q@ == ps[j - 1]);
        assert(ps.take(j as int).last() == ps[j - 1]);
        if q@ == seq!['.'] {
            assert(q@.len() == 1 && q@[0] == '.');
        }
        assert(!is_skipped_piece(q@));
    }
    if q.len() == 2 && q[0] == '.' && q[1] == '.' {
        assert(q@ =~= seq!['.', '.']);
        return None;
    }
    proof {
        if q@ == seq!['.', '.'] {
            assert(q@.len() == 2 && q@[0] == '.' && q@[1] == '.');
        }
    }
    Some(string_from(q.as_slice()))
}

/// The extension of a path (see `extension`).
pub fn extension_of(path: &str) -> (r: Option<String>)
    ensures
        match extension(path@) {
            Some(e) => r matches Some(x) && x@ == e,
            None => r is None,
        },
{
    let name = match file_name_of(path) {
        Some(n) => n,
        None => return None,
    };
    let chars = chars_of(name.as_str());
    let n = chars.len();
    let mut j: usize = n;
    assert(chars@.take(n as int) =~= chars@);
    while j > 0 && chars[j - 1] != '.'
        invariant
            chars@ == name@,
            n == chars@.len(),
            j <= n,
            last_index_of(chars@, '.') == last_index_of(chars@.take(j as int), '.'),
        decreases j,
    {
        assert(chars@.take(j as int).drop_last() =~= chars@.take(j - 1));
        j = j - 1;
    }
    if j == 0 {
        assert(chars@.take(0).len() == 0);
        return None;
    }
    assert(last_index_of(chars@.take(j as int), '.') == Some(j - 1));
    if j == 1 {
        return None;
    }
    let ext = string_from(&chars.as_slice()[j..n]);
    assert(chars@.subrange(j as int, n as int) =~= chars@.skip(j as int));
    Some(ext)
}

/// How a path is shown to the user: `{:?}` of `std::path::Path`, the path
/// in double quotes with special characters escaped.
pub uninterp spec fn path_debug_text(p: Seq<char>) -> Seq<char>;

/// `format!("{:?}", Path::new(p))`: the path as shown to the user.
#[verifier::external_body]
pub fn path_debug(p: &str) -> (r: String)
    ensures
        r@ == path_debug_text(p@),
{
    format!("{:?}", std::path::Path::new(p))
}

proof fn lemma_split_no_slash(s: Seq<char>)
    requires
        forall|i: int| 0 <= i < s.len() ==> s[i] != '/',
    ensures
        split_by(s, Separator::Slash) == seq![s],
    decreases s.len(),
{
    if s.len() > 0 {
        let t = s.drop_last();
        assert forall|i: int| 0 <= i < t.len() implies t[i] != '/' by {
            assert(t[i] == s[i]);
        }
        lemma_split_no_slash(t);
        assert(t.push(s.last()) =~= s);
        assert(seq![t].update(0, t.push(s.last())) =~= seq![s]);
    } else {
        assert(s =~= Seq::<char>::empty());
    }
}

proof fn lemma_first_piece_prefix(s: Seq<char>, k: int)
    requires
        0 <= k <= s.len(),
        forall|i: int| 0 <= i < k ==> s[i] != '/',
    ensures
        split_by(s, Separator::Slash).len() >= 1,
        split_by(s, Separator::Slash)[0].len() >= k,
        forall|i: int| 0 <= i < k ==> split_by(s, Separator::Slash)[0][i] == s[i],
    decreases s.len(),
{
    lemma_split_by_nonempty(s, Separator::Slash);
    if k == s.len() {
        lemma_split_no_slash(s);
    } else if k > 0 {
        let t = s.drop_last();
        assert forall|i: int| 0 <= i < k implies t[i] != '/' by {
            assert(t[i] == s[i]);
        }
        lemma_first_piece_prefix(t, k);
        let p = split_by(t, Separator::Slash);
        let q = split_by(s, Separator::Slash);
        if !is_separator(Separator::Slash, s.last()) && p.len() == 1 {
            assert(q[0] == p[0].push(s.last()));
            assert forall|i: int| 0 <= i < k implies q[0][i] == s[i] by {
                assert(q[0][i] == p[0][i]);
                assert(t[i] == s[i]);
            }
        } else {
            assert(q[0] == p[0]);
            assert forall|i: int| 0 <= i < k implies q[0][i] == s[i] by {
                assert(t[i] == s[i]);
            }
        }
    }
}

proof fn lemma_pieces_code_empty(ps: Seq<Seq<char>>)
    requires
        pieces_code(ps).len() == 0,
    ensures
        forall|i: int| 0 <= i < ps.len() ==> is_skipped_piece(#[trigger] ps[i]),
    decreases ps.len(),
{
    if ps.len() > 0 {
        assert(pieces_code(ps) == pieces_code(ps.drop_last()) + piece_code(ps.last()));
        lemma_pieces_code_empty(ps.drop_last());
        assert forall|i: int| 0 <= i < ps.len() implies is_skipped_piece(#[trigger] ps[i]) by {
            if i < ps.len() - 1 {
                assert(ps[i] == ps.drop_last()[i]);
            }
        }
    }
}

/// Only the empty string names the empty path: every other string has a
/// root, a current-directory component or a piece that names a component.
pub proof fn lemma_only_empty_path_is_empty(p: Seq<char>)
    ensures
        same_path(p, Seq::<char>::empty()) ==> p.len() == 0,
{
    let e = Seq::<char>::empty();
    assert(split_by(e, Separator::Slash) == seq![e]);
    assert(pieces_code(seq![e]) == pieces_code(seq![e].drop_last()) + piece_code(e));
    assert(seq![e].drop_last() =~= Seq::<Seq<char>>::empty());
    assert(path_key(e) =~= Seq::<u32>::empty());
    if same_path(p, e) && p.len() > 0 {
        assert(start_code(p).len() == 0);
        assert(pieces_code(split_by(p, Separator::Slash)).len() == 0);
        lemma_pieces_code_empty(split_by(p, Separator::Slash));
        lemma_split_by_nonempty(p, Separator::Slash);
        let first = split_by(p, Separator::Slash)[0];
        assert(is_skipped_piece(first));
        assert(p[0] != '/');
        lemma_first_piece_prefix(p, 1);
        assert(first.len() >= 1 && first[0] == p[0]);
        assert(first == seq!['.']);
        if p.len() >= 2 && p[1] != '/' {
            lemma_first_piece_prefix(p, 2);
            assert(first.len() >= 2);
        }
        if p.len() == 1 {
            assert(p =~= seq!['.']);
        }
        assert(starts_at_cur_dir(p));
    }
}

} // verus!
