//! Splitting text into pieces at separator characters: path components,
//! the paths read from standard input, the lines of a hash file.
use vstd::prelude::*;

use crate::text::{chars_of, string_from, trim, trim_chars};

verus! {

/// The kinds of separator that text is split at.
#[derive(Debug, Clone, Copy, PartialEq, Eq, Structural)]
pub enum Separator {
    /// `/`, between path components.
    Slash,
    /// A newline.
    Newline,
    /// A newline or a NUL character.
    NewlineOrNul,
    /// A double quote.
    Quote,
    /// ASCII whitespace: space, tab, line feed, form feed, carriage return.
    AsciiWhitespace,
}

/// `c` is a separator of kind `k`.
pub open spec fn is_separator(k: Separator, c: char) -> bool {
    match k {
        Separator::Slash => c == '/',
        Separator::Newline => c == '\n',
        Separator::NewlineOrNul => c == '\n' || c == '\0',
        Separator::Quote => c == '"',
        Separator::AsciiWhitespace => c == ' ' || c == '\t' || c == '\n' || c == '\x0C' || c
            == '\r',
    }
}

/// `c` is a separator of kind `k`.
pub fn separator_matches(k: Separator, c: char) -> (r: bool)
    ensures
        r == is_separator(k, c),
{
    match k {
        Separator::Slash => c == '/',
        Separator::Newline => c == '\n',
        Separator::NewlineOrNul => c == '\n' || c == '\0',
        Separator::Quote => c == '"',
        Separator::AsciiWhitespace => c == ' ' || c == '\t' || c == '\n' || c == '\x0C' || c
            == '\r',
    }
}

/// `str::split` at the separators of kind `k`: the pieces between
/// separators, empty pieces included, so that there is always one piece
/// more than there are separators.
pub open spec fn split_by(s: Seq<char>, k: Separator) -> Seq<Seq<char>>
    decreases s.len(),
{
    if s.len() == 0 {
        seq![Seq::<char>::empty()]
    } else {
        let p = split_by(s.drop_last(), k);
        if is_separator(k, s.last()) {
            p.push(Seq::<char>::empty())
        } else {
            p.update(p.len() - 1, p.last().push(s.last()))
        }
    }
}

pub proof fn lemma_split_by_nonempty(s: Seq<char>, k: Separator)
    ensures
        split_by(s, k).len() >= 1,
    decreases s.len(),
{
    if s.len() != 0 {
        lemma_split_by_nonempty(s.drop_last(), k);
    }
}

/// The views of a list of character vectors.
pub open spec fn views(v: Seq<Vec<char>>) -> Seq<Seq<char>> {
    v.map_values(|x: Vec<char>| x@)
}

/// The pieces of `s` between separators of kind `k` (see `split_by`).
pub fn split_chars(s: &Vec<char>, k: Separator) -> (r: Vec<Vec<char>>)
    ensures
        views(r@) == split_by(s@, k),
{
    let n = s.len();
    let mut out: Vec<Vec<char>> = Vec::new();
    let mut cur: Vec<char> = Vec::new();
    let mut i: usize = 0;
    assert(s@.take(0) =~= Seq::<char>::empty());
    assert(views(out@) =~= split_by(Seq::<char>::empty(), k).drop_last());
    while i < n
        invariant
            n == s@.len(),
            i <= n,
            split_by(s@.take(i as int), k).len() >= 1,
            views(out@) == split_by(s@.take(i as int), k).drop_last(),
            cur@ == split_by(s@.take(i as int), k).last(),
        decreases n - i,
    {
        let c = s[i];
        let ghost p = split_by(s@.take(i as int), k);
        assert(s@.take(i + 1).drop_last() =~= s@.take(i as int));
        assert(s@.take(i + 1).last() == c);
        if separator_matches(k, c) {
            assert(split_by(s@.take(i + 1), k) == p.push(Seq::<char>::empty()));
            let ghost before = out@;
            out.push(cur);
            assert(views(out@) =~= views(before).push(p.last()));
            assert(p.push(Seq::<char>::empty()).drop_last() =~= p);
            assert(p =~= p.drop_last().push(p.last()));
            cur = Vec::new();
            assert(cur@ =~= Seq::<char>::empty());
        } else {
            let ghost q = p.update(p.len() - 1, p.last().push(c));
            assert(split_by(s@.take(i + 1), k) == q);
            assert(q.drop_last() =~= p.drop_last());
            cur.push(c);
        }
        i = i + 1;
    }
    let ghost p = split_by(s@.take(n as int), k);
    assert(s@.take(n as int) =~= s@);
    let ghost before = out@;
    out.push(cur);
    assert(views(out@) =~= views(before).push(p.last()));
    assert(p =~= p.drop_last().push(p.last()));
    out
}

/// The pieces that are not empty, in order.
pub open spec fn nonempty_pieces(ps: Seq<Seq<char>>) -> Seq<Seq<char>>
    decreases ps.len(),
{
    if ps.len() == 0 {
        Seq::<Seq<char>>::empty()
    } else {
        let r = nonempty_pieces(ps.drop_last());
        if ps.last().len() > 0 {
            r.push(ps.last())
        } else {
            r
        }
    }
}

/// Each piece without leading and trailing whitespace.
pub open spec fn trimmed_pieces(ps: Seq<Seq<char>>) -> Seq<Seq<char>> {
    ps.map_values(|p: Seq<char>| trim(p))
}

/// The views of a list of strings.
pub open spec fn string_views(v: Seq<String>) -> Seq<Seq<char>> {
    v.map_values(|x: String| x@)
}

/// The non-empty pieces as strings, each trimmed first when `trimmed`.
fn collect_nonempty(pieces: &Vec<Vec<char>>, trimmed: bool) -> (r: Vec<String>)
    ensures
        string_views(r@) == nonempty_pieces(
            if trimmed {
                trimmed_pieces(views(pieces@))
            } else {
                views(pieces@)
            },
        ),
{
    let ghost all = if trimmed {
        trimmed_pieces(views(pieces@))
    } else {
        views(pieces@)
    };
    let mut out: Vec<String> = Vec::new();
    let mut i: usize = 0;
    assert(all.take(0) =~= Seq::<Seq<char>>::empty());
    assert(string_views(out@) =~= Seq::<Seq<char>>::empty());
    while i < pieces.len()
        invariant
            i <= pieces@.len(),
            all.len() == pieces@.len(),
            all == (if trimmed {
                trimmed_pieces(views(pieces@))
            } else {
                views(pieces@)
            }),
            string_views(out@) == nonempty_pieces(all.take(i as int)),
        decreases pieces@.len() - i,
    {
        let piece = if trimmed {
            trim_chars(&pieces[i])
        } else {
            pieces[i].clone()
        };
        assert(piece@ == all[i as int]);
        assert(all.take(i + 1).drop_last() =~= all.take(i as int));
        assert(all.take(i + 1).last() == all[i as int]);
        if piece.len() > 0 {
            let ghost before = out@;
            out.push(string_from(piece.as_slice()));
            assert(string_views(out@) =~= string_views(before).push(piece@));
        }
        i = i + 1;
    }
    assert(all.take(pieces@.len() as int) =~= all);
    out
}

/// `c` occurs in `s`.
pub fn contains_char(s: &Vec<char>, c: char) -> (r: bool)
    ensures
        r == s@.contains(c),
{
    let mut i: usize = 0;
    while i < s.len()
        invariant
            i <= s@.len(),
            forall|k: int| 0 <= k < i ==> s@[k] != c,
        decreases s@.len() - i,
    {
        if s[i] == c {
            assert(s@[i as int] == c);
            return true;
        }
        i = i + 1;
    }
    false
}

/// The paths in what was read from standard input.  Where it holds a
/// newline or a NUL, it is split at those; otherwise, where it holds a
/// double quote, it is split at double quotes and each piece trimmed;
/// otherwise it is split at ASCII whitespace.  Empty pieces are dropped.
pub open spec fn stdin_paths(s: Seq<char>) -> Seq<Seq<char>> {
    if s.contains('\n') || s.contains('\0') {
        nonempty_pieces(split_by(s, Separator::NewlineOrNul))
    } else if s.contains('"') {
        nonempty_pieces(trimmed_pieces(split_by(s, Separator::Quote)))
    } else {
        nonempty_pieces(split_by(s, Separator::AsciiWhitespace))
    }
}

/// The paths in what was read from standard input (see `stdin_paths`).
pub fn split_stdin_paths(text: &str) -> (r: Vec<String>)
    ensures
        string_views(r@) == stdin_paths(text@),
{
    let chars = chars_of(text);
    if contains_char(&chars, '\n') || contains_char(&chars, '\0') {
        let pieces = split_chars(&chars, Separator::NewlineOrNul);
        collect_nonempty(&pieces, false)
    } else if contains_char(&chars, '"') {
        let pieces = split_chars(&chars, Separator::Quote);
        collect_nonempty(&pieces, true)
    } else {
        let pieces = split_chars(&chars, Separator::AsciiWhitespace);
        collect_nonempty(&pieces, false)
    }
}

/// `p` without one trailing carriage return.
pub open spec fn without_cr(p: Seq<char>) -> Seq<char> {
    if p.len() > 0 && p.last() == '\r' {
        p.drop_last()
    } else {
        p
    }
}

/// The lines of a hash file, as rayon's `par_lines` yields them: the pieces
/// between newlines, without an empty last piece after a final newline, each
/// without one trailing carriage return.
pub open spec fn file_lines(s: Seq<char>) -> Seq<Seq<char>> {
    let ps = split_by(s, Separator::Newline);
    let body = if ps.last().len() == 0 {
        ps.drop_last()
    } else {
        ps
    };
    body.map_values(|p: Seq<char>| without_cr(p))
}

/// The lines of a hash file (see `file_lines`).
pub fn split_file_lines(text: &str) -> (r: Vec<String>)
    ensures
        string_views(r@) == file_lines(text@),
{
    let chars = chars_of(text);
    let pieces = split_chars(&chars, Separator::Newline);
    proof {
        lemma_split_by_nonempty(text@, Separator::Newline);
    }
    let n = pieces.len();
    let count: usize = if pieces[n - 1].len() == 0 {
        n - 1
    } else {
        n
    };
    let ghost ps = split_by(text@, Separator::Newline);
    let ghost body = if ps.last().len() == 0 {
        ps.drop_last()
    } else {
        ps
    };
    assert(views(pieces@)[n - 1] == pieces@[n - 1]@);
    assert(body.len() == count);
    let mut out: Vec<String> = Vec::new();
    let mut i: usize = 0;
    while i < count
        invariant
            count <= n,
            n == pieces@.len(),
            views(pieces@) == ps,
            body.len() == count,
            forall|k: int| 0 <= k < count ==> body[k] == ps[k],
            string_views(out@) == body.take(i as int).map_values(|p: Seq<char>| without_cr(p)),
            i <= count,
        decreases count - i,
    {
        let piece = &pieces[i];
        assert(piece@ == ps[i as int]);
        let m = piece.len();
        let line = if m > 0 && piece[m - 1] == '\r' {
            string_from(&piece.as_slice()[0..m - 1])
        } else {
            string_from(piece.as_slice())
        };
        proof {
            if m > 0 && piece@[m - 1] == '\r' {
                assert(piece@.subrange(0, m - 1) =~= piece@.drop_last());
            }
        }
        assert(line@ == without_cr(body[i as int]));
        let ghost before = out@;
        out.push(line);
        assert(string_views(out@) =~= string_views(before).push(line@));
        assert(body.take(i + 1).map_values(|p: Seq<char>| without_cr(p)) =~= body.take(
            i as int,
        ).map_values(|p: Seq<char>| without_cr(p)).push(without_cr(body[i as int])));
        i = i + 1;
    }
    assert(body.take(count as int) =~= body);
    out
}

proof fn lemma_nonempty_pieces_nonempty(ps: Seq<Seq<char>>)
    ensures
        forall|i: int| 0 <= i < nonempty_pieces(ps).len() ==> (#[trigger] nonempty_pieces(ps)[i]).len() > 0,
    decreases ps.len(),
{
    if ps.len() > 0 {
        lemma_nonempty_pieces_nonempty(ps.drop_last());
        let r = nonempty_pieces(ps.drop_last());
        assert forall|i: int| 0 <= i < nonempty_pieces(ps).len() implies (#[trigger] nonempty_pieces(ps)[i]).len() > 0 by {
            if i < r.len() {
                assert(nonempty_pieces(ps)[i] == r[i]);
            }
        }
    }
}

/// No path read from standard input is empty.
pub proof fn lemma_stdin_paths_nonempty(s: Seq<char>)
    ensures
        forall|i: int| 0 <= i < stdin_paths(s).len() ==> (#[trigger] stdin_paths(s)[i]).len() > 0,
{
    lemma_nonempty_pieces_nonempty(split_by(s, Separator::NewlineOrNul));
    lemma_nonempty_pieces_nonempty(trimmed_pieces(split_by(s, Separator::Quote)));
    lemma_nonempty_pieces_nonempty(split_by(s, Separator::AsciiWhitespace));
}

/// Input with a newline or a NUL is split at newlines and NULs only: the
/// paths are exactly the non-empty pieces between those characters, so a
/// path holding spaces or quotes stays whole.
pub proof fn lemma_delimited_input_splits_at_lines(s: Seq<char>)
    requires
        s.contains('\n') || s.contains('\0'),
    ensures
        stdin_paths(s) == nonempty_pieces(split_by(s, Separator::NewlineOrNul)),
        forall|c: char| is_separator(Separator::NewlineOrNul, c) <==> (c == '\n' || c == '\0'),
{
}

} // verus!
