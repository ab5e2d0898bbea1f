//! Character-level helpers on strings.
use vstd::prelude::*;
use vstd::string::{StrSliceExecFns, StringExecFns};

verus! {

broadcast use vstd::string::group_string_axioms;

/// The characters of `s`, in order.
pub fn chars_of(s: &str) -> (r: Vec<char>)
    ensures
        r@ == s@,
{
    let mut r: Vec<char> = Vec::new();
    for c in it: s.chars()
        invariant
            r@ == it.seq().take(it.index() as int),
            it.seq() == s@,
    {
        r.push(c);
    }
    r
}

/// `String::push`: appends one character.
#[verifier::external_body]
pub fn push_char(s: &mut String, c: char)
    ensures
        final(s)@ == old(s)@.push(c),
{
    s.push(c);
}

/// Appends the characters of `chars` to `s`.
pub fn push_chars(s: &mut String, chars: &[char])
    ensures
        final(s)@ == old(s)@ + chars@,
{
    let ghost start = s@;
    let mut i: usize = 0;
    while i < chars.len()
        invariant
            i <= chars.len(),
            s@ == start + chars@.take(i as int),
        decreases chars.len() - i,
    {
        push_char(s, chars[i]);
        assert(chars@.take(i + 1) =~= chars@.take(i as int).push(chars@[i as int]));
        i = i + 1;
    }
    assert(chars@.take(chars.len() as int) =~= chars@);
}

/// A string holding exactly `chars`.
pub fn string_from(chars: &[char]) -> (r: String)
    ensures
        r@ == chars@,
{
    let mut r = String::new();
    push_chars(&mut r, chars);
    r
}

/// `n` spaces.
pub open spec fn spaces(n: nat) -> Seq<char>
    decreases n,
{
    if n == 0 {
        Seq::<char>::empty()
    } else {
        spaces((n - 1) as nat).push(' ')
    }
}

/// `s` left-aligned in a field of `width` characters: padded with spaces on
/// the right when it is shorter.
pub open spec fn pad_right(s: Seq<char>, width: nat) -> Seq<char> {
    if s.len() < width {
        s + spaces((width - s.len()) as nat)
    } else {
        s
    }
}

/// Appends `s` left-aligned in a field of `width` characters.
pub fn push_padded(out: &mut String, s: &str, width: usize)
    ensures
        final(out)@ == old(out)@ + pad_right(s@, width as nat),
{
    let n = s.unicode_len();
    out.append(s);
    if n < width {
        let ghost base = out@;
        let mut k: usize = 0;
        while k < width - n
            invariant
                n == s@.len(),
                n < width,
                k <= width - n,
                out@ == base + spaces(k as nat),
            decreases width - n - k,
        {
            push_char(out, ' ');
            k = k + 1;
        }
        assert(out@ =~= old(out)@ + (s@ + spaces((width - n) as nat)));
    } else {
        assert(out@ =~= old(out)@ + s@);
    }
}

/// The code points of a string.  Their lexicographic order is the order of
/// `str` (UTF-8 preserves the order of code points).
pub open spec fn units(s: Seq<char>) -> Seq<u32> {
    s.map_values(|c: char| c as u32)
}

/// The code points of a string (see `units`).
pub fn code_units(s: &str) -> (r: Vec<u32>)
    ensures
        r@ == units(s@),
{
    let chars = chars_of(s);
    let mut out: Vec<u32> = Vec::new();
    let mut i: usize = 0;
    while i < chars.len()
        invariant
            chars@ == s@,
            i <= chars@.len(),
            out@ == units(chars@.take(i as int)),
        decreases chars@.len() - i,
    {
        let c = chars[i];
        out.push(c as u32);
        assert(units(chars@.take(i + 1)) =~= units(chars@.take(i as int)).push(c as u32));
        i = i + 1;
    }
    assert(chars@.take(chars@.len() as int) =~= chars@);
    out
}

/// `char::is_whitespace`: the character has the Unicode White_Space
/// property.
pub open spec fn is_whitespace(c: char) -> bool {
    let u = c as u32;
    (0x9 <= u <= 0xD) || u == 0x20 || u == 0x85 || u == 0xA0 || u == 0x1680 || (0x2000 <= u
        <= 0x200A) || u == 0x2028 || u == 0x2029 || u == 0x202F || u == 0x205F || u == 0x3000
}

/// The character has the Unicode White_Space property.
pub fn char_is_whitespace(c: char) -> (r: bool)
    ensures
        r == is_whitespace(c),
{
    let u = c as u32;
    (0x9 <= u && u <= 0xD) || u == 0x20 || u == 0x85 || u == 0xA0 || u == 0x1680 || (0x2000 <= u
        && u <= 0x200A) || u == 0x2028 || u == 0x2029 || u == 0x202F || u == 0x205F || u == 0x3000
}

/// `s` without leading whitespace.
pub open spec fn trim_start(s: Seq<char>) -> Seq<char>
    decreases s.len(),
{
    if s.len() > 0 && is_whitespace(s[0]) {
        trim_start(s.drop_first())
    } else {
        s
    }
}

/// `s` without trailing whitespace.
pub open spec fn trim_end(s: Seq<char>) -> Seq<char>
    decreases s.len(),
{
    if s.len() > 0 && is_whitespace(s.last()) {
        trim_end(s.drop_last())
    } else {
        s
    }
}

/// `str::trim`: `s` without leading and trailing whitespace.
pub open spec fn trim(s: Seq<char>) -> Seq<char> {
    trim_end(trim_start(s))
}

proof fn lemma_trim_start_skip(s: Seq<char>, i: int)
    requires
        0 <= i <= s.len(),
        forall|k: int| 0 <= k < i ==> is_whitespace(#[trigger] s[k]),
    ensures
        trim_start(s) == trim_start(s.skip(i)),
    decreases i,
{
    if i > 0 {
        assert(s.drop_first().skip(i - 1) =~= s.skip(i));
        lemma_trim_start_skip(s.drop_first(), i - 1);
    } else {
        assert(s.skip(0) =~= s);
    }
}

proof fn lemma_trim_end_take(s: Seq<char>, j: int)
    requires
        0 <= j <= s.len(),
        forall|k: int| j <= k < s.len() ==> is_whitespace(#[trigger] s[k]),
    ensures
        trim_end(s) == trim_end(s.take(j)),
    decreases s.len() - j,
{
    if j < s.len() {
        assert(s.drop_last().take(j) =~= s.take(j));
        lemma_trim_end_take(s.drop_last(), j);
    } else {
        assert(s.take(j) =~= s);
    }
}

/// The characters of `s` without leading and trailing whitespace.
pub fn trim_chars(s: &Vec<char>) -> (r: Vec<char>)
    ensures
        r@ == trim(s@),
{
    let n = s.len();
    let mut i: usize = 0;
    while i < n && char_is_whitespace(s[i])
        invariant
            n == s@.len(),
            i <= n,
            forall|k: int| 0 <= k < i ==> is_whitespace(#[trigger] s@[k]),
        decreases n - i,
    {
        i = i + 1;
    }
    proof {
        lemma_trim_start_skip(s@, i as int);
        if i < n {
            assert(!is_whitespace(s@.skip(i as int)[0]));
        }
    }
    let mut j: usize = n;
    while j > i && char_is_whitespace(s[j - 1])
        invariant
            n == s@.len(),
            i <= j <= n,
            forall|k: int| j <= k < n ==> is_whitespace(#[trigger] s@[k]),
        decreases j,
    {
        j = j - 1;
    }
    let ghost t = s@.skip(i as int);
    proof {
        assert forall|k: int| j - i <= k < t.len() implies is_whitespace(#[trigger] t[k]) by {
            assert(t[k] == s@[k + i]);
        }
        lemma_trim_end_take(t, j - i);
        assert(trim_start(s@) == t);
        if j > i {
            assert(t.take(j - i).last() == s@[j - 1]);
        } else {
            assert(t.take(0) =~= Seq::<char>::empty());
        }
    }
    let mut r: Vec<char> = Vec::new();
    let mut k: usize = i;
    while k < j
        invariant
            i <= k <= j <= n,
            n == s@.len(),
            r@ == s@.subrange(i as int, k as int),
        decreases j - k,
    {
        r.push(s[k]);
        assert(s@.subrange(i as int, k + 1) =~= s@.subrange(i as int, k as int).push(s@[k as int]));
        k = k + 1;
    }
    assert(r@ =~= t.take(j - i));
    r
}

/// `s` without leading `c` characters (`str::trim_start_matches` with a
/// character).
pub open spec fn strip_leading(s: Seq<char>, c: char) -> Seq<char>
    decreases s.len(),
{
    if s.len() > 0 && s[0] == c {
        strip_leading(s.drop_first(), c)
    } else {
        s
    }
}

/// The characters of `s` without leading `c` characters.
pub fn strip_leading_chars(s: &Vec<char>, c: char) -> (r: Vec<char>)
    ensures
        r@ == strip_leading(s@, c),
{
    let n = s.len();
    let mut i: usize = 0;
    assert(s@.skip(0) =~= s@);
    while i < n && s[i] == c
        invariant
            n == s@.len(),
            i <= n,
            strip_leading(s@, c) == strip_leading(s@.skip(i as int), c),
        decreases n - i,
    {
        assert(s@.skip(i as int).drop_first() =~= s@.skip(i + 1));
        i = i + 1;
    }
    proof {
        if i == 0 {
            assert(s@.skip(0) =~= s@);
        }
    }
    let mut r: Vec<char> = Vec::new();
    let mut k: usize = i;
    while k < n
        invariant
            i <= k <= n,
            n == s@.len(),
            r@ == s@.subrange(i as int, k as int),
        decreases n - k,
    {
        r.push(s[k]);
        assert(s@.subrange(i as int, k + 1) =~= s@.subrange(i as int, k as int).push(s@[k as int]));
        k = k + 1;
    }
    assert(r@ =~= s@.skip(i as int));
    r
}

/// `sub` occurs in `s` at index `i`.
pub open spec fn occurs_at(s: Seq<char>, sub: Seq<char>, i: int) -> bool {
    0 <= i && i + sub.len() <= s.len() && s.subrange(i, i + sub.len()) == sub
}

/// `str::contains`: `sub` occurs somewhere in `s`.
pub open spec fn has_substring(s: Seq<char>, sub: Seq<char>) -> bool {
    exists|i: int| occurs_at(s, sub, i)
}

/// `sub` occurs in `s` at index `i`.
fn occurs_at_exec(s: &Vec<char>, sub: &Vec<char>, i: usize) -> (r: bool)
    requires
        i + sub@.len() <= s@.len(),
    ensures
        r == occurs_at(s@, sub@, i as int),
{
    let mut k: usize = 0;
    while k < sub.len()
        invariant
            k <= sub@.len(),
            i + sub@.len() <= s@.len(),
            forall|m: int| 0 <= m < k ==> s@[i + m] == sub@[m],
        decreases sub@.len() - k,
    {
        let sl = s.len();
        assert(i + k < sl);
        if s[i + k] != sub[k] {
            assert(s@.subrange(i as int, i + sub@.len())[k as int] != sub@[k as int]);
            return false;
        }
        k = k + 1;
    }
    assert(s@.subrange(i as int, i + sub@.len()) =~= sub@);
    true
}

/// `sub` occurs somewhere in `s`.
pub fn contains_str(s: &str, sub: &str) -> (r: bool)
    ensures
        r == has_substring(s@, sub@),
{
    let sc = chars_of(s);
    let subc = chars_of(sub);
    contains_chars(&sc, &subc)
}

/// `sub` occurs somewhere in `s`.
pub fn contains_chars(s: &Vec<char>, sub: &Vec<char>) -> (r: bool)
    ensures
        r == has_substring(s@, sub@),
{
    if sub.len() > s.len() {
        return false;
    }
    if sub.len() == 0 {
        assert(occurs_at(s@, sub@, 0)) by {
            assert(s@.subrange(0, 0) =~= sub@);
        }
        return true;
    }
    let count = s.len() - sub.len() + 1;
    let mut i: usize = 0;
    while i < count
        invariant
            1 <= sub@.len() <= s@.len(),
            count == s@.len() - sub@.len() + 1,
            i <= count,
            forall|m: int| 0 <= m < i ==> !occurs_at(s@, sub@, m),
        decreases count - i,
    {
        if occurs_at_exec(s, sub, i) {
            return true;
        }
        i = i + 1;
    }
    false
}

/// The index of the first `c` in `s`, if any.
pub open spec fn first_index_of(s: Seq<char>, c: char) -> Option<int>
    decreases s.len(),
{
    if s.len() == 0 {
        None
    } else if s[0] == c {
        Some(0)
    } else {
        match first_index_of(s.drop_first(), c) {
            Some(i) => Some(i + 1),
            None => None,
        }
    }
}

proof fn lemma_first_index_of(s: Seq<char>, c: char)
    ensures
        first_index_of(s, c) matches Some(i) ==> 0 <= i < s.len() && s[i] == c && forall|k: int|
            0 <= k < i ==> s[k] != c,
        first_index_of(s, c) is None ==> forall|k: int| 0 <= k < s.len() ==> s[k] != c,
    decreases s.len(),
{
    if s.len() > 0 && s[0] != c {
        lemma_first_index_of(s.drop_first(), c);
        assert forall|k: int| 1 <= k < s.len() implies s[k] == s.drop_first()[k - 1] by {}
    }
}

/// The index of the first `c` in `s`, if any.
pub fn find_char(s: &Vec<char>, c: char) -> (r: Option<usize>)
    ensures
        r matches Some(i) ==> first_index_of(s@, c) == Some(i as int),
        r is None ==> first_index_of(s@, c) is None,
{
    let mut i: usize = 0;
    while i < s.len()
        invariant
            i <= s@.len(),
            forall|k: int| 0 <= k < i ==> s@[k] != c,
        decreases s@.len() - i,
    {
        if s[i] == c {
            proof {
                lemma_first_index_of(s@, c);
            }
            return Some(i);
        }
        i = i + 1;
    }
    proof {
        lemma_first_index_of(s@, c);
    }
    None
}

/// The characters of `s` from `from` to `to`.
pub fn slice_chars(s: &Vec<char>, from: usize, to: usize) -> (r: Vec<char>)
    requires
        from <= to <= s@.len(),
    ensures
        r@ == s@.subrange(from as int, to as int),
{
    let mut r: Vec<char> = Vec::new();
    let mut k: usize = from;
    while k < to
        invariant
            from <= k <= to <= s@.len(),
            r@ == s@.subrange(from as int, k as int),
        decreases to - k,
    {
        r.push(s[k]);
        assert(s@.subrange(from as int, k + 1) =~= s@.subrange(from as int, k as int).push(
            s@[k as int],
        ));
        k = k + 1;
    }
    r
}

/// `str::split_once` with a character: the parts before and after the
/// first `c`, if there is one.
pub open spec fn split_once_at(s: Seq<char>, c: char) -> Option<(Seq<char>, Seq<char>)> {
    match first_index_of(s, c) {
        Some(i) => Some((s.take(i), s.skip(i + 1))),
        None => None,
    }
}

/// The parts of `s` before and after the first `c`, if there is one.
pub fn split_once_chars(s: &Vec<char>, c: char) -> (r: Option<(Vec<char>, Vec<char>)>)
    ensures
        match split_once_at(s@, c) {
            Some((a, b)) => r matches Some((x, y)) && x@ == a && y@ == b,
            None => r is None,
        },
{
    proof {
        lemma_first_index_of(s@, c);
    }
    match find_char(s, c) {
        Some(i) => {
            let n = s.len();
            assert(i < n);
            let a = slice_chars(s, 0, i);
            let b = slice_chars(s, i + 1, n);
            assert(a@ =~= s@.take(i as int));
            assert(b@ =~= s@.skip(i + 1));
            Some((a, b))
        },
        None => None,
    }
}

/// The digit character of a value below 16, lower or upper case.
pub open spec fn digit_char(d: nat, upper: bool) -> char {
    if d == 0 {
        '0'
    } else if d == 1 {
        '1'
    } else if d == 2 {
        '2'
    } else if d == 3 {
        '3'
    } else if d == 4 {
        '4'
    } else if d == 5 {
        '5'
    } else if d == 6 {
        '6'
    } else if d == 7 {
        '7'
    } else if d == 8 {
        '8'
    } else if d == 9 {
        '9'
    } else if d == 10 {
        if upper {
            'A'
        } else {
            'a'
        }
    } else if d == 11 {
        if upper {
            'B'
        } else {
            'b'
        }
    } else if d == 12 {
        if upper {
            'C'
        } else {
            'c'
        }
    } else if d == 13 {
        if upper {
            'D'
        } else {
            'd'
        }
    } else if d == 14 {
        if upper {
            'E'
        } else {
            'e'
        }
    } else if d == 15 {
        if upper {
            'F'
        } else {
            'f'
        }
    } else {
        '?'
    }
}

/// The digits of `n` in `radix` (2 to 16), most significant first, without
/// leading zeros; `0` for zero.
pub open spec fn digits(n: nat, radix: nat, upper: bool) -> Seq<char>
    decreases n,
{
    if radix < 2 || n < radix {
        seq![digit_char(n, upper)]
    } else {
        proof {
            vstd::arithmetic::div_mod::lemma_div_decreases(n as int, radix as int);
        }
        digits(n / radix, radix, upper).push(digit_char(n % radix, upper))
    }
}

pub(crate) fn digit_of(d: u8, upper: bool) -> (c: char)
    requires
        d < 16,
    ensures
        c == digit_char(d as nat, upper),
{
    if d == 0 {
        '0'
    } else if d == 1 {
        '1'
    } else if d == 2 {
        '2'
    } else if d == 3 {
        '3'
    } else if d == 4 {
        '4'
    } else if d == 5 {
        '5'
    } else if d == 6 {
        '6'
    } else if d == 7 {
        '7'
    } else if d == 8 {
        '8'
    } else if d == 9 {
        '9'
    } else if d == 10 {
        if upper {
            'A'
        } else {
            'a'
        }
    } else if d == 11 {
        if upper {
            'B'
        } else {
            'b'
        }
    } else if d == 12 {
        if upper {
            'C'
        } else {
            'c'
        }
    } else if d == 13 {
        if upper {
            'D'
        } else {
            'd'
        }
    } else if d == 14 {
        if upper {
            'E'
        } else {
            'e'
        }
    } else if d == 15 {
        if upper {
            'F'
        } else {
            'f'
        }
    } else {
        '?'
    }
}

/// `n` written in `radix`: `{}`, `{:x}` and `{:X}` formatting.
pub fn format_radix(n: u128, radix: u8, upper: bool) -> (r: String)
    requires
        2 <= radix <= 16,
    ensures
        r@ == digits(n as nat, radix as nat, upper),
{
    let rd = radix as u128;
    let mut rev: Vec<char> = Vec::new();
    let mut m: u128 = n;
    // the digits of m, followed by rev reversed, are the digits of n
    let ghost mut acc: Seq<char> = Seq::empty();
    while m >= rd
        invariant
            2 <= rd <= 16,
            rd == radix as u128,
            digits(n as nat, radix as nat, upper) == digits(m as nat, radix as nat, upper) + acc,
            rev@ == acc.reverse(),
        decreases m,
    {
        let d = (m % rd) as u8;
        let c = digit_of(d, upper);
        proof {
            assert(digits(m as nat, radix as nat, upper) == digits((m / rd) as nat, radix as nat, upper).push(c));
            assert(digits((m / rd) as nat, radix as nat, upper).push(c) + acc =~= digits(
                (m / rd) as nat,
                radix as nat,
                upper,
            ) + seq![c].add(acc));
            assert(seq![c].add(acc).reverse() =~= acc.reverse().push(c));
            acc = seq![c].add(acc);
        }
        rev.push(c);
        m = m / rd;
    }
    let c = digit_of(m as u8, upper);
    proof {
        assert(digits(m as nat, radix as nat, upper) == seq![c]);
        acc = seq![c].add(acc);
        assert(seq![c].add(acc.drop_first()).reverse() =~= acc.drop_first().reverse().push(c)) by {
            assert(acc =~= seq![c].add(acc.drop_first()));
        }
    }
    rev.push(c);
    let mut r = String::new();
    let mut i: usize = rev.len();
    let ghost target = digits(n as nat, radix as nat, upper);
    assert(rev@ =~= acc.reverse());
    assert(target == acc);
    while i > 0
        invariant
            i <= rev@.len(),
            rev@ == target.reverse(),
            r@ == target.take(rev@.len() - i),
        decreases i,
    {
        i = i - 1;
        push_char(&mut r, rev[i]);
        assert(target.take(rev@.len() - i) =~= target.take(rev@.len() - i - 1).push(rev@[i as int]));
    }
    assert(target.take(rev@.len() as int) =~= target);
    r
}

/// The value of a hexadecimal digit.
pub open spec fn hex_digit_value(c: char) -> nat {
    let u = c as u32;
    if 0x30 <= u <= 0x39 {
        (u - 0x30) as nat
    } else if 0x61 <= u <= 0x66 {
        (u - 0x61 + 10) as nat
    } else {
        (u - 0x41 + 10) as nat
    }
}

/// The number that a sequence of digits in `radix` writes.
pub open spec fn digits_value(s: Seq<char>, radix: nat) -> nat
    decreases s.len(),
{
    if s.len() == 0 {
        0
    } else {
        digits_value(s.drop_last(), radix) * radix + hex_digit_value(s.last())
    }
}

/// The value of the digit character of `d` is `d`.
proof fn lemma_digit_char_value(d: nat, upper: bool)
    requires
        d < 16,
    ensures
        hex_digit_value(digit_char(d, upper)) == d,
{
}

/// Writing a number in a radix and reading it back gives the number.
pub proof fn lemma_digits_value(n: nat, radix: nat, upper: bool)
    requires
        2 <= radix <= 16,
    ensures
        digits_value(digits(n, radix, upper), radix) == n,
    decreases n,
{
    let s = digits(n, radix, upper);
    if n >= radix {
        vstd::arithmetic::div_mod::lemma_div_decreases(n as int, radix as int);
        lemma_digits_value(n / radix, radix, upper);
        assert(s.drop_last() == digits(n / radix, radix, upper));
        assert(n == (n / radix) * radix + n % radix) by (nonlinear_arith)
            requires
                radix > 0,
        ;
        lemma_digit_char_value(n % radix, upper);
        assert(s.last() == digit_char(n % radix, upper));
        let z = digits_value(s.drop_last(), radix);
        assert(z == n / radix);
        assert(digits_value(s, radix) == z * radix + hex_digit_value(s.last()));
    } else {
        assert(s.drop_last() =~= Seq::<char>::empty());
        lemma_digit_char_value(n, upper);
        assert(digits_value(s, radix) == digits_value(s.drop_last(), radix) * radix
            + hex_digit_value(s.last()));
        let z = digits_value(s.drop_last(), radix);
        assert(z == 0);
        assert(z * radix == 0) by (nonlinear_arith)
            requires
                z == 0,
        ;
    }
}

/// The two strings are equal.
pub fn str_equal(a: &str, b: &str) -> (r: bool)
    ensures
        r == (a@ == b@),
{
    let x = chars_of(a);
    let y = chars_of(b);
    if x.len() != y.len() {
        assert(a@.len() != b@.len());
        return false;
    }
    let mut i: usize = 0;
    while i < x.len()
        invariant
            x@ == a@,
            y@ == b@,
            x@.len() == y@.len(),
            i <= x@.len(),
            forall|k: int| 0 <= k < i ==> x@[k] == y@[k],
        decreases x@.len() - i,
    {
        if x[i] != y[i] {
            assert(a@[i as int] != b@[i as int]);
            return false;
        }
        i = i + 1;
    }
    assert(x@ =~= y@);
    true
}

} // verus!
