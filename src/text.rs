//! Small verified helpers on character sequences and strings.

use vstd::prelude::*;
use vstd::string::*;
use vstd::std_specs::iter::IteratorSpec;

verus! {

/// Equality of two strings, character by character.
pub fn str_eq(a: &str, b: &str) -> (r: bool)
    ensures
        r == (a@ == b@),
{
    let n = a.unicode_len();
    let m = b.unicode_len();
    if n != m {
        return false;
    }
    let mut i: usize = 0;
    while i < n
        invariant
            n == a@.len(),
            m == b@.len(),
            n == m,
            i <= n,
            a@.subrange(0, i as int) == b@.subrange(0, i as int),
        decreases n - i,
    {
        if a.get_char(i) != b.get_char(i) {
            return false;
        }
        assert(a@.subrange(0, i + 1) =~= a@.subrange(0, i as int).push(a@[i as int]));
        assert(b@.subrange(0, i + 1) =~= b@.subrange(0, i as int).push(b@[i as int]));
        i = i + 1;
    }
    assert(a@ =~= a@.subrange(0, n as int));
    assert(b@ =~= b@.subrange(0, n as int));
    true
}

/// `n` levels of indentation, two spaces each.
pub open spec fn tabs(n: nat) -> Seq<char> {
    Seq::new(2 * n, |i: int| ' ')
}

/// Builds the indentation of depth `n`.
pub fn make_tabs(n: usize) -> (r: String)
    requires
        n <= usize::MAX / 2,
    ensures
        r@ == tabs(n as nat),
{
    let mut out = String::new();
    let mut i: usize = 0;
    proof {
        reveal_strlit("  ");
        assert("  "@ =~= seq![' ', ' ']);
    }
    while i < n
        invariant
            i <= n,
            out@ == tabs(i as nat),
            "  "@ == seq![' ', ' '],
        decreases n - i,
    {
        out.append("  ");
        assert(out@ =~= tabs(i as nat) + seq![' ', ' ']);
        assert(out@ =~= tabs((i + 1) as nat));
        i = i + 1;
    }
    out
}

} // verus!

verus! {

/// The decimal digit character of `d`.
pub open spec fn digit_char(d: nat) -> char {
    if d == 0 { '0' } else if d == 1 { '1' } else if d == 2 { '2' } else if d == 3 { '3' }
    else if d == 4 { '4' } else if d == 5 { '5' } else if d == 6 { '6' } else if d == 7 { '7' }
    else if d == 8 { '8' } else { '9' }
}

/// The decimal text of `n`, without leading zeros.
pub open spec fn decimal(n: nat) -> Seq<char>
    decreases n,
{
    if n < 10 {
        seq![digit_char(n)]
    } else {
        decimal(n / 10).push(digit_char(n % 10))
    }
}

fn digit_str(d: usize) -> (r: &'static str)
    requires
        d < 10,
    ensures
        r@ == seq![digit_char(d as nat)],
{
    proof {
        reveal_strlit("0");
        reveal_strlit("1");
        reveal_strlit("2");
        reveal_strlit("3");
        reveal_strlit("4");
        reveal_strlit("5");
        reveal_strlit("6");
        reveal_strlit("7");
        reveal_strlit("8");
        reveal_strlit("9");
    }
    let r = if d == 0 { "0" } else if d == 1 { "1" } else if d == 2 { "2" } else if d == 3 { "3" }
    else if d == 4 { "4" } else if d == 5 { "5" } else if d == 6 { "6" } else if d == 7 { "7" }
    else if d == 8 { "8" } else { "9" };
    assert(r@ =~= seq![digit_char(d as nat)]);
    r
}

/// Writes `n` in decimal.
pub fn to_decimal(n: usize) -> (r: String)
    ensures
        r@ == decimal(n as nat),
    decreases n,
{
    if n < 10 {
        String::from_str(digit_str(n))
    } else {
        let mut s = to_decimal(n / 10);
        s.append(digit_str(n % 10));
        assert(s@ =~= decimal(n as nat));
        s
    }
}

/// Whether `c` is an ASCII decimal digit.
pub open spec fn is_digit(c: char) -> bool {
    '0' <= c && c <= '9'
}

/// Whether every character of `s` from index `from` on is a digit, and there is one.
pub open spec fn digits_from(s: Seq<char>, from: int) -> bool {
    from < s.len() && forall|k: int| from <= k < s.len() ==> is_digit(#[trigger] s[k])
}

/// Tests `digits_from(s@, from)`.
pub fn all_digits_from(s: &str, from: usize) -> (r: bool)
    ensures
        r == digits_from(s@, from as int),
{
    let n = s.unicode_len();
    if from >= n {
        return false;
    }
    let mut i: usize = from;
    while i < n
        invariant
            from <= i <= n,
            n == s@.len(),
            forall|k: int| from <= k < i ==> is_digit(#[trigger] s@[k]),
        decreases n - i,
    {
        let c = s.get_char(i);
        if !('0' <= c && c <= '9') {
            return false;
        }
        i = i + 1;
    }
    true
}

/// A copy of the characters `from..to` of `s`.
pub fn substring(s: &str, from: usize, to: usize) -> (r: String)
    requires
        from <= to <= s@.len(),
    ensures
        r@ == s@.subrange(from as int, to as int),
{
    String::from_str(s.substring_char(from, to))
}

} // verus!

verus! {

/// The texts of a sequence of strings.
pub open spec fn views(v: Seq<String>) -> Seq<Seq<char>> {
    v.map_values(|x: String| x@)
}

/// The elements of `a` joined, each preceded by `sep`.
pub open spec fn prefixed(sep: Seq<char>, a: Seq<Seq<char>>) -> Seq<char>
    decreases a.len(),
{
    if a.len() == 0 {
        Seq::empty()
    } else {
        sep + a[0] + prefixed(sep, a.drop_first())
    }
}

} // verus!

verus! {

/// Blank characters around a line or a token.
pub open spec fn is_ws(c: char) -> bool {
    is_white(c)
}

/// The characters with the Unicode `White_Space` property.
pub open spec fn is_white(c: char) -> bool {
    c == ' ' || ('\u{9}' <= c && c <= '\u{d}') || c == '\u{85}' || c == '\u{a0}' || c
        == '\u{1680}' || ('\u{2000}' <= c && c <= '\u{200a}') || c == '\u{2028}' || c
        == '\u{2029}' || c == '\u{202f}' || c == '\u{205f}' || c == '\u{3000}'
}

/// Tests `is_white(c)`.
pub fn is_white_char(c: char) -> (r: bool)
    ensures
        r == is_white(c),
{
    c == ' ' || ('\u{9}' <= c && c <= '\u{d}') || c == '\u{85}' || c == '\u{a0}' || c
        == '\u{1680}' || ('\u{2000}' <= c && c <= '\u{200a}') || c == '\u{2028}' || c
        == '\u{2029}' || c == '\u{202f}' || c == '\u{205f}' || c == '\u{3000}'
}

/// The first index at or after `i` that is not blank, or the length.
pub open spec fn skip_ws(t: Seq<char>, i: int) -> int
    decreases t.len() - i,
{
    if 0 <= i < t.len() && is_ws(t[i]) {
        skip_ws(t, i + 1)
    } else {
        i
    }
}

/// The end `j` shortened past blanks, but not below `a`.
pub open spec fn back_ws(t: Seq<char>, a: int, j: int) -> int
    decreases j - a,
{
    if a < j <= t.len() && is_ws(t[j - 1]) {
        back_ws(t, a, j - 1)
    } else {
        j
    }
}

/// `t` without blanks at either end.
pub open spec fn trim(t: Seq<char>) -> Seq<char> {
    let a = skip_ws(t, 0);
    t.subrange(a, back_ws(t, a, t.len() as int))
}

/// Whether `t` begins with `p`.
pub open spec fn starts_with(t: Seq<char>, p: Seq<char>) -> bool {
    p.len() <= t.len() && t.subrange(0, p.len() as int) == p
}

/// The first index at or after `i` that holds `c`, or the length.
pub open spec fn find_char(t: Seq<char>, i: int, c: char) -> int
    decreases t.len() - i,
{
    if 0 <= i < t.len() && t[i] != c {
        find_char(t, i + 1, c)
    } else {
        i
    }
}

/// The comma-separated pieces of `t` from `i` on, each trimmed.
pub open spec fn split_from(t: Seq<char>, i: int) -> Seq<Seq<char>>
    decreases t.len() - i,
{
    let k = find_char(t, i, ',');
    if i < 0 || i > t.len() || k < i || k >= t.len() {
        seq![trim(t.subrange(i, t.len() as int))]
    } else {
        seq![trim(t.subrange(i, k))] + split_from(t, k + 1)
    }
}

/// The comma-separated pieces of `t`, each trimmed.
pub open spec fn split_commas(t: Seq<char>) -> Seq<Seq<char>> {
    split_from(t, 0)
}

/// Index of the first `c` at or after `from`, or the length.
pub fn find_char_from(s: &str, from: usize, c: char) -> (r: usize)
    requires
        from <= s@.len(),
    ensures
        r == find_char(s@, from as int, c),
        from <= r <= s@.len(),
{
    let n = s.unicode_len();
    let mut i: usize = from;
    while i < n && s.get_char(i) != c
        invariant
            from <= i <= n,
            n == s@.len(),
            find_char(s@, i as int, c) == find_char(s@, from as int, c),
        decreases n - i,
    {
        i = i + 1;
    }
    i
}

/// `s` without blanks at either end.
pub fn trim_str(s: &str) -> (r: String)
    ensures
        r@ == trim(s@),
{
    let n = s.unicode_len();
    let mut a: usize = 0;
    while a < n && is_white_char(s.get_char(a))
        invariant
            a <= n,
            n == s@.len(),
            skip_ws(s@, a as int) == skip_ws(s@, 0),
        decreases n - a,
    {
        a = a + 1;
    }
    let mut b: usize = n;
    while a < b && is_white_char(s.get_char(b - 1))
        invariant
            a <= b <= n,
            n == s@.len(),
            skip_ws(s@, 0) == a,
            back_ws(s@, a as int, b as int) == back_ws(s@, a as int, n as int),
        decreases b - a,
    {
        b = b - 1;
    }
    substring(s, a, b)
}

/// Whether `s` begins with `p`.
pub fn starts_with_str(s: &str, p: &str) -> (r: bool)
    ensures
        r == starts_with(s@, p@),
{
    let n = s.unicode_len();
    let m = p.unicode_len();
    if m > n {
        return false;
    }
    let head = s.substring_char(0, m);
    str_eq(head, p)
}

/// The comma-separated pieces of `s`, each trimmed.
pub fn split_str(s: &str) -> (r: Vec<String>)
    ensures
        views(r@) == split_commas(s@),
{
    let n = s.unicode_len();
    let mut out: Vec<String> = Vec::new();
    let mut i: usize = 0;
    loop
        invariant
            i <= n,
            n == s@.len(),
            views(out@) + split_from(s@, i as int) == split_commas(s@),
        decreases n - i,
    {
        let k = find_char_from(s, i, ',');
        let piece = substring(s, i, k);
        let p = trim_str(piece.as_str());
        let ghost before = views(out@);
        out.push(p);
        assert(views(out@) =~= before.push(p@));
        if k >= n {
            assert(split_from(s@, i as int) == seq![p@]);
            assert(views(out@) =~= before + split_from(s@, i as int));
            return out;
        }
        assert(split_from(s@, i as int) == seq![p@] + split_from(s@, k + 1));
        assert(views(out@) + split_from(s@, k + 1) =~= before + split_from(s@, i as int));
        i = k + 1;
    }
}

} // verus!

verus! {

/// The characters of `s`, in order.
pub fn char_vec(s: &str) -> (r: Vec<char>)
    ensures
        r@ == s@,
{
    broadcast use vstd::string::group_string_axioms;

    let mut it = s.chars();
    let mut out: Vec<char> = Vec::new();
    loop
        invariant
            it.obeys_prophetic_iter_laws(),
            out@ + it.remaining() == s@,
        decreases s@.len() - out@.len(),
    {
        match it.next() {
            Some(c) => {
                assert(out@.push(c) + it.remaining() =~= s@);
                out.push(c);
            },
            None => {
                assert(out@ =~= s@);
                return out;
            },
        }
    }
}

} // verus!

verus! {

/// Whether `pat` occurs in `s` at index `i`.
pub open spec fn matches_at(s: Seq<char>, i: int, pat: Seq<char>) -> bool {
    0 <= i && i + pat.len() <= s.len() && s.subrange(i, i + pat.len()) == pat
}

/// `s` from index `i` on, with each occurrence of a non-empty `pat` replaced
/// by `rep`, scanning left to right without overlap.
pub open spec fn replace_from(s: Seq<char>, i: int, pat: Seq<char>, rep: Seq<char>) -> Seq<char>
    decreases s.len() - i,
{
    if i < 0 || i >= s.len() {
        Seq::empty()
    } else if pat.len() > 0 && matches_at(s, i, pat) {
        rep + replace_from(s, i + pat.len(), pat, rep)
    } else {
        seq![s[i]] + replace_from(s, i + 1, pat, rep)
    }
}

/// `s` with each occurrence of a non-empty `pat` replaced by `rep`.
pub open spec fn replace_all(s: Seq<char>, pat: Seq<char>, rep: Seq<char>) -> Seq<char> {
    replace_from(s, 0, pat, rep)
}

fn occurs_at(s: &str, n: usize, i: usize, pat: &str) -> (r: bool)
    requires
        n == s@.len(),
        i <= n,
    ensures
        r == (pat@.len() > 0 && matches_at(s@, i as int, pat@)),
{
    let m = pat.unicode_len();
    if m == 0 || m > n - i {
        return false;
    }
    str_eq(s.substring_char(i, i + m), pat)
}

/// Replaces each occurrence of `pat` in `s` by `rep`, left to right.
pub fn replace_str(s: &str, pat: &str, rep: &str) -> (r: String)
    ensures
        r@ == replace_all(s@, pat@, rep@),
{
    let n = s.unicode_len();
    let m = pat.unicode_len();
    let mut out = String::new();
    let mut i: usize = 0;
    while i < n
        invariant
            i <= n,
            n == s@.len(),
            m == pat@.len(),
            out@ + replace_from(s@, i as int, pat@, rep@) == replace_all(s@, pat@, rep@),
        decreases n - i,
    {
        let ghost before = out@;
        if occurs_at(s, n, i, pat) {
            out.append(rep);
            assert(before + replace_from(s@, i as int, pat@, rep@) =~= out@ + replace_from(
                s@,
                i + m,
                pat@,
                rep@,
            ));
            i = i + m;
        } else {
            out.append(s.substring_char(i, i + 1));
            assert(s@.subrange(i as int, i + 1) =~= seq![s@[i as int]]);
            assert(before + replace_from(s@, i as int, pat@, rep@) =~= out@ + replace_from(
                s@,
                i + 1,
                pat@,
                rep@,
            ));
            i = i + 1;
        }
    }
    assert(out@ =~= out@ + replace_from(s@, n as int, pat@, rep@));
    out
}

} // verus!
