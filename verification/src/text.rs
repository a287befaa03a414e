use vstd::prelude::*;
use vstd::std_specs::iter::IteratorSpec;

verus! {

broadcast use vstd::string::group_string_axioms;

/// Unicode `White_Space`: the characters that `\s` matches in a Unicode
/// regular expression and that `char::is_whitespace` accepts.
pub open spec fn is_ws(c: char) -> bool {
    let u = c as u32;
    ||| (0x9 <= u && u <= 0xd)
    ||| u == 0x20
    ||| u == 0x85
    ||| u == 0xa0
    ||| u == 0x1680
    ||| (0x2000 <= u && u <= 0x200a)
    ||| u == 0x2028
    ||| u == 0x2029
    ||| u == 0x202f
    ||| u == 0x205f
    ||| u == 0x3000
}

pub fn is_ws_char(ch: char) -> (b: bool)
    ensures
        b == is_ws(ch),
{
    let u = ch as u32;
    (0x9 <= u && u <= 0xd) || u == 0x20 || u == 0x85 || u == 0xa0 || u == 0x1680 || (0x2000 <= u
        && u <= 0x200a) || u == 0x2028 || u == 0x2029 || u == 0x202f || u == 0x205f || u == 0x3000
}

/// Unicode general category `Nd` (decimal number), Unicode 16.0: the
/// characters that `\d` matches in a Unicode regular expression.
pub open spec fn is_decimal_digit(ch: char) -> bool {
    let c = ch as u32;
        ||| (0x30 <= c && c <= 0x39)
        ||| (0x660 <= c && c <= 0x669)
        ||| (0x6f0 <= c && c <= 0x6f9)
        ||| (0x7c0 <= c && c <= 0x7c9)
        ||| (0x966 <= c && c <= 0x96f)
        ||| (0x9e6 <= c && c <= 0x9ef)
        ||| (0xa66 <= c && c <= 0xa6f)
        ||| (0xae6 <= c && c <= 0xaef)
        ||| (0xb66 <= c && c <= 0xb6f)
        ||| (0xbe6 <= c && c <= 0xbef)
        ||| (0xc66 <= c && c <= 0xc6f)
        ||| (0xce6 <= c && c <= 0xcef)
        ||| (0xd66 <= c && c <= 0xd6f)
        ||| (0xde6 <= c && c <= 0xdef)
        ||| (0xe50 <= c && c <= 0xe59)
        ||| (0xed0 <= c && c <= 0xed9)
        ||| (0xf20 <= c && c <= 0xf29)
        ||| (0x1040 <= c && c <= 0x1049)
        ||| (0x1090 <= c && c <= 0x1099)
        ||| (0x17e0 <= c && c <= 0x17e9)
        ||| (0x1810 <= c && c <= 0x1819)
        ||| (0x1946 <= c && c <= 0x194f)
        ||| (0x19d0 <= c && c <= 0x19d9)
        ||| (0x1a80 <= c && c <= 0x1a89)
        ||| (0x1a90 <= c && c <= 0x1a99)
        ||| (0x1b50 <= c && c <= 0x1b59)
        ||| (0x1bb0 <= c && c <= 0x1bb9)
        ||| (0x1c40 <= c && c <= 0x1c49)
        ||| (0x1c50 <= c && c <= 0x1c59)
        ||| (0xa620 <= c && c <= 0xa629)
        ||| (0xa8d0 <= c && c <= 0xa8d9)
        ||| (0xa900 <= c && c <= 0xa909)
        ||| (0xa9d0 <= c && c <= 0xa9d9)
        ||| (0xa9f0 <= c && c <= 0xa9f9)
        ||| (0xaa50 <= c && c <= 0xaa59)
        ||| (0xabf0 <= c && c <= 0xabf9)
        ||| (0xff10 <= c && c <= 0xff19)
        ||| (0x104a0 <= c && c <= 0x104a9)
        ||| (0x10d30 <= c && c <= 0x10d39)
        ||| (0x10d40 <= c && c <= 0x10d49)
        ||| (0x11066 <= c && c <= 0x1106f)
        ||| (0x110f0 <= c && c <= 0x110f9)
        ||| (0x11136 <= c && c <= 0x1113f)
        ||| (0x111d0 <= c && c <= 0x111d9)
        ||| (0x112f0 <= c && c <= 0x112f9)
        ||| (0x11450 <= c && c <= 0x11459)
        ||| (0x114d0 <= c && c <= 0x114d9)
        ||| (0x11650 <= c && c <= 0x11659)
        ||| (0x116c0 <= c && c <= 0x116c9)
        ||| (0x116d0 <= c && c <= 0x116e3)
        ||| (0x11730 <= c && c <= 0x11739)
        ||| (0x118e0 <= c && c <= 0x118e9)
        ||| (0x11950 <= c && c <= 0x11959)
        ||| (0x11bf0 <= c && c <= 0x11bf9)
        ||| (0x11c50 <= c && c <= 0x11c59)
        ||| (0x11d50 <= c && c <= 0x11d59)
        ||| (0x11da0 <= c && c <= 0x11da9)
        ||| (0x11f50 <= c && c <= 0x11f59)
        ||| (0x16130 <= c && c <= 0x16139)
        ||| (0x16a60 <= c && c <= 0x16a69)
        ||| (0x16ac0 <= c && c <= 0x16ac9)
        ||| (0x16b50 <= c && c <= 0x16b59)
        ||| (0x16d70 <= c && c <= 0x16d79)
        ||| (0x1ccf0 <= c && c <= 0x1ccf9)
        ||| (0x1d7ce <= c && c <= 0x1d7ff)
        ||| (0x1e140 <= c && c <= 0x1e149)
        ||| (0x1e2f0 <= c && c <= 0x1e2f9)
        ||| (0x1e4f0 <= c && c <= 0x1e4f9)
        ||| (0x1e5f1 <= c && c <= 0x1e5fa)
        ||| (0x1e950 <= c && c <= 0x1e959)
        ||| (0x1fbf0 <= c && c <= 0x1fbf9)
}

pub fn is_decimal_digit_char(ch: char) -> (b: bool)
    ensures
        b == is_decimal_digit(ch),
{
    let c = ch as u32;
        (0x30 <= c && c <= 0x39)
        || (0x660 <= c && c <= 0x669)
        || (0x6f0 <= c && c <= 0x6f9)
        || (0x7c0 <= c && c <= 0x7c9)
        || (0x966 <= c && c <= 0x96f)
        || (0x9e6 <= c && c <= 0x9ef)
        || (0xa66 <= c && c <= 0xa6f)
        || (0xae6 <= c && c <= 0xaef)
        || (0xb66 <= c && c <= 0xb6f)
        || (0xbe6 <= c && c <= 0xbef)
        || (0xc66 <= c && c <= 0xc6f)
        || (0xce6 <= c && c <= 0xcef)
        || (0xd66 <= c && c <= 0xd6f)
        || (0xde6 <= c && c <= 0xdef)
        || (0xe50 <= c && c <= 0xe59)
        || (0xed0 <= c && c <= 0xed9)
        || (0xf20 <= c && c <= 0xf29)
        || (0x1040 <= c && c <= 0x1049)
        || (0x1090 <= c && c <= 0x1099)
        || (0x17e0 <= c && c <= 0x17e9)
        || (0x1810 <= c && c <= 0x1819)
        || (0x1946 <= c && c <= 0x194f)
        || (0x19d0 <= c && c <= 0x19d9)
        || (0x1a80 <= c && c <= 0x1a89)
        || (0x1a90 <= c && c <= 0x1a99)
        || (0x1b50 <= c && c <= 0x1b59)
        || (0x1bb0 <= c && c <= 0x1bb9)
        || (0x1c40 <= c && c <= 0x1c49)
        || (0x1c50 <= c && c <= 0x1c59)
        || (0xa620 <= c && c <= 0xa629)
        || (0xa8d0 <= c && c <= 0xa8d9)
        || (0xa900 <= c && c <= 0xa909)
        || (0xa9d0 <= c && c <= 0xa9d9)
        || (0xa9f0 <= c && c <= 0xa9f9)
        || (0xaa50 <= c && c <= 0xaa59)
        || (0xabf0 <= c && c <= 0xabf9)
        || (0xff10 <= c && c <= 0xff19)
        || (0x104a0 <= c && c <= 0x104a9)
        || (0x10d30 <= c && c <= 0x10d39)
        || (0x10d40 <= c && c <= 0x10d49)
        || (0x11066 <= c && c <= 0x1106f)
        || (0x110f0 <= c && c <= 0x110f9)
        || (0x11136 <= c && c <= 0x1113f)
        || (0x111d0 <= c && c <= 0x111d9)
        || (0x112f0 <= c && c <= 0x112f9)
        || (0x11450 <= c && c <= 0x11459)
        || (0x114d0 <= c && c <= 0x114d9)
        || (0x11650 <= c && c <= 0x11659)
        || (0x116c0 <= c && c <= 0x116c9)
        || (0x116d0 <= c && c <= 0x116e3)
        || (0x11730 <= c && c <= 0x11739)
        || (0x118e0 <= c && c <= 0x118e9)
        || (0x11950 <= c && c <= 0x11959)
        || (0x11bf0 <= c && c <= 0x11bf9)
        || (0x11c50 <= c && c <= 0x11c59)
        || (0x11d50 <= c && c <= 0x11d59)
        || (0x11da0 <= c && c <= 0x11da9)
        || (0x11f50 <= c && c <= 0x11f59)
        || (0x16130 <= c && c <= 0x16139)
        || (0x16a60 <= c && c <= 0x16a69)
        || (0x16ac0 <= c && c <= 0x16ac9)
        || (0x16b50 <= c && c <= 0x16b59)
        || (0x16d70 <= c && c <= 0x16d79)
        || (0x1ccf0 <= c && c <= 0x1ccf9)
        || (0x1d7ce <= c && c <= 0x1d7ff)
        || (0x1e140 <= c && c <= 0x1e149)
        || (0x1e2f0 <= c && c <= 0x1e2f9)
        || (0x1e4f0 <= c && c <= 0x1e4f9)
        || (0x1e5f1 <= c && c <= 0x1e5fa)
        || (0x1e950 <= c && c <= 0x1e959)
        || (0x1fbf0 <= c && c <= 0x1fbf9)
}

/// ASCII `0`..=`9`.
pub open spec fn is_ascii_digit(c: char) -> bool {
    '0' <= c && c <= '9'
}

/// The characters of `s`, in order.
pub fn chars_of(s: &str) -> (v: Vec<char>)
    ensures
        v@ == s@,
{
    let mut v: Vec<char> = Vec::new();
    let chars = s.chars();
    for c in it: chars
        invariant
            v@ == it.seq().take(it.index()),
            it.seq() == s@,
    {
        v.push(c);
    }
    v
}

/// `String::push`: appends one character.
#[verifier::external_body]
pub fn push_char(s: &mut String, c: char)
    ensures
        final(s)@ == old(s)@.push(c),
{
    s.push(c);
}

/// The string made of `v[lo..hi]`.
pub fn string_of(v: &Vec<char>, lo: usize, hi: usize) -> (r: String)
    requires
        lo <= hi <= v.len(),
    ensures
        r@ == v@.subrange(lo as int, hi as int),
{
    let mut r = String::new();
    let mut i = lo;
    while i < hi
        invariant
            lo <= i <= hi <= v.len(),
            r@ == v@.subrange(lo as int, i as int),
        decreases hi - i,
    {
        push_char(&mut r, v[i]);
        assert(v@.subrange(lo as int, i + 1) == v@.subrange(lo as int, i as int).push(v@[i as int]));
        i = i + 1;
    }
    r
}


/// The character classes that the log grammar and the text helpers use.
#[derive(PartialEq, Eq, Structural, Clone, Copy)]
pub enum CharClass {
    /// `\s`: Unicode `White_Space`
    Ws,
    /// `\S`
    NonWs,
    /// `[A-Z]`
    Upper,
    /// `[^"]`
    NotQuote,
    /// `[^\]]`
    NotRBracket,
    /// `\d`: Unicode `Nd`
    Digit,
}

pub open spec fn in_class(k: CharClass, c: char) -> bool {
    match k {
        CharClass::Ws => is_ws(c),
        CharClass::NonWs => !is_ws(c),
        CharClass::Upper => 'A' <= c && c <= 'Z',
        CharClass::NotQuote => c != '"',
        CharClass::NotRBracket => c != ']',
        CharClass::Digit => is_decimal_digit(c),
    }
}

pub fn class_contains(k: CharClass, c: char) -> (b: bool)
    ensures
        b == in_class(k, c),
{
    match k {
        CharClass::Ws => is_ws_char(c),
        CharClass::NonWs => !is_ws_char(c),
        CharClass::Upper => 'A' <= c && c <= 'Z',
        CharClass::NotQuote => c != '"',
        CharClass::NotRBracket => c != ']',
        CharClass::Digit => is_decimal_digit_char(c),
    }
}

/// Every character of `s[i..j]` is in class `k`.
pub open spec fn all_in(s: Seq<char>, i: int, j: int, k: CharClass) -> bool {
    &&& 0 <= i <= j <= s.len()
    &&& forall|x: int| i <= x < j ==> in_class(k, #[trigger] s[x])
}

/// The first position at or after `i` whose character is not in class `k`
/// (or the end of `s`): where a greedy run of `k` starting at `i` stops.
pub open spec fn scan(s: Seq<char>, i: int, k: CharClass) -> int
    decreases s.len() - i,
{
    if 0 <= i < s.len() && in_class(k, s[i]) {
        scan(s, i + 1, k)
    } else {
        i
    }
}

pub proof fn lemma_scan(s: Seq<char>, i: int, k: CharClass)
    requires
        0 <= i <= s.len(),
    ensures
        i <= scan(s, i, k) <= s.len(),
        all_in(s, i, scan(s, i, k), k),
        scan(s, i, k) == s.len() || !in_class(k, s[scan(s, i, k)]),
    decreases s.len() - i,
{
    if i < s.len() && in_class(k, s[i]) {
        lemma_scan(s, i + 1, k);
    }
}

/// A run of class `k` that cannot be extended is the one a greedy scan finds.
pub proof fn lemma_scan_unique(s: Seq<char>, i: int, j: int, k: CharClass)
    requires
        all_in(s, i, j, k),
        j == s.len() || !in_class(k, s[j]),
    ensures
        scan(s, i, k) == j,
    decreases j - i,
{
    if i < j {
        assert(in_class(k, s[i]));
        lemma_scan_unique(s, i + 1, j, k);
    }
}

/// Where the greedy run of class `k` from `i` stops.
pub fn skip(v: &Vec<char>, i: usize, k: CharClass) -> (j: usize)
    requires
        i <= v.len(),
    ensures
        j == scan(v@, i as int, k),
        i <= j <= v.len(),
{
    let mut j = i;
    while j < v.len() && class_contains(k, v[j])
        invariant
            i <= j <= v.len(),
            scan(v@, i as int, k) == scan(v@, j as int, k),
        decreases v.len() - j,
    {
        j = j + 1;
    }
    j
}

/// Where a run of whitespace ending at `j` begins, scanning backwards.
pub open spec fn rscan_ws(s: Seq<char>, j: int) -> int
    decreases j,
{
    if 0 < j <= s.len() && is_ws(s[j - 1]) {
        rscan_ws(s, j - 1)
    } else {
        j
    }
}

pub proof fn lemma_rscan_ws(s: Seq<char>, j: int)
    requires
        0 <= j <= s.len(),
    ensures
        0 <= rscan_ws(s, j) <= j,
        forall|x: int| rscan_ws(s, j) <= x < j ==> is_ws(#[trigger] s[x]),
        rscan_ws(s, j) == 0 || !is_ws(s[rscan_ws(s, j) - 1]),
    decreases j,
{
    if 0 < j && is_ws(s[j - 1]) {
        lemma_rscan_ws(s, j - 1);
    }
}

fn rskip_ws(v: &Vec<char>, j: usize) -> (i: usize)
    requires
        j <= v.len(),
    ensures
        i == rscan_ws(v@, j as int),
        i <= j,
{
    let mut i = j;
    while i > 0 && is_ws_char(v[i - 1])
        invariant
            i <= j <= v.len(),
            rscan_ws(v@, j as int) == rscan_ws(v@, i as int),
        decreases i,
    {
        i = i - 1;
    }
    i
}

/// `str::trim`: `s` without leading and trailing whitespace.
pub open spec fn trim(s: Seq<char>) -> Seq<char> {
    let a = scan(s, 0, CharClass::Ws);
    let b = rscan_ws(s, s.len() as int);
    if a < b {
        s.subrange(a, b)
    } else {
        Seq::empty()
    }
}

/// `str::trim_end`: `s` without trailing whitespace.
pub open spec fn trim_end(s: Seq<char>) -> Seq<char> {
    s.subrange(0, rscan_ws(s, s.len() as int))
}

pub fn trim_chars(v: &Vec<char>) -> (r: String)
    ensures
        r@ == trim(v@),
{
    let a = skip(v, 0, CharClass::Ws);
    let b = rskip_ws(v, v.len());
    if a < b {
        string_of(v, a, b)
    } else {
        String::new()
    }
}

pub fn trim_str(s: &str) -> (r: String)
    ensures
        r@ == trim(s@),
{
    let v = chars_of(s);
    trim_chars(&v)
}

pub fn trim_end_str(s: &str) -> (r: String)
    ensures
        r@ == trim_end(s@),
{
    let v = chars_of(s);
    let b = rskip_ws(&v, v.len());
    string_of(&v, 0, b)
}

/// The first position at or after `i` holding `c` (or the end of `s`).
pub open spec fn find_from(s: Seq<char>, i: int, c: char) -> int
    decreases s.len() - i,
{
    if 0 <= i < s.len() && s[i] != c {
        find_from(s, i + 1, c)
    } else {
        i
    }
}

pub proof fn lemma_find_from(s: Seq<char>, i: int, c: char)
    requires
        0 <= i <= s.len(),
    ensures
        i <= find_from(s, i, c) <= s.len(),
        forall|x: int| i <= x < find_from(s, i, c) ==> #[trigger] s[x] != c,
        find_from(s, i, c) == s.len() || s[find_from(s, i, c)] == c,
    decreases s.len() - i,
{
    if i < s.len() && s[i] != c {
        lemma_find_from(s, i + 1, c);
    }
}

fn find_char(v: &Vec<char>, i: usize, c: char) -> (j: usize)
    requires
        i <= v.len(),
    ensures
        j == find_from(v@, i as int, c),
        i <= j <= v.len(),
{
    let mut j = i;
    while j < v.len() && v[j] != c
        invariant
            i <= j <= v.len(),
            find_from(v@, i as int, c) == find_from(v@, j as int, c),
        decreases v.len() - j,
    {
        j = j + 1;
    }
    j
}

/// The pieces of `s[a..]` between occurrences of `c` (`str::split` with a
/// character pattern): one more piece than there are separators.
pub open spec fn split_from(s: Seq<char>, a: int, c: char) -> Seq<Seq<char>>
    decreases s.len() - a,
{
    if 0 <= a <= s.len() {
        let i = find_from(s, a, c);
        if i >= s.len() {
            seq![s.subrange(a, s.len() as int)]
        } else {
            proof {
                lemma_find_from(s, a, c);
            }
            seq![s.subrange(a, i)] + split_from(s, i + 1, c)
        }
    } else {
        Seq::empty()
    }
}

/// `str::split(c)`.
pub open spec fn split_char(s: Seq<char>, c: char) -> Seq<Seq<char>> {
    split_from(s, 0, c)
}

pub open spec fn views(v: Seq<String>) -> Seq<Seq<char>> {
    v.map_values(|x: String| x@)
}

/// `str::split(c)` on the characters `v`.
pub fn split_chars(v: &Vec<char>, c: char) -> (r: Vec<String>)
    ensures
        views(r@) == split_char(v@, c),
{
    let mut r: Vec<String> = Vec::new();
    let mut a: usize = 0;
    loop
        invariant
            a <= v.len(),
            views(r@) + split_from(v@, a as int, c) == split_char(v@, c),
        decreases v.len() - a,
    {
        let i = find_char(v, a, c);
        let piece = string_of(v, a, i);
        let ghost before = r@;
        r.push(piece);
        assert(views(r@) == views(before).push(piece@));
        if i >= v.len() {
            assert(views(r@) == split_char(v@, c));
            return r;
        }
        assert(split_from(v@, a as int, c) == seq![v@.subrange(a as int, i as int)] + split_from(v@, i + 1, c));
        assert(views(r@) + split_from(v@, i + 1, c) == views(before) + split_from(v@, a as int, c));
        a = i + 1;
    }
}

/// The first `c` at or after `i` is at `j` when none lies between.
pub proof fn lemma_find_from_unique(s: Seq<char>, i: int, j: int, c: char)
    requires
        0 <= i <= j < s.len(),
        forall|x: int| i <= x < j ==> #[trigger] s[x] != c,
        s[j] == c,
    ensures
        find_from(s, i, c) == j,
    decreases j - i,
{
    if i < j {
        lemma_find_from_unique(s, i + 1, j, c);
    }
}

/// Text put in front does not change where the next `c` lies in what follows.
pub proof fn lemma_find_from_shift(p: Seq<char>, q: Seq<char>, a: int, c: char)
    requires
        0 <= a <= q.len(),
    ensures
        find_from(p + q, p.len() + a, c) == p.len() + find_from(q, a, c),
    decreases q.len() - a,
{
    let s = p + q;
    if a < q.len() {
        assert(s[p.len() + a] == q[a]);
        if q[a] != c {
            lemma_find_from_shift(p, q, a + 1, c);
        }
    }
}

/// Text put in front does not change how what follows splits.
pub proof fn lemma_split_from_shift(p: Seq<char>, q: Seq<char>, a: int, c: char)
    requires
        0 <= a <= q.len(),
    ensures
        split_from(p + q, p.len() + a, c) == split_from(q, a, c),
    decreases q.len() - a,
{
    let s = p + q;
    lemma_find_from_shift(p, q, a, c);
    lemma_find_from(q, a, c);
    let i = find_from(q, a, c);
    assert(s.subrange(p.len() + a, p.len() + i) =~= q.subrange(a, i));
    if i < q.len() {
        lemma_split_from_shift(p, q, i + 1, c);
        assert(p.len() + i + 1 == p.len() + (i + 1));
    } else {
        assert(s.subrange(p.len() + a, s.len() as int) =~= q.subrange(a, q.len() as int));
    }
}

/// Splitting `t`, a separator and `rest`, where `t` holds no separator:
/// `t` is the first piece, and the pieces of `rest` follow.
pub proof fn lemma_split_char_first(t: Seq<char>, rest: Seq<char>, c: char)
    requires
        forall|x: int| 0 <= x < t.len() ==> #[trigger] t[x] != c,
    ensures
        split_char(t + seq![c] + rest, c) == seq![t] + split_char(rest, c),
{
    let p = t + seq![c];
    let s = p + rest;
    assert(s[t.len() as int] == c);
    assert forall|x: int| 0 <= x < t.len() implies #[trigger] s[x] != c by {
        assert(s[x] == t[x]);
    }
    lemma_find_from_unique(s, 0, t.len() as int, c);
    assert(s.subrange(0, t.len() as int) =~= t);
    lemma_split_from_shift(p, rest, 0, c);
    assert(p.len() + 0 == t.len() + 1);
}

/// A line as a text file holds it: no line break inside (it may end with
/// the carriage return of a `\r\n` line end).
pub open spec fn plain_line(l: Seq<char>) -> bool {
    forall|i: int| 0 <= i < l.len() ==> #[trigger] l[i] != '\n'
}

/// The text of a file made of `ls`, each line ended by `\n`.
pub open spec fn text_of(ls: Seq<Seq<char>>) -> Seq<char>
    decreases ls.len(),
{
    if ls.len() == 0 {
        Seq::empty()
    } else {
        ls[0] + seq!['\n'] + text_of(ls.drop_first())
    }
}

proof fn lemma_split_text(s: Seq<char>, a: int, ls: Seq<Seq<char>>)
    requires
        0 <= a <= s.len(),
        s.subrange(a, s.len() as int) == text_of(ls),
        forall|i: int| 0 <= i < ls.len() ==> plain_line(#[trigger] ls[i]),
    ensures
        split_from(s, a, '\n') == ls + seq![Seq::<char>::empty()],
    decreases ls.len(),
{
    if ls.len() == 0 {
        assert(text_of(ls) =~= Seq::<char>::empty());
        assert(s.subrange(a, s.len() as int).len() == s.len() - a);
        assert(a == s.len());
        lemma_find_from(s, a, '\n');
        assert(s.subrange(a, s.len() as int) =~= Seq::<char>::empty());
        assert(ls + seq![Seq::<char>::empty()] =~= seq![Seq::<char>::empty()]);
    } else {
        let l0 = ls[0];
        let rest = ls.drop_first();
        let t = text_of(ls);
        assert(plain_line(l0));
        let j = a + l0.len();
        assert(t == l0 + seq!['\n'] + text_of(rest));
        assert(t.len() == s.len() - a);
        assert forall|x: int| a <= x < j implies #[trigger] s[x] != '\n' by {
            assert(s.subrange(a, s.len() as int)[x - a] == s[x]);
            assert(t[x - a] == l0[x - a]);
        }
        assert(s.subrange(a, s.len() as int)[j - a] == s[j]);
        assert(t[j - a] == '\n');
        lemma_find_from_unique(s, a, j, '\n');
        assert(s.subrange(a, j) =~= l0) by {
            assert forall|x: int| 0 <= x < l0.len() implies s.subrange(a, j)[x] == l0[x] by {
                assert(s.subrange(a, s.len() as int)[x] == s[a + x]);
                assert(t[x] == l0[x]);
            }
        }
        assert(s.subrange(j + 1, s.len() as int) =~= text_of(rest)) by {
            assert forall|x: int| 0 <= x < text_of(rest).len() implies s.subrange(j + 1, s.len() as int)[x]
                == text_of(rest)[x] by {
                assert(s.subrange(a, s.len() as int)[l0.len() + 1 + x] == s[j + 1 + x]);
                assert(t[l0.len() + 1 + x] == text_of(rest)[x]);
            }
        }
        assert forall|i: int| 0 <= i < rest.len() implies plain_line(#[trigger] rest[i]) by {
            assert(rest[i] == ls[i + 1]);
        }
        lemma_split_text(s, j + 1, rest);
        assert(ls + seq![Seq::<char>::empty()] =~= seq![l0] + (rest + seq![Seq::<char>::empty()]));
    }
}

/// The lines of the text of a file are its lines, each without the carriage
/// return of a `\r\n` line end.
pub proof fn lemma_lines_of_text(ls: Seq<Seq<char>>)
    requires
        forall|i: int| 0 <= i < ls.len() ==> plain_line(#[trigger] ls[i]),
    ensures
        lines(text_of(ls)) == ls.map_values(|l: Seq<char>| strip_cr(l)),
{
    let s = text_of(ls);
    assert(s.subrange(0, s.len() as int) =~= s);
    lemma_split_text(s, 0, ls);
    let p = split_char(s, '\n');
    if ls.len() == 0 {
        assert(lines(s) =~= ls.map_values(|l: Seq<char>| strip_cr(l)));
    } else {
        assert(s.len() > 0 && s.last() == '\n') by {
            lemma_text_ends(ls);
        }
        assert forall|i: int| 0 <= i < ls.len() implies #[trigger] lines(s)[i] == strip_cr(ls[i]) by {
            assert(p[i] == ls[i]);
        }
        assert(lines(s) =~= ls.map_values(|l: Seq<char>| strip_cr(l)));
    }
}

proof fn lemma_text_ends(ls: Seq<Seq<char>>)
    requires
        ls.len() > 0,
    ensures
        text_of(ls).len() > 0,
        text_of(ls).last() == '\n',
    decreases ls.len(),
{
    let x = ls[0] + seq!['\n'];
    let r = text_of(ls.drop_first());
    assert(text_of(ls) == x + r);
    if ls.len() > 1 {
        lemma_text_ends(ls.drop_first());
        assert((x + r).last() == r.last());
    } else {
        assert(ls.drop_first() =~= Seq::<Seq<char>>::empty());
        assert(x + r =~= x);
    }
}

/// A line as `str::lines` yields it: one `\r` before the line's `\n` is
/// dropped.
pub open spec fn strip_cr(x: Seq<char>) -> Seq<char> {
    if x.len() > 0 && x.last() == '\r' {
        x.drop_last()
    } else {
        x
    }
}

/// `str::lines`: the pieces between `\n`s; a final `\n` ends the last line
/// rather than starting an empty one, and a line that a `\n` ends loses one
/// trailing `\r`.
pub open spec fn lines(s: Seq<char>) -> Seq<Seq<char>> {
    let p = split_char(s, '\n');
    let k = if s.len() == 0 {
        0
    } else if s.last() == '\n' {
        p.len() - 1
    } else {
        p.len() as int
    };
    Seq::new(k as nat, |i: int| if i < p.len() - 1 { strip_cr(p[i]) } else { p[i] })
}

pub proof fn lemma_split_nonempty(s: Seq<char>, a: int, c: char)
    requires
        0 <= a <= s.len(),
    ensures
        split_from(s, a, c).len() >= 1,
    decreases s.len() - a,
{
    let i = find_from(s, a, c);
    lemma_find_from(s, a, c);
    if i < s.len() {
        lemma_split_nonempty(s, i + 1, c);
    }
}

fn strip_cr_string(x: String) -> (r: String)
    ensures
        r@ == strip_cr(x@),
{
    let v = chars_of(x.as_str());
    if v.len() > 0 && v[v.len() - 1] == '\r' {
        string_of(&v, 0, v.len() - 1)
    } else {
        x
    }
}

/// `str::lines`.
pub fn lines_of(s: &str) -> (r: Vec<String>)
    ensures
        views(r@) == lines(s@),
{
    let v = chars_of(s);
    let p = split_chars(&v, '\n');
    proof {
        lemma_split_nonempty(v@, 0, '\n');
    }
    let k: usize = if v.len() == 0 {
        0
    } else if v[v.len() - 1] == '\n' {
        p.len() - 1
    } else {
        p.len()
    };
    let mut r: Vec<String> = Vec::new();
    let mut i: usize = 0;
    while i < k
        invariant
            k <= p.len(),
            p.len() >= 1,
            views(p@) == split_char(v@, '\n'),
            v@ == s@,
            k == lines(s@).len(),
            i <= k,
            views(r@) == lines(s@).take(i as int),
        decreases k - i,
    {
        let piece = p[i].clone();
        let line = if i < p.len() - 1 {
            strip_cr_string(piece)
        } else {
            piece
        };
        let ghost before = r@;
        r.push(line);
        assert(views(p@)[i as int] == p@[i as int]@);
        assert(views(r@) == views(before).push(line@));
        assert(lines(s@).take(i + 1) == lines(s@).take(i as int).push(lines(s@)[i as int]));
        i = i + 1;
    }
    assert(lines(s@).take(k as int) == lines(s@));
    r
}

/// The whitespace-separated words of `s[a..]` (`str::split_whitespace`).
pub open spec fn words_from(s: Seq<char>, a: int) -> Seq<Seq<char>>
    decreases s.len() - a,
{
    if 0 <= a <= s.len() {
        let i = scan(s, a, CharClass::Ws);
        if i >= s.len() {
            Seq::empty()
        } else {
            proof {
                lemma_scan(s, a, CharClass::Ws);
                lemma_scan(s, i, CharClass::NonWs);
            }
            let j = scan(s, i, CharClass::NonWs);
            seq![s.subrange(i, j)] + words_from(s, j)
        }
    } else {
        Seq::empty()
    }
}

/// `str::split_whitespace`.
pub open spec fn words(s: Seq<char>) -> Seq<Seq<char>> {
    words_from(s, 0)
}

/// `str::split_whitespace`.
pub fn words_of(s: &str) -> (r: Vec<String>)
    ensures
        views(r@) == words(s@),
{
    let v = chars_of(s);
    let mut r: Vec<String> = Vec::new();
    let mut a: usize = 0;
    loop
        invariant
            a <= v.len(),
            v@ == s@,
            views(r@) + words_from(v@, a as int) == words(s@),
        decreases v.len() - a,
    {
        let i = skip(&v, a, CharClass::Ws);
        if i >= v.len() {
            assert(words_from(v@, a as int) =~= Seq::empty());
            assert(views(r@) =~= views(r@) + Seq::<Seq<char>>::empty());
            return r;
        }
        let j = skip(&v, i, CharClass::NonWs);
        proof {
            lemma_scan(v@, a as int, CharClass::Ws);
            lemma_scan(v@, i as int, CharClass::NonWs);
            assert(!in_class(CharClass::Ws, v@[i as int]));
            assert(in_class(CharClass::NonWs, v@[i as int]));
        }
        let w = string_of(&v, i, j);
        let ghost before = r@;
        r.push(w);
        assert(views(r@) == views(before).push(w@));
        assert(words_from(v@, a as int) == seq![v@.subrange(i as int, j as int)] + words_from(v@, j as int));
        assert(views(r@) + words_from(v@, j as int) == views(before) + words_from(v@, a as int));
        a = j;
    }
}

/// `p` occurs in `s` starting at `i`.
pub open spec fn occurs_at(s: Seq<char>, p: Seq<char>, i: int) -> bool {
    0 <= i && i + p.len() <= s.len() && s.subrange(i, i + p.len()) == p
}

/// `str::contains` with a string pattern.
pub open spec fn contains(s: Seq<char>, p: Seq<char>) -> bool {
    exists|i: int| occurs_at(s, p, i)
}

fn occurs_at_exec(s: &Vec<char>, p: &Vec<char>, i: usize) -> (b: bool)
    requires
        i + p.len() <= s.len(),
    ensures
        b == occurs_at(s@, p@, i as int),
{
    let mut k: usize = 0;
    while k < p.len()
        invariant
            i + p.len() <= s.len(),
            k <= p.len(),
            forall|x: int| 0 <= x < k ==> s@[i + x] == p@[x],
        decreases p.len() - k,
    {
        if s[i + k] != p[k] {
            assert(s@.subrange(i as int, i + p.len())[k as int] != p@[k as int]);
            return false;
        }
        k = k + 1;
    }
    assert(s@.subrange(i as int, i + p.len()) =~= p@);
    true
}

/// `str::contains` with a string pattern.
pub fn contains_chars(s: &Vec<char>, p: &Vec<char>) -> (b: bool)
    ensures
        b == contains(s@, p@),
{
    if p.len() > s.len() {
        return false;
    }
    let last = s.len() - p.len();
    let mut i: usize = 0;
    loop
        invariant
            p.len() <= s.len(),
            last == s.len() - p.len(),
            i <= last,
            forall|x: int| 0 <= x < i ==> !occurs_at(s@, p@, x),
        decreases last - i,
    {
        if occurs_at_exec(s, p, i) {
            return true;
        }
        if i == last {
            return false;
        }
        i = i + 1;
    }
}

/// The last position at or before `i` where `p` occurs in `s`, or -1.
pub open spec fn last_occurrence_from(s: Seq<char>, p: Seq<char>, i: int) -> int
    decreases i + 1,
{
    if i < 0 {
        -1
    } else if occurs_at(s, p, i) {
        i
    } else {
        last_occurrence_from(s, p, i - 1)
    }
}

/// An occurrence with none after it, up to `i`, is the last one.
pub proof fn lemma_last_occurrence(s: Seq<char>, p: Seq<char>, i: int, q: int)
    requires
        0 <= q <= i,
        occurs_at(s, p, q),
        forall|j: int| q < j <= i ==> !occurs_at(s, p, j),
    ensures
        last_occurrence_from(s, p, i) == q,
    decreases i - q,
{
    if i > q {
        lemma_last_occurrence(s, p, i - 1, q);
    }
}

/// What follows the last occurrence of `p` in `s`, or all of `s` when `p`
/// does not occur: the first item of `str::rsplit(p)`.
pub open spec fn after_last(s: Seq<char>, p: Seq<char>) -> Seq<char> {
    let i = last_occurrence_from(s, p, s.len() - p.len());
    if i < 0 {
        s
    } else {
        s.subrange(i + p.len(), s.len() as int)
    }
}

/// The first item of `str::rsplit(p)` for a nonempty pattern.
pub fn after_last_chars(s: &Vec<char>, p: &Vec<char>) -> (r: String)
    requires
        p.len() > 0,
    ensures
        r@ == after_last(s@, p@),
{
    if p.len() > s.len() {
        proof {
            assert(last_occurrence_from(s@, p@, s@.len() - p@.len()) == -1);
        }
        return string_of(s, 0, s.len());
    }
    let mut i: usize = s.len() - p.len() + 1;
    while i > 0
        invariant
            p.len() <= s.len(),
            i <= s.len() - p.len() + 1,
            last_occurrence_from(s@, p@, s@.len() - p@.len()) == last_occurrence_from(
                s@,
                p@,
                i - 1,
            ),
        decreases i,
    {
        if occurs_at_exec(s, p, i - 1) {
            return string_of(s, i - 1 + p.len(), s.len());
        }
        i = i - 1;
    }
    string_of(s, 0, s.len())
}

/// The decimal digit for `d < 10`.
pub open spec fn digit_char(d: nat) -> char {
    ((d + '0' as nat) as u32) as char
}

/// The decimal representation of `n`, without leading zeros.
pub open spec fn nat_decimal(n: nat) -> Seq<char>
    decreases n,
{
    if n < 10 {
        seq![digit_char(n)]
    } else {
        nat_decimal(n / 10).push(digit_char(n % 10))
    }
}

/// The decimal representation of `n` as `Display` writes it.
pub open spec fn int_decimal(n: int) -> Seq<char> {
    if n < 0 {
        seq!['-'] + nat_decimal((-n) as nat)
    } else {
        nat_decimal(n as nat)
    }
}

fn digit_of(d: u64) -> (c: char)
    requires
        d < 10,
    ensures
        c == digit_char(d as nat),
{
    let u: u32 = (d as u32) + 48;
    assert(('0' as nat) == 48);
    char_from_digit_code(u)
}

fn char_from_digit_code(u: u32) -> (c: char)
    requires
        48 <= u <= 57,
    ensures
        c == (u as char),
{
    match u {
        48 => '0',
        49 => '1',
        50 => '2',
        51 => '3',
        52 => '4',
        53 => '5',
        54 => '6',
        55 => '7',
        56 => '8',
        _ => '9',
    }
}

/// Appends the decimal representation of `n` to `s`.
pub fn push_decimal(s: &mut String, n: u64)
    ensures
        final(s)@ == old(s)@ + nat_decimal(n as nat),
    decreases n,
{
    if n < 10 {
        push_char(s, digit_of(n));
    } else {
        push_decimal(s, n / 10);
        push_char(s, digit_of(n % 10));
    }
}

/// Appends `n` as `Display` writes an `i64`.
pub fn push_i64(s: &mut String, n: i64)
    ensures
        final(s)@ == old(s)@ + int_decimal(n as int),
{
    if n < 0 {
        push_char(s, '-');
        let m: u64 = ((-(n + 1)) as u64) + 1;
        push_decimal(s, m);
        assert(final(s)@ =~= old(s)@ + int_decimal(n as int));
    } else {
        push_decimal(s, n as u64);
    }
}

/// Appends the characters of `t`.
pub fn push_str(s: &mut String, t: &str)
    ensures
        final(s)@ == old(s)@ + t@,
{
    s.append(t);
}

/// `s` padded with spaces on the right to at least `w` characters, as the
/// format `{:<w}` writes it.
pub open spec fn pad_right(s: Seq<char>, w: nat) -> Seq<char> {
    if s.len() >= w {
        s
    } else {
        s + Seq::new((w - s.len()) as nat, |i: int| ' ')
    }
}

/// Appends `t` padded to `w` characters.
pub fn push_padded(s: &mut String, t: &str, w: usize)
    ensures
        final(s)@ == old(s)@ + pad_right(t@, w as nat),
{
    let n = t.unicode_len();
    push_str(s, t);
    let ghost base = s@;
    if n < w {
        let mut k: usize = n;
        while k < w
            invariant
                n <= k <= w,
                n == t@.len(),
                base == old(s)@ + t@,
                s@ == base + Seq::new((k - n) as nat, |i: int| ' '),
            decreases w - k,
        {
            push_char(s, ' ');
            assert(Seq::new((k + 1 - n) as nat, |i: int| ' ') =~= Seq::new((k - n) as nat, |i: int| ' ').push(' '));
            k = k + 1;
        }
        assert(s@ =~= old(s)@ + pad_right(t@, w as nat));
    }
}

/// `a == b` for string slices.
pub fn same_text(a: &str, b: &str) -> (r: bool)
    ensures
        r == (a@ == b@),
{
    let x = chars_of(a);
    let y = chars_of(b);
    if x.len() != y.len() {
        return false;
    }
    let mut i: usize = 0;
    while i < x.len()
        invariant
            x@ == a@,
            y@ == b@,
            x.len() == y.len(),
            i <= x.len(),
            forall|k: int| 0 <= k < i ==> x@[k] == y@[k],
        decreases x.len() - i,
    {
        if x[i] != y[i] {
            assert(x@[i as int] != y@[i as int]);
            return false;
        }
        i = i + 1;
    }
    assert(x@ =~= y@);
    true
}

} // verus!
