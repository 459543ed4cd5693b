//! Character-level text helpers: Unicode white space, trimming, splitting,
//! decimal numerals, and building `String`s from characters.
use vstd::prelude::*;

verus! {

/// Appends one character to a `String` (`String::push`).
#[verifier::external_body]
pub(crate) fn push_char(s: &mut String, c: char)
    ensures
        final(s)@ == old(s)@.push(c),
{
    s.push(c);
}

/// Copies a string slice into a new `String` (`str::to_string`).
pub fn owned(s: &str) -> (r: String)
    ensures
        r@ == s@,
{
    String::from_str(s)
}

/// The characters with the Unicode property `White_Space`.
pub open spec fn is_white_space(c: char) -> bool {
    let v = c as u32;
    ||| 0x09 <= v <= 0x0D
    ||| v == 0x20
    ||| v == 0x85
    ||| v == 0xA0
    ||| v == 0x1680
    ||| 0x2000 <= v <= 0x200A
    ||| v == 0x2028
    ||| v == 0x2029
    ||| v == 0x202F
    ||| v == 0x205F
    ||| v == 0x3000
}

/// Whether `c` has the Unicode property `White_Space` (as `char::is_whitespace`).
pub fn is_whitespace(c: char) -> (r: bool)
    ensures
        r == is_white_space(c),
{
    let v = c as u32;
    (0x09 <= v && v <= 0x0D) || v == 0x20 || v == 0x85 || v == 0xA0 || v == 0x1680 || (0x2000
        <= v && v <= 0x200A) || v == 0x2028 || v == 0x2029 || v == 0x202F || v == 0x205F || v
        == 0x3000
}

/// Builds a `String` holding exactly the characters of `cs`.
pub fn string_from_chars(cs: &[char]) -> (r: String)
    ensures
        r@ == cs@,
{
    let mut r = String::new();
    let mut i: usize = 0;
    while i < cs.len()
        invariant
            i <= cs@.len(),
            r@ == cs@.subrange(0, i as int),
        decreases cs@.len() - i,
    {
        push_char(&mut r, cs[i]);
        i = i + 1;
        assert(r@ =~= cs@.subrange(0, i as int));
    }
    assert(cs@.subrange(0, cs@.len() as int) =~= cs@);
    r
}

/// The decimal numeral of a natural number, most significant digit first.
pub open spec fn decimal(n: nat) -> Seq<char>
    decreases n,
{
    if n < 10 {
        seq![digit_char(n)]
    } else {
        decimal(n / 10).push(digit_char(n % 10))
    }
}

/// The ASCII digit for `d < 10`.
pub open spec fn digit_char(d: nat) -> char {
    ((d + 0x30) as u32) as char
}

/// The decimal numeral of an integer, with a leading `-` when negative.
pub open spec fn signed_decimal(n: int) -> Seq<char> {
    if n < 0 {
        seq!['-'] + decimal((-n) as nat)
    } else {
        decimal(n as nat)
    }
}

fn digit(d: u64) -> (c: char)
    requires
        d < 10,
    ensures
        c == digit_char(d as nat),
{
    if d == 0 { '0' }
    else if d == 1 { '1' }
    else if d == 2 { '2' }
    else if d == 3 { '3' }
    else if d == 4 { '4' }
    else if d == 5 { '5' }
    else if d == 6 { '6' }
    else if d == 7 { '7' }
    else if d == 8 { '8' }
    else { '9' }
}

/// Appends the decimal numeral of `n` to `s`.
pub fn push_decimal(s: &mut String, n: u64)
    ensures
        final(s)@ == old(s)@ + decimal(n as nat),
    decreases n,
{
    if n < 10 {
        push_char(s, digit(n));
        assert(decimal(n as nat) == seq![digit_char(n as nat)]);
    } else {
        push_decimal(s, n / 10);
        push_char(s, digit(n % 10));
        assert(decimal(n as nat) == decimal((n / 10) as nat).push(digit_char((n % 10) as nat)));
    }
}

/// The decimal numeral of `n`, as `n.to_string()` writes it.
pub fn i64_to_string(n: i64) -> (r: String)
    ensures
        r@ == signed_decimal(n as int),
{
    let mut r = String::new();
    if n < 0 {
        push_char(&mut r, '-');
        let m: u64 = if n == i64::MIN {
            0x8000_0000_0000_0000u64
        } else {
            (-n) as u64
        };
        push_decimal(&mut r, m);
    } else {
        push_decimal(&mut r, n as u64);
    }
    r
}

} // verus!

verus! {

/// The index of the first `"\r\n"` that starts at or after `i`, or `t.len()`
/// when there is none.
pub open spec fn find_crlf(t: Seq<char>, i: int) -> int
    decreases t.len() - i,
{
    if i < 0 || i + 1 >= t.len() {
        t.len() as int
    } else if t[i] == '\r' && t[i + 1] == '\n' {
        i
    } else {
        find_crlf(t, i + 1)
    }
}

/// The pieces of `t` from index `i` on, separated by `"\r\n"`, as `str::split("\r\n")` yields them.
pub open spec fn split_crlf_from(t: Seq<char>, i: int) -> Seq<Seq<char>>
    decreases t.len() - i,
{
    let e = find_crlf(t, i);
    if 0 <= i <= e && e + 1 < t.len() {
        seq![t.subrange(i, e)] + split_crlf_from(t, e + 2)
    } else {
        seq![t.subrange(i, t.len() as int)]
    }
}

/// The lines of `t`: its pieces separated by `"\r\n"`.
pub open spec fn split_crlf(t: Seq<char>) -> Seq<Seq<char>> {
    split_crlf_from(t, 0)
}

/// The first index at or after `i` that holds no white space, or `s.len()`.
pub open spec fn skip_white(s: Seq<char>, i: int) -> int
    decreases s.len() - i,
{
    if i < 0 || i >= s.len() {
        s.len() as int
    } else if is_white_space(s[i]) {
        skip_white(s, i + 1)
    } else {
        i
    }
}

/// The first index at or after `i` that holds white space, or `s.len()`.
pub open spec fn skip_word(s: Seq<char>, i: int) -> int
    decreases s.len() - i,
{
    if i < 0 || i >= s.len() {
        s.len() as int
    } else if is_white_space(s[i]) {
        i
    } else {
        skip_word(s, i + 1)
    }
}

/// The maximal runs of non-white-space characters of `s` from index `i` on,
/// as `str::split_whitespace` yields them.
pub open spec fn words_from(s: Seq<char>, i: int) -> Seq<Seq<char>>
    decreases s.len() - i,
{
    let a = skip_white(s, i);
    let b = skip_word(s, a);
    if 0 <= i <= a && a < b && b <= s.len() {
        seq![s.subrange(a, b)] + words_from(s, b)
    } else {
        seq![]
    }
}

/// The words of `s`: the pieces that `str::split_whitespace` yields.
pub open spec fn words(s: Seq<char>) -> Seq<Seq<char>> {
    words_from(s, 0)
}

/// The end of `s.subrange(lo, j)` once its trailing white space is dropped.
pub open spec fn trim_end_at(s: Seq<char>, lo: int, j: int) -> int
    decreases j - lo,
{
    if lo < j && j <= s.len() && is_white_space(s[j - 1]) {
        trim_end_at(s, lo, j - 1)
    } else {
        j
    }
}

/// `s` without its leading and trailing white space, as `str::trim` gives it.
pub open spec fn trim(s: Seq<char>) -> Seq<char> {
    let lo = skip_white(s, 0);
    s.subrange(lo, trim_end_at(s, lo, s.len() as int))
}

pub(crate) proof fn lemma_find_crlf_bounds(t: Seq<char>, i: int)
    requires
        0 <= i,
    ensures
        i <= find_crlf(t, i) <= t.len() || (i > t.len() && find_crlf(t, i) == t.len()),
        find_crlf(t, i) < t.len() ==> find_crlf(t, i) + 1 < t.len() && t[find_crlf(t, i)] == '\r'
            && t[find_crlf(t, i) + 1] == '\n',
    decreases t.len() - i,
{
    if i + 1 < t.len() && !(t[i] == '\r' && t[i + 1] == '\n') {
        lemma_find_crlf_bounds(t, i + 1);
    }
}

proof fn lemma_skip_white_bounds(s: Seq<char>, i: int)
    requires
        0 <= i <= s.len(),
    ensures
        i <= skip_white(s, i) <= s.len(),
        skip_white(s, i) < s.len() ==> !is_white_space(s[skip_white(s, i)]),
    decreases s.len() - i,
{
    if i < s.len() && is_white_space(s[i]) {
        lemma_skip_white_bounds(s, i + 1);
    }
}

proof fn lemma_skip_white_all(s: Seq<char>, i: int)
    requires
        0 <= i <= s.len(),
    ensures
        forall|k: int| i <= k < skip_white(s, i) ==> is_white_space(#[trigger] s[k]),
    decreases s.len() - i,
{
    if i < s.len() && is_white_space(s[i]) {
        lemma_skip_white_all(s, i + 1);
    }
}

proof fn lemma_trim_end_at(s: Seq<char>, lo: int, j: int)
    requires
        0 <= lo <= j <= s.len(),
    ensures
        lo <= trim_end_at(s, lo, j) <= j,
        forall|k: int| trim_end_at(s, lo, j) <= k < j ==> is_white_space(#[trigger] s[k]),
        trim_end_at(s, lo, j) > lo ==> !is_white_space(s[trim_end_at(s, lo, j) - 1]),
    decreases j - lo,
{
    if lo < j && is_white_space(s[j - 1]) {
        lemma_trim_end_at(s, lo, j - 1);
    }
}

/// `trim(s)` is the part of `s` between its leading and its trailing white
/// space: a contiguous piece of `s`, with only white space before and after
/// it, and neither starting nor ending with white space.
pub proof fn lemma_trim_shape(s: Seq<char>)
    ensures
        exists|a: int, b: int| {
            &&& 0 <= a <= b <= s.len()
            &&& trim(s) == s.subrange(a, b)
            &&& forall|k: int| 0 <= k < a ==> is_white_space(#[trigger] s[k])
            &&& forall|k: int| b <= k < s.len() ==> is_white_space(#[trigger] s[k])
            &&& a < b ==> !is_white_space(s[a]) && !is_white_space(s[b - 1])
        },
{
    let a = skip_white(s, 0);
    lemma_skip_white_bounds(s, 0);
    lemma_skip_white_all(s, 0);
    lemma_trim_end_at(s, a, s.len() as int);
    let b = trim_end_at(s, a, s.len() as int);
    assert(trim(s) == s.subrange(a, b));
}

/// The characters of each vector of `v`.
pub open spec fn views_of(v: Seq<Vec<char>>) -> Seq<Seq<char>> {
    v.map_values(|x: Vec<char>| x@)
}

/// The index of the first `"\r\n"` in `t` at or after `i`, or `t.len()`.
pub fn find_crlf_exec(t: &[char], i: usize) -> (r: usize)
    requires
        i <= t@.len(),
    ensures
        r == find_crlf(t@, i as int),
        i <= r <= t@.len(),
{
    let mut j = i;
    while t.len() > 0 && j < t.len() - 1
        invariant
            i <= j <= t@.len(),
            find_crlf(t@, i as int) == find_crlf(t@, j as int),
        decreases t@.len() - j,
    {
        if t[j] == '\r' && t[j + 1] == '\n' {
            return j;
        }
        j = j + 1;
    }
    t.len()
}

/// Copies `t[a..b]` into a new vector.
pub fn copy_range<T: Copy>(t: &[T], a: usize, b: usize) -> (r: Vec<T>)
    requires
        a <= b <= t@.len(),
    ensures
        r@ == t@.subrange(a as int, b as int),
{
    let mut r: Vec<T> = Vec::new();
    let mut k = a;
    while k < b
        invariant
            a <= k <= b <= t@.len(),
            r@ == t@.subrange(a as int, k as int),
        decreases b - k,
    {
        r.push(t[k]);
        k = k + 1;
        assert(r@ =~= t@.subrange(a as int, k as int));
    }
    r
}

/// The lines of `t`, separated by `"\r\n"`.
pub fn split_crlf_exec(t: &[char]) -> (lines: Vec<Vec<char>>)
    ensures
        views_of(lines@) == split_crlf(t@),
{
    let mut lines: Vec<Vec<char>> = Vec::new();
    let mut pos: usize = 0;
    loop
        invariant
            pos <= t@.len(),
            views_of(lines@) + split_crlf_from(t@, pos as int) == split_crlf(t@),
        decreases t@.len() - pos,
    {
        let e = find_crlf_exec(t, pos);
        proof { lemma_find_crlf_bounds(t@, pos as int); }
        let ghost before = views_of(lines@);
        if e < t.len() {
            let line = copy_range(t, pos, e);
            lines.push(line);
            assert(views_of(lines@) =~= before.push(t@.subrange(pos as int, e as int)));
            assert(split_crlf_from(t@, pos as int) == seq![t@.subrange(pos as int, e as int)]
                + split_crlf_from(t@, e + 2));
            assert(views_of(lines@) + split_crlf_from(t@, e + 2) =~= before + split_crlf_from(t@, pos as int));
            pos = e + 2;
        } else {
            let line = copy_range(t, pos, t.len());
            lines.push(line);
            assert(views_of(lines@) =~= before.push(t@.subrange(pos as int, t@.len() as int)));
            assert(views_of(lines@) =~= before + split_crlf_from(t@, pos as int));
            return lines;
        }
    }
}

/// The words of `s`, as `str::split_whitespace` yields them.
pub fn words_exec(s: &[char]) -> (ws: Vec<Vec<char>>)
    ensures
        views_of(ws@) == words(s@),
{
    let mut ws: Vec<Vec<char>> = Vec::new();
    let mut i: usize = 0;
    loop
        invariant
            i <= s@.len(),
            views_of(ws@) + words_from(s@, i as int) == words(s@),
        decreases s@.len() - i,
    {
        let ghost before = views_of(ws@);
        let mut a = i;
        while a < s.len() && is_whitespace(s[a])
            invariant
                i <= a <= s@.len(),
                skip_white(s@, i as int) == skip_white(s@, a as int),
            decreases s@.len() - a,
        {
            a = a + 1;
        }
        proof { lemma_skip_white_bounds(s@, a as int); }
        if a == s.len() {
            assert(words_from(s@, i as int) =~= Seq::<Seq<char>>::empty());
            assert(views_of(ws@) =~= before + words_from(s@, i as int));
            return ws;
        }
        let mut b = a;
        while b < s.len() && !is_whitespace(s[b])
            invariant
                a <= b <= s@.len(),
                skip_word(s@, a as int) == skip_word(s@, b as int),
            decreases s@.len() - b,
        {
            b = b + 1;
        }
        assert(b > a);
        let w = copy_range(s, a, b);
        ws.push(w);
        assert(views_of(ws@) =~= before.push(s@.subrange(a as int, b as int)));
        assert(words_from(s@, i as int) == seq![s@.subrange(a as int, b as int)] + words_from(s@, b as int));
        assert(views_of(ws@) + words_from(s@, b as int) =~= before + words_from(s@, i as int));
        i = b;
    }
}

/// `s[from..]` without leading and trailing white space.
pub fn trim_exec(s: &[char]) -> (r: Vec<char>)
    ensures
        r@ == trim(s@),
{
    let mut a: usize = 0;
    while a < s.len() && is_whitespace(s[a])
        invariant
            a <= s@.len(),
            skip_white(s@, 0) == skip_white(s@, a as int),
        decreases s@.len() - a,
    {
        a = a + 1;
    }
    proof { lemma_skip_white_bounds(s@, a as int); }
    let mut b = s.len();
    while b > a && is_whitespace(s[b - 1])
        invariant
            a <= b <= s@.len(),
            trim_end_at(s@, a as int, s@.len() as int) == trim_end_at(s@, a as int, b as int),
        decreases b - a,
    {
        b = b - 1;
    }
    copy_range(s, a, b)
}

} // verus!

verus! {

/// The characters of `s`, in order.
pub fn chars_of(s: &str) -> (r: Vec<char>)
    ensures
        r@ == s@,
{
    let mut r: Vec<char> = Vec::new();
    for c in it: s.chars()
        invariant
            r@ == it.seq().take(it.index() as int),
    {
        r.push(c);
    }
    r
}

} // verus!

verus! {

/// `s` begins with `p`.
pub open spec fn chars_start_with(s: Seq<char>, p: Seq<char>) -> bool {
    s.len() >= p.len() && s.subrange(0, p.len() as int) == p
}

/// Whether `s` begins with `p`.
pub fn starts_with_chars(s: &[char], p: &[char]) -> (r: bool)
    ensures
        r == chars_start_with(s@, p@),
{
    if s.len() < p.len() {
        return false;
    }
    let mut i: usize = 0;
    while i < p.len()
        invariant
            i <= p@.len() <= s@.len(),
            forall|k: int| 0 <= k < i ==> s@[k] == p@[k],
        decreases p@.len() - i,
    {
        if s[i] != p[i] {
            assert(s@.subrange(0, p@.len() as int)[i as int] != p@[i as int]);
            return false;
        }
        i = i + 1;
    }
    assert(s@.subrange(0, p@.len() as int) =~= p@);
    true
}

/// The bytes of `b` read as UTF-8 (`std::str::from_utf8`): present exactly
/// when `b` is valid UTF-8, and then holding the characters it encodes.
#[verifier::external_body]
pub(crate) fn utf8_str(b: &[u8]) -> (r: Option<&str>)
    ensures
        r is Some <==> vstd::utf8::valid_utf8(b@),
        r matches Some(s) ==> s@ == vstd::utf8::decode_utf8(b@),
{
    std::str::from_utf8(b).ok()
}

} // verus!

verus! {

/// The text that `String::from_utf8_lossy` makes of some bytes.
pub uninterp spec fn lossy_text(b: Seq<u8>) -> Seq<char>;

/// `String::from_utf8_lossy(b).to_string()`: the bytes read as UTF-8, each
/// invalid sequence replaced by U+FFFD. Valid UTF-8 reads as what it encodes;
/// what replaces invalid input is named, a function of the bytes alone.
#[verifier::external_body]
pub(crate) fn utf8_lossy(b: &[u8]) -> (s: String)
    ensures
        s@ == lossy_text(b@),
        vstd::utf8::valid_utf8(b@) ==> s@ == vstd::utf8::decode_utf8(b@),
{
    String::from_utf8_lossy(b).into_owned()
}

} // verus!
