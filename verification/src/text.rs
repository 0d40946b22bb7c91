//! Character-level helpers shared by the statement splitter, the query
//! planner and the prompt renderer: conversions between `str`/`String` and
//! `Vec<char>`, character classes, trimming, splitting into words, prefix
//! tests, search-and-replace and decimal rendering.
use vstd::prelude::*;

verus! {

/// The characters of `s`, in order.
pub fn chars_of(s: &str) -> (v: Vec<char>)
    ensures
        v@ == s@,
{
    let mut v: Vec<char> = Vec::new();
    for c in it: s.chars()
        invariant
            v@ == it.seq().take(it.index()),
            it.seq() == s@,
    {
        v.push(c);
    }
    v
}

/// Builds a `String` from characters (std's `FromIterator<char>`).
#[verifier::external_body]
pub(crate) fn string_of(v: &[char]) -> (s: String)
    ensures
        s@ == v@,
{
    v.iter().collect()
}

/// The classes of characters that the trimming and splitting functions use.
#[derive(Clone, Copy, PartialEq, Eq, Structural, Debug)]
pub enum CharClass {
    /// Unicode `White_Space`, as `char::is_whitespace` and `str::trim` use it.
    Whitespace,
    /// ASCII whitespace, as `str::split_ascii_whitespace` uses it.
    AsciiWhitespace,
    /// The single character `;`.
    Semicolon,
    /// The single character `.`.
    Dot,
}

/// Unicode `White_Space` (the property behind `char::is_whitespace`).
pub open spec fn is_unicode_ws(c: char) -> bool {
    ||| '\u{9}' <= c <= '\u{d}'
    ||| c == ' '
    ||| c == '\u{85}'
    ||| c == '\u{a0}'
    ||| c == '\u{1680}'
    ||| '\u{2000}' <= c <= '\u{200a}'
    ||| c == '\u{2028}'
    ||| c == '\u{2029}'
    ||| c == '\u{202f}'
    ||| c == '\u{205f}'
    ||| c == '\u{3000}'
}

/// ASCII whitespace (`u8::is_ascii_whitespace`): space, tab, line feed, form feed, carriage return.
pub open spec fn is_ascii_ws(c: char) -> bool {
    c == ' ' || c == '\t' || c == '\n' || c == '\u{c}' || c == '\r'
}

pub open spec fn in_class(c: char, cls: CharClass) -> bool {
    match cls {
        CharClass::Whitespace => is_unicode_ws(c),
        CharClass::AsciiWhitespace => is_ascii_ws(c),
        CharClass::Semicolon => c == ';',
        CharClass::Dot => c == '.',
    }
}

pub fn char_in_class(c: char, cls: CharClass) -> (r: bool)
    ensures
        r == in_class(c, cls),
{
    match cls {
        CharClass::Whitespace => {
            ('\u{9}' <= c && c <= '\u{d}') || c == ' ' || c == '\u{85}' || c == '\u{a0}' || c
                == '\u{1680}' || ('\u{2000}' <= c && c <= '\u{200a}') || c == '\u{2028}' || c
                == '\u{2029}' || c == '\u{202f}' || c == '\u{205f}' || c == '\u{3000}'
        },
        CharClass::AsciiWhitespace => c == ' ' || c == '\t' || c == '\n' || c == '\u{c}' || c
            == '\r',
        CharClass::Semicolon => c == ';',
        CharClass::Dot => c == '.',
    }
}

/// The first position at or after `i` that does not hold a character of `cls`.
pub open spec fn skip_in(s: Seq<char>, i: int, cls: CharClass) -> int
    decreases s.len() - i,
{
    if 0 <= i < s.len() && in_class(s[i], cls) {
        skip_in(s, i + 1, cls)
    } else {
        i
    }
}

/// The first position at or after `i` that holds a character of `cls`.
pub open spec fn skip_out(s: Seq<char>, i: int, cls: CharClass) -> int
    decreases s.len() - i,
{
    if 0 <= i < s.len() && !in_class(s[i], cls) {
        skip_out(s, i + 1, cls)
    } else {
        i
    }
}

/// The position just after the last character before `j` that is not in `cls`.
pub open spec fn back_in(s: Seq<char>, j: int, cls: CharClass) -> int
    decreases j,
{
    if 0 < j <= s.len() && in_class(s[j - 1], cls) {
        back_in(s, j - 1, cls)
    } else {
        j
    }
}

pub proof fn lemma_skip_in_bounds(s: Seq<char>, i: int, cls: CharClass)
    requires
        0 <= i <= s.len(),
    ensures
        i <= skip_in(s, i, cls) <= s.len(),
        skip_in(s, i, cls) < s.len() ==> !in_class(s[skip_in(s, i, cls)], cls),
        forall|k: int| i <= k < skip_in(s, i, cls) ==> in_class(#[trigger] s[k], cls),
    decreases s.len() - i,
{
    if i < s.len() && in_class(s[i], cls) {
        lemma_skip_in_bounds(s, i + 1, cls);
    }
}

pub proof fn lemma_skip_out_bounds(s: Seq<char>, i: int, cls: CharClass)
    requires
        0 <= i <= s.len(),
    ensures
        i <= skip_out(s, i, cls) <= s.len(),
        skip_out(s, i, cls) < s.len() ==> in_class(s[skip_out(s, i, cls)], cls),
        forall|k: int| i <= k < skip_out(s, i, cls) ==> !in_class(#[trigger] s[k], cls),
    decreases s.len() - i,
{
    if i < s.len() && !in_class(s[i], cls) {
        lemma_skip_out_bounds(s, i + 1, cls);
    }
}

pub proof fn lemma_back_in_bounds(s: Seq<char>, j: int, cls: CharClass)
    requires
        0 <= j <= s.len(),
    ensures
        0 <= back_in(s, j, cls) <= j,
        back_in(s, j, cls) > 0 ==> !in_class(s[back_in(s, j, cls) - 1], cls),
        forall|k: int| back_in(s, j, cls) <= k < j ==> in_class(#[trigger] s[k], cls),
    decreases j,
{
    if 0 < j && in_class(s[j - 1], cls) {
        lemma_back_in_bounds(s, j - 1, cls);
    }
}

/// `s` without its leading characters of `cls` (`str::trim_start_matches`).
pub open spec fn trim_start_by(s: Seq<char>, cls: CharClass) -> Seq<char> {
    s.subrange(skip_in(s, 0, cls), s.len() as int)
}

/// `s` without its trailing characters of `cls` (`str::trim_end_matches`).
pub open spec fn trim_end_by(s: Seq<char>, cls: CharClass) -> Seq<char> {
    s.subrange(0, back_in(s, s.len() as int, cls))
}

/// `s` without leading and trailing characters of `cls` (`str::trim` for whitespace).
pub open spec fn trim_by(s: Seq<char>, cls: CharClass) -> Seq<char> {
    trim_end_by(trim_start_by(s, cls), cls)
}

/// `str::trim`: leading and trailing Unicode whitespace removed.
pub open spec fn trim(s: Seq<char>) -> Seq<char> {
    trim_by(s, CharClass::Whitespace)
}

pub proof fn lemma_trim_start_props(s: Seq<char>, cls: CharClass)
    ensures
        trim_start_by(s, cls).len() > 0 ==> !in_class(trim_start_by(s, cls)[0], cls),
        trim_start_by(s, cls).is_suffix_of(s),
{
    lemma_skip_in_bounds(s, 0, cls);
}

pub proof fn lemma_trim_end_props(s: Seq<char>, cls: CharClass)
    ensures
        trim_end_by(s, cls).len() > 0 ==> !in_class(trim_end_by(s, cls).last(), cls),
        trim_end_by(s, cls).is_prefix_of(s),
{
    lemma_back_in_bounds(s, s.len() as int, cls);
}

/// What trimming leaves neither starts nor ends with a character of the class,
/// and it is a contiguous part of the input.
pub proof fn lemma_trim_props(s: Seq<char>, cls: CharClass)
    ensures
        trim_by(s, cls).len() > 0 ==> !in_class(trim_by(s, cls)[0], cls),
        trim_by(s, cls).len() > 0 ==> !in_class(trim_by(s, cls).last(), cls),
        trim_by(s, cls).len() <= s.len(),
{
    let t = trim_start_by(s, cls);
    lemma_trim_start_props(s, cls);
    lemma_trim_end_props(t, cls);
    lemma_back_in_bounds(t, t.len() as int, cls);
}

/// Trimming twice is trimming once.
pub proof fn lemma_trim_idempotent(s: Seq<char>, cls: CharClass)
    ensures
        trim_by(trim_by(s, cls), cls) == trim_by(s, cls),
{
    let t = trim_by(s, cls);
    lemma_trim_props(s, cls);
    assert(skip_in(t, 0, cls) == 0);
    assert(t.subrange(0, t.len() as int) =~= t);
    assert(back_in(t, t.len() as int, cls) == t.len());
}

pub fn trim_class(s: &[char], cls: CharClass) -> (r: Vec<char>)
    ensures
        r@ == trim_by(s@, cls),
{
    let n = s.len();
    let mut lo: usize = 0;
    while lo < n && char_in_class(s[lo], cls)
        invariant
            lo <= n,
            n == s@.len(),
            skip_in(s@, lo as int, cls) == skip_in(s@, 0, cls),
        decreases n - lo,
    {
        lo = lo + 1;
    }
    let ghost t = s@.subrange(lo as int, n as int);
    let mut hi: usize = n;
    while hi > lo && char_in_class(s[hi - 1], cls)
        invariant
            lo <= hi <= n,
            n == s@.len(),
            t == s@.subrange(lo as int, n as int),
            back_in(t, hi - lo, cls) == back_in(t, t.len() as int, cls),
        decreases hi,
    {
        assert(t[hi - lo - 1] == s@[hi - 1]);
        hi = hi - 1;
    }
    proof {
        if hi > lo {
            assert(t[hi - lo - 1] == s@[hi - 1]);
        }
    }
    let mut r: Vec<char> = Vec::new();
    let mut k = lo;
    while k < hi
        invariant
            lo <= k <= hi <= n,
            n == s@.len(),
            r@ == s@.subrange(lo as int, k as int),
        decreases hi - k,
    {
        r.push(s[k]);
        k = k + 1;
        assert(r@ =~= s@.subrange(lo as int, k as int));
    }
    assert(r@ =~= t.subrange(0, (hi - lo) as int));
    r
}

/// The words of `s[i..]`: its maximal runs of characters outside `cls`, in order.
pub open spec fn split_from(s: Seq<char>, i: int, cls: CharClass) -> Seq<Seq<char>>
    decreases s.len() - i,
{
    let a = skip_in(s, i, cls);
    if i < 0 || i > s.len() || a >= s.len() {
        Seq::empty()
    } else {
        let b = skip_out(s, a, cls);
        proof {
            lemma_skip_in_bounds(s, i, cls);
            lemma_skip_out_bounds(s, a, cls);
            assert(skip_out(s, a, cls) == skip_out(s, a + 1, cls));
            lemma_skip_out_bounds(s, a + 1, cls);
        }
        seq![s.subrange(a, b)] + split_from(s, b, cls)
    }
}

/// `str::split_whitespace` (Unicode) or `str::split_ascii_whitespace` (ASCII).
pub open spec fn words(s: Seq<char>, cls: CharClass) -> Seq<Seq<char>> {
    split_from(s, 0, cls)
}

pub fn split_words(s: &[char], cls: CharClass) -> (r: Vec<Vec<char>>)
    ensures
        r@.map_values(|w: Vec<char>| w@) == words(s@, cls),
{
    let n = s.len();
    let mut out: Vec<Vec<char>> = Vec::new();
    let mut i: usize = 0;
    loop
        invariant
            i <= n,
            n == s@.len(),
            out@.map_values(|w: Vec<char>| w@) + split_from(s@, i as int, cls) == words(s@, cls),
        decreases n - i,
    {
        let ghost i0 = i as int;
        proof {
            lemma_skip_in_bounds(s@, i0, cls);
        }
        let mut a = i;
        while a < n && char_in_class(s[a], cls)
            invariant
                i <= a <= n,
                n == s@.len(),
                skip_in(s@, a as int, cls) == skip_in(s@, i0, cls),
            decreases n - a,
        {
            a = a + 1;
        }
        if a >= n {
            assert(split_from(s@, i0, cls) =~= Seq::<Seq<char>>::empty());
            assert(out@.map_values(|w: Vec<char>| w@) + Seq::<Seq<char>>::empty() =~= out@.map_values(
                |w: Vec<char>| w@,
            ));
            return out;
        }
        let mut w: Vec<char> = Vec::new();
        let mut b = a;
        while b < n && !char_in_class(s[b], cls)
            invariant
                a <= b <= n,
                n == s@.len(),
                skip_out(s@, b as int, cls) == skip_out(s@, a as int, cls),
                w@ == s@.subrange(a as int, b as int),
            decreases n - b,
        {
            w.push(s[b]);
            b = b + 1;
            assert(w@ =~= s@.subrange(a as int, b as int));
        }
        let ghost old_out = out@.map_values(|w: Vec<char>| w@);
        out.push(w);
        assert(out@.map_values(|w: Vec<char>| w@) =~= old_out.push(s@.subrange(a as int, b as int)));
        assert(split_from(s@, i0, cls) == seq![s@.subrange(a as int, b as int)] + split_from(
            s@,
            b as int,
            cls,
        ));
        assert(old_out.push(s@.subrange(a as int, b as int)) + split_from(s@, b as int, cls)
            =~= old_out + split_from(s@, i0, cls));
        proof {
            lemma_skip_out_bounds(s@, a as int, cls);
        }
        i = b;
    }
}

/// `prefix` is a prefix of `s` (`str::starts_with`).
pub open spec fn starts_with(s: Seq<char>, prefix: Seq<char>) -> bool {
    prefix.len() <= s.len() && s.subrange(0, prefix.len() as int) == prefix
}

pub fn has_prefix(s: &[char], prefix: &[char]) -> (r: bool)
    ensures
        r == starts_with(s@, prefix@),
{
    if prefix.len() > s.len() {
        return false;
    }
    let mut i: usize = 0;
    while i < prefix.len()
        invariant
            i <= prefix.len() <= s.len(),
            forall|k: int| 0 <= k < i ==> s@[k] == prefix@[k],
        decreases prefix.len() - i,
    {
        if s[i] != prefix[i] {
            assert(s@.subrange(0, prefix@.len() as int)[i as int] != prefix@[i as int]);
            return false;
        }
        i = i + 1;
    }
    assert(s@.subrange(0, prefix@.len() as int) =~= prefix@);
    true
}

/// `needle` occurs in `s` starting at position `i`.
pub open spec fn occurs_at(s: Seq<char>, needle: Seq<char>, i: int) -> bool {
    0 <= i && i + needle.len() <= s.len() && s.subrange(i, i + needle.len()) == needle
}

/// `str::contains` with a string pattern.
pub open spec fn contains_seq(s: Seq<char>, needle: Seq<char>) -> bool {
    exists|i: int| occurs_at(s, needle, i)
}

fn occurs_at_exec(s: &[char], needle: &[char], i: usize) -> (r: bool)
    ensures
        r == occurs_at(s@, needle@, i as int),
{
    if i > s.len() || needle.len() > s.len() - i {
        return false;
    }
    let mut k: usize = 0;
    while k < needle.len()
        invariant
            k <= needle.len(),
            i + needle.len() <= s.len(),
            forall|m: int| 0 <= m < k ==> s@[i + m] == needle@[m],
        decreases needle.len() - k,
    {
        if s[i + k] != needle[k] {
            assert(s@.subrange(i as int, i + needle@.len())[k as int] != needle@[k as int]);
            return false;
        }
        k = k + 1;
    }
    assert(s@.subrange(i as int, i + needle@.len()) =~= needle@);
    true
}

pub fn contains_chars(s: &[char], needle: &[char]) -> (r: bool)
    ensures
        r == contains_seq(s@, needle@),
{
    let mut i: usize = 0;
    while i < s.len()
        invariant
            i <= s.len(),
            forall|j: int| 0 <= j < i ==> !occurs_at(s@, needle@, j),
        decreases s.len() - i,
    {
        if occurs_at_exec(s, needle, i) {
            return true;
        }
        i = i + 1;
    }
    if occurs_at_exec(s, needle, i) {
        return true;
    }
    assert forall|j: int| !occurs_at(s@, needle@, j) by {
        if 0 <= j && j + needle@.len() <= s@.len() {
            assert(j <= i);
        }
    }
    false
}

/// `str::replace`: every non-overlapping occurrence of `pat` in `s[i..]`,
/// found from left to right, replaced by `rep`.
pub open spec fn replace_from(s: Seq<char>, pat: Seq<char>, rep: Seq<char>, i: int) -> Seq<char>
    recommends
        pat.len() > 0,
    decreases s.len() - i,
{
    if i < 0 || i >= s.len() || pat.len() == 0 {
        s.subrange(if 0 <= i <= s.len() { i } else { s.len() as int }, s.len() as int)
    } else if occurs_at(s, pat, i) {
        rep + replace_from(s, pat, rep, i + pat.len())
    } else {
        seq![s[i]] + replace_from(s, pat, rep, i + 1)
    }
}

/// `str::replace` with an empty pattern: `rep` before every character of `s[i..]` and at
/// its end.
pub open spec fn replace_empty_from(s: Seq<char>, rep: Seq<char>, i: int) -> Seq<char>
    decreases s.len() - i,
{
    if i < 0 || i >= s.len() {
        rep
    } else {
        rep + seq![s[i]] + replace_empty_from(s, rep, i + 1)
    }
}

/// `str::replace`.
pub open spec fn replace_all(s: Seq<char>, pat: Seq<char>, rep: Seq<char>) -> Seq<char> {
    if pat.len() == 0 {
        replace_empty_from(s, rep, 0)
    } else {
        replace_from(s, pat, rep, 0)
    }
}

/// `str::replace` on characters.
pub fn replace_chars(s: &[char], pat: &[char], rep: &[char]) -> (r: Vec<char>)
    ensures
        r@ == replace_all(s@, pat@, rep@),
{
    if pat.len() > 0 {
        return replace_nonempty(s, pat, rep);
    }
    let mut out: Vec<char> = Vec::new();
    let mut i: usize = 0;
    while i < s.len()
        invariant
            i <= s.len(),
            pat@.len() == 0,
            out@ + replace_empty_from(s@, rep@, i as int) == replace_all(s@, pat@, rep@),
        decreases s.len() - i,
    {
        let ghost before = out@;
        extend_chars(&mut out, rep);
        out.push(s[i]);
        assert(before + (rep@ + seq![s@[i as int]] + replace_empty_from(s@, rep@, i + 1)) =~= out@
            + replace_empty_from(s@, rep@, i + 1));
        i = i + 1;
    }
    extend_chars(&mut out, rep);
    out
}

fn replace_nonempty(s: &[char], pat: &[char], rep: &[char]) -> (r: Vec<char>)
    requires
        pat@.len() > 0,
    ensures
        r@ == replace_all(s@, pat@, rep@),
{
    let mut out: Vec<char> = Vec::new();
    let mut i: usize = 0;
    while i < s.len()
        invariant
            i <= s.len(),
            pat@.len() > 0,
            out@ + replace_from(s@, pat@, rep@, i as int) == replace_all(s@, pat@, rep@),
        decreases s.len() - i,
    {
        let ghost before = out@;
        if occurs_at_exec(s, pat, i) {
            let mut k: usize = 0;
            while k < rep.len()
                invariant
                    k <= rep.len(),
                    out@ == before + rep@.subrange(0, k as int),
                decreases rep.len() - k,
            {
                out.push(rep[k]);
                k = k + 1;
                assert(out@ =~= before + rep@.subrange(0, k as int));
            }
            assert(rep@.subrange(0, rep@.len() as int) =~= rep@);
            assert(before + (rep@ + replace_from(s@, pat@, rep@, i + pat@.len())) =~= out@
                + replace_from(s@, pat@, rep@, i + pat@.len()));
            i = i + pat.len();
        } else {
            out.push(s[i]);
            assert(before + (seq![s@[i as int]] + replace_from(s@, pat@, rep@, i + 1)) =~= out@
                + replace_from(s@, pat@, rep@, i + 1));
            i = i + 1;
        }
    }
    assert(replace_from(s@, pat@, rep@, i as int) =~= Seq::<char>::empty());
    assert(out@ + Seq::<char>::empty() =~= out@);
    out
}

/// The decimal digit for `d < 10`.
pub open spec fn digit_char(d: nat) -> char {
    if d == 0 {
        '0'
    } else if d == 1 {
        '1'
    } else if d == 2 {
        '2'
    } else if d == 3 {
        '3'
    } else if d == 4 {
        '4'
    } else if d == 5 {
        '5'
    } else if d == 6 {
        '6'
    } else if d == 7 {
        '7'
    } else if d == 8 {
        '8'
    } else {
        '9'
    }
}

/// The decimal rendering of `n`, without leading zeros (`to_string` of an unsigned integer).
pub open spec fn decimal(n: nat) -> Seq<char>
    decreases n,
{
    if n < 10 {
        seq![digit_char(n)]
    } else {
        decimal(n / 10).push(digit_char(n % 10))
    }
}

/// The decimal rendering of a signed integer (`to_string` of `i64`).
pub open spec fn signed_decimal(n: int) -> Seq<char> {
    if n < 0 {
        seq!['-'] + decimal((-n) as nat)
    } else {
        decimal(n as nat)
    }
}

fn digit_of(d: u64) -> (c: char)
    requires
        d < 10,
    ensures
        c == digit_char(d as nat),
{
    if d == 0 {
        '0'
    } else if d == 1 {
        '1'
    } else if d == 2 {
        '2'
    } else if d == 3 {
        '3'
    } else if d == 4 {
        '4'
    } else if d == 5 {
        '5'
    } else if d == 6 {
        '6'
    } else if d == 7 {
        '7'
    } else if d == 8 {
        '8'
    } else {
        '9'
    }
}

pub fn decimal_chars(n: u64) -> (r: Vec<char>)
    ensures
        r@ == decimal(n as nat),
    decreases n,
{
    if n < 10 {
        let mut v: Vec<char> = Vec::new();
        v.push(digit_of(n));
        assert(v@ =~= seq![digit_char(n as nat)]);
        v
    } else {
        let mut v = decimal_chars(n / 10);
        v.push(digit_of(n % 10));
        v
    }
}

pub fn signed_decimal_chars(n: i64) -> (r: Vec<char>)
    ensures
        r@ == signed_decimal(n as int),
{
    if n < 0 {
        let m: u64 = if n == i64::MIN {
            9223372036854775808u64
        } else {
            (-n) as u64
        };
        let digits = decimal_chars(m);
        let mut v: Vec<char> = Vec::new();
        v.push('-');
        let mut k: usize = 0;
        while k < digits.len()
            invariant
                k <= digits.len(),
                v@ == seq!['-'] + digits@.subrange(0, k as int),
            decreases digits.len() - k,
        {
            v.push(digits[k]);
            k = k + 1;
            assert(v@ =~= seq!['-'] + digits@.subrange(0, k as int));
        }
        assert(digits@.subrange(0, digits@.len() as int) =~= digits@);
        v
    } else {
        decimal_chars(n as u64)
    }
}

/// Appends `src` to `dst`.
pub fn extend_chars(dst: &mut Vec<char>, src: &[char])
    ensures
        final(dst)@ == old(dst)@ + src@,
{
    let ghost before = dst@;
    let mut k: usize = 0;
    while k < src.len()
        invariant
            k <= src.len(),
            dst@ == before + src@.subrange(0, k as int),
        decreases src.len() - k,
    {
        dst.push(src[k]);
        k = k + 1;
        assert(dst@ =~= before + src@.subrange(0, k as int));
    }
    assert(src@.subrange(0, src@.len() as int) =~= src@);
}

/// The characters `s[lo..hi]`.
pub fn slice_chars(s: &[char], lo: usize, hi: usize) -> (r: Vec<char>)
    requires
        lo <= hi <= s@.len(),
    ensures
        r@ == s@.subrange(lo as int, hi as int),
{
    let mut r: Vec<char> = Vec::new();
    let mut k = lo;
    while k < hi
        invariant
            lo <= k <= hi <= s@.len(),
            r@ == s@.subrange(lo as int, k as int),
        decreases hi - k,
    {
        r.push(s[k]);
        k = k + 1;
        assert(r@ =~= s@.subrange(lo as int, k as int));
    }
    r
}

/// `s` without its leading characters of `cls`.
pub fn trim_start_class(s: &[char], cls: CharClass) -> (r: Vec<char>)
    ensures
        r@ == trim_start_by(s@, cls),
{
    let n = s.len();
    let mut lo: usize = 0;
    while lo < n && char_in_class(s[lo], cls)
        invariant
            lo <= n,
            n == s@.len(),
            skip_in(s@, lo as int, cls) == skip_in(s@, 0, cls),
        decreases n - lo,
    {
        lo = lo + 1;
    }
    slice_chars(s, lo, n)
}

/// `s` without its trailing characters of `cls`.
pub fn trim_end_class(s: &[char], cls: CharClass) -> (r: Vec<char>)
    ensures
        r@ == trim_end_by(s@, cls),
{
    let n = s.len();
    let mut hi: usize = n;
    while hi > 0 && char_in_class(s[hi - 1], cls)
        invariant
            hi <= n,
            n == s@.len(),
            back_in(s@, hi as int, cls) == back_in(s@, n as int, cls),
        decreases hi,
    {
        hi = hi - 1;
    }
    slice_chars(s, 0, hi)
}

} // verus!

verus! {

proof fn lemma_replace_from_absent(s: Seq<char>, pat: Seq<char>, rep: Seq<char>, i: int)
    requires
        0 <= i <= s.len(),
        pat.len() > 0,
        forall|j: int| i <= j ==> !occurs_at(s, pat, j),
    ensures
        replace_from(s, pat, rep, i) == s.subrange(i, s.len() as int),
    decreases s.len() - i,
{
    if i < s.len() {
        lemma_replace_from_absent(s, pat, rep, i + 1);
        assert(seq![s[i]] + s.subrange(i + 1, s.len() as int) =~= s.subrange(i, s.len() as int));
    }
}

/// Law: replacing a pattern that does not occur leaves the text unchanged.
pub proof fn replace_absent_is_identity(s: Seq<char>, pat: Seq<char>, rep: Seq<char>)
    requires
        pat.len() > 0,
        !contains_seq(s, pat),
    ensures
        replace_all(s, pat, rep) == s,
{
    lemma_replace_from_absent(s, pat, rep, 0);
    assert(s.subrange(0, s.len() as int) =~= s);
}

proof fn lemma_split_from_words(s: Seq<char>, i: int, cls: CharClass)
    ensures
        forall|k: int|
            0 <= k < split_from(s, i, cls).len() ==> #[trigger] split_from(s, i, cls)[k].len() > 0
                && forall|m: int|
                0 <= m < split_from(s, i, cls)[k].len() ==> !in_class(
                    split_from(s, i, cls)[k][m],
                    cls,
                ),
    decreases s.len() - i,
{
    let a = skip_in(s, i, cls);
    if 0 <= i <= s.len() && a < s.len() {
        lemma_skip_in_bounds(s, i, cls);
        lemma_skip_out_bounds(s, a, cls);
        assert(skip_out(s, a, cls) == skip_out(s, a + 1, cls));
        lemma_skip_out_bounds(s, a + 1, cls);
        let b = skip_out(s, a, cls);
        lemma_split_from_words(s, b, cls);
        let all = split_from(s, i, cls);
        let rest = split_from(s, b, cls);
        assert(all == seq![s.subrange(a, b)] + rest);
        assert forall|k: int| 0 <= k < all.len() implies #[trigger] all[k].len() > 0 && forall|
            m: int,
        | 0 <= m < all[k].len() ==> !in_class(all[k][m], cls) by {
            if k > 0 {
                assert(all[k] == rest[k - 1]);
            } else {
                assert(all[0] == s.subrange(a, b));
                assert forall|m: int| 0 <= m < all[0].len() implies !in_class(all[0][m], cls) by {
                    assert(all[0][m] == s[a + m]);
                }
            }
        }
    }
}

/// Law: every word of a split is non-empty and holds no separator character.
pub proof fn words_are_nonempty_and_unseparated(s: Seq<char>, cls: CharClass)
    ensures
        forall|k: int|
            0 <= k < words(s, cls).len() ==> #[trigger] words(s, cls)[k].len() > 0 && forall|m: int|
                0 <= m < words(s, cls)[k].len() ==> !in_class(words(s, cls)[k][m], cls),
{
    lemma_split_from_words(s, 0, cls);
}

} // verus!
