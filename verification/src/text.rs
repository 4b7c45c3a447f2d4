//! Character-level text helpers shared by the parsers and checks.

use vstd::prelude::*;
use vstd::string::*;

verus! {

broadcast use vstd::string::group_string_axioms;

pub assume_specification[ String::push ](s: &mut String, ch: char)
    ensures
        final(s)@ == old(s)@.push(ch),
;

/// The characters of `s`, in order.
pub fn chars_of(s: &str) -> (out: Vec<char>)
    ensures
        out@ == s@,
{
    let mut out: Vec<char> = Vec::new();
    for c in it: s.chars()
        invariant
            it.seq() == s@,
            out@ == it.seq().take(it.index() as int),
    {
        out.push(c);
    }
    out
}

/// A string holding exactly the characters `cs`.
pub fn string_of(cs: &[char]) -> (out: String)
    ensures
        out@ == cs@,
{
    let mut out = String::new();
    let mut i: usize = 0;
    while i < cs.len()
        invariant
            i <= cs@.len(),
            out@ == cs@.take(i as int),
        decreases cs@.len() - i,
    {
        out.push(cs[i]);
        i += 1;
        assert(out@ =~= cs@.take(i as int));
    }
    assert(cs@.take(cs@.len() as int) =~= cs@);
    out
}

/// `p` is a prefix of `s`.
pub open spec fn seq_starts_with(s: Seq<char>, p: Seq<char>) -> bool {
    p.len() <= s.len() && s.subrange(0, p.len() as int) == p
}

/// `p` is a suffix of `s`.
pub open spec fn seq_ends_with(s: Seq<char>, p: Seq<char>) -> bool {
    p.len() <= s.len() && s.subrange(s.len() - p.len(), s.len() as int) == p
}

/// `p` occurs in `s` starting at position `i`.
pub open spec fn occurs_at(s: Seq<char>, p: Seq<char>, i: int) -> bool {
    0 <= i && i + p.len() <= s.len() && s.subrange(i, i + p.len()) == p
}

/// `cs[at..]` starts with `p`.
pub fn chars_match_at(cs: &[char], p: &[char], at: usize) -> (b: bool)
    ensures
        b == occurs_at(cs@, p@, at as int),
{
    if at > cs.len() || p.len() > cs.len() - at {
        return false;
    }
    let mut j: usize = 0;
    while j < p.len()
        invariant
            at + p@.len() <= cs@.len(),
            cs@.len() == cs.len(),
            p@.len() == p.len(),
            j <= p@.len(),
            forall|k: int| 0 <= k < j ==> cs@[at + k] == p@[k],
        decreases p@.len() - j,
    {
        if cs[at + j] != p[j] {
            assert(cs@.subrange(at as int, at + p@.len())[j as int] != p@[j as int]);
            return false;
        }
        j += 1;
    }
    assert(cs@.subrange(at as int, at + p@.len()) =~= p@);
    true
}

/// `s` starts with `p`.
pub fn chars_starts_with(s: &[char], p: &[char]) -> (b: bool)
    ensures
        b == seq_starts_with(s@, p@),
{
    chars_match_at(s, p, 0)
}

/// `s` ends with `p`.
pub fn chars_ends_with(s: &[char], p: &[char]) -> (b: bool)
    ensures
        b == seq_ends_with(s@, p@),
{
    if p.len() > s.len() {
        return false;
    }
    chars_match_at(s, p, s.len() - p.len())
}

/// `a` and `b` hold the same characters.
pub fn chars_eq(a: &[char], b: &[char]) -> (r: bool)
    ensures
        r == (a@ == b@),
{
    if a.len() != b.len() {
        return false;
    }
    let r = chars_match_at(a, b, 0);
    proof {
        assert(a@.subrange(0, a@.len() as int) =~= a@);
    }
    r
}

/// `a` and `b` hold the same characters.
pub fn str_eq(a: &str, b: &str) -> (r: bool)
    ensures
        r == (a@ == b@),
{
    let ca = chars_of(a);
    let cb = chars_of(b);
    chars_eq(ca.as_slice(), cb.as_slice())
}

/// `c` with an ASCII capital letter taken to its small letter.
pub open spec fn ascii_lower(c: char) -> u32 {
    if 'A' <= c && c <= 'Z' {
        (c as u32 + 32) as u32
    } else {
        c as u32
    }
}

/// `a` and `b` are equal when ASCII letters are compared without case.
pub open spec fn eq_ignore_ascii_case_spec(a: Seq<char>, b: Seq<char>) -> bool {
    a.len() == b.len() && forall|i: int| 0 <= i < a.len() ==> ascii_lower(#[trigger] a[i]) == ascii_lower(b[i])
}

fn char_ascii_lower(c: char) -> (r: u32)
    ensures
        r == ascii_lower(c),
{
    if 'A' <= c && c <= 'Z' {
        c as u32 + 32
    } else {
        c as u32
    }
}

/// `a` and `b` are equal when ASCII letters are compared without case.
pub fn str_eq_ignore_ascii_case(a: &str, b: &str) -> (r: bool)
    ensures
        r == eq_ignore_ascii_case_spec(a@, b@),
{
    let ca = chars_of(a);
    let cb = chars_of(b);
    if ca.len() != cb.len() {
        return false;
    }
    let mut i: usize = 0;
    while i < ca.len()
        invariant
            ca@ == a@,
            cb@ == b@,
            ca@.len() == cb@.len(),
            i <= ca@.len(),
            forall|k: int| 0 <= k < i ==> ascii_lower(#[trigger] ca@[k]) == ascii_lower(cb@[k]),
        decreases ca@.len() - i,
    {
        if char_ascii_lower(ca[i]) != char_ascii_lower(cb[i]) {
            return false;
        }
        i = i + 1;
    }
    true
}

/// `s` starts with `p`.
pub fn str_starts_with(s: &str, p: &str) -> (b: bool)
    ensures
        b == seq_starts_with(s@, p@),
{
    let cs = chars_of(s);
    let cp = chars_of(p);
    chars_starts_with(cs.as_slice(), cp.as_slice())
}

/// `s` ends with `p`.
pub fn str_ends_with(s: &str, p: &str) -> (b: bool)
    ensures
        b == seq_ends_with(s@, p@),
{
    let cs = chars_of(s);
    let cp = chars_of(p);
    chars_ends_with(cs.as_slice(), cp.as_slice())
}

/// The string `a` followed by `b`.
pub fn concat(a: &str, b: &str) -> (out: String)
    ensures
        out@ == a@ + b@,
{
    let mut out = String::from_str(a);
    out.append(b);
    out
}

/// `c` is white space in the sense of Unicode's White_Space property.
pub open spec fn is_ws(c: char) -> bool {
    ('\u{9}' <= c && c <= '\u{d}') || c == ' ' || c == '\u{85}' || c == '\u{a0}' || c == '\u{1680}'
        || ('\u{2000}' <= c && c <= '\u{200a}') || c == '\u{2028}' || c == '\u{2029}' || c == '\u{202f}'
        || c == '\u{205f}' || c == '\u{3000}'
}

/// Whether `c` is white space (Unicode White_Space).
pub fn char_is_ws(c: char) -> (b: bool)
    ensures
        b == is_ws(c),
{
    ('\u{9}' <= c && c <= '\u{d}') || c == ' ' || c == '\u{85}' || c == '\u{a0}' || c == '\u{1680}'
        || ('\u{2000}' <= c && c <= '\u{200a}') || c == '\u{2028}' || c == '\u{2029}' || c == '\u{202f}'
        || c == '\u{205f}' || c == '\u{3000}'
}

/// Number of leading white-space characters of `s`.
pub open spec fn lead_ws(s: Seq<char>) -> nat
    decreases s.len(),
{
    if s.len() > 0 && is_ws(s[0]) {
        1 + lead_ws(s.drop_first())
    } else {
        0
    }
}

/// `s` without leading white space.
pub open spec fn trim_start_spec(s: Seq<char>) -> Seq<char> {
    s.skip(lead_ws(s) as int)
}

/// `s` without trailing white space.
pub open spec fn trim_end_spec(s: Seq<char>) -> Seq<char>
    decreases s.len(),
{
    if s.len() > 0 && is_ws(s.last()) {
        trim_end_spec(s.drop_last())
    } else {
        s
    }
}

/// `s` without leading and trailing white space.
pub open spec fn trim_spec(s: Seq<char>) -> Seq<char> {
    trim_end_spec(trim_start_spec(s))
}

pub proof fn lemma_lead_ws_bound(s: Seq<char>)
    ensures
        lead_ws(s) <= s.len(),
        forall|k: int| 0 <= k < lead_ws(s) ==> is_ws(#[trigger] s[k]),
        lead_ws(s) < s.len() ==> !is_ws(s[lead_ws(s) as int]),
    decreases s.len(),
{
    if s.len() > 0 && is_ws(s[0]) {
        lemma_lead_ws_bound(s.drop_first());
        assert forall|k: int| 0 <= k < lead_ws(s) implies is_ws(#[trigger] s[k]) by {
            if k > 0 {
                assert(s[k] == s.drop_first()[k - 1]);
            }
        }
    }
}

proof fn lemma_lead_ws_step(s: Seq<char>, i: int)
    requires
        0 <= i <= s.len(),
        forall|k: int| 0 <= k < i ==> is_ws(#[trigger] s[k]),
    ensures
        lead_ws(s) == i + lead_ws(s.skip(i)),
    decreases i,
{
    if i > 0 {
        assert(is_ws(s[0]));
        let t = s.drop_first();
        assert forall|k: int| 0 <= k < i - 1 implies is_ws(#[trigger] t[k]) by {
            assert(t[k] == s[k + 1]);
        }
        lemma_lead_ws_step(t, i - 1);
        assert(t.skip(i - 1) =~= s.skip(i));
    } else {
        assert(s.skip(0) =~= s);
    }
}

/// Index of the first character of `cs` that is not white space (or `cs.len()`).
pub fn trim_start_index(cs: &[char]) -> (i: usize)
    ensures
        i == lead_ws(cs@),
        i <= cs@.len(),
        cs@.skip(i as int) == trim_start_spec(cs@),
{
    let mut i: usize = 0;
    while i < cs.len() && char_is_ws(cs[i])
        invariant
            i <= cs@.len(),
            forall|k: int| 0 <= k < i ==> is_ws(#[trigger] cs@[k]),
        decreases cs@.len() - i,
    {
        i += 1;
    }
    proof {
        lemma_lead_ws_step(cs@, i as int);
        if i < cs@.len() {
            assert(cs@.skip(i as int)[0] == cs@[i as int]);
        }
    }
    i
}

proof fn lemma_trim_end_step(s: Seq<char>, j: int)
    requires
        0 <= j <= s.len(),
        forall|k: int| j <= k < s.len() ==> is_ws(#[trigger] s[k]),
    ensures
        trim_end_spec(s) == trim_end_spec(s.subrange(0, j)),
    decreases s.len() - j,
{
    if j < s.len() {
        assert(is_ws(s.last()));
        let t = s.drop_last();
        assert forall|k: int| j <= k < t.len() implies is_ws(#[trigger] t[k]) by {
            assert(t[k] == s[k]);
        }
        lemma_trim_end_step(t, j);
        assert(t.subrange(0, j) =~= s.subrange(0, j));
    } else {
        assert(s.subrange(0, j) =~= s);
    }
}

/// End (exclusive) of `cs` without trailing white space.
pub fn trim_end_index(cs: &[char]) -> (j: usize)
    ensures
        j <= cs@.len(),
        cs@.subrange(0, j as int) == trim_end_spec(cs@),
{
    let mut j: usize = cs.len();
    while j > 0 && char_is_ws(cs[j - 1])
        invariant
            j <= cs@.len(),
            forall|k: int| j <= k < cs@.len() ==> is_ws(#[trigger] cs@[k]),
        decreases j,
    {
        j -= 1;
    }
    proof {
        lemma_trim_end_step(cs@, j as int);
        let t = cs@.subrange(0, j as int);
        if j > 0 {
            assert(t.last() == cs@[j - 1]);
        }
    }
    j
}

/// `cs[from..to]` as a vector.
pub fn slice_vec(cs: &[char], from: usize, to: usize) -> (out: Vec<char>)
    requires
        from <= to <= cs@.len(),
    ensures
        out@ == cs@.subrange(from as int, to as int),
{
    let mut out: Vec<char> = Vec::new();
    let mut i: usize = from;
    while i < to
        invariant
            from <= i <= to <= cs@.len(),
            out@ == cs@.subrange(from as int, i as int),
        decreases to - i,
    {
        out.push(cs[i]);
        i += 1;
        assert(out@ =~= cs@.subrange(from as int, i as int));
    }
    out
}

/// `cs` without leading and trailing white space.
pub fn trim_chars(cs: &[char]) -> (out: Vec<char>)
    ensures
        out@ == trim_spec(cs@),
        out@.len() <= cs@.len(),
{
    let i = trim_start_index(cs);
    let rest = slice_vec(cs, i, cs.len());
    assert(rest@ =~= cs@.skip(i as int));
    let j = trim_end_index(rest.as_slice());
    slice_vec(rest.as_slice(), 0, j)
}

/// `s` without leading and trailing white space.
pub fn trim_str(s: &str) -> (out: String)
    ensures
        out@ == trim_spec(s@),
{
    let cs = chars_of(s);
    let t = trim_chars(cs.as_slice());
    string_of(t.as_slice())
}

/// `s` without leading white space.
pub fn trim_start_str(s: &str) -> (out: String)
    ensures
        out@ == trim_start_spec(s@),
{
    let cs = chars_of(s);
    let i = trim_start_index(cs.as_slice());
    let t = slice_vec(cs.as_slice(), i, cs.len());
    assert(t@ =~= cs@.skip(i as int));
    string_of(t.as_slice())
}

/// The decimal digit for `d` (0..=9).
pub open spec fn digit_char(d: nat) -> char {
    if d == 0 { '0' } else if d == 1 { '1' } else if d == 2 { '2' } else if d == 3 { '3' }
    else if d == 4 { '4' } else if d == 5 { '5' } else if d == 6 { '6' } else if d == 7 { '7' }
    else if d == 8 { '8' } else { '9' }
}

/// The decimal representation of `n`, without leading zeros.
pub open spec fn decimal_spec(n: nat) -> Seq<char>
    decreases n,
{
    if n < 10 {
        seq![digit_char(n)]
    } else {
        decimal_spec(n / 10).push(digit_char(n % 10))
    }
}

/// The decimal representation of `n`, with a minus sign when negative.
pub open spec fn signed_decimal_spec(n: int) -> Seq<char> {
    if n < 0 {
        seq!['-'] + decimal_spec((-n) as nat)
    } else {
        decimal_spec(n as nat)
    }
}

fn digit(d: u64) -> (c: char)
    requires
        d < 10,
    ensures
        c == digit_char(d as nat),
{
    if d == 0 { '0' } else if d == 1 { '1' } else if d == 2 { '2' } else if d == 3 { '3' }
    else if d == 4 { '4' } else if d == 5 { '5' } else if d == 6 { '6' } else if d == 7 { '7' }
    else if d == 8 { '8' } else { '9' }
}

fn decimal_chars(n: u64) -> (out: Vec<char>)
    ensures
        out@ == decimal_spec(n as nat),
    decreases n,
{
    if n < 10 {
        let mut v: Vec<char> = Vec::new();
        v.push(digit(n));
        assert(v@ =~= seq![digit_char(n as nat)]);
        v
    } else {
        let mut v = decimal_chars(n / 10);
        v.push(digit(n % 10));
        v
    }
}

fn decimal_chars_wide(n: u128) -> (out: Vec<char>)
    ensures
        out@ == decimal_spec(n as nat),
    decreases n,
{
    if n < 10 {
        let mut v: Vec<char> = Vec::new();
        v.push(digit(n as u64));
        assert(v@ =~= seq![digit_char(n as nat)]);
        v
    } else {
        let mut v = decimal_chars_wide(n / 10);
        v.push(digit((n % 10) as u64));
        v
    }
}

/// `n` in decimal.
pub fn u128_to_string(n: u128) -> (out: String)
    ensures
        out@ == decimal_spec(n as nat),
{
    let v = decimal_chars_wide(n);
    string_of(v.as_slice())
}

/// `n` in decimal.
pub fn u64_to_string(n: u64) -> (out: String)
    ensures
        out@ == decimal_spec(n as nat),
{
    let v = decimal_chars(n);
    string_of(v.as_slice())
}

/// `n` in decimal, with a minus sign when negative.
pub fn i64_to_string(n: i64) -> (out: String)
    ensures
        out@ == signed_decimal_spec(n as int),
{
    if n < 0 {
        let m: u64 = if n == i64::MIN { 9223372036854775808u64 } else { (-n) as u64 };
        let digits = decimal_chars(m);
        let mut out = String::new();
        out.push('-');
        let ds = string_of(digits.as_slice());
        out.append(ds.as_str());
        assert(out@ =~= seq!['-'] + decimal_spec((-(n as int)) as nat));
        out
    } else {
        u64_to_string(n as u64)
    }
}

/// How `{:?}` renders a string: in double quotes, with escapes.
pub uninterp spec fn debug_str(s: Seq<char>) -> Seq<char>;

/// `format!("{:?}", s)`: std's `Debug` rendering of a string, named by `debug_str`.
#[verifier::external_body]
pub(crate) fn debug_quoted(s: &str) -> (r: String)
    ensures
        r@ == debug_str(s@),
{
    format!("{:?}", s)
}

} // verus!
