//! Framing of MCP messages on stdio: newline-delimited JSON or
//! `Content-Length` framed bodies, told apart by the first bytes received.

use crate::gate_runner::IoErrorKind;
use crate::text::{concat, decimal_spec, u64_to_string};
use vstd::utf8::{decode_utf8, valid_utf8};
use vstd::prelude::*;
use vstd::string::*;

verus! {

pub const MODE_UNKNOWN: u8 = 0;

pub const MODE_NDJSON: u8 = 1;

pub const MODE_CONTENT_LENGTH: u8 = 2;

/// ASCII white space as `u8::is_ascii_whitespace` has it: space, tab, line
/// feed, form feed, carriage return.
pub open spec fn ascii_ws(b: u8) -> bool {
    b == 0x20u8 || b == 0x09u8 || b == 0x0au8 || b == 0x0cu8 || b == 0x0du8
}

pub fn is_ascii_ws(b: u8) -> (r: bool)
    ensures
        r == ascii_ws(b),
{
    b == 0x20u8 || b == 0x09u8 || b == 0x0au8 || b == 0x0cu8 || b == 0x0du8
}

/// The number of leading ASCII white-space bytes.
pub open spec fn leading_ws(s: Seq<u8>) -> nat
    decreases s.len(),
{
    if s.len() > 0 && ascii_ws(s[0]) {
        1 + leading_ws(s.drop_first())
    } else {
        0
    }
}

proof fn lemma_leading_ws_step(s: Seq<u8>, i: int)
    requires
        0 <= i <= s.len(),
        forall|k: int| 0 <= k < i ==> ascii_ws(#[trigger] s[k]),
    ensures
        leading_ws(s) == i + leading_ws(s.subrange(i, s.len() as int)),
    decreases i,
{
    if i > 0 {
        let t = s.drop_first();
        lemma_leading_ws_step(t, i - 1);
        assert(t.subrange(i - 1, t.len() as int) =~= s.subrange(i, s.len() as int));
    } else {
        assert(s.subrange(0, s.len() as int) =~= s);
    }
}

/// `s` without its leading ASCII white space.
pub fn trim_leading_ascii_ws(s: &[u8]) -> (out: Vec<u8>)
    ensures
        out@ == s@.subrange(leading_ws(s@) as int, s@.len() as int),
{
    let mut i: usize = 0;
    while i < s.len() && is_ascii_ws(s[i])
        invariant
            i <= s@.len(),
            forall|k: int| 0 <= k < i ==> ascii_ws(#[trigger] s@[k]),
        decreases s@.len() - i,
    {
        i = i + 1;
    }
    proof {
        lemma_leading_ws_step(s@, i as int);
        let rest = s@.subrange(i as int, s@.len() as int);
        if rest.len() > 0 {
            assert(rest[0] == s@[i as int]);
        }
        assert(leading_ws(rest) == 0);
    }
    let mut out: Vec<u8> = Vec::new();
    let mut j: usize = i;
    while j < s.len()
        invariant
            i <= j <= s@.len(),
            out@ == s@.subrange(i as int, j as int),
        decreases s@.len() - j,
    {
        out.push(s[j]);
        proof {
            assert(out@ =~= s@.subrange(i as int, j + 1));
        }
        j = j + 1;
    }
    out
}

/// `b` with an ASCII capital letter taken to its small letter.
pub open spec fn lower_byte(b: u8) -> u8 {
    if 0x41u8 <= b && b <= 0x5au8 {
        (b + 32) as u8
    } else {
        b
    }
}

/// `haystack` starts with `needle_lower` when ASCII letters of `haystack` are
/// taken in small letters.
pub open spec fn starts_with_ascii_case_spec(haystack: Seq<u8>, needle_lower: Seq<u8>) -> bool {
    haystack.len() >= needle_lower.len() && forall|i: int|
        0 <= i < needle_lower.len() ==> lower_byte(#[trigger] haystack[i]) == needle_lower[i]
}

pub fn starts_with_ascii_case(haystack: &[u8], needle_lower: &[u8]) -> (b: bool)
    ensures
        b == starts_with_ascii_case_spec(haystack@, needle_lower@),
{
    if haystack.len() < needle_lower.len() {
        return false;
    }
    let mut i: usize = 0;
    while i < needle_lower.len()
        invariant
            haystack@.len() >= needle_lower@.len(),
            i <= needle_lower@.len(),
            forall|k: int| 0 <= k < i ==> lower_byte(#[trigger] haystack@[k]) == needle_lower@[k],
        decreases needle_lower@.len() - i,
    {
        let a = haystack[i];
        let low = if 0x41u8 <= a && a <= 0x5au8 {
            a + 32
        } else {
            a
        };
        if low != needle_lower[i] {
            return false;
        }
        i = i + 1;
    }
    true
}

/// `needle` occurs in `buf` at `i`.
pub open spec fn bytes_at(buf: Seq<u8>, needle: Seq<u8>, i: int) -> bool {
    0 <= i && i + needle.len() <= buf.len() && buf.subrange(i, i + needle.len()) == needle
}

/// The first position, from `i` on, of `needle` in `buf`.
pub open spec fn find_from(buf: Seq<u8>, needle: Seq<u8>, i: int) -> Option<int>
    decreases buf.len() + 1 - i,
{
    if i < 0 || i + needle.len() > buf.len() {
        None
    } else if bytes_at(buf, needle, i) {
        Some(i)
    } else {
        find_from(buf, needle, i + 1)
    }
}

/// The first position of a non-empty `needle` in `buf`.
pub open spec fn find_spec(buf: Seq<u8>, needle: Seq<u8>) -> Option<int> {
    if needle.len() > 0 {
        find_from(buf, needle, 0)
    } else {
        None
    }
}

proof fn lemma_find_from(buf: Seq<u8>, needle: Seq<u8>, i: int)
    requires
        0 <= i,
    ensures
        find_from(buf, needle, i) matches Some(k) ==> i <= k && bytes_at(buf, needle, k),
    decreases buf.len() + 1 - i,
{
    if i + needle.len() <= buf.len() && !bytes_at(buf, needle, i) {
        lemma_find_from(buf, needle, i + 1);
    }
}

fn matches_at(buf: &[u8], needle: &[u8], at: usize) -> (b: bool)
    requires
        at + needle@.len() <= buf@.len(),
    ensures
        b == bytes_at(buf@, needle@, at as int),
{
    let n = buf.len();
    let mut k: usize = 0;
    while k < needle.len()
        invariant
            n == buf@.len(),
            at + needle@.len() <= buf@.len(),
            k <= needle@.len(),
            forall|x: int| 0 <= x < k ==> buf@[at + x] == needle@[x],
        decreases needle@.len() - k,
    {
        if buf[at + k] != needle[k] {
            proof {
                assert(buf@.subrange(at as int, at + needle@.len())[k as int] != needle@[k as int]);
            }
            return false;
        }
        k = k + 1;
    }
    proof {
        assert(buf@.subrange(at as int, at + needle@.len()) =~= needle@);
    }
    true
}

/// The first position of `needle` in `buf`; `None` for an empty needle.
pub fn find_subslice(buf: &[u8], needle: &[u8]) -> (r: Option<usize>)
    ensures
        match find_spec(buf@, needle@) {
            None => r is None,
            Some(i) => r == Some(i as usize),
        },
{
    if needle.len() == 0 || buf.len() < needle.len() {
        return None;
    }
    let n = buf.len();
    let last = n - needle.len();
    let mut i: usize = 0;
    while i <= last
        invariant
            n == buf@.len(),
            last < n,
            last == buf@.len() - needle@.len(),
            needle@.len() > 0,
            i <= last + 1,
            find_spec(buf@, needle@) == find_from(buf@, needle@, i as int),
        decreases last + 1 - i,
    {
        if matches_at(buf, needle, i) {
            return Some(i);
        }
        i = i + 1;
    }
    None
}

pub open spec fn crlf2() -> Seq<u8> {
    seq![0x0du8, 0x0au8, 0x0du8, 0x0au8]
}

pub open spec fn lf2() -> Seq<u8> {
    seq![0x0au8, 0x0au8]
}

/// Where the headers end and how long the blank line is: `\r\n\r\n` is looked
/// for first, then `\n\n`.
pub open spec fn header_end_spec(buf: Seq<u8>) -> Option<(int, int)> {
    match find_spec(buf, crlf2()) {
        Some(i) => Some((i, 4)),
        None => match find_spec(buf, lf2()) {
            Some(i) => Some((i, 2)),
            None => None,
        },
    }
}

pub fn find_header_end(buf: &[u8]) -> (r: Option<(usize, usize)>)
    ensures
        match header_end_spec(buf@) {
            None => r is None,
            Some((i, n)) => r == Some((i as usize, n as usize)),
        },
{
    let crlf: [u8; 4] = [0x0du8, 0x0au8, 0x0du8, 0x0au8];
    let lf: [u8; 2] = [0x0au8, 0x0au8];
    proof {
        assert(crlf@ =~= crlf2());
        assert(lf@ =~= lf2());
    }
    match find_subslice(buf, &crlf) {
        Some(i) => Some((i, 4)),
        None => match find_subslice(buf, &lf) {
            Some(i) => Some((i, 2)),
            None => None,
        },
    }
}

pub open spec fn content_length_prefix() -> Seq<u8> {
    seq![
        0x63u8,
        0x6fu8,
        0x6eu8,
        0x74u8,
        0x65u8,
        0x6eu8,
        0x74u8,
        0x2du8,
        0x6cu8,
        0x65u8,
        0x6eu8,
        0x67u8,
        0x74u8,
        0x68u8,
        0x3au8,
    ]
}

/// The framing that the first bytes announce: `Content-Length:` in any case,
/// or a JSON object or array; `None` while it cannot be told.
pub open spec fn detect_mode_spec(buf: Seq<u8>) -> Option<u8> {
    let t = buf.subrange(leading_ws(buf) as int, buf.len() as int);
    if t.len() == 0 {
        None
    } else if starts_with_ascii_case_spec(t, content_length_prefix()) {
        Some(MODE_CONTENT_LENGTH)
    } else if t[0] == 0x7bu8 || t[0] == 0x5bu8 {
        Some(MODE_NDJSON)
    } else {
        None
    }
}

pub fn detect_mode(buf: &[u8]) -> (m: Option<u8>)
    ensures
        m == detect_mode_spec(buf@),
{
    let t = trim_leading_ascii_ws(buf);
    if t.len() == 0 {
        return None;
    }
    let prefix: [u8; 15] = [
        0x63u8,
        0x6fu8,
        0x6eu8,
        0x74u8,
        0x65u8,
        0x6eu8,
        0x74u8,
        0x2du8,
        0x6cu8,
        0x65u8,
        0x6eu8,
        0x67u8,
        0x74u8,
        0x68u8,
        0x3au8,
    ];
    proof {
        assert(prefix@ =~= content_length_prefix());
    }
    if starts_with_ascii_case(t.as_slice(), &prefix) {
        return Some(MODE_CONTENT_LENGTH);
    }
    if t[0] == 0x7bu8 || t[0] == 0x5bu8 {
        return Some(MODE_NDJSON);
    }
    None
}

/// Whether a failed read is worth retrying: the call would block or was
/// interrupted (also as raw OS errors 11 and 4).
pub open spec fn retryable_spec(kind: IoErrorKind, raw_os_error: Option<i32>) -> bool {
    kind == IoErrorKind::WouldBlock || kind == IoErrorKind::Interrupted || raw_os_error == Some(11i32)
        || raw_os_error == Some(4i32)
}

pub fn is_retryable_read_error(kind: IoErrorKind, raw_os_error: Option<i32>) -> (b: bool)
    ensures
        b == retryable_spec(kind, raw_os_error),
{
    match kind {
        IoErrorKind::WouldBlock | IoErrorKind::Interrupted => true,
        _ => match raw_os_error {
            Some(c) => c == 11 || c == 4,
            None => false,
        },
    }
}

/// The header that precedes a `Content-Length` framed body of `n` bytes.
pub fn content_length_header(n: usize) -> (s: String)
    ensures
        s@ == "Content-Length: "@ + decimal_spec(n as nat) + "\r\n\r\n"@,
{
    let a = concat("Content-Length: ", u64_to_string(n as u64).as_str());
    concat(a.as_str(), "\r\n\r\n")
}

/// The text of `std::str::from_utf8`'s error for `bytes`.
pub uninterp spec fn utf8_error_text(bytes: Seq<u8>) -> Seq<char>;

/// `std::str::from_utf8`: the text that well-formed UTF-8 `bytes` encode;
/// otherwise the error's text, named by `utf8_error_text`.
#[verifier::external_body]
fn str_from_utf8(bytes: &[u8]) -> (r: Result<String, String>)
    ensures
        r is Ok <==> valid_utf8(bytes@),
        r matches Ok(s) ==> s@ == decode_utf8(bytes@),
        r matches Err(e) ==> e@ == utf8_error_text(bytes@),
{
    match std::str::from_utf8(bytes) {
        Ok(s) => Ok(s.to_string()),
        Err(e) => Err(e.to_string()),
    }
}

/// The value of the decimal digit `c`, if it is one.
pub open spec fn digit_value(c: char) -> Option<nat> {
    if '0' <= c && c <= '9' {
        Some((c as u32 - '0' as u32) as nat)
    } else {
        None
    }
}

/// The digits of an unsigned integer, read in order as `usize::from_str`
/// reads them: an invalid digit or an overflow is reported where it occurs.
pub open spec fn digits_value(d: Seq<char>) -> Result<nat, Seq<char>>
    decreases d.len(),
{
    if d.len() == 0 {
        Ok(0)
    } else {
        match digits_value(d.drop_last()) {
            Err(e) => Err(e),
            Ok(v) => match digit_value(d.last()) {
                None => Err("invalid digit found in string"@),
                Some(x) => if v * 10 + x > usize::MAX {
                    Err("number too large to fit in target type"@)
                } else {
                    Ok(v * 10 + x)
                },
            },
        }
    }
}

/// `usize::from_str`: an optional `+` and decimal digits.
pub open spec fn parse_usize_spec(s: Seq<char>) -> Result<usize, Seq<char>> {
    if s.len() == 0 {
        Err("cannot parse integer from empty string"@)
    } else if s == "+"@ {
        Err("invalid digit found in string"@)
    } else {
        let d = if s[0] == '+' {
            s.drop_first()
        } else {
            s
        };
        match digits_value(d) {
            Ok(v) => Ok(v as usize),
            Err(e) => Err(e),
        }
    }
}

/// Parses an unsigned integer as `usize::from_str` does, with its error texts.
pub fn parse_usize(s: &str) -> (r: Result<usize, String>)
    ensures
        match parse_usize_spec(s@) {
            Ok(v) => r == Ok::<usize, String>(v),
            Err(e) => r is Err && r->Err_0@ == e,
        },
{
    let cs = crate::text::chars_of(s);
    if cs.len() == 0 {
        return Err(String::from_str("cannot parse integer from empty string"));
    }
    proof {
        reveal_strlit("+");
    }
    if cs.len() == 1 && cs[0] == '+' {
        proof {
            assert(s@ =~= "+"@);
        }
        return Err(String::from_str("invalid digit found in string"));
    }
    proof {
        if s@ == "+"@ {
            assert(s@.len() == 1);
        }
    }
    let start: usize = if cs[0] == '+' { 1 } else { 0 };
    let ghost d = if cs@[0] == '+' { cs@.drop_first() } else { cs@ };
    proof {
        assert(d =~= cs@.subrange(start as int, cs@.len() as int));
    }
    proof {
        assert(s@ != "+"@);
        assert(cs@ == s@);
    }
    let mut v: usize = 0;
    let mut i: usize = start;
    while i < cs.len()
        invariant
            start <= i <= cs@.len(),
            d == cs@.subrange(start as int, cs@.len() as int),
            parse_usize_spec(s@) == match digits_value(d) {
                Ok(x) => Ok(x as usize),
                Err(e) => Err(e),
            },
            digits_value(d.take(i - start)) == Ok::<nat, Seq<char>>(v as nat),
        decreases cs@.len() - i,
    {
        let c = cs[i];
        proof {
            assert(d.take(i - start + 1).drop_last() =~= d.take(i - start));
            assert(d.take(i - start + 1).last() == c);
        }
        if !('0' <= c && c <= '9') {
            proof {
                lemma_digits_err_extends(d, i - start + 1);
            }
            return Err(String::from_str("invalid digit found in string"));
        }
        let x: usize = (c as u32 - '0' as u32) as usize;
        let next = match v.checked_mul(10) {
            Some(m) => m.checked_add(x),
            None => None,
        };
        match next {
            Some(n) => {
                v = n;
            },
            None => {
                proof {
                    lemma_digits_err_extends(d, i - start + 1);
                }
                return Err(String::from_str("number too large to fit in target type"));
            },
        }
        i = i + 1;
    }
    proof {
        assert(d.take(d.len() as int) =~= d);
    }
    Ok(v)
}

proof fn lemma_digits_err_extends(d: Seq<char>, k: int)
    requires
        0 <= k <= d.len(),
        digits_value(d.take(k)) is Err,
    ensures
        digits_value(d) == digits_value(d.take(k)),
    decreases d.len() - k,
{
    if k < d.len() {
        assert(d.take(k + 1).drop_last() =~= d.take(k));
        lemma_digits_err_extends(d, k + 1);
    } else {
        assert(d.take(k) =~= d);
    }
}

/// The value of the last `Content-Length` header among `lines`; an error for
/// the first header whose value does not parse.
pub open spec fn content_length_value(lines: Seq<Seq<char>>) -> Result<Option<usize>, Seq<char>>
    decreases lines.len(),
{
    if lines.len() == 0 {
        Ok(None)
    } else {
        match content_length_value(lines.drop_last()) {
            Err(e) => Err(e),
            Ok(prev) => {
                let line = lines.last();
                if line.contains(':') {
                    let k = choose|k: int| 0 <= k < line.len() && line[k] == ':' && forall|j: int| 0 <= j < k ==> line[j] != ':';
                    let key = crate::text::trim_spec(line.subrange(0, k));
                    let value = crate::text::trim_spec(line.subrange(k + 1, line.len() as int));
                    if crate::text::eq_ignore_ascii_case_spec(key, "content-length"@) {
                        match parse_usize_spec(value) {
                            Ok(n) => Ok(Some(n)),
                            Err(e) => Err("invalid Content-Length value: "@ + e),
                        }
                    } else {
                        Ok(prev)
                    }
                } else {
                    Ok(prev)
                }
            },
        }
    }
}

/// What the front of the buffer holds for `Content-Length` framing: not yet a
/// whole frame (`Ok(None)`), a body, or why the headers are refused.
pub open spec fn content_length_frame_spec(buf: Seq<u8>) -> Result<Option<(Seq<u8>, Seq<u8>)>, Seq<char>> {
    match header_end_spec(buf) {
        None => Ok(None),
        Some((end, sep)) => match header_length_spec(buf.subrange(0, end)) {
            Err(e) => Err(e),
            Ok(n) => {
                let body_end = end + sep + n;
                if buf.len() < body_end {
                    Ok(None)
                } else {
                    Ok(Some((buf.subrange(end + sep, body_end), buf.subrange(body_end, buf.len() as int))))
                }
            },
        },
    }
}

fn first_colon(cs: &Vec<char>) -> (r: Option<usize>)
    ensures
        r is None <==> !cs@.contains(':'),
        r matches Some(k) ==> k < cs@.len() && cs@[k as int] == ':' && forall|j: int| 0 <= j < k ==> cs@[j] != ':',
{
    let mut i: usize = 0;
    while i < cs.len()
        invariant
            i <= cs@.len(),
            forall|j: int| 0 <= j < i ==> cs@[j] != ':',
        decreases cs@.len() - i,
    {
        if cs[i] == ':' {
            return Some(i);
        }
        i = i + 1;
    }
    None
}

fn header_value(lines: &Vec<String>) -> (r: Result<Option<usize>, String>)
    ensures
        match content_length_value(crate::csv::views(lines@)) {
            Ok(v) => r == Ok::<Option<usize>, String>(v),
            Err(e) => r is Err && r->Err_0@ == e,
        },
{
    let ghost ls = crate::csv::views(lines@);
    let mut value: Option<usize> = None;
    let mut i: usize = 0;
    while i < lines.len()
        invariant
            ls == crate::csv::views(lines@),
            i <= ls.len(),
            content_length_value(ls.take(i as int)) == Ok::<Option<usize>, Seq<char>>(value),
        decreases ls.len() - i,
    {
        proof {
            assert(ls.take(i + 1).drop_last() =~= ls.take(i as int));
            assert(ls.take(i + 1).last() == lines@[i as int]@);
        }
        let cs = crate::text::chars_of(lines[i].as_str());
        match first_colon(&cs) {
            None => {},
            Some(k) => {
                proof {
                    let line = lines@[i as int]@;
                    let c = choose|c: int| 0 <= c < line.len() && line[c] == ':' && forall|j: int| 0 <= j < c ==> line[j] != ':';
                    assert(c == k as int) by {
                        if c < k {
                        } else if c > k {
                            assert(line[k as int] == ':');
                        }
                    }
                }
                let n = cs.len();
                assert(k < n);
                let key_cs = crate::text::slice_vec(cs.as_slice(), 0, k);
                let val_cs = crate::text::slice_vec(cs.as_slice(), k + 1, n);
                let key = crate::text::trim_chars(key_cs.as_slice());
                let val = crate::text::trim_chars(val_cs.as_slice());
                let key_s = crate::text::string_of(key.as_slice());
                let val_s = crate::text::string_of(val.as_slice());
                if crate::text::str_eq_ignore_ascii_case(key_s.as_str(), "content-length") {
                    match parse_usize(val_s.as_str()) {
                        Ok(n) => {
                            value = Some(n);
                        },
                        Err(e) => {
                            proof {
                                lemma_cl_err_extends(ls, i + 1);
                            }
                            return Err(concat("invalid Content-Length value: ", e.as_str()));
                        },
                    }
                }
            },
        }
        i = i + 1;
    }
    proof {
        assert(ls.take(ls.len() as int) =~= ls);
    }
    Ok(value)
}

proof fn lemma_cl_err_extends(ls: Seq<Seq<char>>, k: int)
    requires
        0 <= k <= ls.len(),
        content_length_value(ls.take(k)) is Err,
    ensures
        content_length_value(ls) == content_length_value(ls.take(k)),
    decreases ls.len() - k,
{
    if k < ls.len() {
        assert(ls.take(k + 1).drop_last() =~= ls.take(k));
        lemma_cl_err_extends(ls, k + 1);
    } else {
        assert(ls.take(k) =~= ls);
    }
}

fn copy_range(buf: &Vec<u8>, from: usize, to: usize) -> (out: Vec<u8>)
    requires
        from <= to <= buf@.len(),
    ensures
        out@ == buf@.subrange(from as int, to as int),
{
    let mut out: Vec<u8> = Vec::new();
    let mut i: usize = from;
    while i < to
        invariant
            from <= i <= to,
            to <= buf@.len(),
            out@ == buf@.subrange(from as int, i as int),
        decreases to - i,
    {
        out.push(buf[i]);
        proof {
            assert(out@ =~= buf@.subrange(from as int, i + 1));
        }
        i = i + 1;
    }
    out
}

/// The `Content-Length` that the header bytes give, or why they are refused.
pub open spec fn header_length_spec(head: Seq<u8>) -> Result<usize, Seq<char>> {
    if !valid_utf8(head) {
        Err("invalid content-length header utf8: "@ + utf8_error_text(head))
    } else {
        match content_length_value(crate::csv::trimmed_nonempty(crate::csv::split_on(decode_utf8(head), '\n'))) {
            Err(e) => Err(e),
            Ok(None) => Err("missing Content-Length header in MCP frame"@),
            Ok(Some(n)) => Ok(n),
        }
    }
}

fn header_length(head: &Vec<u8>) -> (r: Result<usize, String>)
    ensures
        match header_length_spec(head@) {
            Ok(n) => r == Ok::<usize, String>(n),
            Err(e) => r is Err && r->Err_0@ == e,
        },
{
    let text = match str_from_utf8(head.as_slice()) {
        Ok(t) => t,
        Err(e) => return Err(concat("invalid content-length header utf8: ", e.as_str())),
    };
    let lines = crate::csv::split_trimmed(text.as_str(), '\n');
    match header_value(&lines) {
        Ok(Some(n)) => Ok(n),
        Ok(None) => Err(String::from_str("missing Content-Length header in MCP frame")),
        Err(e) => Err(e),
    }
}

/// Takes one `Content-Length` framed body off the front of the buffer (see
/// `content_length_frame_spec`); the buffer is left as it was otherwise.
pub fn take_content_length_frame(buf: &mut Vec<u8>) -> (r: Result<Option<Vec<u8>>, String>)
    ensures
        match content_length_frame_spec(old(buf)@) {
            Err(e) => r is Err && r->Err_0@ == e && final(buf)@ == old(buf)@,
            Ok(None) => r == Ok::<Option<Vec<u8>>, String>(None) && final(buf)@ == old(buf)@,
            Ok(Some((body, rest))) => r is Ok && r->Ok_0 is Some && r->Ok_0.unwrap()@ == body && final(buf)@ == rest,
        },
{
    let blen = buf.len();
    let (end, sep) = match find_header_end(buf.as_slice()) {
        Some(v) => v,
        None => return Ok(None),
    };
    proof {
        lemma_find_from(buf@, crlf2(), 0);
        lemma_find_from(buf@, lf2(), 0);
        assert(crlf2().len() == 4 && lf2().len() == 2);
        assert(end as int + sep as int <= buf@.len());
    }
    let head = copy_range(buf, 0, end);
    let n = match header_length(&head) {
        Ok(n) => n,
        Err(e) => return Err(e),
    };
    let body_start = end + sep;
    if buf.len() - body_start < n {
        return Ok(None);
    }
    let body_end = body_start + n;
    let body = copy_range(buf, body_start, body_end);
    let rest = copy_range(buf, body_end, buf.len());
    *buf = rest;
    Ok(Some(body))
}

/// What a newline-delimited buffer yields at its front.
#[derive(Debug, Clone)]
pub enum NdjsonFrame {
    /// No complete line yet.
    Incomplete,
    /// A line of white space only, taken off.
    Blank,
    /// A line, taken off, without its line ending.
    Line(Vec<u8>),
}

/// The first line of the buffer (without `\n` and a `\r` before it) and what
/// follows it; `None` without a line feed.
pub open spec fn ndjson_line_spec(buf: Seq<u8>) -> Option<(Seq<u8>, Seq<u8>)> {
    match first_lf(buf, 0) {
        Some(k) => {
            let line = buf.subrange(0, k);
            let line = if line.len() > 0 && line.last() == 0x0du8 {
                line.drop_last()
            } else {
                line
            };
            Some((line, buf.subrange(k + 1, buf.len() as int)))
        },
        None => None,
    }
}

/// The first line feed from `i` on.
pub open spec fn first_lf(buf: Seq<u8>, i: int) -> Option<int>
    decreases buf.len() - i,
{
    if i < 0 || i >= buf.len() {
        None
    } else if buf[i] == 0x0au8 {
        Some(i)
    } else {
        first_lf(buf, i + 1)
    }
}

/// Every byte is ASCII white space.
pub open spec fn all_ascii_ws(s: Seq<u8>) -> bool {
    forall|i: int| 0 <= i < s.len() ==> ascii_ws(#[trigger] s[i])
}

/// Takes the first line off a newline-delimited buffer.
pub fn take_ndjson_line(buf: &mut Vec<u8>) -> (r: NdjsonFrame)
    ensures
        match ndjson_line_spec(old(buf)@) {
            None => r is Incomplete && final(buf)@ == old(buf)@,
            Some((line, rest)) => final(buf)@ == rest && if all_ascii_ws(line) {
                r is Blank
            } else {
                r is Line && r->Line_0@ == line
            },
        },
{
    let ghost b0 = buf@;
    let mut k: usize = 0;
    while k < buf.len()
        invariant
            k <= buf@.len(),
            first_lf(buf@, 0) == first_lf(buf@, k as int),
        ensures
            k <= buf@.len(),
            first_lf(buf@, 0) == first_lf(buf@, k as int),
            k < buf@.len() ==> buf@[k as int] == 0x0au8,
        decreases buf@.len() - k,
    {
        if buf[k] == 0x0au8 {
            break;
        }
        k = k + 1;
    }
    if k == buf.len() {
        return NdjsonFrame::Incomplete;
    }
    let mut line_end = k;
    if k > 0 && buf[k - 1] == 0x0du8 {
        line_end = k - 1;
    }
    let line = copy_range(buf, 0, line_end);
    let rest = copy_range(buf, k + 1, buf.len());
    proof {
        let l0 = buf@.subrange(0, k as int);
        if k > 0 && buf@[k - 1] == 0x0du8 {
            assert(l0.drop_last() =~= line@);
        } else {
            assert(l0 =~= line@);
        }
    }
    proof {
        assert(ndjson_line_spec(b0) == Some((line@, rest@)));
    }
    *buf = rest;
    let mut all_ws = true;
    let mut i: usize = 0;
    while i < line.len()
        invariant
            i <= line@.len(),
            all_ws == forall|j: int| 0 <= j < i ==> ascii_ws(#[trigger] line@[j]),
        decreases line@.len() - i,
    {
        if !is_ascii_ws(line[i]) {
            all_ws = false;
        }
        i = i + 1;
    }
    proof {
        assert(buf@ == rest@);
        assert(ndjson_line_spec(old(buf)@) == Some((line@, rest@)));
        assert(all_ws == all_ascii_ws(line@));
    }
    if all_ws {
        NdjsonFrame::Blank
    } else {
        NdjsonFrame::Line(line)
    }
}

/// What the receive loop does next with its buffer.
#[derive(Debug, Clone)]
pub enum DecodeStep {
    /// The framing is now known.
    SwitchMode(u8),
    /// A message body to decode as JSON.
    Message(Vec<u8>),
    /// Read more input first.
    NeedMore,
    /// The framing is broken: report it and drop the buffer.
    DecodeError(String),
}

/// One decision of the receive loop in framing `mode`: detect the framing,
/// or take the next message off the buffer.
pub fn decode_step(mode: u8, buf: &mut Vec<u8>) -> (r: DecodeStep)
    ensures
        mode == MODE_CONTENT_LENGTH ==> match content_length_frame_spec(old(buf)@) {
            Err(e) => r is DecodeError && r->DecodeError_0@ == e && final(buf)@ == old(buf)@,
            Ok(None) => r is NeedMore && final(buf)@ == old(buf)@,
            Ok(Some((body, rest))) => r is Message && r->Message_0@ == body && final(buf)@ == rest,
        },
        mode == MODE_NDJSON ==> match ndjson_line_spec(old(buf)@) {
            None => r is NeedMore && final(buf)@ == old(buf)@,
            Some((line, rest)) => final(buf)@ == rest && if all_ascii_ws(line) {
                r is NeedMore
            } else {
                r is Message && r->Message_0@ == line
            },
        },
        mode != MODE_CONTENT_LENGTH && mode != MODE_NDJSON ==> final(buf)@ == old(buf)@ && match detect_mode_spec(
            old(buf)@,
        ) {
            Some(m) => r == DecodeStep::SwitchMode(m),
            None => r is NeedMore,
        },
{
    if mode == MODE_CONTENT_LENGTH {
        match take_content_length_frame(buf) {
            Ok(Some(body)) => DecodeStep::Message(body),
            Ok(None) => DecodeStep::NeedMore,
            Err(e) => DecodeStep::DecodeError(e),
        }
    } else if mode == MODE_NDJSON {
        match take_ndjson_line(buf) {
            NdjsonFrame::Line(line) => DecodeStep::Message(line),
            _ => DecodeStep::NeedMore,
        }
    } else {
        match detect_mode(buf.as_slice()) {
            Some(m) => DecodeStep::SwitchMode(m),
            None => DecodeStep::NeedMore,
        }
    }
}

/// The last message that a buffer yields once input has ended: framed by
/// `Content-Length` in that mode, else as a line; nothing on a framing error.
pub fn decode_at_eof(mode: u8, buf: &mut Vec<u8>) -> (r: Option<Vec<u8>>)
    ensures
        mode == MODE_CONTENT_LENGTH ==> match content_length_frame_spec(old(buf)@) {
            Ok(Some((body, rest))) => r is Some && r.unwrap()@ == body,
            _ => r is None,
        },
        mode == MODE_NDJSON || mode == MODE_UNKNOWN ==> match ndjson_line_spec(old(buf)@) {
            None => r is None,
            Some((line, rest)) => if all_ascii_ws(line) {
                r is None
            } else {
                r is Some && r.unwrap()@ == line
            },
        },
        mode != MODE_CONTENT_LENGTH && mode != MODE_NDJSON && mode != MODE_UNKNOWN ==> r is None,
{
    if mode == MODE_CONTENT_LENGTH {
        match take_content_length_frame(buf) {
            Ok(Some(body)) => Some(body),
            _ => None,
        }
    } else if mode == MODE_NDJSON || mode == MODE_UNKNOWN {
        match take_ndjson_line(buf) {
            NdjsonFrame::Line(line) => Some(line),
            _ => None,
        }
    } else {
        None
    }
}

/// A line written as NDJSON (a payload without line feeds, then `\n`) is read
/// back as that payload, and what followed it stays in the buffer; a payload
/// ending in `\r` loses that byte as a line ending.
pub proof fn law_ndjson_line_roundtrip(payload: Seq<u8>, rest: Seq<u8>)
    requires
        forall|i: int| 0 <= i < payload.len() ==> payload[i] != 0x0au8,
        payload.len() == 0 || payload.last() != 0x0du8,
    ensures
        ndjson_line_spec(payload.push(0x0au8) + rest) == Some((payload, rest)),
{
    let buf = payload.push(0x0au8) + rest;
    assert forall|k: int| 0 <= k < payload.len() implies buf[k] == payload[k] by {}
    lemma_first_lf_from(buf, payload, 0);
    assert(buf.subrange(0, payload.len() as int) =~= payload);
    assert(buf.subrange(payload.len() as int + 1, buf.len() as int) =~= rest);
}

proof fn lemma_first_lf_from(buf: Seq<u8>, payload: Seq<u8>, i: int)
    requires
        buf.len() > payload.len(),
        buf[payload.len() as int] == 0x0au8,
        forall|k: int| 0 <= k < payload.len() ==> buf[k] == payload[k],
        forall|k: int| 0 <= k < payload.len() ==> payload[k] != 0x0au8,
        0 <= i <= payload.len(),
    ensures
        first_lf(buf, i) == Some(payload.len() as int),
    decreases payload.len() - i,
{
    if i < payload.len() {
        assert(buf[i] == payload[i]);
        lemma_first_lf_from(buf, payload, i + 1);
    }
}

} // verus!
