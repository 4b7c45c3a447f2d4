//! The safety rules for unpacking a registry archive, entry by entry: a bound
//! on entries, sizes and path lengths, relative paths without `..`, and a
//! single top-level directory.

use crate::init::{has_parent_segment, parent_segment};
use crate::text::{chars_of, concat, seq_starts_with, slice_vec, string_of, str_eq, u64_to_string, decimal_spec};
use vstd::prelude::*;
use vstd::string::*;

verus! {

pub const MAX_ENTRIES: usize = 20000;

pub const MAX_FILE_BYTES: u64 = 10485760;

pub const MAX_TOTAL_BYTES: u64 = 209715200;

pub const MAX_PATH_BYTES: usize = 512;

/// What the unpacking has seen so far.
#[derive(Debug, Clone)]
pub struct TarScan {
    pub root_prefix: Option<String>,
    pub entries_seen: usize,
    pub total_bytes: u64,
}

/// The kind of an archive entry; `Other` carries how the archive names it.
#[derive(Debug, Clone)]
pub enum TarEntryKind {
    Regular,
    Directory,
    Other(String),
}

/// The bytes that `c` takes in UTF-8.
pub open spec fn utf8_len(c: char) -> nat {
    if (c as u32) < 0x80 {
        1
    } else if (c as u32) < 0x800 {
        2
    } else if (c as u32) < 0x10000 {
        3
    } else {
        4
    }
}

/// The bytes that `s` takes in UTF-8.
pub open spec fn utf8_bytes(s: Seq<char>) -> nat
    decreases s.len(),
{
    if s.len() == 0 {
        0
    } else {
        utf8_bytes(s.drop_last()) + utf8_len(s.last())
    }
}

proof fn lemma_utf8_bytes_mono(s: Seq<char>, i: int)
    requires
        0 <= i <= s.len(),
    ensures
        utf8_bytes(s.take(i)) <= utf8_bytes(s),
    decreases s.len() - i,
{
    if i < s.len() {
        lemma_utf8_bytes_mono(s, i + 1);
        assert(s.take(i + 1).drop_last() =~= s.take(i));
    } else {
        assert(s.take(i) =~= s);
    }
}

fn char_utf8_len(c: char) -> (n: u64)
    ensures
        n as nat == utf8_len(c),
{
    let v = c as u32;
    if v < 0x80 {
        1
    } else if v < 0x800 {
        2
    } else if v < 0x10000 {
        3
    } else {
        4
    }
}

/// Whether `s` takes more than `limit` bytes in UTF-8.
pub fn utf8_longer_than(s: &str, limit: u64) -> (b: bool)
    requires
        limit < 0xffff_ffff,
    ensures
        b == (utf8_bytes(s@) > limit),
{
    let cs = chars_of(s);
    let mut total: u64 = 0;
    let mut i: usize = 0;
    while i < cs.len()
        invariant
            cs@ == s@,
            i <= cs@.len(),
            total as nat == utf8_bytes(cs@.take(i as int)),
            total <= limit,
            limit < 0xffff_ffff,
        decreases cs@.len() - i,
    {
        proof {
            assert(cs@.take(i + 1).drop_last() =~= cs@.take(i as int));
        }
        total = total + char_utf8_len(cs[i]);
        i = i + 1;
        if total > limit {
            proof {
                lemma_utf8_bytes_mono(cs@, i as int);
            }
            return true;
        }
    }
    proof {
        assert(cs@.take(cs@.len() as int) =~= cs@);
    }
    false
}

/// The first path component is `.` (the path is `.` or starts with `./`).
pub open spec fn starts_with_cur_dir(p: Seq<char>) -> bool {
    p == "."@ || seq_starts_with(p, "./"@)
}

/// The text of the path up to its first `/`.
pub open spec fn first_segment(p: Seq<char>) -> Seq<char> {
    if exists|i: int| 0 <= i < p.len() && p[i] == '/' {
        p.subrange(0, choose|i: int| 0 <= i < p.len() && p[i] == '/' && forall|j: int| 0 <= j < i ==> p[j] != '/')
    } else {
        p
    }
}

/// The first path component is `..`.
pub open spec fn first_is_parent(p: Seq<char>) -> bool {
    first_segment(p) == ".."@
}

pub open spec fn unsafe_component_message(p: Seq<char>) -> Seq<char> {
    "unsafe tar path component: "@ + p
}

/// The next scan state and whether the entry is a directory, or why the
/// archive is refused at this entry.
pub open spec fn tar_step_spec(
    root: Option<Seq<char>>,
    seen: nat,
    total: nat,
    kind: TarEntryKind,
    path: Result<Seq<char>, Seq<char>>,
    size: Result<u64, Seq<char>>,
) -> Result<(Option<Seq<char>>, nat, nat, bool), Seq<char>> {
    let seen1 = seen + 1;
    if seen1 > MAX_ENTRIES {
        Err("archive exceeds MAX_ENTRIES=20000"@)
    } else if kind is Other {
        Err("unsupported tar entry type: "@ + kind->Other_0@)
    } else if path is Err {
        Err("failed to read tar entry path: "@ + path->Err_0)
    } else {
        let p = path->Ok_0;
        if p.len() == 0 {
            Err("empty tar entry path"@)
        } else if p[0] == '/' {
            Err("absolute tar path is forbidden: "@ + p)
        } else if utf8_bytes(p) > MAX_PATH_BYTES {
            Err("tar path too long (> 512 bytes): "@ + p)
        } else if starts_with_cur_dir(p) || first_is_parent(p) {
            Err(unsafe_component_message(p))
        } else if root is Some && root.unwrap() != first_segment(p) {
            Err("archive must have single top-level directory; found '"@ + root.unwrap() + "' and '"@
                + first_segment(p) + "'"@)
        } else if has_parent_segment(p) {
            Err(unsafe_component_message(p))
        } else if size is Err {
            Err("failed to read tar entry size: "@ + size->Err_0)
        } else {
            let root1 = if root is None {
                Some(first_segment(p))
            } else {
                root
            };
            let sz = size->Ok_0;
            if kind is Regular {
                let total1 = if total + sz > u64::MAX {
                    u64::MAX as nat
                } else {
                    (total + sz) as nat
                };
                if sz > MAX_FILE_BYTES {
                    Err("tar entry too large (> 10485760 bytes): "@ + p)
                } else if total1 > MAX_TOTAL_BYTES {
                    Err("archive exceeds MAX_TOTAL_BYTES=209715200"@)
                } else {
                    Ok((root1, seen1, total1, false))
                }
            } else {
                Ok((root1, seen1, total, true))
            }
        }
    }
}

pub open spec fn opt_string_view(v: Option<String>) -> Option<Seq<char>> {
    match v {
        Some(s) => Some(s@),
        None => None,
    }
}

pub open spec fn path_view(r: Result<String, String>) -> Result<Seq<char>, Seq<char>> {
    match r {
        Ok(v) => Ok(v@),
        Err(e) => Err(e@),
    }
}

pub open spec fn result_view<T>(r: Result<T, String>) -> Result<T, Seq<char>> {
    match r {
        Ok(v) => Ok(v),
        Err(e) => Err(e@),
    }
}

fn first_segment_of(cs: &Vec<char>) -> (out: Vec<char>)
    ensures
        out@ == first_segment(cs@),
{
    let mut i: usize = 0;
    while i < cs.len()
        invariant
            i <= cs@.len(),
            forall|j: int| 0 <= j < i ==> cs@[j] != '/',
        decreases cs@.len() - i,
    {
        if cs[i] == '/' {
            proof {
                let c = choose|c: int| 0 <= c < cs@.len() && cs@[c] == '/' && forall|j: int| 0 <= j < c ==> cs@[j] != '/';
                assert(c == i as int) by {
                    if c < i {
                    } else if c > i {
                        assert(cs@[i as int] == '/');
                    }
                }
            }
            return slice_vec(cs.as_slice(), 0, i);
        }
        i = i + 1;
    }
    slice_vec(cs.as_slice(), 0, cs.len())
}

/// Checks one archive entry against the unpacking rules and records it; `Ok`
/// says whether the entry is a directory.
pub fn tar_entry_step(
    scan: &mut TarScan,
    kind: TarEntryKind,
    path: Result<String, String>,
    size: Result<u64, String>,
) -> (r: Result<bool, String>)
    ensures
        match tar_step_spec(
            opt_string_view(old(scan).root_prefix),
            old(scan).entries_seen as nat,
            old(scan).total_bytes as nat,
            kind,
            path_view(path),
            result_view(size),
        ) {
            Err(e) => r is Err && r->Err_0@ == e,
            Ok((root, seen, total, is_dir)) => r == Ok::<bool, String>(is_dir) && opt_string_view(final(scan).root_prefix)
                == root && final(scan).entries_seen as nat == seen && final(scan).total_bytes as nat == total,
        },
{
    if scan.entries_seen >= MAX_ENTRIES {
        return Err(String::from_str("archive exceeds MAX_ENTRIES=20000"));
    }
    let is_regular = match &kind {
        TarEntryKind::Regular => true,
        TarEntryKind::Directory => false,
        TarEntryKind::Other(name) => {
            return Err(concat("unsupported tar entry type: ", name.as_str()));
        },
    };
    let p = match path {
        Ok(p) => p,
        Err(e) => {
            return Err(concat("failed to read tar entry path: ", e.as_str()));
        },
    };
    let cs = chars_of(p.as_str());
    if cs.len() == 0 {
        return Err(String::from_str("empty tar entry path"));
    }
    if cs[0] == '/' {
        return Err(concat("absolute tar path is forbidden: ", p.as_str()));
    }
    if utf8_longer_than(p.as_str(), 512) {
        return Err(concat("tar path too long (> 512 bytes): ", p.as_str()));
    }
    let first = first_segment_of(&cs);
    let cur_dir = (cs.len() == 1 && cs[0] == '.') || (cs.len() >= 2 && cs[0] == '.' && cs[1] == '/');
    proof {
        reveal_strlit("./");
        reveal_strlit(".");
        reveal_strlit("..");
        if cs@.len() >= 2 {
            assert(seq_starts_with(cs@, "./"@) == (cs@[0] == '.' && cs@[1] == '/')) by {
                if cs@[0] == '.' && cs@[1] == '/' {
                    assert(cs@.subrange(0, 2) =~= "./"@);
                }
                if seq_starts_with(cs@, "./"@) {
                    assert(cs@.subrange(0, 2)[0] == cs@[0]);
                    assert(cs@.subrange(0, 2)[1] == cs@[1]);
                    assert("./"@[0] == '.' && "./"@[1] == '/');
                }
            }
        }
        if cs@.len() == 1 {
            assert((cs@ == "."@) == (cs@[0] == '.')) by {
                if cs@[0] == '.' {
                    assert(cs@ =~= "."@);
                }
            }
        } else {
            assert(cs@ != "."@);
        }
    }
    let parent_first = first.len() == 2 && first[0] == '.' && first[1] == '.';
    proof {
        assert(parent_first == (first@ == ".."@)) by {
            if parent_first {
                assert(first@ =~= ".."@);
            }
        }
    }
    if cur_dir || parent_first {
        return Err(concat("unsafe tar path component: ", p.as_str()));
    }
    let first_s = string_of(first.as_slice());
    match &scan.root_prefix {
        Some(root) => {
            if !str_eq(root.as_str(), first_s.as_str()) {
                let a = concat("archive must have single top-level directory; found '", root.as_str());
                let b = concat(a.as_str(), "' and '");
                let c = concat(b.as_str(), first_s.as_str());
                return Err(concat(c.as_str(), "'"));
            }
        },
        None => {},
    }
    if parent_segment(&cs) {
        return Err(concat("unsafe tar path component: ", p.as_str()));
    }
    let sz = match size {
        Ok(s) => s,
        Err(e) => {
            return Err(concat("failed to read tar entry size: ", e.as_str()));
        },
    };
    if is_regular {
        if sz > MAX_FILE_BYTES {
            return Err(concat("tar entry too large (> 10485760 bytes): ", p.as_str()));
        }
        let total = scan.total_bytes.saturating_add(sz);
        if total > MAX_TOTAL_BYTES {
            return Err(String::from_str("archive exceeds MAX_TOTAL_BYTES=209715200"));
        }
        scan.total_bytes = total;
    }
    if scan.root_prefix.is_none() {
        scan.root_prefix = Some(first_s);
    }
    scan.entries_seen = scan.entries_seen + 1;
    Ok(!is_regular)
}

} // verus!
