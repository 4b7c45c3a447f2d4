//! Comma-separated lists as the command line writes them.

use crate::text::{chars_of, slice_vec, string_of, trim_chars, trim_spec};
use vstd::prelude::*;

verus! {

/// The pieces of `s` between occurrences of `sep` (one piece when there is none).
pub open spec fn split_on(s: Seq<char>, sep: char) -> Seq<Seq<char>>
    decreases s.len(),
{
    if s.len() == 0 {
        seq![Seq::<char>::empty()]
    } else {
        let p = split_on(s.drop_last(), sep);
        if s.last() == sep {
            p.push(Seq::<char>::empty())
        } else {
            p.update(p.len() - 1, p.last().push(s.last()))
        }
    }
}

/// The pieces of `s` between commas.
pub open spec fn split_on_commas(s: Seq<char>) -> Seq<Seq<char>> {
    split_on(s, ',')
}

/// `pieces` trimmed, without the empty ones.
pub open spec fn trimmed_nonempty(pieces: Seq<Seq<char>>) -> Seq<Seq<char>>
    decreases pieces.len(),
{
    if pieces.len() == 0 {
        seq![]
    } else {
        let rest = trimmed_nonempty(pieces.drop_last());
        if trim_spec(pieces.last()).len() == 0 {
            rest
        } else {
            rest.push(trim_spec(pieces.last()))
        }
    }
}

/// The items of a comma-separated list: split at commas, trimmed, empty ones dropped.
pub open spec fn csv_spec(s: Seq<char>) -> Seq<Seq<char>> {
    trimmed_nonempty(split_on_commas(s))
}

pub proof fn lemma_split_nonempty(s: Seq<char>, sep: char)
    ensures
        split_on(s, sep).len() >= 1,
    decreases s.len(),
{
    if s.len() > 0 {
        lemma_split_nonempty(s.drop_last(), sep);
    }
}

/// The views of `v`'s strings.
pub open spec fn views(v: Seq<String>) -> Seq<Seq<char>> {
    v.map_values(|s: String| s@)
}

fn push_trimmed(out: &mut Vec<String>, piece: &Vec<char>)
    ensures
        views(final(out)@) == if trim_spec(piece@).len() == 0 {
            views(old(out)@)
        } else {
            views(old(out)@).push(trim_spec(piece@))
        },
{
    let t = trim_chars(piece.as_slice());
    if t.len() > 0 {
        let ghost before = out@;
        out.push(string_of(t.as_slice()));
        assert(views(out@) =~= views(before).push(trim_spec(piece@)));
    }
}

/// Adds `s` trimmed, unless it is blank.
pub fn push_trimmed_item(out: &mut Vec<String>, s: &str)
    ensures
        views(final(out)@) == if trim_spec(s@).len() == 0 {
            views(old(out)@)
        } else {
            views(old(out)@).push(trim_spec(s@))
        },
{
    let cs = chars_of(s);
    push_trimmed(out, &cs);
}

/// The pieces of `raw` between occurrences of `sep`, trimmed, blank ones dropped.
pub fn split_trimmed(raw: &str, sep: char) -> (out: Vec<String>)
    ensures
        views(out@) == trimmed_nonempty(split_on(raw@, sep)),
{
    let cs = chars_of(raw);
    let mut out: Vec<String> = Vec::new();
    let mut cur: Vec<char> = Vec::new();
    let mut i: usize = 0;
    proof {
        assert(cs@.take(0) =~= Seq::<char>::empty());
    }
    while i < cs.len()
        invariant
            i <= cs@.len(),
            split_on(cs@.take(i as int), sep).len() >= 1,
            cur@ == split_on(cs@.take(i as int), sep).last(),
            views(out@) == trimmed_nonempty(split_on(cs@.take(i as int), sep).drop_last()),
        decreases cs@.len() - i,
    {
        let c = cs[i];
        let ghost prev = split_on(cs@.take(i as int), sep);
        proof {
            assert(cs@.take(i + 1).drop_last() =~= cs@.take(i as int));
            assert(cs@.take(i + 1).last() == c);
            lemma_split_nonempty(cs@.take(i + 1), sep);
        }
        if c == sep {
            push_trimmed(&mut out, &cur);
            cur = Vec::new();
            proof {
                let next = split_on(cs@.take(i + 1), sep);
                assert(next == prev.push(Seq::<char>::empty()));
                assert(next.drop_last() =~= prev);
                assert(prev =~= prev.drop_last().push(prev.last()));
                assert(cur@ =~= next.last());
            }
        } else {
            cur.push(c);
            proof {
                let next = split_on(cs@.take(i + 1), sep);
                assert(next.drop_last() =~= prev.drop_last());
            }
        }
        i += 1;
    }
    proof {
        assert(cs@.take(cs@.len() as int) =~= cs@);
        let p = split_on(cs@, sep);
        assert(p =~= p.drop_last().push(p.last()));
    }
    push_trimmed(&mut out, &cur);
    out
}

/// The items of the comma-separated list `raw`.
pub fn parse_csv(raw: &str) -> (out: Vec<String>)
    ensures
        views(out@) == csv_spec(raw@),
{
    split_trimmed(raw, ',')
}

/// A copy of the strings of `v`.
pub fn copy_strings(v: &[String]) -> (out: Vec<String>)
    ensures
        out@ == v@,
{
    let mut out: Vec<String> = Vec::new();
    let mut i: usize = 0;
    while i < v.len()
        invariant
            i <= v@.len(),
            out@ == v@.take(i as int),
        decreases v@.len() - i,
    {
        out.push(v[i].clone());
        proof {
            assert(out@ =~= v@.take(i + 1));
        }
        i = i + 1;
    }
    proof {
        assert(v@.take(v@.len() as int) =~= v@);
    }
    out
}

} // verus!
