//! Duplicate tools in a repository's configuration: tools with the same
//! execution signature (blocking), and tools with the same command and
//! description (reported only).

use crate::api::{violation_views, DetailValue, Details, Violation, ViolationTier, ViolationView, DetailValueView};
use crate::config::ProjectTool;
use crate::csv::{copy_strings, views};
use crate::grouping::{
    group_sorted, group_views, is_grouping, key_views, lemma_names_with_key_has, lemma_names_with_key_two,
    lemma_names_with_key_within, names_with_key, GroupKey,
};
use crate::order::{lemma_lex_antisym, lemma_lex_refl, lemma_lex_total, lemma_lex_zero, lex_from, str_lex};
use crate::plugins::contains_string;
use crate::reuse_first::{ascii_lowercase, ascii_lowercase_exec};
use crate::text::{concat, decimal_spec, trim_spec, trim_str, u64_to_string};
use vstd::prelude::*;
use vstd::string::*;

verus! {

/// The order of two strings as -1, 0 or 1.
pub open spec fn str_order(a: Seq<char>, b: Seq<char>) -> int {
    lex_from(a, b, 0)
}

proof fn lemma_lex_range(a: Seq<char>, b: Seq<char>, i: int)
    ensures
        -1 <= lex_from(a, b, i) <= 1,
    decreases a.len() + b.len() - 2 * i,
{
    if i >= 0 && i < a.len() && i < b.len() && a[i] == b[i] {
        lemma_lex_range(a, b, i + 1);
    }
}

pub proof fn lemma_str_order(a: Seq<char>, b: Seq<char>)
    ensures
        -1 <= str_order(a, b) <= 1,
        (str_order(a, b) == 0) == (a == b),
        str_order(a, b) == -str_order(b, a),
{
    lemma_lex_range(a, b, 0);
    lemma_lex_antisym(a, b, 0);
    lemma_lex_refl(a, 0);
    if str_order(a, b) == 0 {
        lemma_lex_zero(a, b, 0);
        assert(a =~= a.subrange(0, a.len() as int));
        assert(b =~= b.subrange(0, b.len() as int));
    }
}

/// The first order that is not zero.
pub open spec fn then_order(first: int, second: int) -> int {
    if first != 0 {
        first
    } else {
        second
    }
}

/// Lists of strings in the order of `Vec<String>`: element by element, a
/// proper prefix first.
pub open spec fn strs_order(a: Seq<Seq<char>>, b: Seq<Seq<char>>, i: int) -> int
    decreases a.len() + b.len() - 2 * i,
{
    if i < 0 {
        0
    } else if i >= a.len() && i >= b.len() {
        0
    } else if i >= a.len() {
        -1
    } else if i >= b.len() {
        1
    } else if str_order(a[i], b[i]) != 0 {
        str_order(a[i], b[i])
    } else {
        strs_order(a, b, i + 1)
    }
}

proof fn lemma_strs_order(a: Seq<Seq<char>>, b: Seq<Seq<char>>, i: int)
    requires
        0 <= i <= a.len(),
        i <= b.len(),
    ensures
        -1 <= strs_order(a, b, i) <= 1,
        strs_order(a, b, i) == -strs_order(b, a, i),
        (strs_order(a, b, i) == 0) == (a.subrange(i, a.len() as int) == b.subrange(i, b.len() as int)),
    decreases a.len() + b.len() - 2 * i,
{
    if i < a.len() && i < b.len() {
        lemma_str_order(a[i], b[i]);
        if str_order(a[i], b[i]) == 0 {
            lemma_strs_order(a, b, i + 1);
            assert(a.subrange(i, a.len() as int) =~= seq![a[i]] + a.subrange(i + 1, a.len() as int));
            assert(b.subrange(i, b.len() as int) =~= seq![b[i]] + b.subrange(i + 1, b.len() as int));
            if a.subrange(i, a.len() as int) == b.subrange(i, b.len() as int) {
                assert(a.subrange(i + 1, a.len() as int) =~= a.subrange(i, a.len() as int).drop_first());
                assert(b.subrange(i + 1, b.len() as int) =~= b.subrange(i, b.len() as int).drop_first());
            }
        } else {
            assert(a.subrange(i, a.len() as int)[0] == a[i]);
            assert(b.subrange(i, b.len() as int)[0] == b[i]);
        }
    } else if i < a.len() {
        assert(a.subrange(i, a.len() as int).len() > 0);
    } else if i < b.len() {
        assert(b.subrange(i, b.len() as int).len() > 0);
    } else {
        assert(a.subrange(i, a.len() as int) =~= b.subrange(i, b.len() as int));
    }
}

pub proof fn lemma_strs_order_top(a: Seq<Seq<char>>, b: Seq<Seq<char>>)
    ensures
        -1 <= strs_order(a, b, 0) <= 1,
        strs_order(a, b, 0) == -strs_order(b, a, 0),
        (strs_order(a, b, 0) == 0) == (a == b),
{
    lemma_strs_order(a, b, 0);
    assert(a.subrange(0, a.len() as int) =~= a);
    assert(b.subrange(0, b.len() as int) =~= b);
}

/// A pair of strings, by its first string, then its second.
pub open spec fn pair_order(p: (Seq<char>, Seq<char>), q: (Seq<char>, Seq<char>)) -> int {
    then_order(str_order(p.0, q.0), str_order(p.1, q.1))
}

proof fn lemma_pair_order(p: (Seq<char>, Seq<char>), q: (Seq<char>, Seq<char>))
    ensures
        -1 <= pair_order(p, q) <= 1,
        pair_order(p, q) == -pair_order(q, p),
        (pair_order(p, q) == 0) == (p == q),
{
    lemma_str_order(p.0, q.0);
    lemma_str_order(p.1, q.1);
}

/// Lists of string pairs in the order of `Vec<(String, String)>`.
pub open spec fn pairs_order(a: Seq<(Seq<char>, Seq<char>)>, b: Seq<(Seq<char>, Seq<char>)>, i: int) -> int
    decreases a.len() + b.len() - 2 * i,
{
    if i < 0 {
        0
    } else if i >= a.len() && i >= b.len() {
        0
    } else if i >= a.len() {
        -1
    } else if i >= b.len() {
        1
    } else if pair_order(a[i], b[i]) != 0 {
        pair_order(a[i], b[i])
    } else {
        pairs_order(a, b, i + 1)
    }
}

proof fn lemma_pairs_order(a: Seq<(Seq<char>, Seq<char>)>, b: Seq<(Seq<char>, Seq<char>)>, i: int)
    requires
        0 <= i <= a.len(),
        i <= b.len(),
    ensures
        -1 <= pairs_order(a, b, i) <= 1,
        pairs_order(a, b, i) == -pairs_order(b, a, i),
        (pairs_order(a, b, i) == 0) == (a.subrange(i, a.len() as int) == b.subrange(i, b.len() as int)),
    decreases a.len() + b.len() - 2 * i,
{
    if i < a.len() && i < b.len() {
        lemma_pair_order(a[i], b[i]);
        if pair_order(a[i], b[i]) == 0 {
            lemma_pairs_order(a, b, i + 1);
            assert(a.subrange(i, a.len() as int) =~= seq![a[i]] + a.subrange(i + 1, a.len() as int));
            assert(b.subrange(i, b.len() as int) =~= seq![b[i]] + b.subrange(i + 1, b.len() as int));
            if a.subrange(i, a.len() as int) == b.subrange(i, b.len() as int) {
                assert(a.subrange(i + 1, a.len() as int) =~= a.subrange(i, a.len() as int).drop_first());
                assert(b.subrange(i + 1, b.len() as int) =~= b.subrange(i, b.len() as int).drop_first());
            }
        } else {
            assert(a.subrange(i, a.len() as int)[0] == a[i]);
            assert(b.subrange(i, b.len() as int)[0] == b[i]);
        }
    } else if i < a.len() {
        assert(a.subrange(i, a.len() as int).len() > 0);
    } else if i < b.len() {
        assert(b.subrange(i, b.len() as int).len() > 0);
    } else {
        assert(a.subrange(i, a.len() as int) =~= b.subrange(i, b.len() as int));
    }
}

pub proof fn lemma_pairs_order_top(a: Seq<(Seq<char>, Seq<char>)>, b: Seq<(Seq<char>, Seq<char>)>)
    ensures
        -1 <= pairs_order(a, b, 0) <= 1,
        pairs_order(a, b, 0) == -pairs_order(b, a, 0),
        (pairs_order(a, b, 0) == 0) == (a == b),
{
    lemma_pairs_order(a, b, 0);
    assert(a.subrange(0, a.len() as int) =~= a);
    assert(b.subrange(0, b.len() as int) =~= b);
}

/// `None` first, then strings in their order.
pub open spec fn opt_str_order(a: Option<Seq<char>>, b: Option<Seq<char>>) -> int {
    match (a, b) {
        (None, None) => 0,
        (None, Some(_)) => -1,
        (Some(_), None) => 1,
        (Some(x), Some(y)) => str_order(x, y),
    }
}

/// `None` first, then numbers in their order.
pub open spec fn opt_num_order(a: Option<int>, b: Option<int>) -> int {
    match (a, b) {
        (None, None) => 0,
        (None, Some(_)) => -1,
        (Some(_), None) => 1,
        (Some(x), Some(y)) => if x < y {
            -1
        } else if x > y {
            1
        } else {
            0
        },
    }
}


proof fn lemma_opt_str_order(a: Option<Seq<char>>, b: Option<Seq<char>>)
    ensures
        -1 <= opt_str_order(a, b) <= 1,
        opt_str_order(a, b) == -opt_str_order(b, a),
        (opt_str_order(a, b) == 0) == (a == b),
{
    match (a, b) {
        (Some(x), Some(y)) => lemma_str_order(x, y),
        _ => {},
    }
}

/// Compares two strings: -1, 0 or 1.
pub fn str_compare(a: &str, b: &str) -> (r: i8)
    ensures
        r as int == str_order(a@, b@),
{
    proof {
        lemma_str_order(a@, b@);
        lemma_lex_total(a@, b@);
    }
    str_lex(a, b)
}

fn strs_compare(a: &Vec<String>, b: &Vec<String>) -> (r: i8)
    ensures
        r as int == strs_order(views(a@), views(b@), 0),
{
    let ghost va = views(a@);
    let ghost vb = views(b@);
    let mut i: usize = 0;
    while i < a.len() && i < b.len()
        invariant
            va == views(a@),
            vb == views(b@),
            i <= a@.len(),
            i <= b@.len(),
            strs_order(va, vb, 0) == strs_order(va, vb, i as int),
        decreases a@.len() - i,
    {
        let c = str_compare(a[i].as_str(), b[i].as_str());
        if c != 0 {
            return c;
        }
        i = i + 1;
    }
    if i < a.len() {
        1
    } else if i < b.len() {
        -1
    } else {
        0
    }
}

pub open spec fn pair_views(v: Seq<(String, String)>) -> Seq<(Seq<char>, Seq<char>)> {
    Seq::new(v.len(), |i: int| (v[i].0@, v[i].1@))
}

fn pairs_compare(a: &Vec<(String, String)>, b: &Vec<(String, String)>) -> (r: i8)
    ensures
        r as int == pairs_order(pair_views(a@), pair_views(b@), 0),
{
    let ghost va = pair_views(a@);
    let ghost vb = pair_views(b@);
    let mut i: usize = 0;
    while i < a.len() && i < b.len()
        invariant
            va == pair_views(a@),
            vb == pair_views(b@),
            i <= a@.len(),
            i <= b@.len(),
            pairs_order(va, vb, 0) == pairs_order(va, vb, i as int),
        decreases a@.len() - i,
    {
        let c = str_compare(a[i].0.as_str(), b[i].0.as_str());
        if c != 0 {
            return c;
        }
        let d = str_compare(a[i].1.as_str(), b[i].1.as_str());
        if d != 0 {
            return d;
        }
        i = i + 1;
    }
    if i < a.len() {
        1
    } else if i < b.len() {
        -1
    } else {
        0
    }
}

pub open spec fn opt_str_view(o: Option<String>) -> Option<Seq<char>> {
    match o {
        Some(s) => Some(s@),
        None => None,
    }
}

pub open spec fn opt_u64_num(o: Option<u64>) -> Option<int> {
    match o {
        Some(x) => Some(x as int),
        None => None,
    }
}

pub open spec fn opt_usize_num(o: Option<usize>) -> Option<int> {
    match o {
        Some(x) => Some(x as int),
        None => None,
    }
}

fn opt_str_compare(a: &Option<String>, b: &Option<String>) -> (r: i8)
    ensures
        r as int == opt_str_order(opt_str_view(*a), opt_str_view(*b)),
{
    match (a, b) {
        (None, None) => 0,
        (None, Some(_)) => -1,
        (Some(_), None) => 1,
        (Some(x), Some(y)) => str_compare(x.as_str(), y.as_str()),
    }
}

fn opt_u64_compare(a: Option<u64>, b: Option<u64>) -> (r: i8)
    ensures
        r as int == opt_num_order(opt_u64_num(a), opt_u64_num(b)),
{
    match (a, b) {
        (None, None) => 0,
        (None, Some(_)) => -1,
        (Some(_), None) => 1,
        (Some(x), Some(y)) => if x < y {
            -1
        } else if x > y {
            1
        } else {
            0
        },
    }
}

fn opt_usize_compare(a: Option<usize>, b: Option<usize>) -> (r: i8)
    ensures
        r as int == opt_num_order(opt_usize_num(a), opt_usize_num(b)),
{
    match (a, b) {
        (None, None) => 0,
        (None, Some(_)) => -1,
        (Some(_), None) => 1,
        (Some(x), Some(y)) => if x < y {
            -1
        } else if x > y {
            1
        } else {
            0
        },
    }
}

/// What makes two tools run the same way: the normalized command, the
/// arguments, working directory, limits and environment.
#[derive(Debug)]
pub struct Signature {
    pub command: String,
    pub args: Vec<String>,
    pub cwd: Option<String>,
    pub timeout_ms: Option<u64>,
    pub max_stdout_bytes: Option<usize>,
    pub max_stderr_bytes: Option<usize>,
    pub env_pairs: Vec<(String, String)>,
}

/// A signature as contracts see it.
pub struct SigView {
    pub command: Seq<char>,
    pub args: Seq<Seq<char>>,
    pub cwd: Option<Seq<char>>,
    pub timeout_ms: Option<int>,
    pub max_stdout_bytes: Option<int>,
    pub max_stderr_bytes: Option<int>,
    pub env: Seq<(Seq<char>, Seq<char>)>,
}

impl View for Signature {
    type V = SigView;

    open spec fn view(&self) -> SigView {
        SigView {
            command: self.command@,
            args: views(self.args@),
            cwd: opt_str_view(self.cwd),
            timeout_ms: opt_u64_num(self.timeout_ms),
            max_stdout_bytes: opt_usize_num(self.max_stdout_bytes),
            max_stderr_bytes: opt_usize_num(self.max_stderr_bytes),
            env: pair_views(self.env_pairs@),
        }
    }
}

/// Signatures ordered field by field, in the order of the fields.
pub open spec fn sig_order(a: SigView, b: SigView) -> int {
    then_order(
        str_order(a.command, b.command),
        then_order(
            strs_order(a.args, b.args, 0),
            then_order(
                opt_str_order(a.cwd, b.cwd),
                then_order(
                    opt_num_order(a.timeout_ms, b.timeout_ms),
                    then_order(
                        opt_num_order(a.max_stdout_bytes, b.max_stdout_bytes),
                        then_order(
                            opt_num_order(a.max_stderr_bytes, b.max_stderr_bytes),
                            pairs_order(a.env, b.env, 0),
                        ),
                    ),
                ),
            ),
        ),
    )
}

impl GroupKey for Signature {
    open spec fn key_order(a: SigView, b: SigView) -> int {
        sig_order(a, b)
    }

    proof fn lemma_key_order(a: SigView, b: SigView) {
        lemma_str_order(a.command, b.command);
        lemma_strs_order_top(a.args, b.args);
        lemma_opt_str_order(a.cwd, b.cwd);
        lemma_pairs_order_top(a.env, b.env);
    }

    fn compare(&self, other: &Self) -> (r: i8) {
        let c = str_compare(self.command.as_str(), other.command.as_str());
        if c != 0 {
            return c;
        }
        let c = strs_compare(&self.args, &other.args);
        if c != 0 {
            return c;
        }
        let c = opt_str_compare(&self.cwd, &other.cwd);
        if c != 0 {
            return c;
        }
        let c = opt_u64_compare(self.timeout_ms, other.timeout_ms);
        if c != 0 {
            return c;
        }
        let c = opt_usize_compare(self.max_stdout_bytes, other.max_stdout_bytes);
        if c != 0 {
            return c;
        }
        let c = opt_usize_compare(self.max_stderr_bytes, other.max_stderr_bytes);
        if c != 0 {
            return c;
        }
        pairs_compare(&self.env_pairs, &other.env_pairs)
    }
}

/// What makes two tools look alike: the normalized command and description.
#[derive(Debug)]
pub struct SemanticKey {
    pub command: String,
    pub description: String,
}

impl View for SemanticKey {
    type V = (Seq<char>, Seq<char>);

    open spec fn view(&self) -> (Seq<char>, Seq<char>) {
        (self.command@, self.description@)
    }
}

impl GroupKey for SemanticKey {
    open spec fn key_order(a: (Seq<char>, Seq<char>), b: (Seq<char>, Seq<char>)) -> int {
        pair_order(a, b)
    }

    proof fn lemma_key_order(a: (Seq<char>, Seq<char>), b: (Seq<char>, Seq<char>)) {
        lemma_pair_order(a, b);
    }

    fn compare(&self, other: &Self) -> (r: i8) {
        let c = str_compare(self.command.as_str(), other.command.as_str());
        if c != 0 {
            return c;
        }
        str_compare(self.description.as_str(), other.description.as_str())
    }
}


/// A command or description as tools are compared by it: trimmed, with
/// ASCII capitals in small case.
pub open spec fn normalized(s: Seq<char>) -> Seq<char> {
    ascii_lowercase(trim_spec(s))
}

pub open spec fn signature_of(t: ProjectTool) -> SigView {
    SigView {
        command: normalized(t.command@),
        args: views(t.args@),
        cwd: opt_str_view(t.cwd),
        timeout_ms: opt_u64_num(t.timeout_ms),
        max_stdout_bytes: opt_usize_num(t.max_stdout_bytes),
        max_stderr_bytes: opt_usize_num(t.max_stderr_bytes),
        env: pair_views(t.env@),
    }
}

pub open spec fn semantic_key_of(t: ProjectTool) -> (Seq<char>, Seq<char>) {
    (normalized(t.command@), normalized(t.description@))
}

pub open spec fn tool_sigs(tools: Seq<ProjectTool>) -> Seq<SigView> {
    Seq::new(tools.len(), |i: int| signature_of(tools[i]))
}

pub open spec fn tool_semantic_keys(tools: Seq<ProjectTool>) -> Seq<(Seq<char>, Seq<char>)> {
    Seq::new(tools.len(), |i: int| semantic_key_of(tools[i]))
}

pub open spec fn tool_ids(tools: Seq<ProjectTool>) -> Seq<Seq<char>> {
    Seq::new(tools.len(), |i: int| tools[i].id@)
}

/// The ids of the tools in groups of more than one, group after group.
pub open spec fn collider_ids(groups: Seq<(SigView, Seq<Seq<char>>)>) -> Seq<Seq<char>>
    decreases groups.len(),
{
    if groups.len() == 0 {
        Seq::empty()
    } else {
        let rest = collider_ids(groups.drop_last());
        if groups.last().1.len() > 1 {
            rest + groups.last().1
        } else {
            rest
        }
    }
}

/// The tools whose ids are not taken, in their order.
pub open spec fn free_tools(tools: Seq<ProjectTool>, taken: Seq<Seq<char>>) -> Seq<ProjectTool>
    decreases tools.len(),
{
    if tools.len() == 0 {
        Seq::empty()
    } else {
        let rest = free_tools(tools.drop_last(), taken);
        if taken.contains(tools.last().id@) {
            rest
        } else {
            rest.push(tools.last())
        }
    }
}

pub open spec fn opt_str_detail(o: Option<Seq<char>>) -> DetailValueView {
    match o {
        Some(s) => DetailValueView::Str(s),
        None => DetailValueView::Null,
    }
}

pub open spec fn opt_num_detail(o: Option<int>) -> DetailValueView {
    match o {
        Some(x) => DetailValueView::UInt(x as u64),
        None => DetailValueView::Null,
    }
}

pub open spec fn exact_violation(g: (SigView, Seq<Seq<char>>)) -> ViolationView {
    ViolationView {
        code: "tools.duplicate_exact"@,
        message: "exact duplicate tool signature detected for "@ + decimal_spec(g.1.len()) + " tools"@,
        path: None,
        details: Some(
            seq![
                ("tools"@, DetailValueView::StrList(g.1)),
                ("command"@, DetailValueView::Str(g.0.command)),
                ("args"@, DetailValueView::StrList(g.0.args)),
                ("cwd"@, opt_str_detail(g.0.cwd)),
                ("timeout_ms"@, opt_num_detail(g.0.timeout_ms)),
                ("max_stdout_bytes"@, opt_num_detail(g.0.max_stdout_bytes)),
                ("max_stderr_bytes"@, opt_num_detail(g.0.max_stderr_bytes)),
            ],
        ),
        tier: ViolationTier::Blocking,
    }
}

/// One blocking violation per signature shared by more than one tool.
pub open spec fn exact_violations(groups: Seq<(SigView, Seq<Seq<char>>)>) -> Seq<ViolationView>
    decreases groups.len(),
{
    if groups.len() == 0 {
        Seq::empty()
    } else {
        let rest = exact_violations(groups.drop_last());
        if groups.last().1.len() > 1 {
            rest.push(exact_violation(groups.last()))
        } else {
            rest
        }
    }
}

pub open spec fn semantic_violation(g: ((Seq<char>, Seq<char>), Seq<Seq<char>>)) -> ViolationView {
    ViolationView {
        code: "tools.duplicate_semantic"@,
        message: "semantically similar tools detected (same command+description): "@ + decimal_spec(g.1.len()),
        path: None,
        details: Some(
            seq![
                ("tools"@, DetailValueView::StrList(g.1)),
                ("command"@, DetailValueView::Str(g.0.0)),
                ("description"@, DetailValueView::Str(g.0.1)),
            ],
        ),
        tier: ViolationTier::Observation,
    }
}

/// One observation per command and description shared by more than one tool.
pub open spec fn semantic_violations(groups: Seq<((Seq<char>, Seq<char>), Seq<Seq<char>>)>) -> Seq<ViolationView>
    decreases groups.len(),
{
    if groups.len() == 0 {
        Seq::empty()
    } else {
        let rest = semantic_violations(groups.drop_last());
        if groups.last().1.len() > 1 {
            rest.push(semantic_violation(groups.last()))
        } else {
            rest
        }
    }
}

fn normalized_exec(s: &str) -> (out: String)
    ensures
        out@ == normalized(s@),
{
    let t = trim_str(s);
    ascii_lowercase_exec(t.as_str())
}

fn copy_opt_str(o: &Option<String>) -> (r: Option<String>)
    ensures
        opt_str_view(r) == opt_str_view(*o),
{
    match o {
        Some(x) => Some(x.clone()),
        None => None,
    }
}

fn copy_pairs(v: &Vec<(String, String)>) -> (out: Vec<(String, String)>)
    ensures
        pair_views(out@) == pair_views(v@),
{
    let mut out: Vec<(String, String)> = Vec::new();
    let mut i: usize = 0;
    while i < v.len()
        invariant
            i <= v@.len(),
            out@.len() == i,
            pair_views(out@) == pair_views(v@).take(i as int),
        decreases v@.len() - i,
    {
        let k = v[i].0.clone();
        let x = v[i].1.clone();
        let ghost before = out@;
        out.push((k, x));
        proof {
            assert(out@ == before.push((k, x)));
            assert(k@ == v@[i as int].0@ && x@ == v@[i as int].1@);
            assert(pair_views(out@)[i as int] == pair_views(v@)[i as int]);
            assert(pair_views(out@) =~= pair_views(v@).take(i + 1));
        }
        i = i + 1;
    }
    proof {
        assert(pair_views(v@).take(i as int) =~= pair_views(v@));
    }
    out
}

/// The execution signature of a tool.
pub fn signature_for(t: &ProjectTool) -> (s: Signature)
    ensures
        s@ == signature_of(*t),
{
    let args = copy_strings(t.args.as_slice());
    Signature {
        command: normalized_exec(t.command.as_str()),
        args,
        cwd: copy_opt_str(&t.cwd),
        timeout_ms: t.timeout_ms,
        max_stdout_bytes: t.max_stdout_bytes,
        max_stderr_bytes: t.max_stderr_bytes,
        env_pairs: copy_pairs(&t.env),
    }
}

fn opt_str_value(o: &Option<String>) -> (d: DetailValue)
    ensures
        crate::api::detail_value_view(d) == opt_str_detail(opt_str_view(*o)),
{
    match o {
        Some(x) => DetailValue::Str(x.clone()),
        None => DetailValue::Null,
    }
}

fn opt_u64_value(o: Option<u64>) -> (d: DetailValue)
    ensures
        crate::api::detail_value_view(d) == opt_num_detail(opt_u64_num(o)),
{
    match o {
        Some(x) => DetailValue::UInt(x),
        None => DetailValue::Null,
    }
}

fn opt_usize_value(o: Option<usize>) -> (d: DetailValue)
    ensures
        crate::api::detail_value_view(d) == opt_num_detail(opt_usize_num(o)),
{
    match o {
        Some(x) => DetailValue::UInt(x as u64),
        None => DetailValue::Null,
    }
}

fn str_list_value(v: &Vec<String>) -> (d: DetailValue)
    ensures
        crate::api::detail_value_view(d) == DetailValueView::StrList(views(v@)),
{
    let c = copy_strings(v.as_slice());
    let d = DetailValue::StrList(c);
    proof {
        assert(c@.map_values(|s: String| s@) =~= views(v@));
    }
    d
}

fn exact_violation_exec(sig: &Signature, ids: &Vec<String>) -> (v: Violation)
    ensures
        crate::api::violation_view(v) == exact_violation((sig@, views(ids@))),
{
    let a = concat("exact duplicate tool signature detected for ", u64_to_string(ids.len() as u64).as_str());
    let m = concat(a.as_str(), " tools");
    let mut fields: Vec<(String, DetailValue)> = Vec::new();
    fields.push((String::from_str("tools"), str_list_value(ids)));
    fields.push((String::from_str("command"), DetailValue::Str(sig.command.clone())));
    fields.push((String::from_str("args"), str_list_value(&sig.args)));
    fields.push((String::from_str("cwd"), opt_str_value(&sig.cwd)));
    fields.push((String::from_str("timeout_ms"), opt_u64_value(sig.timeout_ms)));
    fields.push((String::from_str("max_stdout_bytes"), opt_usize_value(sig.max_stdout_bytes)));
    fields.push((String::from_str("max_stderr_bytes"), opt_usize_value(sig.max_stderr_bytes)));
    let v = Violation::blocking(String::from_str("tools.duplicate_exact"), m, None, Some(Details { fields }));
    proof {
        reveal_strlit("tools");
        reveal_strlit("command");
        assert(crate::api::details_view(v.details).unwrap() =~= exact_violation((sig@, views(ids@))).details.unwrap());
    }
    v
}

fn semantic_violation_exec(key: &SemanticKey, ids: &Vec<String>) -> (v: Violation)
    ensures
        crate::api::violation_view(v) == semantic_violation((key@, views(ids@))),
{
    let m = concat(
        "semantically similar tools detected (same command+description): ",
        u64_to_string(ids.len() as u64).as_str(),
    );
    let mut fields: Vec<(String, DetailValue)> = Vec::new();
    fields.push((String::from_str("tools"), str_list_value(ids)));
    fields.push((String::from_str("command"), DetailValue::Str(key.command.clone())));
    fields.push((String::from_str("description"), DetailValue::Str(key.description.clone())));
    let v = Violation::observation(String::from_str("tools.duplicate_semantic"), m, None, Some(Details { fields }));
    proof {
        assert(crate::api::details_view(v.details).unwrap() =~= semantic_violation((key@, views(ids@))).details.unwrap());
    }
    v
}


/// Duplicate tools, in the order of `tools` (the configuration's tools by
/// id). Tools that share an execution signature give one blocking
/// violation per signature, in ascending signature order; the others that
/// share a command and description give one observation per pair, in
/// ascending order of the pair.
pub fn detect_tool_duplicates(tools: &Vec<ProjectTool>) -> (out: Vec<Violation>)
    ensures
        exists|g1: Seq<(SigView, Seq<Seq<char>>)>, g2: Seq<((Seq<char>, Seq<char>), Seq<Seq<char>>)>|
            #![trigger is_grouping::<Signature>(tool_sigs(tools@), tool_ids(tools@), g1), is_grouping::<SemanticKey>(tool_semantic_keys(free_tools(tools@, collider_ids(g1))), tool_ids(free_tools(tools@, collider_ids(g1))), g2)]
            {
                &&& is_grouping::<Signature>(tool_sigs(tools@), tool_ids(tools@), g1)
                &&& is_grouping::<SemanticKey>(
                    tool_semantic_keys(free_tools(tools@, collider_ids(g1))),
                    tool_ids(free_tools(tools@, collider_ids(g1))),
                    g2,
                )
                &&& violation_views(out@) == exact_violations(g1) + semantic_violations(g2)
            },
{
    let mut keys: Vec<Signature> = Vec::new();
    let mut names: Vec<String> = Vec::new();
    let mut i: usize = 0;
    while i < tools.len()
        invariant
            i <= tools@.len(),
            key_views(keys@) == tool_sigs(tools@).take(i as int),
            views(names@) == tool_ids(tools@).take(i as int),
            keys@.len() == i,
            names@.len() == i,
        decreases tools@.len() - i,
    {
        keys.push(signature_for(&tools[i]));
        names.push(tools[i].id.clone());
        proof {
            assert(key_views(keys@) =~= tool_sigs(tools@).take(i + 1));
            assert(views(names@) =~= tool_ids(tools@).take(i + 1));
        }
        i = i + 1;
    }
    proof {
        assert(tool_sigs(tools@).take(i as int) =~= tool_sigs(tools@));
        assert(tool_ids(tools@).take(i as int) =~= tool_ids(tools@));
    }
    let g1 = group_sorted(keys, &names);
    let ghost gv1 = group_views(g1@);
    let mut out: Vec<Violation> = Vec::new();
    let mut colliders: Vec<String> = Vec::new();
    let mut j: usize = 0;
    while j < g1.len()
        invariant
            gv1 == group_views(g1@),
            j <= g1@.len(),
            violation_views(out@) == exact_violations(gv1.take(j as int)),
            views(colliders@) == collider_ids(gv1.take(j as int)),
        decreases g1@.len() - j,
    {
        proof {
            assert(gv1.take(j + 1).drop_last() =~= gv1.take(j as int));
        }
        if g1[j].1.len() > 1 {
            let v = exact_violation_exec(&g1[j].0, &g1[j].1);
            let ghost before = out@;
            out.push(v);
            proof {
                assert(violation_views(out@) =~= violation_views(before).push(crate::api::violation_view(v)));
            }
            let ghost cbefore = views(colliders@);
            let mut k: usize = 0;
            while k < g1[j].1.len()
                invariant
                    gv1 == group_views(g1@),
                    j < g1@.len(),
                    k <= g1@[j as int].1@.len(),
                    views(colliders@) == cbefore + views(g1@[j as int].1@).take(k as int),
                    colliders@.len() == cbefore.len() + k,
                decreases g1@[j as int].1@.len() - k,
            {
                let c = g1[j].1[k].clone();
                let ghost before = colliders@;
                colliders.push(c);
                proof {
                    assert(colliders@ == before.push(c));
                    assert(c@ == views(g1@[j as int].1@)[k as int]);
                    assert(views(colliders@) =~= views(before).push(c@));
                    assert(views(colliders@) =~= cbefore + views(g1@[j as int].1@).take(k + 1));
                }
                k = k + 1;
            }
            proof {
                assert(views(g1@[j as int].1@).take(k as int) =~= views(g1@[j as int].1@));
            }
        }
        j = j + 1;
    }
    proof {
        assert(gv1.take(j as int) =~= gv1);
    }
    let ghost cids = collider_ids(gv1);
    let mut skeys: Vec<SemanticKey> = Vec::new();
    let mut snames: Vec<String> = Vec::new();
    let mut i: usize = 0;
    while i < tools.len()
        invariant
            i <= tools@.len(),
            views(colliders@) == cids,
            key_views(skeys@) == tool_semantic_keys(free_tools(tools@.take(i as int), cids)),
            views(snames@) == tool_ids(free_tools(tools@.take(i as int), cids)),
            skeys@.len() == snames@.len(),
            skeys@.len() == free_tools(tools@.take(i as int), cids).len(),
        decreases tools@.len() - i,
    {
        proof {
            assert(tools@.take(i + 1).drop_last() =~= tools@.take(i as int));
        }
        if !contains_string(&colliders, tools[i].id.as_str()) {
            let t = &tools[i];
            let key = SemanticKey {
                command: normalized_exec(t.command.as_str()),
                description: normalized_exec(t.description.as_str()),
            };
            let name = t.id.clone();
            let ghost kb = skeys@;
            let ghost nb = snames@;
            skeys.push(key);
            snames.push(name);
            proof {
                let ft = free_tools(tools@.take(i as int), cids);
                assert(skeys@ == kb.push(key));
                assert(snames@ == nb.push(name));
                assert(key@ == semantic_key_of(tools@[i as int]));
                assert(name@ == tools@[i as int].id@);
                assert(key_views(skeys@) =~= key_views(kb).push(key@));
                assert(views(snames@) =~= views(nb).push(name@));
                assert(tool_semantic_keys(ft.push(tools@[i as int])) =~= tool_semantic_keys(ft).push(
                    semantic_key_of(tools@[i as int]),
                ));
                assert(tool_ids(ft.push(tools@[i as int])) =~= tool_ids(ft).push(tools@[i as int].id@));
                let ft = free_tools(tools@.take(i as int), cids);
                assert(free_tools(tools@.take(i + 1), cids) == ft.push(tools@[i as int]));
                assert(key_views(skeys@) =~= tool_semantic_keys(ft.push(tools@[i as int])));
                assert(views(snames@) =~= tool_ids(ft.push(tools@[i as int])));
            }
        }
        i = i + 1;
    }
    proof {
        assert(tools@.take(i as int) =~= tools@);
    }
    let g2 = group_sorted(skeys, &snames);
    let ghost gv2 = group_views(g2@);
    let ghost exact = violation_views(out@);
    let mut j: usize = 0;
    while j < g2.len()
        invariant
            gv2 == group_views(g2@),
            j <= g2@.len(),
            violation_views(out@) == exact + semantic_violations(gv2.take(j as int)),
        decreases g2@.len() - j,
    {
        proof {
            assert(gv2.take(j + 1).drop_last() =~= gv2.take(j as int));
        }
        if g2[j].1.len() > 1 {
            let v = semantic_violation_exec(&g2[j].0, &g2[j].1);
            let ghost before = out@;
            out.push(v);
            proof {
                assert(violation_views(out@) =~= violation_views(before).push(crate::api::violation_view(v)));
                assert(exact + semantic_violations(gv2.take(j + 1)) =~= (exact + semantic_violations(gv2.take(j as int))).push(
                    crate::api::violation_view(v),
                ));
            }
        }
        j = j + 1;
    }
    proof {
        assert(gv2.take(j as int) =~= gv2);
    }
    out
}


proof fn lemma_exact_violations_has(groups: Seq<(SigView, Seq<Seq<char>>)>, g: int)
    requires
        0 <= g < groups.len(),
        groups[g].1.len() > 1,
    ensures
        exact_violations(groups).contains(exact_violation(groups[g])),
    decreases groups.len(),
{
    let n = groups.len() - 1;
    let rest = exact_violations(groups.drop_last());
    let all = exact_violations(groups);
    if g < n {
        lemma_exact_violations_has(groups.drop_last(), g);
        let m = choose|m: int| 0 <= m < rest.len() && rest[m] == exact_violation(groups[g]);
        assert(all[m] == exact_violation(groups[g]));
    } else {
        assert(all[all.len() - 1] == exact_violation(groups[g]));
    }
}

/// Two tools with the same execution signature are both named by one
/// blocking duplicate violation.
pub proof fn law_shared_signature_is_blocked(
    tools: Seq<ProjectTool>,
    groups: Seq<(SigView, Seq<Seq<char>>)>,
    i: int,
    j: int,
)
    requires
        is_grouping::<Signature>(tool_sigs(tools), tool_ids(tools), groups),
        0 <= i < j < tools.len(),
        signature_of(tools[i]) == signature_of(tools[j]),
    ensures
        exists|g: int|
            0 <= g < groups.len() && #[trigger] groups[g].1.contains(tools[i].id@) && groups[g].1.contains(tools[j].id@)
                && exact_violations(groups).contains(exact_violation(groups[g])),
{
    let keys = tool_sigs(tools);
    let names = tool_ids(tools);
    assert(keys[i] == signature_of(tools[i]));
    let g = choose|g: int| 0 <= g < groups.len() && #[trigger] groups[g].0 == #[trigger] keys[i];
    let k = groups[g].0;
    assert(keys[j] == k);
    lemma_names_with_key_has(keys, names, k, i);
    lemma_names_with_key_has(keys, names, k, j);
    lemma_names_with_key_two(keys, names, k, i, j);
    assert(names[i] == tools[i].id@);
    assert(names[j] == tools[j].id@);
    lemma_exact_violations_has(groups, g);
}

proof fn lemma_free_tools_free(tools: Seq<ProjectTool>, taken: Seq<Seq<char>>, x: Seq<char>)
    requires
        tool_ids(free_tools(tools, taken)).contains(x),
    ensures
        !taken.contains(x),
    decreases tools.len(),
{
    let rest = free_tools(tools.drop_last(), taken);
    let m = choose|m: int| 0 <= m < tool_ids(free_tools(tools, taken)).len() && tool_ids(free_tools(tools, taken))[m] == x;
    if m < rest.len() {
        assert(tool_ids(rest)[m] == x);
        lemma_free_tools_free(tools.drop_last(), taken, x);
    }
}

/// A tool named by a blocking duplicate violation is named by no
/// similarity observation.
pub proof fn law_exact_duplicates_not_reported_as_similar(
    tools: Seq<ProjectTool>,
    g1: Seq<(SigView, Seq<Seq<char>>)>,
    g2: Seq<((Seq<char>, Seq<char>), Seq<Seq<char>>)>,
    h: int,
    x: Seq<char>,
)
    requires
        is_grouping::<SemanticKey>(
            tool_semantic_keys(free_tools(tools, collider_ids(g1))),
            tool_ids(free_tools(tools, collider_ids(g1))),
            g2,
        ),
        0 <= h < g2.len(),
        g2[h].1.contains(x),
    ensures
        !collider_ids(g1).contains(x),
{
    let free = free_tools(tools, collider_ids(g1));
    lemma_names_with_key_within(tool_semantic_keys(free), tool_ids(free), g2[h].0, x);
    lemma_free_tools_free(tools, collider_ids(g1), x);
}

} // verus!
