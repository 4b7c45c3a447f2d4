//! Regular expressions (regex crate) and path globs (globset crate), each
//! kept together with the pattern it was compiled from, so that contracts can
//! speak of what a match depends on: the pattern and the text.

use vstd::prelude::*;

verus! {

#[verifier::external_type_specification]
#[verifier::external_body]
pub struct ExRegex(regex::Regex);

#[verifier::external_type_specification]
#[verifier::external_body]
pub struct ExGlob(globset::Glob);

#[verifier::external_type_specification]
#[verifier::external_body]
pub struct ExGlobSet(globset::GlobSet);

/// The error text of `regex::Regex::new` for `pattern`; `None` where it compiles.
pub uninterp spec fn regex_new_error(pattern: Seq<char>) -> Option<Seq<char>>;

/// What `regex::Regex::captures` finds for the regex of `pattern` in
/// `haystack`: `None` where it does not match; else, for each group of the
/// regex in order (group 0 being the whole match), its text, or `None` where
/// that group took no part in the match.
pub uninterp spec fn regex_captures(pattern: Seq<char>, haystack: Seq<char>) -> Option<Seq<Option<Seq<char>>>>;

/// Group `i` of a match's groups, as `Captures::get` gives it (`None` past the last).
pub open spec fn capture_group(groups: Seq<Option<Seq<char>>>, i: int) -> Option<Seq<char>> {
    if 0 <= i < groups.len() {
        groups[i]
    } else {
        None
    }
}

/// Whether the regex of `pattern` matches in `haystack` and, where it does,
/// the text of group `i`.
pub open spec fn regex_group(pattern: Seq<char>, haystack: Seq<char>, i: int) -> Option<Option<Seq<char>>> {
    match regex_captures(pattern, haystack) {
        None => None,
        Some(groups) => Some(capture_group(groups, i)),
    }
}

/// What `regex::Regex::replace_all` gives for the regex of `pattern` on
/// `haystack` with the replacement text `replacement`.
pub uninterp spec fn regex_replaced(pattern: Seq<char>, haystack: Seq<char>, replacement: Seq<char>) -> Seq<char>;

/// The characters that have a meaning in a regex pattern.
pub open spec fn is_meta_character(c: char) -> bool {
    c == '\\' || c == '.' || c == '+' || c == '*' || c == '?' || c == '(' || c == ')' || c == '|' || c == '['
        || c == ']' || c == '{' || c == '}' || c == '^' || c == '$' || c == '#' || c == '&' || c == '-' || c == '~'
}

/// `text` with a backslash before every meta character, a pattern that
/// matches `text` literally (what `regex::escape` gives).
pub open spec fn regex_escaped(text: Seq<char>) -> Seq<char>
    decreases text.len(),
{
    if text.len() == 0 {
        Seq::empty()
    } else if is_meta_character(text.last()) {
        regex_escaped(text.drop_last()) + seq!['\\', text.last()]
    } else {
        regex_escaped(text.drop_last()).push(text.last())
    }
}

/// How many matches `regex::Regex::find_iter` yields for the regex of
/// `pattern` on `haystack`.
pub uninterp spec fn regex_match_count(pattern: Seq<char>, haystack: Seq<char>) -> nat;

/// Where `regex::Regex::find` finds the first match of the regex of `pattern`
/// in `haystack`: the byte offset of its start and its text.
pub uninterp spec fn regex_first_match(pattern: Seq<char>, haystack: Seq<char>) -> Option<(nat, Seq<char>)>;

/// The error text of `globset::GlobSetBuilder::build` for a set of these
/// patterns, each parsed by `Glob::new`; `None` where it builds.
pub uninterp spec fn globset_build_error(patterns: Seq<Seq<char>>) -> Option<Seq<char>>;

/// What `regex::Regex::is_match` answers for the regex of `pattern` on `haystack`.
pub uninterp spec fn regex_is_match(pattern: Seq<char>, haystack: Seq<char>) -> bool;

/// The error text of `globset::Glob::new` for `pattern`; `None` where it parses.
pub uninterp spec fn glob_new_error(pattern: Seq<char>) -> Option<Seq<char>>;

/// Whether the glob `pattern` matches `path`, as a `globset::GlobSet` holding
/// it answers `is_match`.
pub uninterp spec fn glob_is_match(pattern: Seq<char>, path: Seq<char>) -> bool;

/// A compiled regular expression and its pattern.
pub struct CompiledRegex {
    pattern: String,
    re: regex::Regex,
}

impl CompiledRegex {
    /// The pattern this regex was compiled from.
    pub closed spec fn pattern_of(&self) -> Seq<char> {
        self.pattern@
    }
}

/// A set of globs ready for matching, and their patterns.
pub struct CompiledGlobSet {
    patterns: Vec<String>,
    set: globset::GlobSet,
}

impl CompiledGlobSet {
    pub closed spec fn patterns_of(&self) -> Seq<Seq<char>> {
        self.patterns@.map_values(|p: String| p@)
    }
}

/// A parsed glob and its pattern.
pub struct ParsedGlob {
    pattern: String,
    glob: globset::Glob,
}

impl ParsedGlob {
    pub closed spec fn pattern_of(&self) -> Seq<char> {
        self.pattern@
    }
}

/// `regex::Regex::new`: compiles `pattern`, or gives the error's text; both
/// are named by `regex_new_error`.
#[verifier::external_body]
pub(crate) fn regex_new(pattern: &str) -> (r: Result<CompiledRegex, String>)
    ensures
        r is Ok <==> regex_new_error(pattern@) is None,
        r matches Ok(c) ==> c.pattern_of() == pattern@,
        r matches Err(e) ==> regex_new_error(pattern@) == Some(e@),
{
    match regex::Regex::new(pattern) {
        Ok(re) => Ok(CompiledRegex { pattern: pattern.to_string(), re }),
        Err(e) => Err(e.to_string()),
    }
}

/// `regex::Regex::is_match`: whether the regex matches somewhere in `haystack`.
#[verifier::external_body]
pub(crate) fn regex_matches(c: &CompiledRegex, haystack: &str) -> (b: bool)
    ensures
        b == regex_is_match(c.pattern_of(), haystack@),
{
    c.re.is_match(haystack)
}

/// An optional optional string as contracts see it.
pub open spec fn opt_opt_view(r: Option<Option<String>>) -> Option<Option<Seq<char>>> {
    match r {
        None => None,
        Some(None) => Some(None),
        Some(Some(g)) => Some(Some(g@)),
    }
}

pub open spec fn groups_view(v: Seq<Option<String>>) -> Seq<Option<Seq<char>>> {
    v.map_values(|g: Option<String>| match g {
        Some(t) => Some(t@),
        None => None,
    })
}

/// `regex::Regex::captures`, each group taken by `Captures::get`: whether the
/// regex matches in `haystack` and, where it does, the text of every group.
#[verifier::external_body]
pub(crate) fn regex_captures_of(c: &CompiledRegex, haystack: &str) -> (r: Option<Vec<Option<String>>>)
    ensures
        match r {
            None => regex_captures(c.pattern_of(), haystack@) is None,
            Some(v) => regex_captures(c.pattern_of(), haystack@) == Some(groups_view(v@)),
        },
{
    match c.re.captures(haystack) {
        None => None,
        Some(caps) => {
            let mut v = Vec::new();
            for i in 0..caps.len() {
                v.push(match caps.get(i) {
                    Some(m) => Some(m.as_str().to_string()),
                    None => None,
                });
            }
            Some(v)
        },
    }
}

/// Whether the regex matches in `haystack` and, where it does, the text of
/// group `i` (see `regex_group`).
pub(crate) fn regex_group_of(c: &CompiledRegex, haystack: &str, i: usize) -> (r: Option<Option<String>>)
    ensures
        opt_opt_view(r) == regex_group(c.pattern_of(), haystack@, i as int),
{
    match regex_captures_of(c, haystack) {
        None => None,
        Some(v) => {
            if i < v.len() {
                let g = match &v[i] {
                    Some(t) => Some(t.clone()),
                    None => None,
                };
                Some(g)
            } else {
                Some(None)
            }
        },
    }
}

/// `regex::Regex::replace_all`: `haystack` with every match of the regex
/// replaced by `replacement`.
#[verifier::external_body]
pub(crate) fn regex_replace_all(c: &CompiledRegex, haystack: &str, replacement: &str) -> (r: String)
    ensures
        r@ == regex_replaced(c.pattern_of(), haystack@, replacement@),
{
    c.re.replace_all(haystack, replacement).to_string()
}

/// `text` with its regex meta characters escaped.
pub fn regex_escape(text: &str) -> (r: String)
    ensures
        r@ == regex_escaped(text@),
{
    let cs = crate::text::chars_of(text);
    let mut out: Vec<char> = Vec::new();
    let mut i: usize = 0;
    while i < cs.len()
        invariant
            cs@ == text@,
            i <= cs@.len(),
            out@ == regex_escaped(cs@.take(i as int)),
        decreases cs@.len() - i,
    {
        proof {
            assert(cs@.take(i + 1).drop_last() =~= cs@.take(i as int));
        }
        let c = cs[i];
        if c == '\\' || c == '.' || c == '+' || c == '*' || c == '?' || c == '(' || c == ')' || c == '|' || c == '['
            || c == ']' || c == '{' || c == '}' || c == '^' || c == '$' || c == '#' || c == '&' || c == '-' || c == '~' {
            let ghost before = out@;
            out.push('\\');
            out.push(c);
            proof {
                assert(out@ =~= before + seq!['\\', c]);
            }
        } else {
            out.push(c);
        }
        i = i + 1;
    }
    proof {
        assert(cs@.take(i as int) =~= cs@);
    }
    crate::text::string_of(out.as_slice())
}

/// `regex::Regex::find_iter`, counted: the number of successive
/// non-overlapping matches in `haystack`.
#[verifier::external_body]
pub(crate) fn regex_count_matches(c: &CompiledRegex, haystack: &str) -> (n: usize)
    ensures
        n == regex_match_count(c.pattern_of(), haystack@),
{
    c.re.find_iter(haystack).count()
}

/// `regex::Regex::find`: the first match in `haystack`, as the byte offset of
/// its start (an offset at which the haystack may be sliced, so within it) and
/// its text.
#[verifier::external_body]
pub(crate) fn regex_find(c: &CompiledRegex, haystack: &str) -> (r: Option<(usize, String)>)
    ensures
        match r {
            None => regex_first_match(c.pattern_of(), haystack@) is None,
            Some(m) => regex_first_match(c.pattern_of(), haystack@) == Some((m.0 as nat, m.1@))
                && m.0 <= vstd::utf8::encode_utf8(haystack@).len(),
        },
{
    match c.re.find(haystack) {
        Some(m) => Some((m.start(), m.as_str().to_string())),
        None => None,
    }
}

/// The patterns of parsed globs.
pub open spec fn glob_patterns(globs: Seq<ParsedGlob>) -> Seq<Seq<char>> {
    globs.map_values(|g: ParsedGlob| g.pattern_of())
}

/// `globset::GlobSetBuilder`: the parsed globs added in order, then `build`;
/// the set, or the error's text, both named by `globset_build_error`.
#[verifier::external_body]
pub(crate) fn globset_build(globs: &Vec<ParsedGlob>) -> (r: Result<CompiledGlobSet, String>)
    ensures
        r is Ok <==> globset_build_error(glob_patterns(globs@)) is None,
        r matches Ok(s) ==> s.patterns_of() == glob_patterns(globs@),
        r matches Err(e) ==> globset_build_error(glob_patterns(globs@)) == Some(e@),
{
    let mut builder = globset::GlobSetBuilder::new();
    for g in globs.iter() {
        builder.add(g.glob.clone());
    }
    match builder.build() {
        Ok(set) => Ok(CompiledGlobSet { patterns: globs.iter().map(|g| g.pattern.clone()).collect(), set }),
        Err(e) => Err(e.to_string()),
    }
}

/// Some glob of `patterns` matches `path`.
pub open spec fn any_glob_matches(patterns: Seq<Seq<char>>, path: Seq<char>) -> bool {
    exists|i: int| 0 <= i < patterns.len() && glob_is_match(#[trigger] patterns[i], path)
}

/// `globset::GlobSet::is_match`: as its documentation says, whether any glob
/// of the set matches `path`.
#[verifier::external_body]
pub(crate) fn globset_matches(s: &CompiledGlobSet, path: &str) -> (b: bool)
    ensures
        b == (exists|i: int| 0 <= i < s.patterns_of().len() && glob_is_match(#[trigger] s.patterns_of()[i], path@)),
{
    s.set.is_match(path)
}

/// `globset::Glob::new`: parses `pattern` with default options, or gives the
/// error's text; both are named by `glob_new_error`.
#[verifier::external_body]
pub(crate) fn glob_new(pattern: &str) -> (r: Result<ParsedGlob, String>)
    ensures
        r is Ok <==> glob_new_error(pattern@) is None,
        r matches Ok(g) ==> g.pattern_of() == pattern@,
        r matches Err(e) ==> glob_new_error(pattern@) == Some(e@),
{
    match globset::Glob::new(pattern) {
        Ok(glob) => Ok(ParsedGlob { pattern: pattern.to_string(), glob }),
        Err(e) => Err(e.to_string()),
    }
}

} // verus!
