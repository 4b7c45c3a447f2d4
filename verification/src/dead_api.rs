//! Dead code and orphan API: the symbols that code files declare, and how
//! often each name occurs as a word across those files; a symbol whose name
//! occurs at most once (its own declaration) is reported.

use crate::api::{DetailValue, DetailValueView, Details, Violation, ViolationTier, ViolationView, violation_views};
use crate::code_blocks::{lines_of, std_lines};
use crate::complexity::scanned;
use crate::config::{DeadCodeCheckConfigV2, OrphanApiCheckConfigV2};
use crate::csv::views;
use crate::patterns::{capture_group, groups_view, regex_captures, regex_escaped, regex_match_count, regex_new_error};
use crate::text::{concat, decimal_spec, u64_to_string};
use vstd::prelude::*;

verus! {

/// A declared symbol: its name, file, line (from 1) and whether it is public.
pub struct Symbol {
    pub name: String,
    pub rel_path: String,
    pub line: usize,
    pub public: bool,
}

pub struct SymbolView {
    pub name: Seq<char>,
    pub rel_path: Seq<char>,
    pub line: int,
    pub public: bool,
}

pub open spec fn symbol_view(s: Symbol) -> SymbolView {
    SymbolView { name: s.name@, rel_path: s.rel_path@, line: s.line as int, public: s.public }
}

pub open spec fn symbol_views(v: Seq<Symbol>) -> Seq<SymbolView> {
    v.map_values(|s: Symbol| symbol_view(s))
}

/// The five declaration patterns compile (they are fixed, and do).
pub open spec fn declaration_patterns_compile() -> bool {
    &&& regex_new_error(r"^\s*(pub\s+)?(?:async\s+)?fn\s+([A-Za-z_][A-Za-z0-9_]*)"@) is None
    &&& regex_new_error(r"^\s*pub\s+(?:struct|enum|trait|mod|type)\s+([A-Za-z_][A-Za-z0-9_]*)"@) is None
    &&& regex_new_error(r"^\s*def\s+([A-Za-z_][A-Za-z0-9_]*)\s*\("@) is None
    &&& regex_new_error(r"^\s*(export\s+)?function\s+([A-Za-z_][A-Za-z0-9_]*)\s*\("@) is None
    &&& regex_new_error(r"^\s*(export\s+)?(?:const|let|var)\s+([A-Za-z_][A-Za-z0-9_]*)\s*=\s*(?:async\s*)?\("@) is None
}

/// The name in group `name_group` of a match, public where `public_group`
/// took part (or always, or never, for the fixed choices).
pub open spec fn declared(groups: Seq<Option<Seq<char>>>, name_group: int, public: bool) -> Option<(Seq<char>, bool)> {
    match capture_group(groups, name_group) {
        Some(n) => Some((n, public)),
        None => None,
    }
}

/// What a line declares, by the first pattern that matches: a Rust `fn`
/// (public with `pub`), a public Rust type or module, a Python `def` (never
/// public), a script `function` or a script function bound to a name (public
/// with `export`). A match whose name group took no part (which these
/// patterns cannot give) declares nothing.
pub open spec fn line_declaration(line: Seq<char>) -> Option<(Seq<char>, bool)> {
    match regex_captures(r"^\s*(pub\s+)?(?:async\s+)?fn\s+([A-Za-z_][A-Za-z0-9_]*)"@, line) {
        Some(g) => declared(g, 2, capture_group(g, 1) is Some),
        None => match regex_captures(r"^\s*pub\s+(?:struct|enum|trait|mod|type)\s+([A-Za-z_][A-Za-z0-9_]*)"@, line) {
            Some(g) => declared(g, 1, true),
            None => match regex_captures(r"^\s*def\s+([A-Za-z_][A-Za-z0-9_]*)\s*\("@, line) {
                Some(g) => declared(g, 1, false),
                None => match regex_captures(r"^\s*(export\s+)?function\s+([A-Za-z_][A-Za-z0-9_]*)\s*\("@, line) {
                    Some(g) => declared(g, 2, capture_group(g, 1) is Some),
                    None => match regex_captures(
                        r"^\s*(export\s+)?(?:const|let|var)\s+([A-Za-z_][A-Za-z0-9_]*)\s*=\s*(?:async\s*)?\("@,
                        line,
                    ) {
                        Some(g) => declared(g, 2, capture_group(g, 1) is Some),
                        None => None,
                    },
                },
            },
        },
    }
}

/// The symbols the lines of `rel` declare, in order, numbered from line `from + 1`.
pub open spec fn symbols_spec(rel: Seq<char>, lines: Seq<Seq<char>>) -> Seq<SymbolView>
    decreases lines.len(),
{
    if lines.len() == 0 {
        Seq::empty()
    } else {
        symbols_spec(rel, lines.drop_last()) + match line_declaration(lines.last()) {
            Some(d) => seq![SymbolView { name: d.0, rel_path: rel, line: lines.len() as int, public: d.1 }],
            None => Seq::empty(),
        }
    }
}

fn group_at(v: &Vec<Option<String>>, i: usize) -> (r: Option<String>)
    ensures
        crate::cli::opt_view(r) == capture_group(groups_view(v@), i as int),
{
    if i < v.len() {
        match &v[i] {
            Some(t) => Some(t.clone()),
            None => None,
        }
    } else {
        None
    }
}

fn declared_exec(v: &Vec<Option<String>>, name_group: usize, public: bool) -> (r: Option<(String, bool)>)
    ensures
        match r {
            Some(d) => declared(groups_view(v@), name_group as int, public) == Some((d.0@, d.1)),
            None => declared(groups_view(v@), name_group as int, public) is None,
        },
{
    match group_at(v, name_group) {
        Some(n) => Some((n, public)),
        None => None,
    }
}

/// The symbols declared in the file `rel` with text `raw` (see `symbols_spec`).
pub fn parse_symbols(rel: &str, raw: &str) -> (out: Vec<Symbol>)
    ensures
        declaration_patterns_compile() ==> symbol_views(out@) == symbols_spec(rel@, std_lines(raw@)),
{
    let mut out: Vec<Symbol> = Vec::new();
    let re_rust = match crate::patterns::regex_new(r"^\s*(pub\s+)?(?:async\s+)?fn\s+([A-Za-z_][A-Za-z0-9_]*)") {
        Ok(re) => re,
        Err(_) => return out,
    };
    let re_rust_type = match crate::patterns::regex_new(
        r"^\s*pub\s+(?:struct|enum|trait|mod|type)\s+([A-Za-z_][A-Za-z0-9_]*)",
    ) {
        Ok(re) => re,
        Err(_) => return out,
    };
    let re_py = match crate::patterns::regex_new(r"^\s*def\s+([A-Za-z_][A-Za-z0-9_]*)\s*\(") {
        Ok(re) => re,
        Err(_) => return out,
    };
    let re_js_fn = match crate::patterns::regex_new(r"^\s*(export\s+)?function\s+([A-Za-z_][A-Za-z0-9_]*)\s*\(") {
        Ok(re) => re,
        Err(_) => return out,
    };
    let re_js_const = match crate::patterns::regex_new(
        r"^\s*(export\s+)?(?:const|let|var)\s+([A-Za-z_][A-Za-z0-9_]*)\s*=\s*(?:async\s*)?\(",
    ) {
        Ok(re) => re,
        Err(_) => return out,
    };
    let lines = lines_of(raw);
    let ghost ls = views(lines@);
    let mut i: usize = 0;
    proof {
        assert(ls.take(0) =~= Seq::<Seq<char>>::empty());
    }
    while i < lines.len()
        invariant
            ls == views(lines@),
            ls == std_lines(raw@),
            re_rust.pattern_of() == r"^\s*(pub\s+)?(?:async\s+)?fn\s+([A-Za-z_][A-Za-z0-9_]*)"@,
            re_rust_type.pattern_of() == r"^\s*pub\s+(?:struct|enum|trait|mod|type)\s+([A-Za-z_][A-Za-z0-9_]*)"@,
            re_py.pattern_of() == r"^\s*def\s+([A-Za-z_][A-Za-z0-9_]*)\s*\("@,
            re_js_fn.pattern_of() == r"^\s*(export\s+)?function\s+([A-Za-z_][A-Za-z0-9_]*)\s*\("@,
            re_js_const.pattern_of()
                == r"^\s*(export\s+)?(?:const|let|var)\s+([A-Za-z_][A-Za-z0-9_]*)\s*=\s*(?:async\s*)?\("@,
            i <= ls.len(),
            symbol_views(out@) == symbols_spec(rel@, ls.take(i as int)),
        decreases ls.len() - i,
    {
        proof {
            assert(ls.take(i + 1).drop_last() =~= ls.take(i as int));
            assert(ls.take(i + 1).last() == lines@[i as int]@);
        }
        let line = lines[i].as_str();
        let found: Option<(String, bool)> = match crate::patterns::regex_captures_of(&re_rust, line) {
            Some(g) => {
                let public = group_at(&g, 1).is_some();
                declared_exec(&g, 2, public)
            },
            None => match crate::patterns::regex_captures_of(&re_rust_type, line) {
                Some(g) => declared_exec(&g, 1, true),
                None => match crate::patterns::regex_captures_of(&re_py, line) {
                    Some(g) => declared_exec(&g, 1, false),
                    None => match crate::patterns::regex_captures_of(&re_js_fn, line) {
                        Some(g) => {
                            let public = group_at(&g, 1).is_some();
                            declared_exec(&g, 2, public)
                        },
                        None => match crate::patterns::regex_captures_of(&re_js_const, line) {
                            Some(g) => {
                                let public = group_at(&g, 1).is_some();
                                declared_exec(&g, 2, public)
                            },
                            None => None,
                        },
                    },
                },
            },
        };
        let ghost before = symbol_views(out@);
        match found {
            Some(d) => {
                out.push(Symbol { name: d.0, rel_path: String::from_str(rel), line: i + 1, public: d.1 });
                proof {
                    assert(symbol_views(out@) =~= before + seq![symbol_view(out@.last())]);
                    assert(ls.take(i + 1).len() == i + 1);
                }
            },
            None => {
                proof {
                    assert(symbol_views(out@) =~= before + Seq::<SymbolView>::empty());
                }
            },
        }
        i = i + 1;
    }
    proof {
        assert(ls.take(ls.len() as int) =~= ls);
    }
    out
}

/// The pattern that finds `name` as a word.
pub open spec fn word_pattern(name: Seq<char>) -> Seq<char> {
    r"\b"@ + regex_escaped(name) + r"\b"@
}

/// How often `name` occurs as a word across the texts: none for an empty
/// name (or one whose word pattern would not compile, which an escaped name
/// always does).
pub open spec fn usage_count(name: Seq<char>, texts: Seq<Seq<char>>) -> nat
    decreases texts.len(),
{
    if name.len() == 0 || regex_new_error(word_pattern(name)) is Some || texts.len() == 0 {
        0
    } else {
        usage_count(name, texts.drop_last()) + regex_match_count(word_pattern(name), texts.last())
    }
}

fn usage_count_exec(name: &String, texts: &Vec<String>) -> (n: u128)
    ensures
        n == usage_count(name@, views(texts@)),
{
    let ghost tv = views(texts@);
    if crate::text::chars_of(name.as_str()).len() == 0 {
        return 0;
    }
    let escaped = crate::patterns::regex_escape(name.as_str());
    let a = concat(r"\b", escaped.as_str());
    let pattern = concat(a.as_str(), r"\b");
    let re = match crate::patterns::regex_new(pattern.as_str()) {
        Ok(re) => re,
        Err(_) => return 0,
    };
    proof {
        assert(name@.len() != 0);
    }
    let mut total: u128 = 0;
    let mut i: usize = 0;
    proof {
        assert(tv.take(0) =~= Seq::<Seq<char>>::empty());
    }
    while i < texts.len()
        invariant
            tv == views(texts@),
            name@.len() != 0,
            re.pattern_of() == word_pattern(name@),
            regex_new_error(word_pattern(name@)) is None,
            i <= tv.len(),
            total == usage_count(name@, tv.take(i as int)),
            total <= i * 0xffff_ffff_ffff_ffff,
        decreases tv.len() - i,
    {
        proof {
            assert(tv.take(i + 1).drop_last() =~= tv.take(i as int));
            assert(tv.take(i + 1).last() == texts@[i as int]@);
        }
        let c = crate::patterns::regex_count_matches(&re, texts[i].as_str());
        proof {
            assert(c <= 0xffff_ffff_ffff_ffff);
        }
        total = total + c as u128;
        i = i + 1;
    }
    proof {
        assert(tv.take(tv.len() as int) =~= tv);
    }
    total
}

/// The symbols and texts of the code files, or the first read error (or the
/// selection's error).
pub open spec fn collected(files: Seq<(String, Result<String, String>)>) -> Result<(Seq<SymbolView>, Seq<Seq<char>>), Seq<char>>
    decreases files.len(),
{
    if files.len() == 0 {
        Ok((Seq::empty(), Seq::empty()))
    } else {
        match collected(files.drop_last()) {
            Err(e) => Err(e),
            Ok(acc) => {
                let f = files.last();
                if scanned(f.0@) {
                    match f.1 {
                        Err(e) => Err("failed to read code file "@ + f.0@ + ": "@ + e@),
                        Ok(raw) => Ok((acc.0 + symbols_spec(f.0@, std_lines(raw@)), acc.1.push(raw@))),
                    }
                } else {
                    Ok(acc)
                }
            },
        }
    }
}

/// The symbols and texts of the code files (see `collected`).
pub fn collect_symbols(files: &Vec<(String, Result<String, String>)>) -> (r: Result<(Vec<Symbol>, Vec<String>), String>)
    ensures
        declaration_patterns_compile() ==> match r {
            Ok(v) => collected(files@) == Ok::<_, Seq<char>>((symbol_views(v.0@), views(v.1@))),
            Err(e) => collected(files@) == Err::<(Seq<SymbolView>, Seq<Seq<char>>), _>(e@),
        },
{
    let mut symbols: Vec<Symbol> = Vec::new();
    let mut texts: Vec<String> = Vec::new();
    let mut i: usize = 0;
    proof {
        assert(files@.take(0) =~= Seq::<(String, Result<String, String>)>::empty());
        assert(symbol_views(symbols@) =~= Seq::<SymbolView>::empty());
        assert(views(texts@) =~= Seq::<Seq<char>>::empty());
    }
    while i < files.len()
        invariant
            i <= files@.len(),
            declaration_patterns_compile() ==> collected(files@.take(i as int)) == Ok::<_, Seq<char>>(
                (symbol_views(symbols@), views(texts@)),
            ),
        decreases files@.len() - i,
    {
        proof {
            assert(files@.take(i + 1).drop_last() =~= files@.take(i as int));
            assert(files@.take(i + 1).last() == files@[i as int]);
        }
        let rel = &files[i].0;
        if crate::checks::is_probably_code_file(rel.as_str()) {
            match &files[i].1 {
                Err(e) => {
                    let a = concat("failed to read code file ", rel.as_str());
                    let b = concat(a.as_str(), ": ");
                    let m = concat(b.as_str(), e.as_str());
                    proof {
                        if declaration_patterns_compile() {
                            assert(collected(files@.take(i + 1)) == Err::<(Seq<SymbolView>, Seq<Seq<char>>), _>(m@));
                            lemma_collected_err(files@, i as int + 1);
                        }
                    }
                    return Err(m);
                },
                Ok(raw) => {
                    let mut found = parse_symbols(rel.as_str(), raw.as_str());
                    let ghost before = symbol_views(symbols@);
                    let ghost fv = symbol_views(found@);
                    symbols.append(&mut found);
                    let ghost tb = views(texts@);
                    texts.push(raw.clone());
                    proof {
                        assert(symbol_views(symbols@) =~= before + fv);
                        assert(views(texts@) =~= tb.push(raw@));
                    }
                },
            }
        }
        i = i + 1;
    }
    proof {
        assert(files@.take(files@.len() as int) =~= files@);
    }
    Ok((symbols, texts))
}

proof fn lemma_collected_err(files: Seq<(String, Result<String, String>)>, k: int)
    requires
        0 <= k <= files.len(),
        collected(files.take(k)) is Err,
    ensures
        collected(files) == collected(files.take(k)),
    decreases files.len() - k,
{
    if k < files.len() {
        assert(files.take(k + 1).drop_last() =~= files.take(k));
        lemma_collected_err(files, k + 1);
    } else {
        assert(files.take(k) =~= files);
    }
}

/// The report for one symbol whose name occurs at most once.
pub open spec fn unused_violation(
    code: Seq<char>,
    message: Seq<char>,
    check_id: Seq<char>,
    blocking: bool,
    s: SymbolView,
    usage: nat,
) -> ViolationView {
    ViolationView {
        code,
        message: message + s.name,
        path: Some(s.rel_path),
        details: Some(seq![
            ("check_id"@, DetailValueView::Str(check_id)),
            ("symbol"@, DetailValueView::Str(s.name)),
            ("line"@, DetailValueView::UInt(s.line as u64)),
            ("usage_count"@, DetailValueView::UWide(usage as u128)),
        ]),
        tier: if blocking {
            ViolationTier::Blocking
        } else {
            ViolationTier::Observation
        },
    }
}

/// The symbols of the wanted visibility whose names are at least `min_len`
/// bytes long and occur at most once across the texts, reported in order.
pub open spec fn unused_violations(
    symbols: Seq<SymbolView>,
    texts: Seq<Seq<char>>,
    public: bool,
    min_len: nat,
    code: Seq<char>,
    message: Seq<char>,
    check_id: Seq<char>,
    blocking: bool,
) -> Seq<ViolationView>
    decreases symbols.len(),
{
    if symbols.len() == 0 {
        Seq::empty()
    } else {
        let s = symbols.last();
        let usage = usage_count(s.name, texts);
        unused_violations(symbols.drop_last(), texts, public, min_len, code, message, check_id, blocking) + if s.public
            == public && vstd::utf8::encode_utf8(s.name).len() >= min_len && usage <= 1 {
            seq![unused_violation(code, message, check_id, blocking, s, usage)]
        } else {
            Seq::empty()
        }
    }
}

fn unused_symbols(
    symbols: &Vec<Symbol>,
    texts: &Vec<String>,
    public: bool,
    min_len: usize,
    code: &str,
    message: &str,
    check_id: &String,
    blocking: bool,
) -> (out: Vec<Violation>)
    ensures
        violation_views(out@) == unused_violations(
            symbol_views(symbols@),
            views(texts@),
            public,
            min_len as nat,
            code@,
            message@,
            check_id@,
            blocking,
        ),
{
    let ghost sv = symbol_views(symbols@);
    let mut out: Vec<Violation> = Vec::new();
    let mut i: usize = 0;
    proof {
        assert(sv.take(0) =~= Seq::<SymbolView>::empty());
    }
    while i < symbols.len()
        invariant
            sv == symbol_views(symbols@),
            i <= sv.len(),
            violation_views(out@) == unused_violations(
                sv.take(i as int),
                views(texts@),
                public,
                min_len as nat,
                code@,
                message@,
                check_id@,
                blocking,
            ),
        decreases sv.len() - i,
    {
        proof {
            assert(sv.take(i + 1).drop_last() =~= sv.take(i as int));
            assert(sv.take(i + 1).last() == symbol_view(symbols@[i as int]));
        }
        let s = &symbols[i];
        let ghost before = violation_views(out@);
        if s.public == public && s.name.as_str().as_bytes().len() >= min_len {
            let usage = usage_count_exec(&s.name, texts);
            if usage <= 1 {
                let mut fields: Vec<(String, DetailValue)> = Vec::new();
                fields.push((String::from_str("check_id"), DetailValue::Str(check_id.clone())));
                fields.push((String::from_str("symbol"), DetailValue::Str(s.name.clone())));
                fields.push((String::from_str("line"), DetailValue::UInt(s.line as u64)));
                fields.push((String::from_str("usage_count"), DetailValue::UWide(usage)));
                let m = concat(message, s.name.as_str());
                let v = if blocking {
                    Violation::blocking(String::from_str(code), m, Some(s.rel_path.clone()), Some(Details { fields }))
                } else {
                    Violation::observation(String::from_str(code), m, Some(s.rel_path.clone()), Some(Details { fields }))
                };
                out.push(v);
                proof {
                    assert(crate::api::details_view(v.details).unwrap() =~= seq![
                        ("check_id"@, DetailValueView::Str(check_id@)),
                        ("symbol"@, DetailValueView::Str(s.name@)),
                        ("line"@, DetailValueView::UInt(s.line as u64)),
                        ("usage_count"@, DetailValueView::UWide(usage)),
                    ]);
                    assert(violation_views(out@) =~= before + seq![
                        unused_violation(code@, message@, check_id@, blocking, sv[i as int], usage as nat),
                    ]);
                }
            } else {
                proof {
                    assert(violation_views(out@) =~= before + Seq::<ViolationView>::empty());
                }
            }
        } else {
            proof {
                assert(violation_views(out@) =~= before + Seq::<ViolationView>::empty());
            }
        }
        i = i + 1;
    }
    proof {
        assert(sv.take(sv.len() as int) =~= sv);
    }
    out
}

/// The outcome of the dead code check.
pub struct DeadCodeCheckResult {
    pub symbols_scanned: usize,
    pub violations: Vec<Violation>,
}

/// The outcome of the orphan API check.
pub struct OrphanApiCheckResult {
    pub symbols_scanned: usize,
    pub violations: Vec<Violation>,
}

/// The check's result: a failure for the selection's error or the first read
/// error; else one violation per symbol of the wanted visibility, long enough,
/// whose name occurs at most once, and the number of all symbols declared.
pub open spec fn symbol_check_spec(
    files: Result<Vec<(String, Result<String, String>)>, String>,
    public: bool,
    min_len: nat,
    check_id: Seq<char>,
    blocking: bool,
    check_name: Seq<char>,
    code: Seq<char>,
    message: Seq<char>,
) -> (nat, Seq<ViolationView>) {
    let c = match files {
        Err(msg) => Err(msg@),
        Ok(fs) => collected(fs@),
    };
    match c {
        Err(msg) => (
            0,
            seq![
                ViolationView {
                    code: check_name + ".check_failed"@,
                    message: check_name + " check failed (id="@ + check_id + "): "@ + msg,
                    path: None,
                    details: None,
                    tier: ViolationTier::Blocking,
                },
            ],
        ),
        Ok(v) => (v.0.len(), unused_violations(v.0, v.1, public, min_len, code, message, check_id, blocking)),
    }
}

fn symbol_check(
    files: Result<Vec<(String, Result<String, String>)>, String>,
    public: bool,
    min_len: usize,
    check_id: &String,
    blocking: bool,
    check_name: &str,
    code: &str,
    message: &str,
) -> (r: (usize, Vec<Violation>))
    ensures
        declaration_patterns_compile() ==> (r.0 as nat, violation_views(r.1@)) == symbol_check_spec(
            files,
            public,
            min_len as nat,
            check_id@,
            blocking,
            check_name@,
            code@,
            message@,
        ),
{
    let c = match &files {
        Err(msg) => Err(msg.clone()),
        Ok(fs) => collect_symbols(fs),
    };
    match c {
        Err(msg) => {
            let a = concat(check_name, " check failed (id=");
            let b = concat(a.as_str(), check_id.as_str());
            let d = concat(b.as_str(), "): ");
            let m = concat(d.as_str(), msg.as_str());
            let mut out: Vec<Violation> = Vec::new();
            out.push(Violation::blocking(concat(check_name, ".check_failed"), m, None, None));
            proof {
                assert(violation_views(out@) =~= seq![
                    ViolationView {
                        code: check_name@ + ".check_failed"@,
                        message: check_name@ + " check failed (id="@ + check_id@ + "): "@ + msg@,
                        path: None,
                        details: None,
                        tier: ViolationTier::Blocking,
                    },
                ]);
            }
            (0, out)
        },
        Ok(v) => {
            let (symbols, texts) = v;
            let out = unused_symbols(&symbols, &texts, public, min_len, code, message, check_id, blocking);
            (symbols.len(), out)
        },
    }
}

/// The dead code check: private symbols whose names occur at most once (see
/// `symbol_check_spec`), reported as `dead_code.unused_symbol`, blocking or
/// not as the check says.
pub fn run_dead_code_check(
    cfg: &DeadCodeCheckConfigV2,
    files: Result<Vec<(String, Result<String, String>)>, String>,
) -> (r: DeadCodeCheckResult)
    ensures
        declaration_patterns_compile() ==> (r.symbols_scanned as nat, violation_views(r.violations@))
            == symbol_check_spec(
            files,
            false,
            cfg.min_symbol_len as nat,
            cfg.id@,
            cfg.blocking,
            "dead_code"@,
            "dead_code.unused_symbol"@,
            "private symbol appears unused: "@,
        ),
{
    let (n, violations) = symbol_check(
        files,
        false,
        cfg.min_symbol_len,
        &cfg.id,
        cfg.blocking,
        "dead_code",
        "dead_code.unused_symbol",
        "private symbol appears unused: ",
    );
    DeadCodeCheckResult { symbols_scanned: n, violations }
}

/// The orphan API check: public symbols whose names occur at most once (see
/// `symbol_check_spec`), reported as `orphan_api.unused_public_symbol`.
pub fn run_orphan_api_check(
    cfg: &OrphanApiCheckConfigV2,
    files: Result<Vec<(String, Result<String, String>)>, String>,
) -> (r: OrphanApiCheckResult)
    ensures
        declaration_patterns_compile() ==> (r.symbols_scanned as nat, violation_views(r.violations@))
            == symbol_check_spec(
            files,
            true,
            cfg.min_symbol_len as nat,
            cfg.id@,
            cfg.blocking,
            "orphan_api"@,
            "orphan_api.unused_public_symbol"@,
            "public symbol appears orphaned: "@,
        ),
{
    let (n, violations) = symbol_check(
        files,
        true,
        cfg.min_symbol_len,
        &cfg.id,
        cfg.blocking,
        "orphan_api",
        "orphan_api.unused_public_symbol",
        "public symbol appears orphaned: ",
    );
    OrphanApiCheckResult { symbols_scanned: n, violations }
}

} // verus!
