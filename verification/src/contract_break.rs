//! Contract break: the public symbols of the code files, compared with a
//! recorded baseline; removed symbols break the contract, and added ones do
//! where the policy forbids additions.

use crate::api::{DetailValue, DetailValueView, Details, Violation, ViolationTier, ViolationView, violation_views};
use crate::code_blocks::{SourceKind, lines_of, source_kind, source_kind_of, std_lines};
use crate::complexity::{read_failures, scanned};
use crate::config::ContractBreakCheckConfigV2;
use crate::csv::views;
use crate::order::sorted_distinct;
use crate::patterns::{regex_group, regex_new_error};
use crate::text::{concat, seq_starts_with, str_starts_with};
use vstd::prelude::*;

verus! {

/// The outcome of the contract break check.
pub struct ContractBreakCheckResult {
    pub symbols_total: usize,
    pub violations: Vec<Violation>,
}

/// The recorded contract as it was found: no file, a file that could not be
/// read or parsed (with the message), or its symbols.
pub enum ContractBaseline {
    Missing,
    Invalid(String),
    Loaded(Vec<String>),
}

/// The three patterns of public symbols compile (they are fixed, and do).
pub open spec fn contract_patterns_compile() -> bool {
    &&& regex_new_error(r"^\s*pub\s+(?:async\s+)?(?:fn|struct|enum|trait|type|mod)\s+([A-Za-z_][A-Za-z0-9_]*)"@) is None
    &&& regex_new_error(
        r"^\s*export\s+(?:async\s+)?(?:function|class|const|let|var|type|interface)\s+([A-Za-z_][A-Za-z0-9_]*)"@,
    ) is None
    &&& regex_new_error(r"^\s*def\s+([A-Za-z_][A-Za-z0-9_]*)\s*\("@) is None
}

/// The public symbol a line declares: a Rust `pub` item, else a script
/// `export`, else (in Python files) a `def` whose name does not start with
/// `_`. A match whose name group took no part (which these patterns cannot
/// give) declares nothing.
pub open spec fn line_public_symbol(py: bool, line: Seq<char>) -> Option<Seq<char>> {
    match regex_group(
        r"^\s*pub\s+(?:async\s+)?(?:fn|struct|enum|trait|type|mod)\s+([A-Za-z_][A-Za-z0-9_]*)"@,
        line,
        1,
    ) {
        Some(g) => g,
        None => match regex_group(
            r"^\s*export\s+(?:async\s+)?(?:function|class|const|let|var|type|interface)\s+([A-Za-z_][A-Za-z0-9_]*)"@,
            line,
            1,
        ) {
            Some(g) => g,
            None => if py {
                match regex_group(r"^\s*def\s+([A-Za-z_][A-Za-z0-9_]*)\s*\("@, line, 1) {
                    Some(Some(n)) => if seq_starts_with(n, "_"@) {
                        None
                    } else {
                        Some(n)
                    },
                    _ => None,
                }
            } else {
                None
            },
        },
    }
}

/// The public symbols the lines declare, in order.
pub open spec fn public_symbols_spec(py: bool, lines: Seq<Seq<char>>) -> Seq<Seq<char>>
    decreases lines.len(),
{
    if lines.len() == 0 {
        Seq::empty()
    } else {
        public_symbols_spec(py, lines.drop_last()) + match line_public_symbol(py, lines.last()) {
            Some(n) => seq![n],
            None => Seq::empty(),
        }
    }
}

/// The public symbols of the file `rel` with text `raw` (see
/// `public_symbols_spec`; Python rules apply to `.py` files).
pub fn parse_public_symbols(rel: &str, raw: &str) -> (out: Vec<String>)
    ensures
        contract_patterns_compile() ==> views(out@) == public_symbols_spec(
            source_kind(rel@) == SourceKind::Python,
            std_lines(raw@),
        ),
{
    let mut out: Vec<String> = Vec::new();
    let rust = match crate::patterns::regex_new(
        r"^\s*pub\s+(?:async\s+)?(?:fn|struct|enum|trait|type|mod)\s+([A-Za-z_][A-Za-z0-9_]*)",
    ) {
        Ok(re) => re,
        Err(_) => return out,
    };
    let js_ts = match crate::patterns::regex_new(
        r"^\s*export\s+(?:async\s+)?(?:function|class|const|let|var|type|interface)\s+([A-Za-z_][A-Za-z0-9_]*)",
    ) {
        Ok(re) => re,
        Err(_) => return out,
    };
    let py_re = match crate::patterns::regex_new(r"^\s*def\s+([A-Za-z_][A-Za-z0-9_]*)\s*\(") {
        Ok(re) => re,
        Err(_) => return out,
    };
    let py = source_kind_of(rel) == SourceKind::Python;
    let lines = lines_of(raw);
    let ghost ls = views(lines@);
    let mut i: usize = 0;
    proof {
        assert(ls.take(0) =~= Seq::<Seq<char>>::empty());
    }
    while i < lines.len()
        invariant
            ls == views(lines@),
            ls == std_lines(raw@),
            py == (source_kind(rel@) == SourceKind::Python),
            rust.pattern_of() == r"^\s*pub\s+(?:async\s+)?(?:fn|struct|enum|trait|type|mod)\s+([A-Za-z_][A-Za-z0-9_]*)"@,
            js_ts.pattern_of()
                == r"^\s*export\s+(?:async\s+)?(?:function|class|const|let|var|type|interface)\s+([A-Za-z_][A-Za-z0-9_]*)"@,
            py_re.pattern_of() == r"^\s*def\s+([A-Za-z_][A-Za-z0-9_]*)\s*\("@,
            i <= ls.len(),
            views(out@) == public_symbols_spec(py, ls.take(i as int)),
        decreases ls.len() - i,
    {
        proof {
            assert(ls.take(i + 1).drop_last() =~= ls.take(i as int));
            assert(ls.take(i + 1).last() == lines@[i as int]@);
        }
        let line = lines[i].as_str();
        let found: Option<String> = match crate::patterns::regex_group_of(&rust, line, 1) {
            Some(g) => g,
            None => match crate::patterns::regex_group_of(&js_ts, line, 1) {
                Some(g) => g,
                None => if py {
                    match crate::patterns::regex_group_of(&py_re, line, 1) {
                        Some(Some(n)) => if str_starts_with(n.as_str(), "_") {
                            None
                        } else {
                            Some(n)
                        },
                        _ => None,
                    }
                } else {
                    None
                },
            },
        };
        let ghost before = views(out@);
        match found {
            Some(n) => {
                out.push(n);
                proof {
                    assert(views(out@) =~= before + seq![out@.last()@]);
                }
            },
            None => {
                proof {
                    assert(views(out@) =~= before + Seq::<Seq<char>>::empty());
                }
            },
        }
        i = i + 1;
    }
    proof {
        assert(ls.take(ls.len() as int) =~= ls);
    }
    out
}

/// The public symbols of the code files that were read, in order.
pub open spec fn files_symbols(files: Seq<(String, Result<String, String>)>) -> Seq<Seq<char>>
    decreases files.len(),
{
    if files.len() == 0 {
        Seq::empty()
    } else {
        let f = files.last();
        files_symbols(files.drop_last()) + if scanned(f.0@) {
            match f.1 {
                Ok(raw) => public_symbols_spec(source_kind(f.0@) == SourceKind::Python, std_lines(raw@)),
                Err(_) => Seq::empty(),
            }
        } else {
            Seq::empty()
        }
    }
}

pub open spec fn symbol_details(check_id: Seq<char>, symbol: Seq<char>) -> Seq<(Seq<char>, DetailValueView)> {
    seq![("check_id"@, DetailValueView::Str(check_id)), ("symbol"@, DetailValueView::Str(symbol))]
}

/// A blocking violation about `symbol`, reported against the baseline file.
pub open spec fn symbol_violation(code: Seq<char>, message: Seq<char>, symbol: Seq<char>, cfg: ContractBreakCheckConfigV2) -> ViolationView {
    ViolationView {
        code,
        message: message + symbol,
        path: Some(cfg.baseline_path@),
        details: Some(symbol_details(cfg.id@, symbol)),
        tier: ViolationTier::Blocking,
    }
}

/// One violation for each symbol of `from`, in order, that `other` lacks.
pub open spec fn missing_from(
    from: Seq<Seq<char>>,
    other: Seq<Seq<char>>,
    code: Seq<char>,
    message: Seq<char>,
    cfg: ContractBreakCheckConfigV2,
) -> Seq<ViolationView>
    decreases from.len(),
{
    if from.len() == 0 {
        Seq::empty()
    } else {
        missing_from(from.drop_last(), other, code, message, cfg) + if other.contains(from.last()) {
            Seq::empty()
        } else {
            seq![symbol_violation(code, message, from.last(), cfg)]
        }
    }
}

/// What the baseline gives: a violation where it is missing or invalid; else
/// each baseline symbol no longer declared, in ascending order, and, where
/// additions are not allowed, each declared symbol the baseline lacks.
pub open spec fn baseline_violations(
    baseline: ContractBaseline,
    current: Seq<Seq<char>>,
    cfg: ContractBreakCheckConfigV2,
) -> Seq<ViolationView> {
    match baseline {
        ContractBaseline::Missing => seq![
            ViolationView {
                code: "contract_break.baseline_missing"@,
                message: "contract baseline is missing; create baseline before enabling strict compatibility gate"@,
                path: Some(cfg.baseline_path@),
                details: Some(seq![("check_id"@, DetailValueView::Str(cfg.id@))]),
                tier: ViolationTier::Blocking,
            },
        ],
        ContractBaseline::Invalid(msg) => seq![
            ViolationView {
                code: "contract_break.baseline_invalid"@,
                message: msg@,
                path: Some(cfg.baseline_path@),
                details: None,
                tier: ViolationTier::Blocking,
            },
        ],
        ContractBaseline::Loaded(symbols) => {
            let base = sorted_distinct(views(symbols@));
            missing_from(
                base,
                current,
                "contract_break.removed_symbol"@,
                "breaking change detected: removed public symbol "@,
                cfg,
            ) + if cfg.allow_additions {
                Seq::empty()
            } else {
                missing_from(
                    current,
                    base,
                    "contract_break.added_symbol"@,
                    "public contract addition not allowed by policy: "@,
                    cfg,
                )
            }
        },
    }
}

fn symbol_violation_exec(code: &str, message: &str, symbol: &String, cfg: &ContractBreakCheckConfigV2) -> (v: Violation)
    ensures
        crate::api::violation_view(v) == symbol_violation(code@, message@, symbol@, *cfg),
{
    let mut fields: Vec<(String, DetailValue)> = Vec::new();
    fields.push((String::from_str("check_id"), DetailValue::Str(cfg.id.clone())));
    fields.push((String::from_str("symbol"), DetailValue::Str(symbol.clone())));
    let v = Violation::blocking(
        String::from_str(code),
        concat(message, symbol.as_str()),
        Some(cfg.baseline_path.clone()),
        Some(Details { fields }),
    );
    proof {
        assert(crate::api::details_view(v.details).unwrap() =~= symbol_details(cfg.id@, symbol@));
    }
    v
}

fn push_missing(
    from: &Vec<String>,
    other: &Vec<String>,
    code: &str,
    message: &str,
    cfg: &ContractBreakCheckConfigV2,
    out: &mut Vec<Violation>,
)
    ensures
        violation_views(final(out)@) == violation_views(old(out)@) + missing_from(
            views(from@),
            views(other@),
            code@,
            message@,
            *cfg,
        ),
{
    let ghost start = violation_views(out@);
    let ghost fv = views(from@);
    let mut i: usize = 0;
    proof {
        assert(fv.take(0) =~= Seq::<Seq<char>>::empty());
        assert(violation_views(out@) =~= start + missing_from(fv.take(0), views(other@), code@, message@, *cfg));
    }
    while i < from.len()
        invariant
            fv == views(from@),
            i <= fv.len(),
            violation_views(out@) == start + missing_from(fv.take(i as int), views(other@), code@, message@, *cfg),
        decreases fv.len() - i,
    {
        proof {
            assert(fv.take(i + 1).drop_last() =~= fv.take(i as int));
            assert(fv.take(i + 1).last() == from@[i as int]@);
        }
        let ghost before = violation_views(out@);
        let present = crate::plugins::contains_string(other, from[i].as_str());
        if !present {
            out.push(symbol_violation_exec(code, message, &from[i], cfg));
        }
        proof {
            let tail = if views(other@).contains(fv[i as int]) {
                Seq::<ViolationView>::empty()
            } else {
                seq![symbol_violation(code@, message@, fv[i as int], *cfg)]
            };
            assert(violation_views(out@) =~= before + tail);
            assert(before + tail =~= start + missing_from(fv.take(i + 1), views(other@), code@, message@, *cfg));
        }
        i = i + 1;
    }
    proof {
        assert(fv.take(fv.len() as int) =~= fv);
    }
}

/// The contract break check over the files that the include and exclude globs
/// selected (or the error of that selection), each with its text or the error
/// of reading it, and the baseline as it was found: files that are not code
/// are passed over; a read error is reported; the public symbols of the files
/// read, each once, are compared with the baseline (see
/// `baseline_violations`). `symbols_total` counts the distinct symbols.
pub fn run_contract_break_check(
    cfg: &ContractBreakCheckConfigV2,
    files: Result<Vec<(String, Result<String, String>)>, String>,
    baseline: ContractBaseline,
) -> (r: ContractBreakCheckResult)
    ensures
        match files {
            Err(msg) => r.symbols_total == 0 && violation_views(r.violations@) == seq![
                ViolationView {
                    code: "contract_break.check_failed"@,
                    message: "contract_break check failed (id="@ + cfg.id@ + "): "@ + msg@,
                    path: None,
                    details: None,
                    tier: ViolationTier::Blocking,
                },
            ],
            Ok(fs) => contract_patterns_compile() ==> {
                let current = sorted_distinct(files_symbols(fs@));
                &&& r.symbols_total == current.len()
                &&& violation_views(r.violations@) == read_failures(fs@, "contract_break.read_failed"@)
                    + baseline_violations(baseline, current, *cfg)
            },
        },
{
    match files {
        Err(msg) => {
            let a = concat("contract_break check failed (id=", cfg.id.as_str());
            let b = concat(a.as_str(), "): ");
            let m = concat(b.as_str(), msg.as_str());
            let mut violations: Vec<Violation> = Vec::new();
            violations.push(Violation::blocking(String::from_str("contract_break.check_failed"), m, None, None));
            proof {
                assert(violation_views(violations@) =~= seq![
                    ViolationView {
                        code: "contract_break.check_failed"@,
                        message: "contract_break check failed (id="@ + cfg.id@ + "): "@ + msg@,
                        path: None,
                        details: None,
                        tier: ViolationTier::Blocking,
                    },
                ]);
            }
            ContractBreakCheckResult { symbols_total: 0, violations }
        },
        Ok(fs) => {
            let ghost code = "contract_break.read_failed"@;
            let mut violations: Vec<Violation> = Vec::new();
            let mut symbols: Vec<String> = Vec::new();
            let mut i: usize = 0;
            proof {
                assert(fs@.take(0) =~= Seq::<(String, Result<String, String>)>::empty());
            }
            while i < fs.len()
                invariant
                    code == "contract_break.read_failed"@,
                    i <= fs@.len(),
                    violation_views(violations@) == read_failures(fs@.take(i as int), code),
                    contract_patterns_compile() ==> views(symbols@) == files_symbols(fs@.take(i as int)),
                decreases fs@.len() - i,
            {
                proof {
                    assert(fs@.take(i + 1).drop_last() =~= fs@.take(i as int));
                    assert(fs@.take(i + 1).last() == fs@[i as int]);
                }
                let rel = &fs[i].0;
                if crate::checks::is_probably_code_file(rel.as_str()) {
                    match &fs[i].1 {
                        Err(e) => {
                            let a = concat("failed to read ", rel.as_str());
                            let b = concat(a.as_str(), ": ");
                            let m = concat(b.as_str(), e.as_str());
                            let ghost before = violation_views(violations@);
                            violations.push(Violation::blocking(
                                String::from_str("contract_break.read_failed"),
                                m,
                                Some(rel.clone()),
                                None,
                            ));
                            proof {
                                assert(violation_views(violations@) =~= before + seq![
                                    ViolationView {
                                        code: code,
                                        message: "failed to read "@ + rel@ + ": "@ + e@,
                                        path: Some(rel@),
                                        details: None,
                                        tier: ViolationTier::Blocking,
                                    },
                                ]);
                                assert(views(symbols@) =~= views(symbols@) + Seq::<Seq<char>>::empty());
                            }
                        },
                        Ok(raw) => {
                            proof {
                                assert(fs@[i as int].1 matches Ok(x) && x == *raw);
                            }
                            let mut found = parse_public_symbols(rel.as_str(), raw.as_str());
                            let ghost before = views(symbols@);
                            let ghost fv = views(found@);
                            symbols.append(&mut found);
                            proof {
                                assert(views(symbols@) =~= before + fv);
                                assert(violation_views(violations@) =~= read_failures(fs@.take(i as int), code)
                                    + Seq::<ViolationView>::empty());
                            }
                        },
                    }
                } else {
                    proof {
                        assert(violation_views(violations@) =~= read_failures(fs@.take(i as int), code) + Seq::<
                            ViolationView,
                        >::empty());
                        assert(views(symbols@) =~= views(symbols@) + Seq::<Seq<char>>::empty());
                    }
                }
                i = i + 1;
            }
            proof {
                assert(fs@.take(fs@.len() as int) =~= fs@);
            }
            let current = crate::order::sorted_unique(symbols);
            let ghost failures = violation_views(violations@);
            match baseline {
                ContractBaseline::Missing => {
                    let mut fields: Vec<(String, DetailValue)> = Vec::new();
                    fields.push((String::from_str("check_id"), DetailValue::Str(cfg.id.clone())));
                    let v = Violation::blocking(
                        String::from_str("contract_break.baseline_missing"),
                        String::from_str(
                            "contract baseline is missing; create baseline before enabling strict compatibility gate",
                        ),
                        Some(cfg.baseline_path.clone()),
                        Some(Details { fields }),
                    );
                    violations.push(v);
                    proof {
                        assert(crate::api::details_view(v.details).unwrap() =~= seq![
                            ("check_id"@, DetailValueView::Str(cfg.id@)),
                        ]);
                        assert(violation_views(violations@) =~= failures + baseline_violations(
                            ContractBaseline::Missing,
                            views(current@),
                            *cfg,
                        ));
                    }
                },
                ContractBaseline::Invalid(msg) => {
                    let ghost m = msg@;
                    violations.push(Violation::blocking(
                        String::from_str("contract_break.baseline_invalid"),
                        msg,
                        Some(cfg.baseline_path.clone()),
                        None,
                    ));
                    proof {
                        assert(violation_views(violations@) =~= failures + seq![
                            ViolationView {
                                code: "contract_break.baseline_invalid"@,
                                message: m,
                                path: Some(cfg.baseline_path@),
                                details: None,
                                tier: ViolationTier::Blocking,
                            },
                        ]);
                    }
                },
                ContractBaseline::Loaded(syms) => {
                    let ghost sv = views(syms@);
                    let base = crate::order::sorted_unique(syms);
                    push_missing(
                        &base,
                        &current,
                        "contract_break.removed_symbol",
                        "breaking change detected: removed public symbol ",
                        cfg,
                        &mut violations,
                    );
                    let ghost mid = violation_views(violations@);
                    if !cfg.allow_additions {
                        push_missing(
                            &current,
                            &base,
                            "contract_break.added_symbol",
                            "public contract addition not allowed by policy: ",
                            cfg,
                            &mut violations,
                        );
                    } else {
                        proof {
                            assert(violation_views(violations@) =~= mid + Seq::<ViolationView>::empty());
                        }
                    }
                    proof {
                        assert(views(base@) == sorted_distinct(sv));
                        assert(violation_views(violations@) =~= failures + baseline_violations(
                            ContractBaseline::Loaded(syms),
                            views(current@),
                            *cfg,
                        ));
                    }
                },
            }
            ContractBreakCheckResult { symbols_total: current.len(), violations }
        },
    }
}

} // verus!
