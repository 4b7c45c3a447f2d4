//! Command-line parsing for `init`, `validate`, `gate` and `plugins`.
//!
//! Environment defaults are handed in by the caller as plain values.

use crate::api::{BaselineMaintenance, GateKind, InitRequest, ValidateMode};
use crate::csv::{csv_spec, parse_csv, views};
use crate::text::{
    chars_of, eq_ignore_ascii_case_spec, seq_starts_with, str_eq, str_eq_ignore_ascii_case, str_starts_with,
    trim_spec, trim_str,
};
use vstd::prelude::*;
use vstd::string::*;

verus! {

/// The registry used when neither `--registry` nor the environment names one.
pub fn default_plugin_registry_source() -> (s: &'static str)
    ensures
        s@ == default_registry_spec(),
{
    "https://github.com/AmirTlinov/compas-plugin-registry/releases/latest/download/registry.manifest.v1.json"
}

pub open spec fn default_registry_spec() -> Seq<char> {
    "https://github.com/AmirTlinov/compas-plugin-registry/releases/latest/download/registry.manifest.v1.json"@
}

/// A value that is present and not blank.
pub open spec fn non_blank(v: Option<Seq<char>>) -> bool {
    v is Some && trim_spec(v.unwrap()).len() > 0
}

pub open spec fn opt_view(v: Option<String>) -> Option<Seq<char>> {
    match v {
        Some(s) => Some(s@),
        None => None,
    }
}

/// The repository root: the flag's value, else the environment's, unless
/// that value is blank; "." otherwise.
pub open spec fn repo_root_spec(flag: Option<Seq<char>>, env: Option<Seq<char>>) -> Seq<char> {
    let chosen = if flag is Some {
        flag
    } else {
        env
    };
    if non_blank(chosen) {
        chosen.unwrap()
    } else {
        "."@
    }
}

/// The repository root from the `--repo-root` value and the `AI_DX_REPO_ROOT` value.
pub fn default_repo_root(repo_root: Option<String>, env_repo_root: Option<String>) -> (r: String)
    ensures
        r@ == repo_root_spec(opt_view(repo_root), opt_view(env_repo_root)),
{
    let chosen = if repo_root.is_some() {
        repo_root
    } else {
        env_repo_root
    };
    match chosen {
        Some(s) => {
            let t = trim_str(s.as_str());
            if t.unicode_len() > 0 {
                s
            } else {
                String::from_str(".")
            }
        },
        None => String::from_str("."),
    }
}

pub open spec fn validate_mode_spec(s: Seq<char>) -> Option<ValidateMode> {
    if s == "ratchet"@ {
        Some(ValidateMode::Ratchet)
    } else if s == "strict"@ {
        Some(ValidateMode::Strict)
    } else if s == "warn"@ {
        Some(ValidateMode::Warn)
    } else {
        None
    }
}

/// The validate mode named `s`.
pub fn parse_validate_mode(s: &str) -> (m: Option<ValidateMode>)
    ensures
        m == validate_mode_spec(s@),
{
    if str_eq(s, "ratchet") {
        Some(ValidateMode::Ratchet)
    } else if str_eq(s, "strict") {
        Some(ValidateMode::Strict)
    } else if str_eq(s, "warn") {
        Some(ValidateMode::Warn)
    } else {
        None
    }
}

pub open spec fn gate_kind_spec(s: Seq<char>) -> Option<GateKind> {
    if s == "ci-fast"@ || s == "ci_fast"@ {
        Some(GateKind::CiFast)
    } else if s == "ci"@ {
        Some(GateKind::Ci)
    } else if s == "flagship"@ {
        Some(GateKind::Flagship)
    } else {
        None
    }
}

/// The kind named `s` ("ci-fast" and "ci_fast" both name `CiFast`).
pub fn parse_gate_kind(s: &str) -> (k: Option<GateKind>)
    ensures
        k == gate_kind_spec(s@),
{
    if str_eq(s, "ci-fast") || str_eq(s, "ci_fast") {
        Some(GateKind::CiFast)
    } else if str_eq(s, "ci") {
        Some(GateKind::Ci)
    } else if str_eq(s, "flagship") {
        Some(GateKind::Flagship)
    } else {
        None
    }
}

/// The removed v1 flags `--init`, `--validate`, `--gate`.
pub fn is_v1_flag(arg: &str) -> (b: bool)
    ensures
        b == (arg@ == "--init"@ || arg@ == "--validate"@ || arg@ == "--gate"@),
{
    str_eq(arg, "--init") || str_eq(arg, "--validate") || str_eq(arg, "--gate")
}

#[derive(Debug, Clone, Copy, PartialEq, Eq, Structural)]
pub enum PluginsAction {
    Install,
    Update,
    Uninstall,
    List,
    Packs,
    Info,
    Doctor,
}

pub open spec fn plugins_action_spec(s: Seq<char>) -> Option<PluginsAction> {
    if s == "install"@ {
        Some(PluginsAction::Install)
    } else if s == "update"@ {
        Some(PluginsAction::Update)
    } else if s == "uninstall"@ {
        Some(PluginsAction::Uninstall)
    } else if s == "list"@ {
        Some(PluginsAction::List)
    } else if s == "packs"@ {
        Some(PluginsAction::Packs)
    } else if s == "info"@ {
        Some(PluginsAction::Info)
    } else if s == "doctor"@ {
        Some(PluginsAction::Doctor)
    } else {
        None
    }
}

impl PluginsAction {
    /// The plugins subcommand named `s`.
    pub fn from_str(s: &str) -> (a: Option<PluginsAction>)
        ensures
            a == plugins_action_spec(s@),
    {
        if str_eq(s, "install") {
            Some(PluginsAction::Install)
        } else if str_eq(s, "update") {
            Some(PluginsAction::Update)
        } else if str_eq(s, "uninstall") {
            Some(PluginsAction::Uninstall)
        } else if str_eq(s, "list") {
            Some(PluginsAction::List)
        } else if str_eq(s, "packs") {
            Some(PluginsAction::Packs)
        } else if str_eq(s, "info") {
            Some(PluginsAction::Info)
        } else if str_eq(s, "doctor") {
            Some(PluginsAction::Doctor)
        } else {
            None
        }
    }
}

/// Whether `compas plugins` was asked for help: no subcommand, or `help`,
/// `--help` or `-h` as the subcommand (`args` is the whole command line).
pub fn plugins_help_requested(args: &[String]) -> (b: bool)
    ensures
        b == (args@.len() == 2 || (args@.len() > 2 && (args@[2]@ == "help"@ || args@[2]@ == "--help"@
            || args@[2]@ == "-h"@))),
{
    if args.len() == 2 {
        return true;
    }
    if args.len() > 2 {
        let a = args[2].as_str();
        return str_eq(a, "help") || str_eq(a, "--help") || str_eq(a, "-h");
    }
    false
}

/// The value of the flag at `i`: the next argument, unless it is missing or is itself a flag.
pub open spec fn flag_value_spec(args: Seq<String>, i: int) -> Option<Seq<char>> {
    if i + 1 < args.len() && !seq_starts_with(args[i + 1]@, "--"@) {
        Some(args[i + 1]@)
    } else {
        None
    }
}

fn flag_value(args: &[String], i: usize) -> (v: Option<String>)
    requires
        i < args@.len(),
    ensures
        opt_view(v) == flag_value_spec(args@, i as int),
{
    if args.len() - i > 1 && !str_starts_with(args[i + 1].as_str(), "--") {
        Some(args[i + 1].clone())
    } else {
        None
    }
}

fn prefixed(prefix: &str, a: &str) -> (m: String)
    ensures
        m@ == prefix@ + a@,
{
    let mut m = String::from_str(prefix);
    m.append(a);
    m
}

// ---------------------------------------------------------------------------
// validate

/// What `validate` arguments parse to: mode, write-baseline, repo root flag,
/// baseline reason and owner.
pub type ValidateArgs = (ValidateMode, bool, Option<Seq<char>>, Option<Seq<char>>, Option<Seq<char>>);

/// The arguments from `i` on, parsed on top of what came before.
pub open spec fn validate_args_spec(
    args: Seq<String>,
    i: int,
    st: ValidateArgs,
    mode_set: bool,
) -> Result<ValidateArgs, Seq<char>>
    decreases args.len() - i,
{
    if i < 0 || i >= args.len() {
        Ok(st)
    } else {
        let a = args[i]@;
        let (mode, wb, root, reason, owner) = st;
        if a == "--write-baseline"@ {
            validate_args_spec(args, i + 1, (mode, true, root, reason, owner), mode_set)
        } else if a == "--repo-root"@ {
            match flag_value_spec(args, i) {
                Some(v) => validate_args_spec(args, i + 2, (mode, wb, Some(v), reason, owner), mode_set),
                None => Err("--repo-root requires a value"@),
            }
        } else if a == "--baseline-reason"@ {
            match flag_value_spec(args, i) {
                Some(v) => validate_args_spec(args, i + 2, (mode, wb, root, Some(v), owner), mode_set),
                None => Err("--baseline-reason requires a value"@),
            }
        } else if a == "--baseline-owner"@ {
            match flag_value_spec(args, i) {
                Some(v) => validate_args_spec(args, i + 2, (mode, wb, root, reason, Some(v)), mode_set),
                None => Err("--baseline-owner requires a value"@),
            }
        } else if !seq_starts_with(a, "--"@) && !mode_set {
            match validate_mode_spec(a) {
                Some(m) => validate_args_spec(args, i + 1, (m, wb, root, reason, owner), true),
                None => Err("unknown validate mode: "@ + a),
            }
        } else {
            Err("unknown argument: "@ + a)
        }
    }
}

/// `validate` arguments: an optional mode (ratchet by default), flags, and the
/// baseline reason and owner that must come together.
pub open spec fn validate_cli_spec(args: Seq<String>) -> Result<ValidateArgs, Seq<char>> {
    match validate_args_spec(args, 0, (ValidateMode::Ratchet, false, None, None, None), false) {
        Err(e) => Err(e),
        Ok((mode, wb, root, reason, owner)) => if reason is Some && owner is None {
            Err("--baseline-owner is required when --baseline-reason is provided"@)
        } else if reason is None && owner is Some {
            Err("--baseline-reason is required when --baseline-owner is provided"@)
        } else {
            Ok((mode, wb, root, reason, owner))
        },
    }
}

struct ValidateState {
    mode: ValidateMode,
    mode_set: bool,
    write_baseline: bool,
    repo_root: Option<String>,
    reason: Option<String>,
    owner: Option<String>,
}

spec fn vview(st: ValidateState) -> ValidateArgs {
    (st.mode, st.write_baseline, opt_view(st.repo_root), opt_view(st.reason), opt_view(st.owner))
}

fn validate_step(args: &[String], i: usize, st: &mut ValidateState) -> (r: Result<usize, String>)
    requires
        i < args@.len(),
    ensures
        match r {
            Ok(j) => i < j <= i + 2 && validate_args_spec(args@, i as int, vview(*old(st)), old(st).mode_set)
                == validate_args_spec(args@, j as int, vview(*final(st)), final(st).mode_set),
            Err(e) => validate_args_spec(args@, i as int, vview(*old(st)), old(st).mode_set) == Err::<
                ValidateArgs,
                Seq<char>,
            >(e@),
        },
{
    let a = args[i].as_str();
    if str_eq(a, "--write-baseline") {
        st.write_baseline = true;
        Ok(i + 1)
    } else if str_eq(a, "--repo-root") {
        match flag_value(args, i) {
            Some(v) => {
                st.repo_root = Some(v);
                Ok(i + 2)
            },
            None => Err(String::from_str("--repo-root requires a value")),
        }
    } else if str_eq(a, "--baseline-reason") {
        match flag_value(args, i) {
            Some(v) => {
                st.reason = Some(v);
                Ok(i + 2)
            },
            None => Err(String::from_str("--baseline-reason requires a value")),
        }
    } else if str_eq(a, "--baseline-owner") {
        match flag_value(args, i) {
            Some(v) => {
                st.owner = Some(v);
                Ok(i + 2)
            },
            None => Err(String::from_str("--baseline-owner requires a value")),
        }
    } else if !str_starts_with(a, "--") && !st.mode_set {
        match parse_validate_mode(a) {
            Some(m) => {
                st.mode = m;
                st.mode_set = true;
                Ok(i + 1)
            },
            None => Err(prefixed("unknown validate mode: ", a)),
        }
    } else {
        Err(prefixed("unknown argument: ", a))
    }
}

/// Parses `validate` arguments into the mode, whether to write the baseline,
/// the repository root (see `default_repo_root`) and the baseline maintenance.
pub fn parse_validate_cli(args: &[String], env_repo_root: Option<String>) -> (r: Result<
    (ValidateMode, bool, String, Option<BaselineMaintenance>),
    String,
>)
    ensures
        match validate_cli_spec(args@) {
            Err(e) => r is Err && r->Err_0@ == e,
            Ok((mode, wb, root, reason, owner)) => r is Ok && {
                let (m, w, rr, bm) = r->Ok_0;
                &&& m == mode
                &&& w == wb
                &&& rr@ == repo_root_spec(root, opt_view(env_repo_root))
                &&& (reason is None ==> bm is None)
                &&& (reason is Some ==> bm is Some && bm.unwrap().reason@ == reason.unwrap()
                    && bm.unwrap().owner@ == owner.unwrap())
            },
        },
{
    let mut st = ValidateState {
        mode: ValidateMode::Ratchet,
        mode_set: false,
        write_baseline: false,
        repo_root: None,
        reason: None,
        owner: None,
    };
    let mut i: usize = 0;
    while i < args.len()
        invariant
            i <= args@.len() + 1,
            validate_args_spec(args@, 0, (ValidateMode::Ratchet, false, None, None, None), false)
                == validate_args_spec(args@, i as int, vview(st), st.mode_set),
        decreases args@.len() + 1 - i,
    {
        match validate_step(args, i, &mut st) {
            Ok(j) => i = j,
            Err(e) => return Err(e),
        }
    }
    let root = default_repo_root(st.repo_root, env_repo_root);
    match (st.reason, st.owner) {
        (None, None) => Ok((st.mode, st.write_baseline, root, None)),
        (Some(reason), Some(owner)) => Ok(
            (st.mode, st.write_baseline, root, Some(BaselineMaintenance { reason, owner })),
        ),
        (Some(_), None) => Err(String::from_str("--baseline-owner is required when --baseline-reason is provided")),
        (None, Some(_)) => Err(String::from_str("--baseline-reason is required when --baseline-owner is provided")),
    }
}

// ---------------------------------------------------------------------------
// gate

/// What `gate` arguments parse to: kind, dry run, write witness, repo root flag.
pub type GateArgs = (GateKind, bool, bool, Option<Seq<char>>);

/// The arguments from `i` on, parsed on top of what came before.
pub open spec fn gate_args_spec(args: Seq<String>, i: int, st: GateArgs, kind_set: bool) -> Result<
    GateArgs,
    Seq<char>,
>
    decreases args.len() - i,
{
    if i < 0 || i >= args.len() {
        Ok(st)
    } else {
        let a = args[i]@;
        let (kind, dry, ww, root) = st;
        if a == "--dry-run"@ {
            gate_args_spec(args, i + 1, (kind, true, ww, root), kind_set)
        } else if a == "--write-witness"@ {
            gate_args_spec(args, i + 1, (kind, dry, true, root), kind_set)
        } else if a == "--repo-root"@ {
            match flag_value_spec(args, i) {
                Some(v) => gate_args_spec(args, i + 2, (kind, dry, ww, Some(v)), kind_set),
                None => Err("--repo-root requires a value"@),
            }
        } else if !seq_starts_with(a, "--"@) && !kind_set {
            match gate_kind_spec(a) {
                Some(k) => gate_args_spec(args, i + 1, (k, dry, ww, root), true),
                None => Err("unknown gate kind: "@ + a),
            }
        } else {
            Err("unknown argument: "@ + a)
        }
    }
}

/// `gate` arguments: an optional kind (`CiFast` by default) and flags.
pub open spec fn gate_cli_spec(args: Seq<String>) -> Result<GateArgs, Seq<char>> {
    gate_args_spec(args, 0, (GateKind::CiFast, false, false, None), false)
}

/// The witness environment value turns witness writing on: "1", or "true" in any ASCII case.
pub open spec fn env_flag_on(v: Option<Seq<char>>) -> bool {
    v is Some && (v.unwrap() == "1"@ || eq_ignore_ascii_case_spec(v.unwrap(), "true"@))
}

struct GateState {
    kind: GateKind,
    kind_set: bool,
    dry_run: bool,
    write_witness: bool,
    repo_root: Option<String>,
}

spec fn gview(st: GateState) -> GateArgs {
    (st.kind, st.dry_run, st.write_witness, opt_view(st.repo_root))
}

fn gate_step(args: &[String], i: usize, st: &mut GateState) -> (r: Result<usize, String>)
    requires
        i < args@.len(),
    ensures
        match r {
            Ok(j) => i < j <= i + 2 && gate_args_spec(args@, i as int, gview(*old(st)), old(st).kind_set)
                == gate_args_spec(args@, j as int, gview(*final(st)), final(st).kind_set),
            Err(e) => gate_args_spec(args@, i as int, gview(*old(st)), old(st).kind_set) == Err::<
                GateArgs,
                Seq<char>,
            >(e@),
        },
{
    let a = args[i].as_str();
    if str_eq(a, "--dry-run") {
        st.dry_run = true;
        Ok(i + 1)
    } else if str_eq(a, "--write-witness") {
        st.write_witness = true;
        Ok(i + 1)
    } else if str_eq(a, "--repo-root") {
        match flag_value(args, i) {
            Some(v) => {
                st.repo_root = Some(v);
                Ok(i + 2)
            },
            None => Err(String::from_str("--repo-root requires a value")),
        }
    } else if !str_starts_with(a, "--") && !st.kind_set {
        match parse_gate_kind(a) {
            Some(k) => {
                st.kind = k;
                st.kind_set = true;
                Ok(i + 1)
            },
            None => Err(prefixed("unknown gate kind: ", a)),
        }
    } else {
        Err(prefixed("unknown argument: ", a))
    }
}

/// Parses `gate` arguments into the kind, dry run, whether to write the
/// witness (the flag, or the `AI_DX_WRITE_WITNESS` value) and the repository root.
pub fn parse_gate_cli(args: &[String], env_repo_root: Option<String>, env_write_witness: Option<String>) -> (r:
    Result<(GateKind, bool, bool, String), String>)
    ensures
        match gate_cli_spec(args@) {
            Err(e) => r is Err && r->Err_0@ == e,
            Ok((kind, dry, ww, root)) => r is Ok && {
                let (k, d, w, rr) = r->Ok_0;
                &&& k == kind
                &&& d == dry
                &&& w == (ww || env_flag_on(opt_view(env_write_witness)))
                &&& rr@ == repo_root_spec(root, opt_view(env_repo_root))
            },
        },
{
    let mut st = GateState {
        kind: GateKind::CiFast,
        kind_set: false,
        dry_run: false,
        write_witness: false,
        repo_root: None,
    };
    let mut i: usize = 0;
    while i < args.len()
        invariant
            i <= args@.len() + 1,
            gate_cli_spec(args@) == gate_args_spec(args@, i as int, gview(st), st.kind_set),
        decreases args@.len() + 1 - i,
    {
        match gate_step(args, i, &mut st) {
            Ok(j) => i = j,
            Err(e) => return Err(e),
        }
    }
    let env_on = match &env_write_witness {
        Some(v) => str_eq(v.as_str(), "1") || str_eq_ignore_ascii_case(v.as_str(), "true"),
        None => false,
    };
    let root = default_repo_root(st.repo_root, env_repo_root);
    Ok((st.kind, st.dry_run, st.write_witness || env_on, root))
}

// ---------------------------------------------------------------------------
// init

/// What `init` arguments parse to: apply, profile, registry, packs, repo root flag.
pub type InitArgs = (bool, Option<Seq<char>>, Option<Seq<char>>, Seq<Seq<char>>, Option<Seq<char>>);

/// The arguments from `i` on, parsed on top of what came before; every
/// `--packs` value adds its comma-separated, trimmed, non-empty items.
pub open spec fn init_args_spec(args: Seq<String>, i: int, st: InitArgs) -> Result<InitArgs, Seq<char>>
    decreases args.len() - i,
{
    if i < 0 || i >= args.len() {
        Ok(st)
    } else {
        let a = args[i]@;
        let (apply, profile, registry, packs, root) = st;
        if a == "--apply"@ {
            init_args_spec(args, i + 1, (true, profile, registry, packs, root))
        } else if a == "--profile"@ {
            match flag_value_spec(args, i) {
                Some(v) => init_args_spec(args, i + 2, (apply, Some(v), registry, packs, root)),
                None => Err("--profile requires a value (e.g. ai_first)"@),
            }
        } else if a == "--registry"@ {
            match flag_value_spec(args, i) {
                Some(v) => init_args_spec(args, i + 2, (apply, profile, Some(v), packs, root)),
                None => Err("--registry requires a value"@),
            }
        } else if a == "--packs"@ {
            match flag_value_spec(args, i) {
                Some(v) => init_args_spec(args, i + 2, (apply, profile, registry, packs + csv_spec(v), root)),
                None => Err("--packs requires a value (e.g. builtin:rust,builtin:node)"@),
            }
        } else if a == "--repo-root"@ {
            match flag_value_spec(args, i) {
                Some(v) => init_args_spec(args, i + 2, (apply, profile, registry, packs, Some(v))),
                None => Err("--repo-root requires a value"@),
            }
        } else {
            Err("unknown argument: "@ + a)
        }
    }
}

pub open spec fn init_cli_spec(args: Seq<String>) -> Result<InitArgs, Seq<char>> {
    init_args_spec(args, 0, (false, None, None, Seq::empty(), None))
}

struct InitState {
    apply: bool,
    profile: Option<String>,
    registry: Option<String>,
    packs: Vec<String>,
    repo_root: Option<String>,
}

spec fn iview(st: InitState) -> InitArgs {
    (st.apply, opt_view(st.profile), opt_view(st.registry), views(st.packs@), opt_view(st.repo_root))
}

fn init_step(args: &[String], i: usize, st: &mut InitState) -> (r: Result<usize, String>)
    requires
        i < args@.len(),
    ensures
        match r {
            Ok(j) => i < j <= i + 2 && init_args_spec(args@, i as int, iview(*old(st)))
                == init_args_spec(args@, j as int, iview(*final(st))),
            Err(e) => init_args_spec(args@, i as int, iview(*old(st))) == Err::<InitArgs, Seq<char>>(e@),
        },
{
    let a = args[i].as_str();
    if str_eq(a, "--apply") {
        st.apply = true;
        Ok(i + 1)
    } else if str_eq(a, "--profile") {
        match flag_value(args, i) {
            Some(v) => {
                st.profile = Some(v);
                Ok(i + 2)
            },
            None => Err(String::from_str("--profile requires a value (e.g. ai_first)")),
        }
    } else if str_eq(a, "--registry") {
        match flag_value(args, i) {
            Some(v) => {
                st.registry = Some(v);
                Ok(i + 2)
            },
            None => Err(String::from_str("--registry requires a value")),
        }
    } else if str_eq(a, "--packs") {
        match flag_value(args, i) {
            Some(v) => {
                let mut items = parse_csv(v.as_str());
                let ghost before = st.packs@;
                st.packs.append(&mut items);
                proof {
                    assert(views(st.packs@) =~= views(before) + csv_spec(v@));
                }
                Ok(i + 2)
            },
            None => Err(String::from_str("--packs requires a value (e.g. builtin:rust,builtin:node)")),
        }
    } else if str_eq(a, "--repo-root") {
        match flag_value(args, i) {
            Some(v) => {
                st.repo_root = Some(v);
                Ok(i + 2)
            },
            None => Err(String::from_str("--repo-root requires a value")),
        }
    } else {
        Err(prefixed("unknown argument: ", a))
    }
}

/// Parses `init` arguments into the request and the repository root; the
/// request names the same root, and no packs where none were given.
pub fn parse_init_cli(args: &[String], env_repo_root: Option<String>) -> (r: Result<(InitRequest, String), String>)
    ensures
        match init_cli_spec(args@) {
            Err(e) => r is Err && r->Err_0@ == e,
            Ok((apply, profile, registry, packs, root)) => r is Ok && {
                let (req, rr) = r->Ok_0;
                &&& rr@ == repo_root_spec(root, opt_view(env_repo_root))
                &&& req.repo_root is Some && req.repo_root.unwrap()@ == rr@
                &&& req.apply == Some(apply)
                &&& opt_view(req.profile) == profile
                &&& opt_view(req.registry_source) == registry
                &&& (packs.len() == 0 ==> req.packs is None)
                &&& (packs.len() > 0 ==> req.packs is Some && views(req.packs.unwrap()@) == packs)
                &&& req.external_packs is None
            },
        },
{
    let mut st = InitState { apply: false, profile: None, registry: None, packs: Vec::new(), repo_root: None };
    proof {
        assert(views(st.packs@) =~= Seq::<Seq<char>>::empty());
    }
    let mut i: usize = 0;
    while i < args.len()
        invariant
            i <= args@.len() + 1,
            init_cli_spec(args@) == init_args_spec(args@, i as int, iview(st)),
        decreases args@.len() + 1 - i,
    {
        match init_step(args, i, &mut st) {
            Ok(j) => i = j,
            Err(e) => return Err(e),
        }
    }
    let root = default_repo_root(st.repo_root, env_repo_root);
    let packs = if st.packs.len() == 0 {
        None
    } else {
        Some(st.packs)
    };
    let req = InitRequest {
        repo_root: Some(root.clone()),
        apply: Some(st.apply),
        profile: st.profile,
        registry_source: st.registry,
        packs,
        external_packs: None,
    };
    Ok((req, root))
}

// ---------------------------------------------------------------------------
// plugins

/// A parsed `plugins` command line.
#[derive(Debug, Clone)]
pub struct PluginsCli {
    pub action: PluginsAction,
    pub registry_source: String,
    pub repo_root: String,
    pub installer_args: Vec<String>,
}

/// What the `plugins` options parse to: registry flag, repo root flag, and the
/// arguments handed on to the installer.
pub type PluginsArgs = (Option<Seq<char>>, Option<Seq<char>>, Seq<Seq<char>>);

/// The arguments from `i` on; after `--` every argument is handed on as it is.
pub open spec fn plugins_args_spec(args: Seq<String>, i: int, st: PluginsArgs, passthrough: bool) -> Result<
    PluginsArgs,
    Seq<char>,
>
    decreases args.len() - i,
{
    if i < 0 || i >= args.len() {
        Ok(st)
    } else {
        let a = args[i]@;
        let (registry, root, rest) = st;
        if passthrough {
            plugins_args_spec(args, i + 1, (registry, root, rest.push(a)), true)
        } else if a == "--"@ {
            plugins_args_spec(args, i + 1, st, true)
        } else if a == "--registry"@ {
            match flag_value_spec(args, i) {
                Some(v) => plugins_args_spec(args, i + 2, (Some(v), root, rest), false),
                None => Err("--registry requires a value"@),
            }
        } else if a == "--repo-root"@ {
            match flag_value_spec(args, i) {
                Some(v) => plugins_args_spec(args, i + 2, (registry, Some(v), rest), false),
                None => Err("--repo-root requires a value"@),
            }
        } else {
            plugins_args_spec(args, i + 1, (registry, root, rest.push(a)), false)
        }
    }
}

/// The subcommand and options of `plugins` (`args` starts at the subcommand).
pub open spec fn plugins_cli_spec(args: Seq<String>) -> Result<(PluginsAction, PluginsArgs), Seq<char>> {
    if args.len() == 0 {
        Err("plugins requires subcommand: install|update|uninstall|list|packs|info|doctor"@)
    } else {
        match plugins_action_spec(args[0]@) {
            None => Err("unknown plugins command: "@ + args[0]@),
            Some(action) => match plugins_args_spec(args, 1, (None, None, Seq::empty()), false) {
                Err(e) => Err(e),
                Ok(st) => Ok((action, st)),
            },
        }
    }
}

/// The registry: the flag's value, else the environment's, unless that value
/// is blank; the default registry otherwise.
pub open spec fn registry_spec(flag: Option<Seq<char>>, env: Option<Seq<char>>) -> Seq<char> {
    let chosen = if flag is Some {
        flag
    } else {
        env
    };
    if non_blank(chosen) {
        chosen.unwrap()
    } else {
        default_registry_spec()
    }
}

struct PluginsState {
    passthrough: bool,
    registry: Option<String>,
    repo_root: Option<String>,
    rest: Vec<String>,
}

spec fn pview(st: PluginsState) -> PluginsArgs {
    (opt_view(st.registry), opt_view(st.repo_root), views(st.rest@))
}

fn plugins_step(args: &[String], i: usize, st: &mut PluginsState) -> (r: Result<usize, String>)
    requires
        i < args@.len(),
    ensures
        match r {
            Ok(j) => i < j <= i + 2 && plugins_args_spec(args@, i as int, pview(*old(st)), old(st).passthrough)
                == plugins_args_spec(args@, j as int, pview(*final(st)), final(st).passthrough),
            Err(e) => plugins_args_spec(args@, i as int, pview(*old(st)), old(st).passthrough) == Err::<
                PluginsArgs,
                Seq<char>,
            >(e@),
        },
{
    let a = args[i].as_str();
    if st.passthrough {
        st.rest.push(args[i].clone());
        proof {
            assert(views(st.rest@) =~= views(old(st).rest@).push(args@[i as int]@));
        }
        Ok(i + 1)
    } else if str_eq(a, "--") {
        st.passthrough = true;
        Ok(i + 1)
    } else if str_eq(a, "--registry") {
        match flag_value(args, i) {
            Some(v) => {
                st.registry = Some(v);
                Ok(i + 2)
            },
            None => Err(String::from_str("--registry requires a value")),
        }
    } else if str_eq(a, "--repo-root") {
        match flag_value(args, i) {
            Some(v) => {
                st.repo_root = Some(v);
                Ok(i + 2)
            },
            None => Err(String::from_str("--repo-root requires a value")),
        }
    } else {
        st.rest.push(args[i].clone());
        proof {
            assert(views(st.rest@) =~= views(old(st).rest@).push(args@[i as int]@));
        }
        Ok(i + 1)
    }
}

/// Parses `plugins` arguments (from the subcommand on) with the
/// `COMPAS_PLUGIN_REGISTRY` and `AI_DX_REPO_ROOT` values as defaults.
pub fn parse_plugins_cli(args: &[String], env_registry: Option<String>, env_repo_root: Option<String>) -> (r:
    Result<PluginsCli, String>)
    ensures
        match plugins_cli_spec(args@) {
            Err(e) => r is Err && r->Err_0@ == e,
            Ok((action, (registry, root, rest))) => r is Ok && {
                let p = r->Ok_0;
                &&& p.action == action
                &&& p.registry_source@ == registry_spec(registry, opt_view(env_registry))
                &&& p.repo_root@ == repo_root_spec(root, opt_view(env_repo_root))
                &&& views(p.installer_args@) == rest
            },
        },
{
    if args.len() == 0 {
        return Err(
            String::from_str("plugins requires subcommand: install|update|uninstall|list|packs|info|doctor"),
        );
    }
    let action = match PluginsAction::from_str(args[0].as_str()) {
        Some(a) => a,
        None => return Err(prefixed("unknown plugins command: ", args[0].as_str())),
    };
    let mut st = PluginsState { passthrough: false, registry: None, repo_root: None, rest: Vec::new() };
    proof {
        assert(views(st.rest@) =~= Seq::<Seq<char>>::empty());
    }
    let mut i: usize = 1;
    while i < args.len()
        invariant
            1 <= i <= args@.len() + 1,
            args@.len() > 0,
            plugins_action_spec(args@[0]@) == Some(action),
            plugins_cli_spec(args@) == match plugins_args_spec(args@, i as int, pview(st), st.passthrough) {
                Err(e) => Err(e),
                Ok(s) => Ok((action, s)),
            },
        decreases args@.len() + 1 - i,
    {
        match plugins_step(args, i, &mut st) {
            Ok(j) => i = j,
            Err(e) => return Err(e),
        }
    }
    let chosen = if st.registry.is_some() {
        st.registry
    } else {
        env_registry
    };
    let registry_source = match chosen {
        Some(s) => {
            let t = trim_str(s.as_str());
            if t.unicode_len() > 0 {
                s
            } else {
                String::from_str(default_plugin_registry_source())
            }
        },
        None => String::from_str(default_plugin_registry_source()),
    };
    let repo_root = default_repo_root(st.repo_root, env_repo_root);
    Ok(PluginsCli { action, registry_source, repo_root, installer_args: st.rest })
}

} // verus!
