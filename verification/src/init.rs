//! Repository initialisation: the network capability, plan path rules, pack
//! recommendations and the shape of the init output.

pub mod recommendations;

use crate::api::{ApiError, InitOutput, InitPlan, InitRequest, InitWriteFile};
use crate::text::{
    chars_of, concat, debug_quoted, debug_str, seq_starts_with, str_eq, str_starts_with, trim_spec, trim_str,
};
use vstd::prelude::*;
use vstd::string::*;

verus! {

/// Capability token that authorizes network I/O; only this module makes one.
#[derive(Debug, Clone, Copy)]
pub struct NetAllowed {
    token: (),
}

/// Acquires the network capability: only `init` may download external packs.
pub fn allow_network_for_init() -> (t: NetAllowed) {
    NetAllowed { token: () }
}

/// The paths that init may write under.
pub open spec fn allowed_prefix(rel: Seq<char>) -> bool {
    seq_starts_with(rel, ".agents/mcp/compas/"@) || seq_starts_with(rel, "tools/custom/"@)
}

/// The documentation scaffold that the `ai_first` profile writes at the
/// repository root.
pub open spec fn scaffold_file(rel: Seq<char>) -> bool {
    rel == "AGENTS.md"@ || rel == "ARCHITECTURE.md"@ || rel == "docs/index.md"@ || rel == "docs/exec-plans/README.md"@
        || rel == "docs/QUALITY_SCORE.md"@
}

/// Init may write `rel`.
pub open spec fn allowed_scope(rel: Seq<char>) -> bool {
    allowed_prefix(rel) || scaffold_file(rel)
}

/// `s` holds `..` as a whole path segment.
pub open spec fn has_parent_segment(s: Seq<char>) -> bool {
    exists|i: int|
        0 <= i && i + 2 <= s.len() && #[trigger] s[i] == '.' && s[i + 1] == '.' && (i == 0 || s[i - 1] == '/') && (i + 2
            == s.len() || s[i + 2] == '/')
}

/// What a plan path normalises to: its trimmed form, or the error code and message.
pub open spec fn normalize_rel_path_spec(p: Seq<char>) -> Result<Seq<char>, (Seq<char>, Seq<char>)> {
    let t = trim_spec(p);
    if t.len() == 0 {
        Err(("init.plan_path_empty"@, "plan path must be non-empty"@))
    } else if t.contains('\\') {
        Err(("init.plan_path_invalid"@, "backslashes are not allowed in plan paths: "@ + debug_str(t)))
    } else if t[0] == '/' {
        Err(("init.plan_path_invalid"@, "absolute paths are forbidden in plan: "@ + debug_str(t)))
    } else if has_parent_segment(t) {
        Err(("init.plan_path_invalid"@, "unsafe path in plan (.. or root): "@ + debug_str(t)))
    } else {
        Ok(t)
    }
}

pub open spec fn api_error_is(e: ApiError, code: Seq<char>, message: Seq<char>) -> bool {
    e.code@ == code && e.message@ == message
}

fn api_err(code: &str, message: String) -> (e: ApiError)
    ensures
        e.code@ == code@,
        e.message@ == message@,
{
    ApiError { code: String::from_str(code), message }
}

fn has_backslash(cs: &Vec<char>) -> (b: bool)
    ensures
        b == cs@.contains('\\'),
{
    let mut i: usize = 0;
    while i < cs.len()
        invariant
            i <= cs@.len(),
            forall|k: int| 0 <= k < i ==> cs@[k] != '\\',
        decreases cs@.len() - i,
    {
        if cs[i] == '\\' {
            return true;
        }
        i = i + 1;
    }
    false
}

pub fn parent_segment(cs: &Vec<char>) -> (b: bool)
    ensures
        b == has_parent_segment(cs@),
{
    let n = cs.len();
    let mut i: usize = 0;
    while i < n
        invariant
            n == cs@.len(),
            i <= n,
            forall|k: int|
                0 <= k < i ==> !(k + 2 <= cs@.len() && #[trigger] cs@[k] == '.' && cs@[k + 1] == '.' && (k == 0
                    || cs@[k - 1] == '/') && (k + 2 == cs@.len() || cs@[k + 2] == '/')),
        decreases n - i,
    {
        if n - i >= 2 && cs[i] == '.' && cs[i + 1] == '.' && (i == 0 || cs[i - 1] == '/') && (n - i == 2 || cs[i
            + 2] == '/') {
            return true;
        }
        i = i + 1;
    }
    false
}

/// Normalises a plan path: trimmed, non-empty, relative, with `/` separators
/// and no `..` segment.
pub fn normalize_rel_path(p: &str) -> (r: Result<String, ApiError>)
    ensures
        match normalize_rel_path_spec(p@) {
            Ok(t) => r is Ok && r->Ok_0@ == t,
            Err((code, message)) => r is Err && api_error_is(r->Err_0, code, message),
        },
{
    let trimmed = trim_str(p);
    let cs = chars_of(trimmed.as_str());
    if cs.len() == 0 {
        return Err(api_err("init.plan_path_empty", String::from_str("plan path must be non-empty")));
    }
    if has_backslash(&cs) {
        let q = debug_quoted(trimmed.as_str());
        return Err(
            api_err("init.plan_path_invalid", concat("backslashes are not allowed in plan paths: ", q.as_str())),
        );
    }
    if cs[0] == '/' {
        let q = debug_quoted(trimmed.as_str());
        return Err(api_err("init.plan_path_invalid", concat("absolute paths are forbidden in plan: ", q.as_str())));
    }
    if parent_segment(&cs) {
        let q = debug_quoted(trimmed.as_str());
        return Err(api_err("init.plan_path_invalid", concat("unsafe path in plan (.. or root): ", q.as_str())));
    }
    Ok(trimmed)
}

pub open spec fn scope_error_message(rel: Seq<char>) -> Seq<char> {
    "path is outside init allowlist; allowed_prefixes=[\".agents/mcp/compas/\", \"tools/custom/\"]; got="@
        + debug_str(rel)
}

/// Init writes only under `.agents/mcp/compas/` and `tools/custom/`, and
/// the documentation scaffold files.
pub fn ensure_allowed_scope(rel: &str) -> (r: Result<(), ApiError>)
    ensures
        allowed_scope(rel@) ==> r is Ok,
        !allowed_scope(rel@) ==> r is Err && api_error_is(
            r->Err_0,
            "init.plan_path_forbidden"@,
            scope_error_message(rel@),
        ),
{
    if str_starts_with(rel, ".agents/mcp/compas/") || str_starts_with(rel, "tools/custom/") || str_eq(rel, "AGENTS.md")
        || str_eq(rel, "ARCHITECTURE.md") || str_eq(rel, "docs/index.md") || str_eq(rel, "docs/exec-plans/README.md")
        || str_eq(rel, "docs/QUALITY_SCORE.md") {
        Ok(())
    } else {
        let q = debug_quoted(rel);
        Err(
            api_err(
                "init.plan_path_forbidden",
                concat(
                    "path is outside init allowlist; allowed_prefixes=[\".agents/mcp/compas/\", \"tools/custom/\"]; got=",
                    q.as_str(),
                ),
            ),
        )
    }
}

/// The text that stands for file contents in the output of an applied init.
pub open spec fn omitted_content() -> Seq<char> {
    "[omitted by compas.init apply; run compas.init/apply=false to preview]"@
}

/// The plan as an applied init reports it: the same paths, the contents left out.
pub open spec fn plan_without_contents(out: InitPlan, plan: InitPlan) -> bool {
    &&& out.writes@.len() == plan.writes@.len()
    &&& forall|i: int|
        0 <= i < plan.writes@.len() ==> (#[trigger] out.writes@[i]).path == plan.writes@[i].path
            && out.writes@[i].content_utf8@ == omitted_content()
    &&& out.deletes == plan.deletes
}

fn strip_contents(plan: InitPlan) -> (out: InitPlan)
    ensures
        plan_without_contents(out, plan),
{
    let InitPlan { writes, deletes } = plan;
    let ghost w = writes@;
    let mut out: Vec<InitWriteFile> = Vec::new();
    let mut rest = writes;
    let n = rest.len();
    // Reverse the writes once into `taken`, then move each path out in order.
    let mut taken: Vec<InitWriteFile> = Vec::new();
    while rest.len() > 0
        invariant
            rest@.len() + taken@.len() == w.len(),
            n == w.len(),
            forall|j: int| 0 <= j < rest@.len() ==> #[trigger] rest@[j] == w[j],
            forall|j: int| 0 <= j < taken@.len() ==> #[trigger] taken@[j] == w[w.len() - 1 - j],
        decreases rest@.len(),
    {
        let last = rest.pop().unwrap();
        taken.push(last);
    }
    while taken.len() > 0
        invariant
            taken@.len() + out@.len() == w.len(),
            forall|j: int| 0 <= j < taken@.len() ==> #[trigger] taken@[j] == w[w.len() - 1 - j],
            forall|j: int|
                0 <= j < out@.len() ==> (#[trigger] out@[j]).path == w[j].path && out@[j].content_utf8@
                    == omitted_content(),
        decreases taken@.len(),
    {
        let item = taken.pop().unwrap();
        out.push(
            InitWriteFile {
                path: item.path,
                content_utf8: String::from_str(
                    "[omitted by compas.init apply; run compas.init/apply=false to preview]",
                ),
            },
        );
    }
    InitPlan { writes: out, deletes }
}

/// The init output for `repo_root`, given the outcome of planning and, where
/// the request asked to apply a plan, of applying it (`None` when it succeeded
/// or was not asked for).
pub fn compas_init(
    repo_root: &str,
    req: InitRequest,
    planned: Result<InitPlan, ApiError>,
    apply_error: Option<ApiError>,
) -> (out: InitOutput)
    ensures
        out.repo_root@ == repo_root@,
        out.summary_md is None,
        out.payload_meta is None,
        planned is Err ==> !out.ok && out.error == Some(planned->Err_0) && !out.applied && out.plan is None,
        planned is Ok && req.apply == Some(true) && apply_error is Some ==> !out.ok && out.error == apply_error
            && !out.applied && out.plan == Some(planned->Ok_0),
        planned is Ok && req.apply == Some(true) && apply_error is None ==> out.ok && out.error is None && out.applied
            && out.plan is Some && plan_without_contents(out.plan.unwrap(), planned->Ok_0),
        planned is Ok && req.apply != Some(true) ==> out.ok && out.error is None && !out.applied && out.plan == Some(
            planned->Ok_0,
        ),
{
    let plan = match planned {
        Ok(p) => p,
        Err(e) => {
            return InitOutput {
                ok: false,
                error: Some(e),
                repo_root: String::from_str(repo_root),
                applied: false,
                plan: None,
                summary_md: None,
                payload_meta: None,
            };
        },
    };
    let apply = match req.apply {
        Some(a) => a,
        None => false,
    };
    if apply {
        match apply_error {
            Some(e) => {
                return InitOutput {
                    ok: false,
                    error: Some(e),
                    repo_root: String::from_str(repo_root),
                    applied: false,
                    plan: Some(plan),
                    summary_md: None,
                    payload_meta: None,
                };
            },
            None => {},
        }
    }
    let plan_for_output = if apply {
        strip_contents(plan)
    } else {
        plan
    };
    InitOutput {
        ok: true,
        error: None,
        repo_root: String::from_str(repo_root),
        applied: apply,
        plan: Some(plan_for_output),
        summary_md: None,
        payload_meta: None,
    }
}

} // verus!
