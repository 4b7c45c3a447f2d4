//! Plugin management over a signed registry manifest: installer flags, admin
//! lane, governance, id resolution and the plugins lockfile bookkeeping.

use crate::cli::PluginsAction;
use crate::csv::{copy_strings, csv_spec, parse_csv, push_trimmed_item, trimmed_nonempty, views};
use crate::order::{insert_sorted_unique, lemma_strictly_sorted_pairs, lemma_lex_total, lemma_lex_trans, lex_lt, str_lex, strictly_sorted};
use crate::registry_manifest::{lemma_plugin_index_from, plugin_by_id, plugin_index, RegistryManifestV1, RegistryPackV1, RegistryPluginV1};
use crate::text::{
    chars_of, concat, eq_ignore_ascii_case_spec, seq_starts_with, str_eq, str_eq_ignore_ascii_case,
    str_starts_with, trim_spec, trim_str,
};
use vstd::prelude::*;
use vstd::string::*;

verus! {

/// `values` with every repeat after the first occurrence left out.
pub open spec fn dedup_spec(values: Seq<Seq<char>>) -> Seq<Seq<char>>
    decreases values.len(),
{
    if values.len() == 0 {
        Seq::empty()
    } else {
        let rest = dedup_spec(values.drop_last());
        if rest.contains(values.last()) {
            rest
        } else {
            rest.push(values.last())
        }
    }
}

/// Repeats removed: the first occurrence of each value stays, in order.
pub fn dedupe_strings(values: Vec<String>) -> (out: Vec<String>)
    ensures
        views(out@) == dedup_spec(views(values@)),
{
    let mut out: Vec<String> = Vec::new();
    let mut i: usize = 0;
    proof {
        assert(views(values@).take(0) =~= Seq::<Seq<char>>::empty());
        assert(views(out@) =~= Seq::<Seq<char>>::empty());
    }
    while i < values.len()
        invariant
            i <= values@.len(),
            views(out@) == dedup_spec(views(values@).take(i as int)),
        decreases values@.len() - i,
    {
        proof {
            assert(views(values@).take(i + 1).drop_last() =~= views(values@).take(i as int));
        }
        if !contains_string(&out, values[i].as_str()) {
            out.push(values[i].clone());
            proof {
                assert(views(out@) =~= dedup_spec(views(values@).take(i as int)).push(values@[i as int]@));
            }
        }
        i = i + 1;
    }
    proof {
        assert(views(values@).take(values@.len() as int) =~= views(values@));
    }
    out
}

/// `x` is among the strings of `v`.
pub fn contains_string(v: &Vec<String>, x: &str) -> (b: bool)
    ensures
        b == views(v@).contains(x@),
{
    let mut i: usize = 0;
    while i < v.len()
        invariant
            i <= v@.len(),
            forall|k: int| 0 <= k < i ==> views(v@)[k] != x@,
        decreases v@.len() - i,
    {
        if str_eq(v[i].as_str(), x) {
            assert(views(v@)[i as int] == x@);
            return true;
        }
        i = i + 1;
    }
    false
}

/// Deduplication keeps each value once and loses none.
pub proof fn law_dedup_keeps_each_value_once(values: Seq<Seq<char>>)
    ensures
        dedup_spec(values).no_duplicates(),
        dedup_spec(values).to_set() == values.to_set(),
        dedup_spec(dedup_spec(values)) == dedup_spec(values),
    decreases values.len(),
{
    if values.len() > 0 {
        let init = values.drop_last();
        law_dedup_keeps_each_value_once(init);
        let rest = dedup_spec(init);
        assert(values =~= init.push(values.last()));
        init.lemma_push_to_set_commute(values.last());
        if !rest.contains(values.last()) {
            rest.lemma_push_to_set_commute(values.last());
            assert(rest.push(values.last()).no_duplicates()) by {
                assert forall|i: int, j: int|
                    0 <= i < rest.len() + 1 && 0 <= j < rest.len() + 1 && i != j implies rest.push(
                        values.last(),
                    )[i] != rest.push(values.last())[j] by {
                    if i == rest.len() {
                        assert(rest[j] != values.last());
                    } else if j == rest.len() {
                        assert(rest[i] != values.last());
                    }
                }
            }
        } else {
            assert(rest.to_set().contains(values.last()));
            assert(rest.to_set().insert(values.last()) =~= rest.to_set());
        }
        lemma_dedup_of_unique(dedup_spec(values));
    } else {
        assert(dedup_spec(values) =~= Seq::<Seq<char>>::empty());
    }
}

/// A list without repeats is its own deduplication.
pub proof fn lemma_dedup_of_unique(values: Seq<Seq<char>>)
    requires
        values.no_duplicates(),
    ensures
        dedup_spec(values) == values,
    decreases values.len(),
{
    if values.len() > 0 {
        let init = values.drop_last();
        assert(init.no_duplicates()) by {
            assert forall|i: int, j: int| 0 <= i < init.len() && 0 <= j < init.len() && i != j implies init[i]
                != init[j] by {
                assert(init[i] == values[i] && init[j] == values[j]);
            }
        }
        lemma_dedup_of_unique(init);
        if init.contains(values.last()) {
            let k = choose|k: int| 0 <= k < init.len() && init[k] == values.last();
            assert(values[k] == values[values.len() - 1]);
        }
        assert(init.push(values.last()) =~= values);
    }
}

/// The installer arguments name `flag`.
pub fn parse_bool_flag(args: &[String], flag: &str) -> (b: bool)
    ensures
        b == views(args@).contains(flag@),
{
    let mut i: usize = 0;
    while i < args.len()
        invariant
            i <= args@.len(),
            forall|k: int| 0 <= k < i ==> views(args@)[k] != flag@,
        decreases args@.len() - i,
    {
        if str_eq(args[i].as_str(), flag) {
            assert(views(args@)[i as int] == flag@);
            return true;
        }
        i = i + 1;
    }
    false
}

pub open spec fn requires_value_message(flag: Seq<char>) -> Seq<char> {
    flag + " requires a value"@
}

/// The value after the first occurrence of `flag`, from position `i` on.
pub open spec fn string_flag_spec(args: Seq<String>, flag: Seq<char>, i: int) -> Result<Option<Seq<char>>, Seq<char>>
    decreases args.len() - i,
{
    if i < 0 || i >= args.len() {
        Ok(None)
    } else if args[i]@ == flag {
        if i + 1 < args.len() && !seq_starts_with(args[i + 1]@, "--"@) {
            Ok(Some(args[i + 1]@))
        } else {
            Err(requires_value_message(flag))
        }
    } else {
        string_flag_spec(args, flag, i + 1)
    }
}

/// The value of the first `flag`; an error where it has none.
pub fn parse_string_flag(args: &[String], flag: &str) -> (r: Result<Option<String>, String>)
    ensures
        match string_flag_spec(args@, flag@, 0) {
            Ok(None) => r == Ok::<Option<String>, String>(None),
            Ok(Some(v)) => r is Ok && r->Ok_0 is Some && r->Ok_0.unwrap()@ == v,
            Err(e) => r is Err && r->Err_0@ == e,
        },
{
    let mut i: usize = 0;
    while i < args.len()
        invariant
            i <= args@.len(),
            string_flag_spec(args@, flag@, 0) == string_flag_spec(args@, flag@, i as int),
        decreases args@.len() - i,
    {
        if str_eq(args[i].as_str(), flag) {
            if args.len() - i > 1 && !str_starts_with(args[i + 1].as_str(), "--") {
                return Ok(Some(args[i + 1].clone()));
            }
            return Err(concat(flag, " requires a value"));
        }
        i = i + 1;
    }
    Ok(None)
}

/// The items of every `flag` value from position `i` on, in order, and whether
/// the flag occurs there at all.
pub open spec fn csv_flag_spec(args: Seq<String>, flag: Seq<char>, i: int) -> Result<(bool, Seq<Seq<char>>), Seq<char>>
    decreases args.len() - i,
{
    if i < 0 || i >= args.len() {
        Ok((false, Seq::empty()))
    } else if args[i]@ == flag {
        if i + 1 < args.len() && !seq_starts_with(args[i + 1]@, "--"@) {
            match csv_flag_spec(args, flag, i + 2) {
                Ok((_, rest)) => Ok((true, csv_spec(args[i + 1]@) + rest)),
                Err(e) => Err(e),
            }
        } else {
            Err(requires_value_message(flag))
        }
    } else {
        csv_flag_spec(args, flag, i + 1)
    }
}

/// The comma-separated items of every `flag` value, each once (`None` when the
/// flag does not occur); an error where a `flag` has no value.
pub fn parse_csv_flag(args: &[String], flag: &str) -> (r: Result<Option<Vec<String>>, String>)
    ensures
        match csv_flag_spec(args@, flag@, 0) {
            Ok((false, _)) => r == Ok::<Option<Vec<String>>, String>(None),
            Ok((true, items)) => r is Ok && r->Ok_0 is Some && views(r->Ok_0.unwrap()@) == dedup_spec(items),
            Err(e) => r is Err && r->Err_0@ == e,
        },
{
    let mut seen = false;
    let mut out: Vec<String> = Vec::new();
    let mut i: usize = 0;
    while i < args.len()
        invariant
            i <= args@.len() + 1,
            csv_flag_spec(args@, flag@, 0) == match csv_flag_spec(args@, flag@, i as int) {
                Ok((s, rest)) => Ok((seen || s, views(out@) + rest)),
                Err(e) => Err(e),
            },
        decreases args@.len() + 1 - i,
    {
        if str_eq(args[i].as_str(), flag) {
            if args.len() - i > 1 && !str_starts_with(args[i + 1].as_str(), "--") {
                let mut items = parse_csv(args[i + 1].as_str());
                let ghost before = views(out@);
                out.append(&mut items);
                proof {
                    assert(views(out@) =~= before + csv_spec(args@[i + 1]@));
                    match csv_flag_spec(args@, flag@, i + 2) {
                        Ok((s, rest)) => {
                            assert(before + (csv_spec(args@[i + 1]@) + rest) =~= views(out@) + rest);
                        },
                        Err(e) => {},
                    }
                }
                seen = true;
                i = i + 2;
                continue;
            }
            return Err(concat(flag, " requires a value"));
        }
        i = i + 1;
    }
    proof {
        assert(views(out@) + Seq::<Seq<char>>::empty() =~= views(out@));
    }
    if seen {
        Ok(Some(dedupe_strings(out)))
    } else {
        Ok(None)
    }
}

/// install, update and uninstall change the repository.
pub open spec fn admin_action(action: PluginsAction) -> bool {
    action == PluginsAction::Install || action == PluginsAction::Update || action == PluginsAction::Uninstall
}

pub fn action_requires_admin_lane(action: PluginsAction) -> (b: bool)
    ensures
        b == admin_action(action),
{
    match action {
        PluginsAction::Install | PluginsAction::Update | PluginsAction::Uninstall => true,
        _ => false,
    }
}

pub open spec fn action_name(action: PluginsAction) -> Seq<char> {
    match action {
        PluginsAction::Install => "install"@,
        PluginsAction::Update => "update"@,
        PluginsAction::Uninstall => "uninstall"@,
        PluginsAction::List => "list"@,
        PluginsAction::Packs => "packs"@,
        PluginsAction::Info => "info"@,
        PluginsAction::Doctor => "doctor"@,
    }
}

fn action_name_str(action: PluginsAction) -> (s: &'static str)
    ensures
        s@ == action_name(action),
{
    match action {
        PluginsAction::Install => "install",
        PluginsAction::Update => "update",
        PluginsAction::Uninstall => "uninstall",
        PluginsAction::List => "list",
        PluginsAction::Packs => "packs",
        PluginsAction::Info => "info",
        PluginsAction::Doctor => "doctor",
    }
}

/// Actions that change the repository need `--admin-lane` among the installer arguments.
pub fn ensure_admin_lane(action: PluginsAction, args: &[String]) -> (r: Result<(), String>)
    ensures
        r is Err <==> admin_action(action) && !views(args@).contains("--admin-lane"@),
        r is Err ==> r->Err_0@ == "plugins "@ + action_name(action) + " requires explicit --admin-lane (fail-closed)"@,
{
    if action_requires_admin_lane(action) && !parse_bool_flag(args, "--admin-lane") {
        let head = concat("plugins ", action_name_str(action));
        return Err(concat(head.as_str(), " requires explicit --admin-lane (fail-closed)"));
    }
    Ok(())
}

/// The strings joined with `sep` between them.
pub open spec fn join_spec(items: Seq<Seq<char>>, sep: Seq<char>) -> Seq<char>
    decreases items.len(),
{
    if items.len() == 0 {
        Seq::empty()
    } else if items.len() == 1 {
        items[0]
    } else {
        join_spec(items.drop_last(), sep) + sep + items.last()
    }
}

/// `items` joined with `sep` between them.
pub fn join_strings(items: &[String], sep: &str) -> (out: String)
    ensures
        out@ == join_spec(views(items@), sep@),
{
    let mut out = String::new();
    let mut i: usize = 0;
    while i < items.len()
        invariant
            i <= items@.len(),
            out@ == join_spec(views(items@).take(i as int), sep@),
        decreases items@.len() - i,
    {
        proof {
            assert(views(items@).take(i + 1).drop_last() =~= views(items@).take(i as int));
        }
        if i > 0 {
            out.append(sep);
        }
        out.append(items[i].as_str());
        proof {
            if i == 0 {
                assert(out@ =~= views(items@).take(1)[0]);
            }
        }
        i = i + 1;
    }
    proof {
        assert(views(items@).take(items@.len() as int) =~= views(items@));
    }
    out
}

/// Adds `flag` with the values joined by commas, unless there are no values or
/// the arguments name the flag already.
pub fn with_csv_flag(args: &mut Vec<String>, flag: &str, values: &[String])
    ensures
        values@.len() == 0 || views(old(args)@).contains(flag@) ==> final(args)@ == old(args)@,
        !(values@.len() == 0 || views(old(args)@).contains(flag@)) ==> views(final(args)@) == views(old(args)@).push(
            flag@,
        ).push(join_spec(views(values@), ","@)),
{
    if values.len() == 0 || parse_bool_flag(args.as_slice(), flag) {
        return;
    }
    let joined = join_strings(values, ",");
    args.push(String::from_str(flag));
    args.push(joined);
    proof {
        assert(views(args@) =~= views(old(args)@).push(flag@).push(joined@));
    }
}

/// Each input trimmed; empty ones dropped.
pub fn normalize_plugin_inputs(inputs: Vec<String>) -> (out: Vec<String>)
    ensures
        views(out@) == trimmed_nonempty(views(inputs@)),
{
    let mut out: Vec<String> = Vec::new();
    let mut i: usize = 0;
    proof {
        assert(views(inputs@).take(0) =~= Seq::<Seq<char>>::empty());
        assert(views(out@) =~= Seq::<Seq<char>>::empty());
    }
    while i < inputs.len()
        invariant
            i <= inputs@.len(),
            views(out@) == trimmed_nonempty(views(inputs@).take(i as int)),
        decreases inputs@.len() - i,
    {
        proof {
            assert(views(inputs@).take(i + 1).drop_last() =~= views(inputs@).take(i as int));
        }
        push_trimmed_item(&mut out, inputs[i].as_str());
        i = i + 1;
    }
    proof {
        assert(views(inputs@).take(inputs@.len() as int) =~= views(inputs@));
    }
    out
}

/// A lockfile or registry path that is safe to join under a root: not empty,
/// not absolute, and without `..` segments.
pub open spec fn safe_relative_spec(raw: Seq<char>) -> Result<Seq<char>, Seq<char>> {
    if raw.len() == 0 {
        Err("empty relative path in registry payload"@)
    } else if raw[0] == '/' {
        Err("absolute paths are forbidden in registry payload: "@ + raw)
    } else if crate::init::has_parent_segment(raw) {
        Err("unsafe path component in registry payload: "@ + raw)
    } else {
        Ok(raw)
    }
}

/// Checks a relative path taken from a registry payload or the lockfile.
pub fn safe_relative_path(raw: &str) -> (r: Result<String, String>)
    ensures
        match safe_relative_spec(raw@) {
            Ok(p) => r is Ok && r->Ok_0@ == p,
            Err(e) => r is Err && r->Err_0@ == e,
        },
{
    let cs = chars_of(raw);
    if cs.len() == 0 {
        return Err(String::from_str("empty relative path in registry payload"));
    }
    if cs[0] == '/' {
        return Err(concat("absolute paths are forbidden in registry payload: ", raw));
    }
    if crate::init::parent_segment(&cs) {
        return Err(concat("unsafe path component in registry payload: ", raw));
    }
    Ok(String::from_str(raw))
}

/// The tier, trimmed, equals `name` in lower case.
pub open spec fn tier_is(tier: Option<String>, name: Seq<char>) -> bool {
    let t = match tier {
        Some(s) => trim_spec(s@),
        None => Seq::empty(),
    };
    eq_ignore_ascii_case_spec(t, name)
}

/// Why the plugin may not be installed without an explicit allowance: its
/// tier (in lower case) and the message; `None` when nothing blocks it.
pub open spec fn governance_spec(plugin: RegistryPluginV1, allow_experimental: bool, allow_sunset: bool) -> Option<
    (Seq<char>, Seq<char>),
> {
    if tier_is(plugin.tier, "experimental"@) && !allow_experimental {
        Some(("experimental"@, "install is blocked: tier=experimental (add --allow-experimental to proceed)"@))
    } else if tier_is(plugin.tier, "sunset"@) && !allow_sunset {
        Some(("sunset"@, "install is blocked: tier=sunset (add --allow-sunset to proceed)"@))
    } else if tier_is(plugin.tier, "deprecated"@) && !allow_sunset {
        Some(("deprecated"@, "install is blocked: tier=sunset (add --allow-sunset to proceed)"@))
    } else if plugin.extra.sunset_marker && !allow_sunset {
        Some(
            (
                "sunset"@,
                "install is blocked: sunset marker metadata present (add --allow-sunset to proceed)"@,
            ),
        )
    } else {
        None
    }
}

fn tier_matches(tier: &Option<String>, name: &str) -> (b: bool)
    ensures
        b == tier_is(*tier, name@),
{
    let t = match tier {
        Some(s) => trim_str(s.as_str()),
        None => String::new(),
    };
    str_eq_ignore_ascii_case(t.as_str(), name)
}

/// The governance decision for installing `plugin`.
pub fn governance_block_reason(plugin: &RegistryPluginV1, allow_experimental: bool, allow_sunset: bool) -> (r:
    Option<(String, String)>)
    ensures
        match governance_spec(*plugin, allow_experimental, allow_sunset) {
            None => r is None,
            Some((tier, reason)) => r is Some && r.unwrap().0@ == tier && r.unwrap().1@ == reason,
        },
{
    if tier_matches(&plugin.tier, "experimental") && !allow_experimental {
        return Some(
            (
                String::from_str("experimental"),
                String::from_str("install is blocked: tier=experimental (add --allow-experimental to proceed)"),
            ),
        );
    }
    if tier_matches(&plugin.tier, "sunset") && !allow_sunset {
        return Some(
            (
                String::from_str("sunset"),
                String::from_str("install is blocked: tier=sunset (add --allow-sunset to proceed)"),
            ),
        );
    }
    if tier_matches(&plugin.tier, "deprecated") && !allow_sunset {
        return Some(
            (
                String::from_str("deprecated"),
                String::from_str("install is blocked: tier=sunset (add --allow-sunset to proceed)"),
            ),
        );
    }
    if plugin.extra.sunset_marker && !allow_sunset {
        return Some(
            (
                String::from_str("sunset"),
                String::from_str(
                    "install is blocked: sunset marker metadata present (add --allow-sunset to proceed)",
                ),
            ),
        );
    }
    None
}

/// The base of a URL: everything before its last `/`.
pub open spec fn base_url_spec(url: Seq<char>) -> Option<Seq<char>> {
    if exists|i: int| 0 <= i < url.len() && url[i] == '/' {
        let k = choose|k: int|
            0 <= k < url.len() && url[k] == '/' && forall|j: int| k < j < url.len() ==> url[j] != '/';
        Some(url.subrange(0, k))
    } else {
        None
    }
}

/// Everything before the last `/` of `url`; `None` without one.
pub fn extract_base_url(url: &str) -> (r: Option<String>)
    ensures
        match base_url_spec(url@) {
            None => r is None,
            Some(b) => r is Some && r.unwrap()@ == b,
        },
{
    let cs = chars_of(url);
    let mut i: usize = cs.len();
    while i > 0
        invariant
            i <= cs@.len(),
            cs@ == url@,
            forall|j: int| i <= j < cs@.len() ==> cs@[j] != '/',
        decreases i,
    {
        if cs[i - 1] == '/' {
            let k = i - 1;
            proof {
                let c = choose|c: int|
                    0 <= c < url@.len() && url@[c] == '/' && forall|j: int| c < j < url@.len() ==> url@[j] != '/';
                assert(c == k as int) by {
                    if c < k {
                        assert(url@[k as int] == '/');
                    } else if c > k {
                        assert(url@[c] == '/');
                    }
                }
            }
            let base = crate::text::slice_vec(cs.as_slice(), 0, k);
            return Some(crate::text::string_of(base.as_slice()));
        }
        i = i - 1;
    }
    None
}

/// Where the detached signature of a manifest is found: the source with `.sig` appended.
pub fn signature_source_for_manifest_source(source: &str) -> (s: String)
    ensures
        s@ == source@ + ".sig"@,
{
    concat(source, ".sig")
}

/// Some plugin of the manifest has id `id`.
pub open spec fn is_plugin_id(plugins: Seq<RegistryPluginV1>, id: Seq<char>) -> bool {
    exists|k: int| 0 <= k < plugins.len() && (#[trigger] plugins[k]).id@ == id
}

/// The plugin with id `id` lists the alias `a`.
pub open spec fn alias_of(plugins: Seq<RegistryPluginV1>, a: Seq<char>, id: Seq<char>) -> bool {
    exists|k: int|
        0 <= k < plugins.len() && (#[trigger] plugins[k]).id@ == id && views(plugins[k].aliases@).contains(a)
}

/// Of the plugins that list alias `a`, `id` comes last in string order: the
/// one that the alias names.
pub open spec fn alias_target(plugins: Seq<RegistryPluginV1>, a: Seq<char>, id: Seq<char>) -> bool {
    alias_of(plugins, a, id) && forall|other: Seq<char>| #[trigger] alias_of(plugins, a, other) ==> !lex_lt(id, other)
}

/// The plugin id that an input names: itself where it is an id, else the
/// plugin that its alias names; `None` for an unknown input.
pub open spec fn resolve_spec(plugins: Seq<RegistryPluginV1>, raw: Seq<char>) -> Option<Seq<char>> {
    if is_plugin_id(plugins, raw) {
        Some(raw)
    } else if exists|id: Seq<char>| alias_target(plugins, raw, id) {
        Some(choose|id: Seq<char>| alias_target(plugins, raw, id))
    } else {
        None
    }
}

proof fn lemma_alias_target_unique(plugins: Seq<RegistryPluginV1>, a: Seq<char>, x: Seq<char>, y: Seq<char>)
    requires
        alias_target(plugins, a, x),
        alias_target(plugins, a, y),
    ensures
        x == y,
{
    assert(alias_of(plugins, a, y));
    assert(alias_of(plugins, a, x));
    lemma_lex_total(x, y);
}

/// The plugin id that `raw` names in the manifest.
pub fn resolve_plugin_input(manifest: &RegistryManifestV1, raw: &str) -> (r: Option<String>)
    ensures
        match resolve_spec(manifest.plugins@, raw@) {
            None => r is None,
            Some(id) => r is Some && r.unwrap()@ == id,
        },
{
    let ghost plugins = manifest.plugins@;
    match plugin_by_id(manifest, raw) {
        Some(_) => {
            proof {
                lemma_plugin_index_from(plugins, raw@, 0);
                let k = plugin_index(plugins, raw@).unwrap();
                assert(plugins[k].id@ == raw@);
            }
            return Some(String::from_str(raw));
        },
        None => {
            proof {
                lemma_plugin_index_from(plugins, raw@, 0);
            }
        },
    }
    let mut best: Option<String> = None;
    let mut k: usize = 0;
    while k < manifest.plugins.len()
        invariant
            plugins == manifest.plugins@,
            k <= plugins.len(),
            best is None ==> forall|j: int|
                0 <= j < k ==> !views((#[trigger] plugins[j]).aliases@).contains(raw@),
            best is Some ==> alias_of(plugins, raw@, best.unwrap()@),
            best is Some ==> forall|j: int|
                0 <= j < k && views((#[trigger] plugins[j]).aliases@).contains(raw@) ==> !lex_lt(
                    best.unwrap()@,
                    plugins[j].id@,
                ),
        decreases plugins.len() - k,
    {
        let p = &manifest.plugins[k];
        if contains_string(&p.aliases, raw) {
            let replace = match &best {
                None => true,
                Some(b) => str_lex(b.as_str(), p.id.as_str()) == -1,
            };
            proof {
                assert(alias_of(plugins, raw@, p.id@)) by {
                    assert(plugins[k as int] == *p);
                }
                lemma_lex_total(p.id@, p.id@);
                if best is Some {
                    let b = best.unwrap();
                    lemma_lex_total(b@, p.id@);
                    if replace {
                        assert forall|j: int|
                            0 <= j < k && views((#[trigger] plugins[j]).aliases@).contains(raw@) implies !lex_lt(
                            p.id@,
                            plugins[j].id@,
                        ) by {
                            if lex_lt(p.id@, plugins[j].id@) {
                                lemma_lex_trans(b@, p.id@, plugins[j].id@);
                            }
                        }
                    }
                }
            }
            if replace {
                best = Some(p.id.clone());
            }
        }
        k = k + 1;
    }
    match best {
        None => {
            proof {
                assert forall|id: Seq<char>| !alias_target(plugins, raw@, id) by {
                    if alias_of(plugins, raw@, id) {
                        let j = choose|j: int|
                            0 <= j < plugins.len() && (#[trigger] plugins[j]).id@ == id && views(
                                plugins[j].aliases@,
                            ).contains(raw@);
                    }
                }
            }
            None
        },
        Some(b) => {
            proof {
                assert forall|other: Seq<char>| #[trigger] alias_of(plugins, raw@, other) implies !lex_lt(
                    b@,
                    other,
                ) by {
                    let j = choose|j: int|
                        0 <= j < plugins.len() && (#[trigger] plugins[j]).id@ == other && views(
                            plugins[j].aliases@,
                        ).contains(raw@);
                }
                assert(alias_target(plugins, raw@, b@));
                let c = choose|id: Seq<char>| alias_target(plugins, raw@, id);
                lemma_alias_target_unique(plugins, raw@, b@, c);
            }
            Some(b)
        },
    }
}

/// The index of the last of the first `n` packs with id `id`.
pub open spec fn last_pack_index(packs: Seq<RegistryPackV1>, id: Seq<char>, n: int) -> Option<int>
    decreases n,
{
    if n <= 0 || n > packs.len() {
        None
    } else if packs[n - 1].id@ == id {
        Some(n - 1)
    } else {
        last_pack_index(packs, id, n - 1)
    }
}

/// The plugins of the pack with id `id` (the last such pack).
pub open spec fn pack_members(packs: Seq<RegistryPackV1>, id: Seq<char>) -> Option<Seq<Seq<char>>> {
    match last_pack_index(packs, id, packs.len() as int) {
        Some(k) => Some(views(packs[k].plugins@)),
        None => None,
    }
}

/// The plugins of the named packs, in order.
pub open spec fn expand_packs(packs: Seq<RegistryPackV1>, inputs: Seq<Seq<char>>) -> Seq<Seq<char>>
    decreases inputs.len(),
{
    if inputs.len() == 0 {
        Seq::empty()
    } else {
        expand_packs(packs, inputs.drop_last()) + match pack_members(packs, inputs.last()) {
            Some(m) => m,
            None => Seq::empty(),
        }
    }
}

/// The named packs that the manifest lacks, in order.
pub open spec fn unknown_packs(packs: Seq<RegistryPackV1>, inputs: Seq<Seq<char>>) -> Seq<Seq<char>>
    decreases inputs.len(),
{
    if inputs.len() == 0 {
        Seq::empty()
    } else {
        let rest = unknown_packs(packs, inputs.drop_last());
        if pack_members(packs, inputs.last()) is None {
            rest.push(inputs.last())
        } else {
            rest
        }
    }
}

/// The inputs that name no plugin, in order.
pub open spec fn unknown_inputs(plugins: Seq<RegistryPluginV1>, raws: Seq<Seq<char>>) -> Seq<Seq<char>>
    decreases raws.len(),
{
    if raws.len() == 0 {
        Seq::empty()
    } else {
        let rest = unknown_inputs(plugins, raws.drop_last());
        if resolve_spec(plugins, raws.last()) is None {
            rest.push(raws.last())
        } else {
            rest
        }
    }
}

/// The plugin ids that the inputs name, in order.
pub open spec fn resolved_ids(plugins: Seq<RegistryPluginV1>, raws: Seq<Seq<char>>) -> Seq<Seq<char>>
    decreases raws.len(),
{
    if raws.len() == 0 {
        Seq::empty()
    } else {
        let rest = resolved_ids(plugins, raws.drop_last());
        match resolve_spec(plugins, raws.last()) {
            Some(id) => rest.push(id),
            None => rest,
        }
    }
}

/// What resolving plugin and pack inputs gives: an error naming the unknown
/// packs, else one naming the unknown plugins, else the named plugin ids.
pub open spec fn resolve_ids_spec(
    manifest: RegistryManifestV1,
    plugin_inputs: Seq<Seq<char>>,
    pack_inputs: Seq<Seq<char>>,
) -> Result<Set<Seq<char>>, Seq<char>> {
    let ups = unknown_packs(manifest.packs@, pack_inputs);
    let raws = expand_packs(manifest.packs@, pack_inputs) + plugin_inputs;
    let ukp = unknown_inputs(manifest.plugins@, raws);
    if ups.len() > 0 {
        Err("unknown packs: "@ + join_spec(ups, ", "@))
    } else if ukp.len() > 0 {
        Err("unknown plugins: "@ + join_spec(ukp, ", "@))
    } else {
        Ok(resolved_ids(manifest.plugins@, raws).to_set())
    }
}

fn find_pack<'a>(manifest: &'a RegistryManifestV1, id: &str) -> (r: Option<&'a RegistryPackV1>)
    ensures
        match last_pack_index(manifest.packs@, id@, manifest.packs@.len() as int) {
            None => r is None,
            Some(k) => r == Some(&manifest.packs@[k]),
        },
{
    let mut n: usize = manifest.packs.len();
    while n > 0
        invariant
            n <= manifest.packs@.len(),
            last_pack_index(manifest.packs@, id@, manifest.packs@.len() as int) == last_pack_index(
                manifest.packs@,
                id@,
                n as int,
            ),
        decreases n,
    {
        if str_eq(manifest.packs[n - 1].id.as_str(), id) {
            return Some(&manifest.packs[n - 1]);
        }
        n = n - 1;
    }
    None
}

/// The plugin ids that the plugin and pack inputs name, sorted, each once;
/// an error naming the packs, else the plugins, that the manifest lacks.
pub fn resolve_plugin_ids_from_manifest(
    manifest: &RegistryManifestV1,
    plugin_inputs: &[String],
    pack_inputs: &[String],
) -> (r: Result<Vec<String>, String>)
    ensures
        match resolve_ids_spec(*manifest, views(plugin_inputs@), views(pack_inputs@)) {
            Ok(ids) => r is Ok && strictly_sorted(views(r->Ok_0@)) && views(r->Ok_0@).to_set() == ids,
            Err(e) => r is Err && r->Err_0@ == e,
        },
{
    let ghost packs = manifest.packs@;
    let ghost pins = views(pack_inputs@);
    let mut unknown: Vec<String> = Vec::new();
    let mut expanded: Vec<String> = Vec::new();
    let mut i: usize = 0;
    proof {
        assert(pins.take(0) =~= Seq::<Seq<char>>::empty());
        assert(views(unknown@) =~= Seq::<Seq<char>>::empty());
        assert(views(expanded@) =~= Seq::<Seq<char>>::empty());
    }
    while i < pack_inputs.len()
        invariant
            packs == manifest.packs@,
            pins == views(pack_inputs@),
            i <= pins.len(),
            views(unknown@) == unknown_packs(packs, pins.take(i as int)),
            views(expanded@) == expand_packs(packs, pins.take(i as int)),
        decreases pins.len() - i,
    {
        proof {
            assert(pins.take(i + 1).drop_last() =~= pins.take(i as int));
        }
        match find_pack(manifest, pack_inputs[i].as_str()) {
            Some(pack) => {
                let mut items = copy_strings(pack.plugins.as_slice());
                let ghost before = views(expanded@);
                expanded.append(&mut items);
                proof {
                    assert(views(expanded@) =~= before + views(pack.plugins@));
                }
            },
            None => {
                let ghost before = views(expanded@);
                unknown.push(pack_inputs[i].clone());
                proof {
                    assert(before + Seq::<Seq<char>>::empty() =~= before);
                    assert(views(unknown@) =~= unknown_packs(packs, pins.take(i as int)).push(pins[i as int]));
                }
            },
        }
        i = i + 1;
    }
    proof {
        assert(pins.take(pins.len() as int) =~= pins);
    }
    if unknown.len() > 0 {
        let joined = join_strings(unknown.as_slice(), ", ");
        return Err(concat("unknown packs: ", joined.as_str()));
    }
    let mut extra = copy_strings(plugin_inputs);
    let ghost before = views(expanded@);
    expanded.append(&mut extra);
    let ghost raws = views(expanded@);
    proof {
        assert(raws =~= before + views(plugin_inputs@));
    }
    let mut unknown_plugins: Vec<String> = Vec::new();
    let mut resolved: Vec<String> = Vec::new();
    let mut j: usize = 0;
    proof {
        assert(raws.take(0) =~= Seq::<Seq<char>>::empty());
        assert(views(unknown_plugins@) =~= Seq::<Seq<char>>::empty());
        assert(views(resolved@) =~= Seq::<Seq<char>>::empty());
    }
    while j < expanded.len()
        invariant
            raws == views(expanded@),
            j <= raws.len(),
            views(unknown_plugins@) == unknown_inputs(manifest.plugins@, raws.take(j as int)),
            strictly_sorted(views(resolved@)),
            views(resolved@).to_set() == resolved_ids(manifest.plugins@, raws.take(j as int)).to_set(),
        decreases raws.len() - j,
    {
        proof {
            assert(raws.take(j + 1).drop_last() =~= raws.take(j as int));
        }
        match resolve_plugin_input(manifest, expanded[j].as_str()) {
            Some(pid) => {
                let ghost prev = resolved_ids(manifest.plugins@, raws.take(j as int));
                insert_sorted_unique(&mut resolved, pid);
                proof {
                    prev.lemma_push_to_set_commute(resolve_spec(manifest.plugins@, raws[j as int]).unwrap());
                }
            },
            None => {
                unknown_plugins.push(expanded[j].clone());
                proof {
                    assert(views(unknown_plugins@) =~= unknown_inputs(manifest.plugins@, raws.take(j as int)).push(
                        raws[j as int],
                    ));
                }
            },
        }
        j = j + 1;
    }
    proof {
        assert(raws.take(raws.len() as int) =~= raws);
    }
    if unknown_plugins.len() > 0 {
        let joined = join_strings(unknown_plugins.as_slice(), ", ");
        return Err(concat("unknown plugins: ", joined.as_str()));
    }
    Ok(resolved)
}

/// One managed file of the plugins lockfile.
#[derive(Debug, Clone)]
pub struct PluginsLockfileEntryV1 {
    pub path: String,
    pub sha256: String,
    pub plugin_ids: Vec<String>,
}

/// The plugins lockfile (schema `compas.plugins.lock.v1`).
#[derive(Debug, Clone)]
pub struct PluginsLockfileV1 {
    pub schema: String,
    pub registry_source: String,
    pub registry_version: String,
    pub manifest_sha256: Option<String>,
    pub signature_key_id: Option<String>,
    pub plugins: Vec<String>,
    pub packs: Vec<String>,
    pub files: Vec<PluginsLockfileEntryV1>,
}

/// Each entry's path does not come before the previous one's.
pub open spec fn sorted_by_path(entries: Seq<PluginsLockfileEntryV1>) -> bool {
    forall|i: int| 0 <= i < entries.len() - 1 ==> !lex_lt(#[trigger] entries[i + 1].path@, entries[i].path@)
}

/// The entries ordered by path; entries with equal paths keep their order.
pub fn sort_entries_by_path(entries: Vec<PluginsLockfileEntryV1>) -> (out: Vec<PluginsLockfileEntryV1>)
    ensures
        sorted_by_path(out@),
        out@.to_multiset() == entries@.to_multiset(),
{
    broadcast use {vstd::multiset::group_multiset_axioms, vstd::seq_lib::group_to_multiset_ensures};

    let mut out: Vec<PluginsLockfileEntryV1> = Vec::new();
    let mut rest = entries;
    let ghost all = rest@;
    proof {
        assert(out@.to_multiset().add(rest@.to_multiset()) =~= all.to_multiset());
    }
    while rest.len() > 0
        invariant
            sorted_by_path(out@),
            out@.to_multiset().add(rest@.to_multiset()) == all.to_multiset(),
        decreases rest@.len(),
    {
        let ghost old_rest = rest@;
        let e = rest.remove(0);
        proof {
            vstd::seq_lib::to_multiset_remove(old_rest, 0);
            assert(old_rest.remove(0) == rest@);
        }
        let mut p: usize = out.len();
        while p > 0
            invariant
                p <= out@.len(),
                p < out@.len() ==> lex_lt(e.path@, out@[p as int].path@),
            ensures
                p <= out@.len(),
                p < out@.len() ==> lex_lt(e.path@, out@[p as int].path@),
                p > 0 ==> !lex_lt(e.path@, out@[p - 1].path@),
            decreases p,
        {
            if str_lex(e.path.as_str(), out[p - 1].path.as_str()) != -1 {
                break;
            }
            p = p - 1;
        }
        let ghost old_out = out@;
        let ghost ep = e.path@;
        out.insert(p, e);
        proof {
            assert(out@[p as int].path@ == ep);
            vstd::seq_lib::to_multiset_insert(old_out, p as int, out@[p as int]);
            assert(old_out.insert(p as int, out@[p as int]) =~= out@);
            assert(old_rest.contains(old_rest[0]));
            vstd::seq_lib::to_multiset_contains(old_rest, old_rest[0]);
            assert(old_rest.to_multiset().contains(old_rest[0]));
            assert(out@[p as int] == old_rest[0]);
            assert(out@.to_multiset().add(rest@.to_multiset()) =~= old_out.to_multiset().add(old_rest.to_multiset()));
            if p < old_out.len() {
                lemma_lex_total(ep, old_out[p as int].path@);
            }
            assert forall|i: int| 0 <= i < out@.len() - 1 implies !lex_lt(#[trigger] out@[i + 1].path@, out@[i].path@) by {
                if i + 1 < p {
                    let j = i;
                    assert(old_out[j + 1] == out@[i + 1]);
                    assert(old_out[j] == out@[i]);
                } else if i + 1 == p {
                    assert(old_out[i] == out@[i]);
                } else if i == p {
                    assert(old_out[i] == out@[i + 1]);
                } else {
                    let j = i - 1;
                    assert(old_out[j + 1] == out@[i + 1]);
                    assert(old_out[j] == out@[i]);
                }
            }
        }
    }
    proof {
        assert(rest@.to_multiset() =~= vstd::multiset::Multiset::empty());
    }
    out
}

/// The paths of the entries.
pub open spec fn entry_paths(entries: Seq<PluginsLockfileEntryV1>) -> Seq<Seq<char>> {
    entries.map_values(|e: PluginsLockfileEntryV1| e.path@)
}

/// What one lockfile path records: its hash and the plugins that own it.
pub type PathRecord = (Seq<char>, Set<Seq<char>>);

pub open spec fn conflict_message(path: Seq<char>, first: Seq<char>, second: Seq<char>) -> Seq<char> {
    "conflicting hashes for managed path "@ + path + " ("@ + first + " vs "@ + second + ")"@
}

/// Entries merged by path, in order: a path keeps the hash it first came
/// with and collects its owners; a later entry with another hash is a conflict.
pub open spec fn merge_spec(entries: Seq<PluginsLockfileEntryV1>) -> Result<Map<Seq<char>, PathRecord>, Seq<char>>
    decreases entries.len(),
{
    if entries.len() == 0 {
        Ok(Map::empty())
    } else {
        match merge_spec(entries.drop_last()) {
            Err(e) => Err(e),
            Ok(m) => {
                let e = entries.last();
                let p = e.path@;
                if m.contains_key(p) {
                    if m[p].0 != e.sha256@ {
                        Err(conflict_message(p, m[p].0, e.sha256@))
                    } else {
                        Ok(m.insert(p, (m[p].0, m[p].1.union(views(e.plugin_ids@).to_set()))))
                    }
                } else {
                    Ok(m.insert(p, (e.sha256@, views(e.plugin_ids@).to_set())))
                }
            },
        }
    }
}

proof fn lemma_merge_err_extends(entries: Seq<PluginsLockfileEntryV1>, k: int)
    requires
        0 <= k <= entries.len(),
        merge_spec(entries.take(k)) is Err,
    ensures
        merge_spec(entries) == merge_spec(entries.take(k)),
    decreases entries.len() - k,
{
    if k < entries.len() {
        assert(entries.take(k + 1).drop_last() =~= entries.take(k));
        lemma_merge_err_extends(entries, k + 1);
    } else {
        assert(entries.take(k) =~= entries);
    }
}

/// `out` lists the records of `m`, one entry per path, sorted by path, with
/// sorted owners.
pub open spec fn merged_as(out: Seq<PluginsLockfileEntryV1>, m: Map<Seq<char>, PathRecord>) -> bool {
    &&& strictly_sorted(entry_paths(out))
    &&& forall|i: int|
        0 <= i < out.len() ==> m.contains_key(#[trigger] out[i].path@) && m[out[i].path@] == (
            out[i].sha256@,
            views(out[i].plugin_ids@).to_set(),
        ) && strictly_sorted(views(out[i].plugin_ids@))
    &&& forall|p: Seq<char>| #[trigger] m.contains_key(p) ==> exists|i: int| 0 <= i < out.len() && out[i].path@ == p
}

fn insert_owners(owners: &mut Vec<String>, more: &Vec<String>)
    requires
        strictly_sorted(views(old(owners)@)),
    ensures
        strictly_sorted(views(final(owners)@)),
        views(final(owners)@).to_set() == views(old(owners)@).to_set().union(views(more@).to_set()),
{
    let mut j: usize = 0;
    let ghost start = views(owners@).to_set();
    proof {
        assert(views(more@).take(0).to_set() =~= Set::<Seq<char>>::empty());
        assert(start.union(Set::<Seq<char>>::empty()) =~= start);
    }
    while j < more.len()
        invariant
            j <= more@.len(),
            strictly_sorted(views(owners@)),
            views(owners@).to_set() == start.union(views(more@).take(j as int).to_set()),
        decreases more@.len() - j,
    {
        insert_sorted_unique(owners, more[j].clone());
        proof {
            assert(views(more@).take(j + 1) =~= views(more@).take(j as int).push(more@[j as int]@));
            views(more@).take(j as int).lemma_push_to_set_commute(more@[j as int]@);
            assert(views(owners@).to_set() =~= start.union(views(more@).take(j + 1).to_set()));
        }
        j = j + 1;
    }
    proof {
        assert(views(more@).take(more@.len() as int) =~= views(more@));
    }
}

/// The lockfile entries merged by path (see `merge_spec`), sorted by path.
pub fn merge_lock_entries(entries: &Vec<PluginsLockfileEntryV1>) -> (r: Result<Vec<PluginsLockfileEntryV1>, String>)
    ensures
        match merge_spec(entries@) {
            Ok(m) => r is Ok && merged_as(r->Ok_0@, m),
            Err(e) => r is Err && r->Err_0@ == e,
        },
{
    let mut out: Vec<PluginsLockfileEntryV1> = Vec::new();
    let mut i: usize = 0;
    proof {
        assert(entries@.take(0) =~= Seq::<PluginsLockfileEntryV1>::empty());
        assert(entry_paths(out@) =~= Seq::<Seq<char>>::empty());
    }
    while i < entries.len()
        invariant
            i <= entries@.len(),
            merge_spec(entries@.take(i as int)) is Ok,
            merged_as(out@, merge_spec(entries@.take(i as int))->Ok_0),
        decreases entries@.len() - i,
    {
        let ghost m = merge_spec(entries@.take(i as int))->Ok_0;
        proof {
            assert(entries@.take(i + 1).drop_last() =~= entries@.take(i as int));
        }
        let e = &entries[i];
        let ghost ep = e.path@;
        let mut p: usize = 0;
        while p < out.len()
            invariant
                p <= out@.len(),
                ep == e.path@,
                forall|q: int| 0 <= q < p ==> lex_lt(#[trigger] out@[q].path@, ep),
            ensures
                p <= out@.len(),
                forall|q: int| 0 <= q < p ==> lex_lt(#[trigger] out@[q].path@, ep),
                p < out@.len() ==> !lex_lt(out@[p as int].path@, ep),
            decreases out@.len() - p,
        {
            if str_lex(out[p].path.as_str(), e.path.as_str()) != -1 {
                break;
            }
            p = p + 1;
        }
        let ghost old_out = out@;
        let ghost ps = entry_paths(old_out);
        proof {
            assert forall|q: int| 0 <= q < ps.len() implies #[trigger] ps[q] == old_out[q].path@ by {}
        }
        if p < out.len() && str_eq(out[p].path.as_str(), e.path.as_str()) {
            if !str_eq(out[p].sha256.as_str(), e.sha256.as_str()) {
                proof {
                    assert(m.contains_key(ep));
                    assert(m[ep].0 == out@[p as int].sha256@);
                    lemma_merge_err_extends(entries@, i + 1);
                }
                let a = concat("conflicting hashes for managed path ", e.path.as_str());
                let b = concat(a.as_str(), " (");
                let c = concat(b.as_str(), out[p].sha256.as_str());
                let d = concat(c.as_str(), " vs ");
                let f = concat(d.as_str(), e.sha256.as_str());
                return Err(concat(f.as_str(), ")"));
            }
            let mut slot = out.remove(p);
            insert_owners(&mut slot.plugin_ids, &e.plugin_ids);
            out.insert(p, slot);
            proof {
                let m2 = merge_spec(entries@.take(i + 1))->Ok_0;
                assert(m.contains_key(ep));
                assert(m2 == m.insert(ep, (m[ep].0, m[ep].1.union(views(e.plugin_ids@).to_set()))));
                assert(entry_paths(out@) =~= ps);
                assert forall|k: int| 0 <= k < out@.len() implies m2.contains_key(#[trigger] out@[k].path@) && m2[out@[k].path@] == (
                    out@[k].sha256@,
                    views(out@[k].plugin_ids@).to_set(),
                ) && strictly_sorted(views(out@[k].plugin_ids@)) by {
                    if k != p {
                        assert(out@[k] == old_out[k]);
                        if out@[k].path@ == ep {
                            lemma_strictly_sorted_pairs(ps, if k < p { k } else { p as int }, if k < p { p as int } else { k });
                            lemma_lex_total(ep, ep);
                        }
                    }
                }
                assert forall|q: Seq<char>| #[trigger] m2.contains_key(q) implies exists|k: int| 0 <= k < out@.len() && out@[k].path@ == q by {
                    if q != ep {
                        assert(m.contains_key(q));
                        let k = choose|k: int| 0 <= k < old_out.len() && old_out[k].path@ == q;
                        assert(out@[k].path@ == ps[k]);
                    } else {
                        assert(out@[p as int].path@ == q);
                    }
                }
            }
        } else {
            let owners = crate::order::sorted_unique(copy_strings(e.plugin_ids.as_slice()));
            let slot = PluginsLockfileEntryV1 { path: e.path.clone(), sha256: e.sha256.clone(), plugin_ids: owners };
            out.insert(p, slot);
            proof {
                let m2 = merge_spec(entries@.take(i + 1))->Ok_0;
                if p < old_out.len() {
                    lemma_lex_total(ep, old_out[p as int].path@);
                }
                assert forall|k: int| 0 <= k < old_out.len() implies #[trigger] old_out[k].path@ != ep by {
                    if k < p {
                        lemma_lex_total(old_out[k].path@, ep);
                    } else {
                        if k > p {
                            lemma_strictly_sorted_pairs(ps, p as int, k);
                            crate::order::lemma_lex_trans(ep, ps[p as int], ps[k]);
                        }
                        lemma_lex_total(ep, ep);
                    }
                }
                assert(!m.contains_key(ep)) by {
                    if m.contains_key(ep) {
                        let k = choose|k: int| 0 <= k < old_out.len() && old_out[k].path@ == ep;
                    }
                }
                assert(m2 == m.insert(ep, (e.sha256@, views(e.plugin_ids@).to_set())));
                let nps = entry_paths(out@);
                assert(nps =~= ps.insert(p as int, ep));
                assert forall|k: int| 0 <= k < nps.len() - 1 implies lex_lt(#[trigger] nps[k], nps[k + 1]) by {
                    if k + 1 < p {
                        let j = k;
                        assert(ps[j + 1] == nps[k + 1]);
                    } else if k + 1 == p {
                    } else if k == p {
                    } else {
                        let j = k - 1;
                        assert(ps[j + 1] == nps[k + 1]);
                    }
                }
                assert forall|k: int| 0 <= k < out@.len() implies m2.contains_key(#[trigger] out@[k].path@) && m2[out@[k].path@] == (
                    out@[k].sha256@,
                    views(out@[k].plugin_ids@).to_set(),
                ) && strictly_sorted(views(out@[k].plugin_ids@)) by {
                    if k < p {
                        assert(out@[k] == old_out[k]);
                        assert(old_out[k].path@ != ep);
                    } else if k > p {
                        assert(out@[k] == old_out[k - 1]);
                        assert(old_out[k - 1].path@ != ep);
                    } else {
                        assert(out@[k].path@ == ep);
                    }
                }
                assert forall|q: Seq<char>| #[trigger] m2.contains_key(q) implies exists|k: int| 0 <= k < out@.len() && out@[k].path@ == q by {
                    if q != ep {
                        assert(m.contains_key(q));
                        let k = choose|k: int| 0 <= k < old_out.len() && old_out[k].path@ == q;
                        if k < p {
                            assert(out@[k] == old_out[k]);
                        } else {
                            assert(out@[k + 1] == old_out[k]);
                        }
                    } else {
                        assert(out@[p as int].path@ == q);
                    }
                }
            }
        }
        i = i + 1;
    }
    proof {
        assert(entries@.take(entries@.len() as int) =~= entries@);
    }
    Ok(out)
}

/// The items of `s`, in order, that `excl` does not hold.
pub open spec fn retain_not_in(s: Seq<Seq<char>>, excl: Seq<Seq<char>>) -> Seq<Seq<char>>
    decreases s.len(),
{
    if s.len() == 0 {
        Seq::empty()
    } else {
        let rest = retain_not_in(s.drop_last(), excl);
        if excl.contains(s.last()) {
            rest
        } else {
            rest.push(s.last())
        }
    }
}

/// The strings of `v`, in order, that `excl` does not hold.
pub fn strings_not_in(v: &Vec<String>, excl: &Vec<String>) -> (out: Vec<String>)
    ensures
        views(out@) == retain_not_in(views(v@), views(excl@)),
{
    let mut out: Vec<String> = Vec::new();
    let mut i: usize = 0;
    proof {
        assert(views(v@).take(0) =~= Seq::<Seq<char>>::empty());
        assert(views(out@) =~= Seq::<Seq<char>>::empty());
    }
    while i < v.len()
        invariant
            i <= v@.len(),
            views(out@) == retain_not_in(views(v@).take(i as int), views(excl@)),
        decreases v@.len() - i,
    {
        proof {
            assert(views(v@).take(i + 1).drop_last() =~= views(v@).take(i as int));
        }
        if !contains_string(excl, v[i].as_str()) {
            out.push(v[i].clone());
            proof {
                assert(views(out@) =~= retain_not_in(views(v@).take(i as int), views(excl@)).push(v@[i as int]@));
            }
        }
        i = i + 1;
    }
    proof {
        assert(views(v@).take(v@.len() as int) =~= views(v@));
    }
    out
}

/// Some owner of the entry is among `targets`.
pub open spec fn owned_by_any(e: PluginsLockfileEntryV1, targets: Seq<Seq<char>>) -> bool {
    exists|k: int| 0 <= k < e.plugin_ids@.len() && targets.contains(#[trigger] views(e.plugin_ids@)[k])
}

/// Whether some owner of the entry is among `targets`.
pub fn entry_owned_by_any(e: &PluginsLockfileEntryV1, targets: &Vec<String>) -> (b: bool)
    ensures
        b == owned_by_any(*e, views(targets@)),
{
    let mut k: usize = 0;
    while k < e.plugin_ids.len()
        invariant
            k <= e.plugin_ids@.len(),
            forall|j: int| 0 <= j < k ==> !views(targets@).contains(#[trigger] views(e.plugin_ids@)[j]),
        decreases e.plugin_ids@.len() - k,
    {
        if contains_string(targets, e.plugin_ids[k].as_str()) {
            assert(views(targets@).contains(views(e.plugin_ids@)[k as int]));
            return true;
        }
        k = k + 1;
    }
    false
}

/// The lockfile's plugins after an install: the installed ones and those
/// previously locked that were not targets, sorted, each once.
pub open spec fn final_plugins_spec(
    installed: Seq<Seq<char>>,
    locked: Seq<Seq<char>>,
    targets: Seq<Seq<char>>,
) -> Set<Seq<char>> {
    (installed + retain_not_in(locked, targets)).to_set()
}

/// The plugin list for the lockfile after an install.
pub fn final_lock_plugins(installed: &Vec<String>, existing: &Option<PluginsLockfileV1>, targets: &Vec<String>) -> (out:
    Vec<String>)
    ensures
        strictly_sorted(views(out@)),
        existing is None ==> views(out@).to_set() == views(installed@).to_set(),
        existing is Some ==> views(out@).to_set() == final_plugins_spec(
            views(installed@),
            views(existing.unwrap().plugins@),
            views(targets@),
        ),
{
    let mut all = copy_strings(installed.as_slice());
    match existing {
        Some(lock) => {
            let mut kept = strings_not_in(&lock.plugins, targets);
            let ghost before = views(all@);
            all.append(&mut kept);
            proof {
                assert(views(all@) =~= before + retain_not_in(views(lock.plugins@), views(targets@)));
            }
        },
        None => {},
    }
    crate::order::sorted_unique(all)
}

/// The pack list for the lockfile after an install: the requested packs and
/// those previously locked, sorted, each once.
pub fn final_lock_packs(pack_inputs: &Vec<String>, existing: &Option<PluginsLockfileV1>) -> (out: Vec<String>)
    ensures
        strictly_sorted(views(out@)),
        existing is None ==> views(out@).to_set() == views(pack_inputs@).to_set(),
        existing is Some ==> views(out@).to_set() == (views(pack_inputs@) + views(existing.unwrap().packs@)).to_set(),
{
    let mut all = copy_strings(pack_inputs.as_slice());
    match existing {
        Some(lock) => {
            let mut more = copy_strings(lock.packs.as_slice());
            let ghost before = views(all@);
            all.append(&mut more);
            proof {
                assert(views(all@) =~= before + views(lock.packs@));
            }
        },
        None => {},
    }
    crate::order::sorted_unique(all)
}

/// The entries, in order, that no target owns.
pub open spec fn entries_not_owned(files: Seq<PluginsLockfileEntryV1>, targets: Seq<Seq<char>>) -> Seq<
    PluginsLockfileEntryV1,
>
    decreases files.len(),
{
    if files.len() == 0 {
        Seq::empty()
    } else {
        let rest = entries_not_owned(files.drop_last(), targets);
        if owned_by_any(files.last(), targets) {
            rest
        } else {
            rest.push(files.last())
        }
    }
}

/// The lockfile entries that an install keeps from the previous lockfile:
/// those that no target owns.
pub fn entries_kept_on_install(files: Vec<PluginsLockfileEntryV1>, targets: &Vec<String>) -> (out: Vec<
    PluginsLockfileEntryV1,
>)
    ensures
        out@ == entries_not_owned(files@, views(targets@)),
{
    let ghost all = files@;
    let mut rest = files;
    let mut out: Vec<PluginsLockfileEntryV1> = Vec::new();
    let ghost mut i: int = 0;
    proof {
        assert(all.take(0) =~= Seq::<PluginsLockfileEntryV1>::empty());
        assert(rest@ =~= all.subrange(0, all.len() as int));
    }
    while rest.len() > 0
        invariant
            0 <= i <= all.len(),
            rest@ == all.subrange(i, all.len() as int),
            out@ == entries_not_owned(all.take(i), views(targets@)),
        decreases rest@.len(),
    {
        proof {
            assert(all.take(i + 1).drop_last() =~= all.take(i));
        }
        let e = rest.remove(0);
        proof {
            assert(e == all[i]);
            assert(rest@ =~= all.subrange(i + 1, all.len() as int));
        }
        if !entry_owned_by_any(&e, targets) {
            out.push(e);
        }
        proof {
            i = i + 1;
        }
    }
    proof {
        assert(all.take(all.len() as int) =~= all);
    }
    out
}

/// The entry as the split leaves it: with the targets taken out of its owners
/// where a target owns it.
pub open spec fn entry_after_uninstall(e: PluginsLockfileEntryV1, targets: Seq<Seq<char>>) -> Seq<Seq<char>> {
    if owned_by_any(e, targets) {
        retain_not_in(views(e.plugin_ids@), targets)
    } else {
        views(e.plugin_ids@)
    }
}

/// `kept` is `e` as an uninstall of `targets` keeps it.
pub open spec fn kept_from(kept: PluginsLockfileEntryV1, e: PluginsLockfileEntryV1, targets: Seq<Seq<char>>) -> bool {
    &&& kept.path == e.path
    &&& kept.sha256 == e.sha256
    &&& views(kept.plugin_ids@) == entry_after_uninstall(e, targets)
    &&& owned_by_any(e, targets) ==> entry_after_uninstall(e, targets).len() > 0
}

/// `kept` is one of the entries as an uninstall of `targets` keeps it.
pub open spec fn kept_from_input(kept: PluginsLockfileEntryV1, files: Seq<PluginsLockfileEntryV1>, targets: Seq<Seq<char>>) -> bool {
    exists|k: int| 0 <= k < files.len() && #[trigger] kept_from(kept, files[k], targets)
}

/// Plans an uninstall of `targets`: the entries to remove and those to keep,
/// each list sorted by path. An entry is removed when all its owners are
/// targets; a kept entry loses its target owners.
pub fn plan_uninstall_entries(files: Vec<PluginsLockfileEntryV1>, targets: &Vec<String>) -> (r: (
    Vec<PluginsLockfileEntryV1>,
    Vec<PluginsLockfileEntryV1>,
))
    ensures
        sorted_by_path(r.0@),
        sorted_by_path(r.1@),
        r.0@.len() + r.1@.len() == files@.len(),
        forall|i: int|
            0 <= i < r.0@.len() ==> owned_by_any(#[trigger] r.0@[i], views(targets@)) && retain_not_in(
                views(r.0@[i].plugin_ids@),
                views(targets@),
            ).len() == 0 && files@.contains(r.0@[i]),
        forall|i: int| 0 <= i < r.1@.len() ==> kept_from_input(#[trigger] r.1@[i], files@, views(targets@)),
{
    broadcast use vstd::seq_lib::group_to_multiset_ensures;

    let ghost all = files@;
    let mut rest = files;
    let mut remove: Vec<PluginsLockfileEntryV1> = Vec::new();
    let mut kept: Vec<PluginsLockfileEntryV1> = Vec::new();
    let ghost mut src: Seq<int> = Seq::empty();
    let ghost mut i: int = 0;
    proof {
        assert(rest@ =~= all.subrange(0, all.len() as int));
    }
    while rest.len() > 0
        invariant
            0 <= i <= all.len(),
            rest@ == all.subrange(i, all.len() as int),
            remove@.len() + kept@.len() == i,
            forall|j: int|
                0 <= j < remove@.len() ==> owned_by_any(#[trigger] remove@[j], views(targets@)) && retain_not_in(
                    views(remove@[j].plugin_ids@),
                    views(targets@),
                ).len() == 0 && all.contains(remove@[j]),
            src.len() == kept@.len(),
            forall|j: int|
                0 <= j < kept@.len() ==> 0 <= #[trigger] src[j] < all.len() && kept_from(
                    kept@[j],
                    all[src[j]],
                    views(targets@),
                ),
        decreases rest@.len(),
    {
        let e = rest.remove(0);
        proof {
            assert(e == all[i]);
            assert(rest@ =~= all.subrange(i + 1, all.len() as int));
        }
        if !entry_owned_by_any(&e, targets) {
            kept.push(e);
            proof {
                src = src.push(i);
            }
        } else {
            let owners = strings_not_in(&e.plugin_ids, targets);
            if owners.len() == 0 {
                proof {
                    assert(all.contains(all[i]));
                }
                remove.push(e);
            } else {
                let PluginsLockfileEntryV1 { path, sha256, plugin_ids } = e;
                kept.push(PluginsLockfileEntryV1 { path, sha256, plugin_ids: owners });
                proof {
                    src = src.push(i);
                }
            }
        }
        proof {
            i = i + 1;
        }
    }
    let a = sort_entries_by_path(remove);
    let b = sort_entries_by_path(kept);
    proof {
        assert forall|j: int| 0 <= j < a@.len() implies owned_by_any(#[trigger] a@[j], views(targets@)) && retain_not_in(
            views(a@[j].plugin_ids@),
            views(targets@),
        ).len() == 0 && all.contains(a@[j]) by {
            assert(a@.contains(a@[j]));
            assert(remove@.to_multiset().contains(a@[j]));
            assert(remove@.contains(a@[j]));
        }
        assert forall|j: int| 0 <= j < b@.len() implies kept_from_input(#[trigger] b@[j], all, views(targets@)) by {
            assert(b@.contains(b@[j]));
            assert(kept@.to_multiset().contains(b@[j]));
            assert(kept@.contains(b@[j]));
            let q = choose|q: int| 0 <= q < kept@.len() && kept@[q] == b@[j];
            assert(kept_from(kept@[q], all[src[q]], views(targets@)));
        }
        vstd::seq_lib::to_multiset_len(a@);
        vstd::seq_lib::to_multiset_len(b@);
        vstd::seq_lib::to_multiset_len(remove@);
        vstd::seq_lib::to_multiset_len(kept@);
        assert(a@.len() == remove@.len() && b@.len() == kept@.len());
    }
    (a, b)
}

/// The lockfile's plugin and pack lists after an uninstall: with explicit
/// inputs the targets and the named packs leave; without, both lists empty.
pub fn uninstall_lock_lists(
    lock: &PluginsLockfileV1,
    explicit: bool,
    targets: &Vec<String>,
    pack_inputs: &Vec<String>,
) -> (r: (Vec<String>, Vec<String>))
    ensures
        explicit ==> views(r.0@) == dedup_spec(retain_not_in(views(lock.plugins@), views(targets@))) && views(r.1@)
            == dedup_spec(retain_not_in(views(lock.packs@), views(pack_inputs@))),
        !explicit ==> r.0@.len() == 0 && r.1@.len() == 0,
{
    if explicit {
        let plugins = strings_not_in(&lock.plugins, targets);
        let packs = strings_not_in(&lock.packs, pack_inputs);
        (dedupe_strings(plugins), dedupe_strings(packs))
    } else {
        (Vec::new(), Vec::new())
    }
}

/// The plugins that an uninstall removes: the locked plugins when no plugins
/// or packs are named, else those the inputs resolve to; an error when none.
pub fn uninstall_targets(
    manifest: &RegistryManifestV1,
    lock: &PluginsLockfileV1,
    plugin_inputs: &Vec<String>,
    pack_inputs: &Vec<String>,
) -> (r: Result<Vec<String>, String>)
    ensures
        plugin_inputs@.len() == 0 && pack_inputs@.len() == 0 ==> if lock.plugins@.len() == 0 {
            r is Err && r->Err_0@ == "no plugins selected for uninstall"@
        } else {
            r is Ok && r->Ok_0@ == lock.plugins@
        },
        !(plugin_inputs@.len() == 0 && pack_inputs@.len() == 0) ==> match resolve_ids_spec(
            *manifest,
            views(plugin_inputs@),
            views(pack_inputs@),
        ) {
            Err(e) => r is Err && r->Err_0@ == e,
            Ok(ids) => if ids.len() == 0 {
                r is Err && r->Err_0@ == "no plugins selected for uninstall"@
            } else {
                r is Ok && strictly_sorted(views(r->Ok_0@)) && views(r->Ok_0@).to_set() == ids
            },
        },
{
    let ids = if plugin_inputs.len() == 0 && pack_inputs.len() == 0 {
        copy_strings(lock.plugins.as_slice())
    } else {
        match resolve_plugin_ids_from_manifest(manifest, plugin_inputs.as_slice(), pack_inputs.as_slice()) {
            Ok(v) => v,
            Err(e) => return Err(e),
        }
    };
    if ids.len() == 0 {
        proof {
            assert(views(ids@).to_set() =~= Set::<Seq<char>>::empty());
        }
        return Err(String::from_str("no plugins selected for uninstall"));
    }
    proof {
        if !(plugin_inputs@.len() == 0 && pack_inputs@.len() == 0) {
            assert(views(ids@).to_set().contains(views(ids@)[0]));
        }
    }
    Ok(ids)
}

/// The plugins and packs that an install is asked for: every `--plugins` and
/// `--packs` item, trimmed, blanks dropped; an error when both are empty.
pub open spec fn install_inputs_spec(args: Seq<String>) -> Result<(Seq<Seq<char>>, Seq<Seq<char>>), Seq<char>> {
    match csv_flag_spec(args, "--plugins"@, 0) {
        Err(e) => Err(e),
        Ok((ps, pitems)) => match csv_flag_spec(args, "--packs"@, 0) {
            Err(e) => Err(e),
            Ok((ks, kitems)) => {
                let plugins = trimmed_nonempty(if ps { dedup_spec(pitems) } else { Seq::empty() });
                let packs = trimmed_nonempty(if ks { dedup_spec(kitems) } else { Seq::empty() });
                if plugins.len() == 0 && packs.len() == 0 {
                    Err("plugins install requires --plugins and/or --packs"@)
                } else {
                    Ok((plugins, packs))
                }
            },
        },
    }
}

fn csv_flag_or_empty(args: &[String], flag: &str) -> (r: Result<Vec<String>, String>)
    ensures
        match csv_flag_spec(args@, flag@, 0) {
            Ok((seen, items)) => r is Ok && views(r->Ok_0@) == if seen {
                dedup_spec(items)
            } else {
                Seq::empty()
            },
            Err(e) => r is Err && r->Err_0@ == e,
        },
{
    match parse_csv_flag(args, flag) {
        Ok(Some(v)) => Ok(v),
        Ok(None) => {
            let v: Vec<String> = Vec::new();
            proof {
                assert(views(v@) =~= Seq::<Seq<char>>::empty());
            }
            Ok(v)
        },
        Err(e) => Err(e),
    }
}

/// The plugin and pack inputs of an install (see `install_inputs_spec`).
pub fn install_inputs(args: &[String]) -> (r: Result<(Vec<String>, Vec<String>), String>)
    ensures
        match install_inputs_spec(args@) {
            Ok((plugins, packs)) => r is Ok && views(r->Ok_0.0@) == plugins && views(r->Ok_0.1@) == packs,
            Err(e) => r is Err && r->Err_0@ == e,
        },
{
    let plugins = match csv_flag_or_empty(args, "--plugins") {
        Ok(v) => v,
        Err(e) => return Err(e),
    };
    let packs = match csv_flag_or_empty(args, "--packs") {
        Ok(v) => v,
        Err(e) => return Err(e),
    };
    let plugins = normalize_plugin_inputs(plugins);
    let packs = normalize_plugin_inputs(packs);
    if plugins.len() == 0 && packs.len() == 0 {
        return Err(String::from_str("plugins install requires --plugins and/or --packs"));
    }
    Ok((plugins, packs))
}

/// The installer arguments of an update: the given ones, plus `--plugins` and
/// `--packs` from the lockfile where neither flag names anything.
pub fn update_installer_args(args: &Vec<String>, lock: &Option<PluginsLockfileV1>) -> (r: Result<Vec<String>, String>)
    ensures
        match (csv_flag_spec(args@, "--plugins"@, 0), csv_flag_spec(args@, "--packs"@, 0)) {
            (Err(e), _) => r is Err && r->Err_0@ == e,
            (Ok(_), Err(e)) => r is Err && r->Err_0@ == e,
            (Ok((ps, pitems)), Ok((ks, kitems))) => {
                let plugins0 = if ps { dedup_spec(pitems) } else { Seq::empty() };
                let packs0 = if ks { dedup_spec(kitems) } else { Seq::empty() };
                let from_lock = plugins0.len() == 0 && packs0.len() == 0 && lock is Some;
                let plugins = if from_lock { views(lock.unwrap().plugins@) } else { plugins0 };
                let packs = if from_lock { views(lock.unwrap().packs@) } else { packs0 };
                let with_plugins = if plugins.len() == 0 || views(args@).contains("--plugins"@) {
                    views(args@)
                } else {
                    views(args@).push("--plugins"@).push(join_spec(plugins, ","@))
                };
                r is Ok && views(r->Ok_0@) == if packs.len() == 0 || with_plugins.contains("--packs"@) {
                    with_plugins
                } else {
                    with_plugins.push("--packs"@).push(join_spec(packs, ","@))
                }
            },
        },
{
    let mut plugins = match csv_flag_or_empty(args.as_slice(), "--plugins") {
        Ok(v) => v,
        Err(e) => return Err(e),
    };
    let mut packs = match csv_flag_or_empty(args.as_slice(), "--packs") {
        Ok(v) => v,
        Err(e) => return Err(e),
    };
    if plugins.len() == 0 && packs.len() == 0 {
        match lock {
            Some(l) => {
                plugins = copy_strings(l.plugins.as_slice());
                packs = copy_strings(l.packs.as_slice());
            },
            None => {},
        }
    }
    let mut out = copy_strings(args.as_slice());
    with_csv_flag(&mut out, "--plugins", plugins.as_slice());
    with_csv_flag(&mut out, "--packs", packs.as_slice());
    Ok(out)
}

/// A plugin that governance keeps from being installed: id, tier, reason.
#[derive(Debug, Clone)]
pub struct BlockedPlugin {
    pub id: String,
    pub tier: String,
    pub reason: String,
}

/// The first id, from `i` on, that the manifest lacks.
pub open spec fn first_missing_plugin(plugins: Seq<RegistryPluginV1>, ids: Seq<Seq<char>>, i: int) -> Option<int>
    decreases ids.len() - i,
{
    if i < 0 || i >= ids.len() {
        None
    } else if plugin_index(plugins, ids[i]) is None {
        Some(i)
    } else {
        first_missing_plugin(plugins, ids, i + 1)
    }
}

/// The plugins, in order, that governance blocks.
pub open spec fn blocked_spec(
    plugins: Seq<RegistryPluginV1>,
    ids: Seq<Seq<char>>,
    allow_experimental: bool,
    allow_sunset: bool,
) -> Seq<(Seq<char>, Seq<char>, Seq<char>)>
    decreases ids.len(),
{
    if ids.len() == 0 {
        Seq::empty()
    } else {
        let rest = blocked_spec(plugins, ids.drop_last(), allow_experimental, allow_sunset);
        match plugin_index(plugins, ids.last()) {
            Some(k) => match governance_spec(plugins[k], allow_experimental, allow_sunset) {
                Some((tier, reason)) => rest.push((plugins[k].id@, tier, reason)),
                None => rest,
            },
            None => rest,
        }
    }
}

pub open spec fn blocked_view(b: BlockedPlugin) -> (Seq<char>, Seq<char>, Seq<char>) {
    (b.id@, b.tier@, b.reason@)
}

/// The plugins among `ids` that governance blocks, in order; an error for the
/// first id that the manifest lacks.
pub fn governance_blocked_plugins(
    manifest: &RegistryManifestV1,
    ids: &Vec<String>,
    allow_experimental: bool,
    allow_sunset: bool,
) -> (r: Result<Vec<BlockedPlugin>, String>)
    ensures
        match first_missing_plugin(manifest.plugins@, views(ids@), 0) {
            Some(k) => r is Err && r->Err_0@ == "plugin not found in manifest: "@ + views(ids@)[k],
            None => r is Ok && r->Ok_0@.map_values(|b: BlockedPlugin| blocked_view(b)) == blocked_spec(
                manifest.plugins@,
                views(ids@),
                allow_experimental,
                allow_sunset,
            ),
        },
{
    let ghost vids = views(ids@);
    let mut out: Vec<BlockedPlugin> = Vec::new();
    let mut i: usize = 0;
    proof {
        assert(vids.take(0) =~= Seq::<Seq<char>>::empty());
        assert(out@.map_values(|b: BlockedPlugin| blocked_view(b)) =~= Seq::<(Seq<char>, Seq<char>, Seq<char>)>::empty());
    }
    while i < ids.len()
        invariant
            vids == views(ids@),
            i <= vids.len(),
            first_missing_plugin(manifest.plugins@, vids, 0) == first_missing_plugin(manifest.plugins@, vids, i as int),
            out@.map_values(|b: BlockedPlugin| blocked_view(b)) == blocked_spec(
                manifest.plugins@,
                vids.take(i as int),
                allow_experimental,
                allow_sunset,
            ),
        decreases vids.len() - i,
    {
        proof {
            assert(vids.take(i + 1).drop_last() =~= vids.take(i as int));
            assert(vids.take(i + 1).last() == vids[i as int]);
        }
        match plugin_by_id(manifest, ids[i].as_str()) {
            None => {
                return Err(concat("plugin not found in manifest: ", ids[i].as_str()));
            },
            Some(plugin) => {
                match governance_block_reason(plugin, allow_experimental, allow_sunset) {
                    Some((tier, reason)) => {
                        let ghost before = out@.map_values(|b: BlockedPlugin| blocked_view(b));
                        out.push(BlockedPlugin { id: plugin.id.clone(), tier, reason });
                        proof {
                            assert(out@.map_values(|b: BlockedPlugin| blocked_view(b)) =~= before.push(
                                blocked_view(out@.last()),
                            ));
                        }
                    },
                    None => {},
                }
            },
        }
        i = i + 1;
    }
    proof {
        assert(vids.take(vids.len() as int) =~= vids);
    }
    Ok(out)
}

/// A lockfile as read: the schema must be `compas.plugins.lock.v1`; repeats
/// leave the plugin, pack and owner lists.
pub fn normalize_lockfile(path_display: &str, lock: PluginsLockfileV1) -> (r: Result<PluginsLockfileV1, String>)
    ensures
        lock.schema@ != "compas.plugins.lock.v1"@ ==> r is Err && r->Err_0@ == "unsupported plugins lockfile schema in "@
            + path_display@ + ": "@ + lock.schema@,
        lock.schema@ == "compas.plugins.lock.v1"@ ==> r is Ok && {
            let n = r->Ok_0;
            &&& n.schema == lock.schema
            &&& n.registry_source == lock.registry_source
            &&& n.registry_version == lock.registry_version
            &&& n.manifest_sha256 == lock.manifest_sha256
            &&& n.signature_key_id == lock.signature_key_id
            &&& views(n.plugins@) == dedup_spec(views(lock.plugins@))
            &&& views(n.packs@) == dedup_spec(views(lock.packs@))
            &&& n.files@.len() == lock.files@.len()
            &&& forall|i: int|
                0 <= i < n.files@.len() ==> (#[trigger] n.files@[i]).path == lock.files@[i].path && n.files@[i].sha256
                    == lock.files@[i].sha256 && views(n.files@[i].plugin_ids@) == dedup_spec(
                    views(lock.files@[i].plugin_ids@),
                )
        },
{
    if !str_eq(lock.schema.as_str(), "compas.plugins.lock.v1") {
        let a = concat("unsupported plugins lockfile schema in ", path_display);
        let b = concat(a.as_str(), ": ");
        return Err(concat(b.as_str(), lock.schema.as_str()));
    }
    let PluginsLockfileV1 {
        schema,
        registry_source,
        registry_version,
        manifest_sha256,
        signature_key_id,
        plugins,
        packs,
        files,
    } = lock;
    let ghost all = files@;
    let mut rest = files;
    let mut out: Vec<PluginsLockfileEntryV1> = Vec::new();
    let ghost mut i: int = 0;
    proof {
        assert(rest@ =~= all.subrange(0, all.len() as int));
    }
    while rest.len() > 0
        invariant
            0 <= i <= all.len(),
            rest@ == all.subrange(i, all.len() as int),
            out@.len() == i,
            forall|j: int|
                0 <= j < i ==> (#[trigger] out@[j]).path == all[j].path && out@[j].sha256 == all[j].sha256 && views(
                    out@[j].plugin_ids@,
                ) == dedup_spec(views(all[j].plugin_ids@)),
        decreases rest@.len(),
    {
        let e = rest.remove(0);
        proof {
            assert(e == all[i]);
            assert(rest@ =~= all.subrange(i + 1, all.len() as int));
        }
        let PluginsLockfileEntryV1 { path, sha256, plugin_ids } = e;
        out.push(PluginsLockfileEntryV1 { path, sha256, plugin_ids: dedupe_strings(plugin_ids) });
        proof {
            i = i + 1;
        }
    }
    Ok(
        PluginsLockfileV1 {
            schema,
            registry_source,
            registry_version,
            manifest_sha256,
            signature_key_id,
            plugins: dedupe_strings(plugins),
            packs: dedupe_strings(packs),
            files: out,
        },
    )
}

/// The paths of the lockfile entries that some target owns.
pub fn managed_paths_for_targets(lock: &PluginsLockfileV1, targets: &Vec<String>) -> (out: Vec<String>)
    ensures
        strictly_sorted(views(out@)),
        forall|p: Seq<char>|
            views(out@).contains(p) <==> exists|i: int|
                0 <= i < lock.files@.len() && (#[trigger] lock.files@[i]).path@ == p && owned_by_any(
                    lock.files@[i],
                    views(targets@),
                ),
{
    let mut out: Vec<String> = Vec::new();
    let mut i: usize = 0;
    while i < lock.files.len()
        invariant
            i <= lock.files@.len(),
            strictly_sorted(views(out@)),
            forall|p: Seq<char>|
                views(out@).contains(p) <==> exists|k: int|
                    0 <= k < i && (#[trigger] lock.files@[k]).path@ == p && owned_by_any(
                        lock.files@[k],
                        views(targets@),
                    ),
        decreases lock.files@.len() - i,
    {
        let ghost before = views(out@);
        if entry_owned_by_any(&lock.files[i], targets) {
            insert_sorted_unique(&mut out, lock.files[i].path.clone());
            proof {
                assert forall|p: Seq<char>|
                    views(out@).contains(p) <==> exists|k: int|
                        0 <= k < i + 1 && (#[trigger] lock.files@[k]).path@ == p && owned_by_any(
                            lock.files@[k],
                            views(targets@),
                        ) by {
                    assert(views(out@).to_set().contains(p) == views(out@).contains(p));
                    assert(before.to_set().contains(p) == before.contains(p));
                    if p == lock.files@[i as int].path@ {
                        assert(views(out@).to_set().contains(p));
                    }
                }
            }
        } else {
            proof {
                assert forall|p: Seq<char>|
                    views(out@).contains(p) <==> exists|k: int|
                        0 <= k < i + 1 && (#[trigger] lock.files@[k]).path@ == p && owned_by_any(
                            lock.files@[k],
                            views(targets@),
                        ) by {
                    if exists|k: int|
                        0 <= k < i + 1 && (#[trigger] lock.files@[k]).path@ == p && owned_by_any(
                            lock.files@[k],
                            views(targets@),
                        ) {
                        let k = choose|k: int|
                            0 <= k < i + 1 && (#[trigger] lock.files@[k]).path@ == p && owned_by_any(
                                lock.files@[k],
                                views(targets@),
                            );
                        assert(k < i);
                    }
                }
            }
        }
        i = i + 1;
    }
    out
}

/// The plugin directories that the lockfile does not manage, sorted: every
/// name but `.staging` that is not a locked plugin.
pub fn unmanaged_plugin_dirs(dir_names: &Vec<String>, lock: &Option<PluginsLockfileV1>) -> (out: Vec<String>)
    ensures
        strictly_sorted(views(out@)),
        forall|n: Seq<char>|
            views(out@).contains(n) <==> views(dir_names@).contains(n) && n != ".staging"@ && !(lock is Some && views(
                lock.unwrap().plugins@,
            ).contains(n)),
{
    let mut out: Vec<String> = Vec::new();
    let mut i: usize = 0;
    while i < dir_names.len()
        invariant
            i <= dir_names@.len(),
            strictly_sorted(views(out@)),
            forall|n: Seq<char>|
                views(out@).contains(n) <==> views(dir_names@).take(i as int).contains(n) && n != ".staging"@ && !(
                lock is Some && views(lock.unwrap().plugins@).contains(n)),
        decreases dir_names@.len() - i,
    {
        let name = dir_names[i].as_str();
        let managed = match lock {
            Some(l) => contains_string(&l.plugins, name),
            None => false,
        };
        let ghost before = views(out@);
        proof {
            assert(views(dir_names@).take(i + 1) =~= views(dir_names@).take(i as int).push(name@));
        }
        if !str_eq(name, ".staging") && !managed {
            insert_sorted_unique(&mut out, dir_names[i].clone());
            proof {
                assert forall|n: Seq<char>|
                    views(out@).contains(n) <==> views(dir_names@).take(i + 1).contains(n) && n != ".staging"@ && !(
                    lock is Some && views(lock.unwrap().plugins@).contains(n)) by {
                    assert(views(out@).to_set().contains(n) == views(out@).contains(n));
                    assert(before.to_set().contains(n) == before.contains(n));
                    if n == name@ {
                        assert(views(dir_names@).take(i + 1)[i as int] == n);
                    }
                    if views(dir_names@).take(i + 1).contains(n) && n != name@ {
                        let k = choose|k: int| 0 <= k < i + 1 && #[trigger] views(dir_names@).take(i + 1)[k] == n;
                        assert(views(dir_names@).take(i as int)[k] == n);
                    }
                }
            }
        } else {
            proof {
                assert forall|n: Seq<char>|
                    views(out@).contains(n) <==> views(dir_names@).take(i + 1).contains(n) && n != ".staging"@ && !(
                    lock is Some && views(lock.unwrap().plugins@).contains(n)) by {
                    if views(dir_names@).take(i + 1).contains(n) && n != name@ {
                        let k = choose|k: int| 0 <= k < i + 1 && #[trigger] views(dir_names@).take(i + 1)[k] == n;
                        assert(views(dir_names@).take(i as int)[k] == n);
                    }
                }
            }
        }
        i = i + 1;
    }
    proof {
        assert(views(dir_names@).take(dir_names@.len() as int) =~= views(dir_names@));
    }
    out
}

} // verus!
