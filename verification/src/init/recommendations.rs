//! Advisory pack recommendations: which registry packs fit the languages and
//! signals detected in a repository, best first.

use crate::csv::{copy_strings, views};
use crate::order::{insert_sorted_unique, lex_lt, lemma_lex_total, str_lex, strictly_sorted};
use crate::registry_manifest::{
    lemma_plugin_index_from, plugin_by_id, plugin_index, RegistryManifestV1, RegistryPackRecommendationV1,
    RegistryPackV1, RegistryPluginV1,
};
use crate::text::{str_eq, trim_spec, trim_str};
use vstd::prelude::*;
use vstd::string::*;

verus! {

broadcast use {vstd::seq_lib::to_multiset_insert, vstd::seq_lib::to_multiset_build};

/// A pack recommended for the repository, with its metadata.
#[derive(Debug, Clone)]
pub struct InitRegistryPackRecommendation {
    pub pack_id: String,
    pub why: String,
    pub cost_class: String,
    pub runtime_kind: String,
    pub requires: Vec<String>,
    /// The repository signals that the recommendation's signal selectors name.
    pub matched_signals: Vec<String>,
}

/// The recommendations, best first.
#[derive(Debug, Clone)]
pub struct InitRecommendations {
    pub recommended: Vec<InitRegistryPackRecommendation>,
}

/// Some item of `cands` is in `have`.
pub open spec fn any_in(cands: Seq<Seq<char>>, have: Seq<Seq<char>>) -> bool {
    exists|i: int| 0 <= i < cands.len() && have.contains(#[trigger] cands[i])
}

/// Every item of `req` is in `have`.
pub open spec fn all_in(req: Seq<Seq<char>>, have: Seq<Seq<char>>) -> bool {
    forall|i: int| 0 <= i < req.len() ==> have.contains(#[trigger] req[i])
}

/// A selector list that is empty imposes nothing; one that is not must meet its test.
pub open spec fn any_selector(sel: Seq<Seq<char>>, have: Seq<Seq<char>>) -> bool {
    sel.len() == 0 || any_in(sel, have)
}

pub open spec fn all_selector(sel: Seq<Seq<char>>, have: Seq<Seq<char>>) -> bool {
    sel.len() == 0 || all_in(sel, have)
}

/// The recommendation applies: the no-language fallback applies exactly when
/// no language was detected; otherwise each non-empty selector list must be met.
pub open spec fn matches_spec(r: RegistryPackRecommendationV1, languages: Seq<Seq<char>>, signals: Seq<Seq<char>>) -> bool {
    if r.when_no_languages {
        languages.len() == 0
    } else {
        &&& any_selector(views(r.languages_any@), languages)
        &&& all_selector(views(r.languages_all@), languages)
        &&& any_selector(views(r.signals_any@), signals)
        &&& all_selector(views(r.signals_all@), signals)
    }
}

/// The items of `s`, in order, that `sel` holds.
pub open spec fn kept_in(s: Seq<Seq<char>>, sel: Seq<Seq<char>>) -> Seq<Seq<char>>
    decreases s.len(),
{
    if s.len() == 0 {
        Seq::empty()
    } else {
        let rest = kept_in(s.drop_last(), sel);
        if sel.contains(s.last()) {
            rest.push(s.last())
        } else {
            rest
        }
    }
}

/// The repository signals that the recommendation's signal selectors name, in the repository's order.
pub open spec fn matched_signals_spec(r: RegistryPackRecommendationV1, signals: Seq<Seq<char>>) -> Seq<Seq<char>> {
    kept_in(signals, views(r.signals_any@) + views(r.signals_all@))
}

/// `x` is among the strings of `v`.
pub fn contains_str(v: &[String], x: &str) -> (b: bool)
    ensures
        b == views(v@).contains(x@),
{
    let mut i: usize = 0;
    while i < v.len()
        invariant
            i <= v@.len(),
            forall|k: int| 0 <= k < i ==> views(v@)[k] != x@,
        decreases v@.len() - i,
    {
        if str_eq(v[i].as_str(), x) {
            assert(views(v@)[i as int] == x@);
            return true;
        }
        i = i + 1;
    }
    false
}

fn any_of(sel: &[String], have: &[String]) -> (b: bool)
    ensures
        b == any_in(views(sel@), views(have@)),
{
    let mut i: usize = 0;
    while i < sel.len()
        invariant
            i <= sel@.len(),
            forall|k: int| 0 <= k < i ==> !views(have@).contains(#[trigger] views(sel@)[k]),
        decreases sel@.len() - i,
    {
        if contains_str(have, sel[i].as_str()) {
            assert(views(have@).contains(views(sel@)[i as int]));
            return true;
        }
        i = i + 1;
    }
    false
}

fn all_of(sel: &[String], have: &[String]) -> (b: bool)
    ensures
        b == all_in(views(sel@), views(have@)),
{
    let mut i: usize = 0;
    while i < sel.len()
        invariant
            i <= sel@.len(),
            forall|k: int| 0 <= k < i ==> views(have@).contains(#[trigger] views(sel@)[k]),
        decreases sel@.len() - i,
    {
        if !contains_str(have, sel[i].as_str()) {
            assert(!views(have@).contains(views(sel@)[i as int]));
            return false;
        }
        i = i + 1;
    }
    true
}

/// Whether the recommendation applies to the detected languages and signals.
pub fn matches_recommendation(rec: &RegistryPackRecommendationV1, languages: &[String], signals: &[String]) -> (b:
    bool)
    ensures
        b == matches_spec(*rec, views(languages@), views(signals@)),
{
    if rec.when_no_languages {
        return languages.len() == 0;
    }
    if rec.languages_any.len() > 0 && !any_of(rec.languages_any.as_slice(), languages) {
        return false;
    }
    if rec.languages_all.len() > 0 && !all_of(rec.languages_all.as_slice(), languages) {
        return false;
    }
    if rec.signals_any.len() > 0 && !any_of(rec.signals_any.as_slice(), signals) {
        return false;
    }
    if rec.signals_all.len() > 0 && !all_of(rec.signals_all.as_slice(), signals) {
        return false;
    }
    true
}

/// The repository signals that the recommendation's signal selectors name.
pub fn matched_signals(rec: &RegistryPackRecommendationV1, signals: &[String]) -> (out: Vec<String>)
    ensures
        views(out@) == matched_signals_spec(*rec, views(signals@)),
{
    let ghost sel = views(rec.signals_any@) + views(rec.signals_all@);
    let mut out: Vec<String> = Vec::new();
    let mut i: usize = 0;
    proof {
        assert(views(signals@).take(0) =~= Seq::<Seq<char>>::empty());
        assert(views(out@) =~= Seq::<Seq<char>>::empty());
    }
    while i < signals.len()
        invariant
            i <= signals@.len(),
            sel == views(rec.signals_any@) + views(rec.signals_all@),
            views(out@) == kept_in(views(signals@).take(i as int), sel),
        decreases signals@.len() - i,
    {
        let s = signals[i].as_str();
        let hit = contains_str(rec.signals_any.as_slice(), s) || contains_str(rec.signals_all.as_slice(), s);
        proof {
            let t = views(signals@).take(i + 1);
            assert(t.drop_last() =~= views(signals@).take(i as int));
            assert(t.last() == s@);
            if sel.contains(s@) {
                let k = choose|k: int| 0 <= k < sel.len() && sel[k] == s@;
                if k < views(rec.signals_any@).len() {
                    assert(views(rec.signals_any@)[k] == s@);
                } else {
                    assert(views(rec.signals_all@)[k - views(rec.signals_any@).len()] == s@);
                }
            }
            if views(rec.signals_any@).contains(s@) {
                let k = choose|k: int| 0 <= k < views(rec.signals_any@).len() && views(rec.signals_any@)[k] == s@;
                assert(sel[k] == s@);
            }
            if views(rec.signals_all@).contains(s@) {
                let k = choose|k: int| 0 <= k < views(rec.signals_all@).len() && views(rec.signals_all@)[k] == s@;
                assert(sel[k + views(rec.signals_any@).len()] == s@);
            }
        }
        if hit {
            out.push(signals[i].clone());
            proof {
                assert(views(out@) =~= kept_in(views(signals@).take(i as int), sel).push(s@));
            }
        }
        i = i + 1;
    }
    proof {
        assert(views(signals@).take(signals@.len() as int) =~= views(signals@));
    }
    out
}

/// The plugin with id `id`, where the manifest has one.
pub open spec fn member(plugins: Seq<RegistryPluginV1>, id: Seq<char>) -> Option<RegistryPluginV1> {
    match plugin_index(plugins, id) {
        Some(k) => Some(plugins[k]),
        None => None,
    }
}

/// What the pack's member plugins require, in member order, repeats included.
pub open spec fn member_requires(plugins: Seq<RegistryPluginV1>, ids: Seq<Seq<char>>) -> Seq<Seq<char>>
    decreases ids.len(),
{
    if ids.len() == 0 {
        Seq::empty()
    } else {
        member_requires(plugins, ids.drop_last()) + match member(plugins, ids.last()) {
            Some(p) => views(p.extra.requires@),
            None => Seq::empty(),
        }
    }
}

/// The value, where it is present and not blank.
pub open spec fn non_blank_value(v: Option<String>) -> Seq<Seq<char>> {
    match v {
        Some(s) => if trim_spec(s@).len() > 0 {
            seq![s@]
        } else {
            Seq::empty()
        },
        None => Seq::empty(),
    }
}

/// The member plugins' runtime kinds that are not blank, in member order.
pub open spec fn member_runtime_kinds(plugins: Seq<RegistryPluginV1>, ids: Seq<Seq<char>>) -> Seq<Seq<char>>
    decreases ids.len(),
{
    if ids.len() == 0 {
        Seq::empty()
    } else {
        member_runtime_kinds(plugins, ids.drop_last()) + match member(plugins, ids.last()) {
            Some(p) => non_blank_value(p.extra.runtime_kind),
            None => Seq::empty(),
        }
    }
}

/// The member plugins' cost classes that are not blank, in member order.
pub open spec fn member_cost_classes(plugins: Seq<RegistryPluginV1>, ids: Seq<Seq<char>>) -> Seq<Seq<char>>
    decreases ids.len(),
{
    if ids.len() == 0 {
        Seq::empty()
    } else {
        member_cost_classes(plugins, ids.drop_last()) + match member(plugins, ids.last()) {
            Some(p) => non_blank_value(p.extra.cost_class),
            None => Seq::empty(),
        }
    }
}

/// high > medium > low > anything else.
pub open spec fn cost_rank(s: Seq<char>) -> int {
    if s == "high"@ {
        3
    } else if s == "medium"@ {
        2
    } else if s == "low"@ {
        1
    } else {
        0
    }
}

/// The costliest class; of equally costly ones, the last.
pub open spec fn costliest(s: Seq<Seq<char>>) -> Seq<char>
    decreases s.len(),
{
    if s.len() == 0 {
        Seq::empty()
    } else if s.len() == 1 {
        s[0]
    } else {
        let best = costliest(s.drop_last());
        if cost_rank(s.last()) >= cost_rank(best) {
            s.last()
        } else {
            best
        }
    }
}

/// All items equal the first.
pub open spec fn all_same(s: Seq<Seq<char>>) -> bool {
    forall|i: int| 0 <= i < s.len() ==> #[trigger] s[i] == s[0]
}

/// The pack's runtime kind: the members' common one, "mixed" when they
/// differ, the pack's own when no member names one.
pub open spec fn derived_runtime_kind(pack: RegistryPackV1, kinds: Seq<Seq<char>>) -> Seq<char> {
    if kinds.len() == 0 {
        pack.runtime_kind@
    } else if all_same(kinds) {
        kinds[0]
    } else {
        "mixed"@
    }
}

/// The pack's cost class: the costliest of its members', the pack's own when none names one.
pub open spec fn derived_cost_class(pack: RegistryPackV1, classes: Seq<Seq<char>>) -> Seq<char> {
    if classes.len() == 0 {
        pack.cost_class@
    } else {
        costliest(classes)
    }
}

/// The pack states both its runtime kind and its cost class.
pub open spec fn has_aggregate(pack: RegistryPackV1) -> bool {
    trim_spec(pack.runtime_kind@).len() > 0 && trim_spec(pack.cost_class@).len() > 0
}

fn is_non_blank(s: &String) -> (b: bool)
    ensures
        b == (trim_spec(s@).len() > 0),
{
    let t = trim_str(s.as_str());
    t.unicode_len() > 0
}

fn rank_of(s: &str) -> (r: u8)
    ensures
        r as int == cost_rank(s@),
{
    if str_eq(s, "high") {
        3
    } else if str_eq(s, "medium") {
        2
    } else if str_eq(s, "low") {
        1
    } else {
        0
    }
}

proof fn lemma_take_drop_last(ids: Seq<Seq<char>>, i: int)
    requires
        0 <= i < ids.len(),
    ensures
        ids.take(i + 1).drop_last() == ids.take(i),
        ids.take(i + 1).last() == ids[i],
{
    assert(ids.take(i + 1).drop_last() =~= ids.take(i));
}

/// What the pack's members require, sorted, each once.
fn derived_requires(manifest: &RegistryManifestV1, pack: &RegistryPackV1) -> (out: Vec<String>)
    ensures
        strictly_sorted(views(out@)),
        views(out@).to_set() == member_requires(manifest.plugins@, views(pack.plugins@)).to_set(),
{
    let ghost ids = views(pack.plugins@);
    let mut out: Vec<String> = Vec::new();
    let mut i: usize = 0;
    proof {
        assert(views(out@).to_set() =~= member_requires(manifest.plugins@, ids.take(0)).to_set());
    }
    while i < pack.plugins.len()
        invariant
            ids == views(pack.plugins@),
            i <= ids.len(),
            strictly_sorted(views(out@)),
            views(out@).to_set() == member_requires(manifest.plugins@, ids.take(i as int)).to_set(),
        decreases ids.len() - i,
    {
        proof {
            lemma_take_drop_last(ids, i as int);
        }
        let ghost before = member_requires(manifest.plugins@, ids.take(i as int));
        match plugin_by_id(manifest, pack.plugins[i].as_str()) {
            Some(p) => {
                let ghost reqs = views(p.extra.requires@);
                let mut j: usize = 0;
                proof {
                    assert(before + reqs.take(0) =~= before);
                }
                while j < p.extra.requires.len()
                    invariant
                        j <= reqs.len(),
                        reqs == views(p.extra.requires@),
                        strictly_sorted(views(out@)),
                        views(out@).to_set() == (before + reqs.take(j as int)).to_set(),
                    decreases reqs.len() - j,
                {
                    insert_sorted_unique(&mut out, p.extra.requires[j].clone());
                    proof {
                        assert(before + reqs.take(j + 1) =~= (before + reqs.take(j as int)).push(reqs[j as int]));
                        (before + reqs.take(j as int)).lemma_push_to_set_commute(reqs[j as int]);
                    }
                    j = j + 1;
                }
                proof {
                    assert(reqs.take(reqs.len() as int) =~= reqs);
                }
            },
            None => {
                proof {
                    assert(before + Seq::<Seq<char>>::empty() =~= before);
                }
            },
        }
        i = i + 1;
    }
    proof {
        assert(ids.take(ids.len() as int) =~= ids);
    }
    out
}

/// The members' runtime kinds that are not blank.
fn runtime_kinds_of(manifest: &RegistryManifestV1, pack: &RegistryPackV1) -> (out: Vec<String>)
    ensures
        views(out@) == member_runtime_kinds(manifest.plugins@, views(pack.plugins@)),
{
    let ghost ids = views(pack.plugins@);
    let mut out: Vec<String> = Vec::new();
    let mut i: usize = 0;
    proof {
        assert(views(out@) =~= member_runtime_kinds(manifest.plugins@, ids.take(0)));
    }
    while i < pack.plugins.len()
        invariant
            ids == views(pack.plugins@),
            i <= ids.len(),
            views(out@) == member_runtime_kinds(manifest.plugins@, ids.take(i as int)),
        decreases ids.len() - i,
    {
        proof {
            lemma_take_drop_last(ids, i as int);
        }
        let ghost before = views(out@);
        match plugin_by_id(manifest, pack.plugins[i].as_str()) {
            Some(p) => match &p.extra.runtime_kind {
                Some(v) => {
                    if is_non_blank(v) {
                        out.push(v.clone());
                        proof {
                            assert(views(out@) =~= before + seq![v@]);
                        }
                    } else {
                        proof {
                            assert(before + Seq::<Seq<char>>::empty() =~= before);
                        }
                    }
                },
                None => {
                    proof {
                        assert(before + Seq::<Seq<char>>::empty() =~= before);
                    }
                },
            },
            None => {
                proof {
                    assert(before + Seq::<Seq<char>>::empty() =~= before);
                }
            },
        }
        i = i + 1;
    }
    proof {
        assert(ids.take(ids.len() as int) =~= ids);
    }
    out
}

/// The members' cost classes that are not blank.
fn cost_classes_of(manifest: &RegistryManifestV1, pack: &RegistryPackV1) -> (out: Vec<String>)
    ensures
        views(out@) == member_cost_classes(manifest.plugins@, views(pack.plugins@)),
{
    let ghost ids = views(pack.plugins@);
    let mut out: Vec<String> = Vec::new();
    let mut i: usize = 0;
    proof {
        assert(views(out@) =~= member_cost_classes(manifest.plugins@, ids.take(0)));
    }
    while i < pack.plugins.len()
        invariant
            ids == views(pack.plugins@),
            i <= ids.len(),
            views(out@) == member_cost_classes(manifest.plugins@, ids.take(i as int)),
        decreases ids.len() - i,
    {
        proof {
            lemma_take_drop_last(ids, i as int);
        }
        let ghost before = views(out@);
        match plugin_by_id(manifest, pack.plugins[i].as_str()) {
            Some(p) => match &p.extra.cost_class {
                Some(v) => {
                    if is_non_blank(v) {
                        out.push(v.clone());
                        proof {
                            assert(views(out@) =~= before + seq![v@]);
                        }
                    } else {
                        proof {
                            assert(before + Seq::<Seq<char>>::empty() =~= before);
                        }
                    }
                },
                None => {
                    proof {
                        assert(before + Seq::<Seq<char>>::empty() =~= before);
                    }
                },
            },
            None => {
                proof {
                    assert(before + Seq::<Seq<char>>::empty() =~= before);
                }
            },
        }
        i = i + 1;
    }
    proof {
        assert(ids.take(ids.len() as int) =~= ids);
    }
    out
}

/// The requirements, runtime kind and cost class `m` are the pack's: its own
/// where it states both runtime kind and cost class, else derived from its member plugins.
pub open spec fn metadata_fits(
    manifest: RegistryManifestV1,
    pack: RegistryPackV1,
    m: (Seq<Seq<char>>, Seq<char>, Seq<char>),
) -> bool {
    let ids = views(pack.plugins@);
    if has_aggregate(pack) {
        m.0 == views(pack.requires@) && m.1 == pack.runtime_kind@ && m.2 == pack.cost_class@
    } else {
        &&& strictly_sorted(m.0)
        &&& m.0.to_set() == member_requires(manifest.plugins@, ids).to_set()
        &&& m.1 == derived_runtime_kind(pack, member_runtime_kinds(manifest.plugins@, ids))
        &&& m.2 == derived_cost_class(pack, member_cost_classes(manifest.plugins@, ids))
    }
}

/// The pack's requirements, runtime kind and cost class: the pack's own where
/// it states both runtime kind and cost class, else derived from its member plugins.
pub fn effective_pack_metadata(manifest: &RegistryManifestV1, pack: &RegistryPackV1) -> (r: (
    Vec<String>,
    String,
    String,
))
    ensures
        metadata_fits(*manifest, *pack, (views(r.0@), r.1@, r.2@)),
{
    if is_non_blank(&pack.runtime_kind) && is_non_blank(&pack.cost_class) {
        return (copy_strings(pack.requires.as_slice()), pack.runtime_kind.clone(), pack.cost_class.clone());
    }
    let reqs = derived_requires(manifest, pack);
    let kinds = runtime_kinds_of(manifest, pack);
    let runtime_kind = if kinds.len() == 0 {
        pack.runtime_kind.clone()
    } else {
        let mut same = true;
        let mut i: usize = 1;
        while i < kinds.len()
            invariant
                1 <= i <= kinds@.len(),
                same == (forall|k: int| 0 <= k < i ==> #[trigger] views(kinds@)[k] == views(kinds@)[0]),
            decreases kinds@.len() - i,
        {
            if !str_eq(kinds[i].as_str(), kinds[0].as_str()) {
                same = false;
            }
            proof {
                assert(views(kinds@)[i as int] == kinds@[i as int]@);
                assert(views(kinds@)[0] == kinds@[0]@);
            }
            i = i + 1;
        }
        if same {
            kinds[0].clone()
        } else {
            String::from_str("mixed")
        }
    };
    let classes = cost_classes_of(manifest, pack);
    let cost_class = if classes.len() == 0 {
        pack.cost_class.clone()
    } else {
        let mut best: usize = 0;
        let mut i: usize = 1;
        proof {
            assert(views(classes@).take(1).drop_last() =~= Seq::<Seq<char>>::empty());
        }
        while i < classes.len()
            invariant
                1 <= i <= classes@.len(),
                best < i,
                classes@[best as int]@ == costliest(views(classes@).take(i as int)),
            decreases classes@.len() - i,
        {
            proof {
                lemma_take_drop_last(views(classes@), i as int);
            }
            if rank_of(classes[i].as_str()) >= rank_of(classes[best].as_str()) {
                best = i;
            }
            i = i + 1;
        }
        proof {
            assert(views(classes@).take(classes@.len() as int) =~= views(classes@));
        }
        classes[best].clone()
    };
    (reqs, runtime_kind, cost_class)
}

/// `r` is the recommendation of `pack` for the given languages and signals.
pub open spec fn recommendation_fits(
    r: InitRegistryPackRecommendation,
    manifest: RegistryManifestV1,
    pack: RegistryPackV1,
    signals: Seq<Seq<char>>,
) -> bool {
    &&& pack.recommendation is Some
    &&& r.pack_id@ == pack.id@
    &&& r.why@ == pack.recommendation.unwrap().why@
    &&& metadata_fits(manifest, pack, (views(r.requires@), r.runtime_kind@, r.cost_class@))
    &&& views(r.matched_signals@) == matched_signals_spec(pack.recommendation.unwrap(), signals)
}

/// The pack has a recommendation and it applies.
pub open spec fn pack_applies(pack: RegistryPackV1, languages: Seq<Seq<char>>, signals: Seq<Seq<char>>) -> bool {
    pack.recommendation is Some && matches_spec(pack.recommendation.unwrap(), languages, signals)
}

/// The recommendation for `pack`, with its priority, where the pack has one and it applies.
pub fn pack_recommendation(
    manifest: &RegistryManifestV1,
    pack: &RegistryPackV1,
    languages: &[String],
    signals: &[String],
) -> (r: Option<(u32, InitRegistryPackRecommendation)>)
    ensures
        r is Some <==> pack_applies(*pack, views(languages@), views(signals@)),
        r matches Some((prio, rec)) ==> prio == pack.recommendation.unwrap().priority && recommendation_fits(
            rec,
            *manifest,
            *pack,
            views(signals@),
        ),
{
    let rec = match &pack.recommendation {
        Some(rec) => rec,
        None => return None,
    };
    if !matches_recommendation(rec, languages, signals) {
        return None;
    }
    let (reqs, runtime_kind, cost_class) = effective_pack_metadata(manifest, pack);
    let matched = matched_signals(rec, signals);
    Some(
        (
            rec.priority,
            InitRegistryPackRecommendation {
                pack_id: pack.id.clone(),
                why: rec.why.clone(),
                cost_class,
                runtime_kind,
                requires: reqs,
                matched_signals: matched,
            },
        ),
    )
}

/// The indices of the packs, from the first `n`, whose recommendation applies.
pub open spec fn applicable_packs(packs: Seq<RegistryPackV1>, languages: Seq<Seq<char>>, signals: Seq<Seq<char>>, n: int) -> Seq<
    int,
>
    decreases n,
{
    if n <= 0 {
        Seq::empty()
    } else {
        let rest = applicable_packs(packs, languages, signals, n - 1);
        if pack_applies(packs[n - 1], languages, signals) {
            rest.push(n - 1)
        } else {
            rest
        }
    }
}

/// Priority `p1` with id `a` ranks before priority `p2` with id `b`: higher
/// priority first, then pack id in order.
pub open spec fn ranks_before(p1: u32, a: Seq<char>, p2: u32, b: Seq<char>) -> bool {
    p1 > p2 || (p1 == p2 && lex_lt(a, b))
}

fn ranks_before_exec(p1: u32, a: &str, p2: u32, b: &str) -> (r: bool)
    ensures
        r == ranks_before(p1, a@, p2, b@),
{
    p1 > p2 || (p1 == p2 && str_lex(a, b) == -1)
}

/// `out` holds, for the packs at `order`, their recommendations; `order` holds
/// each applicable pack once, higher priority first, then by pack id.
pub open spec fn ranked_as(
    out: Seq<InitRegistryPackRecommendation>,
    manifest: RegistryManifestV1,
    languages: Seq<Seq<char>>,
    signals: Seq<Seq<char>>,
    order: Seq<int>,
) -> bool {
    let packs = manifest.packs@;
    &&& order.to_multiset() == applicable_packs(packs, languages, signals, packs.len() as int).to_multiset()
    &&& order.len() == out.len()
    &&& forall|i: int|
        0 <= i < order.len() ==> 0 <= #[trigger] order[i] < packs.len() && recommendation_fits(
            out[i],
            manifest,
            packs[order[i]],
            signals,
        )
    &&& forall|i: int|
        0 <= i < order.len() - 1 ==> !ranks_before(
            packs[#[trigger] order[i + 1]].recommendation.unwrap().priority,
            packs[order[i + 1]].id@,
            packs[order[i]].recommendation.unwrap().priority,
            packs[order[i]].id@,
        )
}

/// The recommendations of the manifest's packs for the detected languages and
/// signals: one for each pack whose recommendation applies, higher priority
/// first, then by pack id.
pub fn recommendations_for_manifest_languages(
    manifest: &RegistryManifestV1,
    languages: &[String],
    signals: &[String],
) -> (out: Vec<InitRegistryPackRecommendation>)
    ensures
        exists|order: Seq<int>| #[trigger] ranked_as(out@, *manifest, views(languages@), views(signals@), order),
{
    let ghost packs = manifest.packs@;
    let ghost langs = views(languages@);
    let ghost sigs = views(signals@);
    let mut prios: Vec<u32> = Vec::new();
    let mut recs: Vec<InitRegistryPackRecommendation> = Vec::new();
    let ghost mut order: Seq<int> = Seq::empty();
    let mut k: usize = 0;
    while k < manifest.packs.len()
        invariant
            packs == manifest.packs@,
            langs == views(languages@),
            sigs == views(signals@),
            k <= packs.len(),
            prios@.len() == recs@.len(),
            order.len() == recs@.len(),
            order.to_multiset() == applicable_packs(packs, langs, sigs, k as int).to_multiset(),
            forall|i: int| 0 <= i < order.len() ==> 0 <= #[trigger] order[i] < packs.len(),
            forall|i: int|
                0 <= i < order.len() ==> recommendation_fits(#[trigger] recs@[i], *manifest, packs[order[i]], sigs),
            forall|i: int|
                0 <= i < order.len() ==> #[trigger] prios@[i] == packs[order[i]].recommendation.unwrap().priority,
            forall|i: int|
                0 <= i < order.len() - 1 ==> !ranks_before(
                    #[trigger] prios@[i + 1],
                    recs@[i + 1].pack_id@,
                    prios@[i],
                    recs@[i].pack_id@,
                ),
        decreases packs.len() - k,
    {
        let cand = pack_recommendation(manifest, &manifest.packs[k], languages, signals);
        match cand {
            None => {
                proof {
                    assert(applicable_packs(packs, langs, sigs, k + 1) == applicable_packs(packs, langs, sigs, k as int));
                }
            },
            Some((prio, rec)) => {
                let mut p: usize = 0;
                while p < recs.len()
                    invariant
                        p <= recs@.len(),
                        prios@.len() == recs@.len(),
                        p > 0 ==> !ranks_before(prio, rec.pack_id@, prios@[p - 1], recs@[p - 1].pack_id@),
                    ensures
                        p <= recs@.len(),
                        p > 0 ==> !ranks_before(prio, rec.pack_id@, prios@[p - 1], recs@[p - 1].pack_id@),
                        p < recs@.len() ==> ranks_before(prio, rec.pack_id@, prios@[p as int], recs@[p as int].pack_id@),
                    decreases recs@.len() - p,
                {
                    if ranks_before_exec(prio, rec.pack_id.as_str(), prios[p], recs[p].pack_id.as_str()) {
                        break;
                    }
                    p = p + 1;
                }
                proof {
                    if p < recs@.len() {
                        lemma_lex_total(rec.pack_id@, recs@[p as int].pack_id@);
                    }
                }
                let ghost old_prios = prios@;
                let ghost old_recs = recs@;
                let ghost old_order = order;
                let ghost rid = rec.pack_id@;
                prios.insert(p, prio);
                recs.insert(p, rec);
                proof {
                    assert(recs@[p as int].pack_id@ == rid);
                    assert(prios@[p as int] == prio);
                    order = order.insert(p as int, k as int);
                    assert(applicable_packs(packs, langs, sigs, k + 1) == applicable_packs(packs, langs, sigs, k as int).push(k as int));
                    assert forall|i: int| 0 <= i < order.len() implies 0 <= #[trigger] order[i] < packs.len() by {
                        if i > p { assert(order[i] == old_order[i - 1]); } else if i < p { assert(order[i] == old_order[i]); }
                    }
                    assert forall|i: int| 0 <= i < order.len() implies recommendation_fits(#[trigger] recs@[i], *manifest, packs[order[i]], sigs) by {
                        if i > p { assert(order[i] == old_order[i - 1] && recs@[i] == old_recs[i - 1]); } else if i < p { assert(order[i] == old_order[i] && recs@[i] == old_recs[i]); }
                    }
                    assert forall|i: int| 0 <= i < order.len() implies #[trigger] prios@[i] == packs[order[i]].recommendation.unwrap().priority by {
                        if i > p { assert(order[i] == old_order[i - 1] && prios@[i] == old_prios[i - 1]); } else if i < p { assert(order[i] == old_order[i] && prios@[i] == old_prios[i]); }
                    }
                    assert forall|i: int| 0 <= i < order.len() - 1 implies !ranks_before(#[trigger] prios@[i + 1], recs@[i + 1].pack_id@, prios@[i], recs@[i].pack_id@) by {
                        if i + 1 < p {
                            assert(prios@[i] == old_prios[i] && recs@[i] == old_recs[i]);
                            assert(prios@[i + 1] == old_prios[i + 1] && recs@[i + 1] == old_recs[i + 1]);
                            assert(!ranks_before(old_prios[i + 1], old_recs[i + 1].pack_id@, old_prios[i], old_recs[i].pack_id@));
                        } else if i + 1 == p {
                            assert(prios@[i] == old_prios[i] && recs@[i] == old_recs[i]);
                            assert(!ranks_before(prio, rid, old_prios[i], old_recs[i].pack_id@));
                        } else if i == p {
                            assert(prios@[i + 1] == old_prios[i] && recs@[i + 1] == old_recs[i]);
                            assert(ranks_before(prio, rid, old_prios[i], old_recs[i].pack_id@));
                            assert(!ranks_before(old_prios[i], old_recs[i].pack_id@, prio, rid));
                        } else {
                            assert(prios@[i] == old_prios[i - 1] && recs@[i] == old_recs[i - 1]);
                            assert(prios@[i + 1] == old_prios[i] && recs@[i + 1] == old_recs[i]);
                            let j = i - 1;
                            assert(old_prios[j + 1] == old_prios[i]);
                            assert(!ranks_before(old_prios[i], old_recs[i].pack_id@, old_prios[i - 1], old_recs[i - 1].pack_id@));
                        }
                    }
                }
            },
        }
        k = k + 1;
    }
    proof {
        assert forall|i: int| 0 <= i < order.len() - 1 implies !ranks_before(
            manifest.packs@[#[trigger] order[i + 1]].recommendation.unwrap().priority,
            manifest.packs@[order[i + 1]].id@,
            manifest.packs@[order[i]].recommendation.unwrap().priority,
            manifest.packs@[order[i]].id@,
        ) by {
            assert(prios@[i + 1] == packs[order[i + 1]].recommendation.unwrap().priority);
            assert(recommendation_fits(recs@[i + 1], *manifest, packs[order[i + 1]], sigs));
            assert(prios@[i] == packs[order[i]].recommendation.unwrap().priority);
            assert(recommendation_fits(recs@[i], *manifest, packs[order[i]], sigs));
        }
        assert(ranked_as(recs@, *manifest, langs, sigs, order));
    }
    recs
}

} // verus!
