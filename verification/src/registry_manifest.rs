//! The plugin registry manifest (schema `compas.registry.manifest.v1`) and its validation.

use crate::text::{concat, str_eq};
use vstd::prelude::*;

verus! {

#[derive(Debug, Clone)]
pub struct RegistryArchiveV1 {
    pub name: String,
    pub sha256: String,
}

#[derive(Debug, Clone)]
pub struct RegistryPluginPackageV1 {
    pub version: String,
    pub kind: String,
    pub maturity: String,
    pub runtime: String,
    pub portable: bool,
    pub languages: Vec<String>,
    pub entrypoint: String,
    pub license: String,
}

/// The open-ended metadata of a plugin, as far as the library reads it.
#[derive(Debug, Clone)]
pub struct RegistryPluginExtra {
    /// The string items of the `requires` array.
    pub requires: Vec<String>,
    /// `runtime_kind`, where it is a string.
    pub runtime_kind: Option<String>,
    /// `cost_class`, where it is a string.
    pub cost_class: Option<String>,
    /// A sunset marker object with at least one field is present.
    pub sunset_marker: bool,
}

#[derive(Debug, Clone)]
pub struct RegistryPluginV1 {
    pub id: String,
    pub aliases: Vec<String>,
    pub path: String,
    pub status: String,
    pub owner: String,
    pub description: String,
    pub package: RegistryPluginPackageV1,
    pub tier: Option<String>,
    pub maintainers: Option<Vec<String>>,
    pub tags: Option<Vec<String>>,
    pub extra: RegistryPluginExtra,
}

#[derive(Debug, Clone)]
pub struct RegistryPackRecommendationV1 {
    pub priority: u32,
    pub why: String,
    pub languages_any: Vec<String>,
    pub languages_all: Vec<String>,
    pub signals_any: Vec<String>,
    pub signals_all: Vec<String>,
    pub when_no_languages: bool,
}

#[derive(Debug, Clone)]
pub struct RegistryPackV1 {
    pub id: String,
    pub description: String,
    pub plugins: Vec<String>,
    pub capabilities: Vec<String>,
    pub requires: Vec<String>,
    pub runtime_kind: String,
    pub cost_class: String,
    pub recommendation: Option<RegistryPackRecommendationV1>,
}

#[derive(Debug, Clone)]
pub struct RegistryManifestV1 {
    pub schema: String,
    pub registry_version: String,
    pub archive: RegistryArchiveV1,
    pub plugins: Vec<RegistryPluginV1>,
    pub packs: Vec<RegistryPackV1>,
}

/// A recommendation names at least one selector: a language or signal list,
/// or the no-language fallback.
pub open spec fn has_selector(r: RegistryPackRecommendationV1) -> bool {
    r.when_no_languages || r.languages_any@.len() > 0 || r.languages_all@.len() > 0
        || r.signals_any@.len() > 0 || r.signals_all@.len() > 0
}

/// The pack's recommendation, where it has one, names a selector.
pub open spec fn pack_valid(p: RegistryPackV1) -> bool {
    p.recommendation is Some ==> has_selector(p.recommendation.unwrap())
}

pub open spec fn selector_error(id: Seq<char>) -> Seq<char> {
    "registry manifest pack '"@ + id + "': recommendation must define at least one selector"@
}

/// The first pack, from `i` on, that is not valid.
pub open spec fn first_invalid_pack(packs: Seq<RegistryPackV1>, i: int) -> Option<int>
    decreases packs.len() - i,
{
    if i < 0 || i >= packs.len() {
        None
    } else if !pack_valid(packs[i]) {
        Some(i)
    } else {
        first_invalid_pack(packs, i + 1)
    }
}

fn recommendation_has_selector(r: &RegistryPackRecommendationV1) -> (b: bool)
    ensures
        b == has_selector(*r),
{
    r.when_no_languages || r.languages_any.len() > 0 || r.languages_all.len() > 0 || r.signals_any.len() > 0
        || r.signals_all.len() > 0
}

/// Checks the manifest: each pack recommendation must name a selector; the
/// error names the first pack that does not.
pub fn validate_manifest_v1(manifest: &RegistryManifestV1) -> (r: Result<(), String>)
    ensures
        match first_invalid_pack(manifest.packs@, 0) {
            None => r is Ok,
            Some(k) => r is Err && r->Err_0@ == selector_error(manifest.packs@[k].id@),
        },
{
    let mut i: usize = 0;
    while i < manifest.packs.len()
        invariant
            i <= manifest.packs@.len(),
            first_invalid_pack(manifest.packs@, 0) == first_invalid_pack(manifest.packs@, i as int),
        decreases manifest.packs@.len() - i,
    {
        let pack = &manifest.packs[i];
        match &pack.recommendation {
            Some(rec) => {
                if !recommendation_has_selector(rec) {
                    let head = concat("registry manifest pack '", pack.id.as_str());
                    let msg = concat(head.as_str(), "': recommendation must define at least one selector");
                    return Err(msg);
                }
            },
            None => {},
        }
        i = i + 1;
    }
    Ok(())
}

/// The index of the first plugin, from `i` on, with id `id`.
pub open spec fn plugin_index_from(plugins: Seq<RegistryPluginV1>, id: Seq<char>, i: int) -> Option<int>
    decreases plugins.len() - i,
{
    if i < 0 || i >= plugins.len() {
        None
    } else if plugins[i].id@ == id {
        Some(i)
    } else {
        plugin_index_from(plugins, id, i + 1)
    }
}

/// The index of the first plugin with id `id`.
pub open spec fn plugin_index(plugins: Seq<RegistryPluginV1>, id: Seq<char>) -> Option<int> {
    plugin_index_from(plugins, id, 0)
}

pub proof fn lemma_plugin_index_from(plugins: Seq<RegistryPluginV1>, id: Seq<char>, i: int)
    requires
        0 <= i,
    ensures
        plugin_index_from(plugins, id, i) matches Some(k) ==> i <= k < plugins.len() && plugins[k].id@ == id,
        plugin_index_from(plugins, id, i) is None <==> forall|k: int| i <= k < plugins.len() ==> plugins[k].id@ != id,
    decreases plugins.len() - i,
{
    if i < plugins.len() {
        lemma_plugin_index_from(plugins, id, i + 1);
    }
}

/// The first plugin of the manifest with id `id`.
pub fn plugin_by_id<'a>(manifest: &'a RegistryManifestV1, id: &str) -> (r: Option<&'a RegistryPluginV1>)
    ensures
        match plugin_index(manifest.plugins@, id@) {
            None => r is None,
            Some(k) => r == Some(&manifest.plugins@[k]),
        },
{
    let mut i: usize = 0;
    while i < manifest.plugins.len()
        invariant
            i <= manifest.plugins@.len(),
            plugin_index(manifest.plugins@, id@) == plugin_index_from(manifest.plugins@, id@, i as int),
        decreases manifest.plugins@.len() - i,
    {
        if str_eq(manifest.plugins[i].id.as_str(), id) {
            return Some(&manifest.plugins[i]);
        }
        i = i + 1;
    }
    None
}

} // verus!
