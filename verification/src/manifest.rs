//! The registry data model: mods, their versions, artifacts, dependencies
//! and conflicts, plus the hash tables derived from a registry snapshot.
//! Maps are association lists; a later entry with a duplicate key is shadowed
//! by the first one on lookup.

use vstd::prelude::*;
use crate::requirement::VersionReq;
use crate::version::Version;

verus! {

/// Opaque stable string identifier of a mod.
pub type GUID = String;

/// The registry's mods, keyed by GUID.
pub type ManifestMods = Vec<(GUID, Mod)>;

/// sha256 hash (hex) to mod id and version.
pub type ModHashTable = Vec<(String, (GUID, Version))>;

/// Mod id and version to the list of its artifacts' sha256 hashes (hex).
pub type ReverseHashTable = Vec<((GUID, Version), Vec<String>)>;

/// An author entry of a mod.
#[derive(Debug)]
pub struct Author {
    pub url: String,
    pub icon_url: Option<String>,
}

/// The category a mod is listed under.
#[derive(Clone, Copy, Debug, PartialEq, Eq, Structural)]
pub enum Category {
    AssetImportingTweaks,
    BugWorkarounds,
    ContextMenuTweaks,
    DashTweaks,
    Developers,
    GeneralUITweaks,
    HardwareIntegrations,
    Inspectors,
    KeybindsGestures,
    Libraries,
    LogiX,
    Memes,
    Misc,
    Optimization,
    Plugins,
    TechnicalTweaks,
    VisualTweaks,
    Wizards,
    Unknown,
}

/// One installable binary file of a mod version, identified by URL or
/// explicit filename and by content hash. The install location, when given,
/// is a path relative to the application directory.
#[derive(Debug)]
pub struct Artifact {
    pub url: String,
    pub filename: Option<String>,
    pub sha256: String,
    pub blake3: Option<String>,
    pub install_location: Option<String>,
}

/// A requirement on another mod that must be installed alongside this one.
#[derive(Debug)]
pub struct Dependency {
    pub version: VersionReq,
}

/// A requirement describing versions of another mod that cannot coexist
/// with this one.
#[derive(Debug)]
pub struct Conflict {
    pub version: VersionReq,
}

/// One published version of a mod.
#[derive(Debug)]
pub struct ModVersion {
    pub changelog: Option<String>,
    pub release_url: Option<String>,
    pub neos_version_compatibility: Option<VersionReq>,
    pub modloader_version_compatibility: Option<VersionReq>,
    pub flags: Option<Vec<String>>,
    pub conflicts: Option<Vec<(GUID, Conflict)>>,
    pub dependencies: Option<Vec<(GUID, Dependency)>>,
    pub artifacts: Vec<Artifact>,
}

/// A mod as listed in the registry, with its published versions.
#[derive(Debug)]
pub struct Mod {
    pub name: String,
    pub color: Option<String>,
    pub description: String,
    pub authors: Vec<(String, Author)>,
    pub source_location: Option<String>,
    pub website: Option<String>,
    pub tags: Option<Vec<String>>,
    pub category: Category,
    pub flags: Option<Vec<String>>,
    pub versions: Vec<(Version, ModVersion)>,
}

/// One manifest document: an optional schema version and its mods.
#[derive(Debug)]
pub struct ModManifest {
    pub schema_version: Option<Version>,
    pub mods: ManifestMods,
}

/// The hash-table entries contributed by the artifacts of one mod version,
/// from artifact `k` on: each artifact's sha256 maps to the (GUID, version).
pub open spec fn art_hash_from(guid: String, ver: Version, arts: Seq<Artifact>, k: int) -> Seq<
    (String, (GUID, Version)),
>
    decreases arts.len() - k,
{
    if !(0 <= k < arts.len()) {
        Seq::empty()
    } else {
        seq![(arts[k].sha256, (guid, ver))] + art_hash_from(guid, ver, arts, k + 1)
    }
}

/// The hash-table entries contributed by one mod's versions, from entry `j` on.
pub open spec fn ver_hash_from(guid: String, vers: Seq<(Version, ModVersion)>, j: int) -> Seq<
    (String, (GUID, Version)),
>
    decreases vers.len() - j,
{
    if !(0 <= j < vers.len()) {
        Seq::empty()
    } else {
        art_hash_from(guid, vers[j].0, vers[j].1.artifacts@, 0) + ver_hash_from(guid, vers, j + 1)
    }
}

/// The hash-table entries of a registry, from mod `i` on.
pub open spec fn mods_hash_from(mods: Seq<(GUID, Mod)>, i: int) -> Seq<(String, (GUID, Version))>
    decreases mods.len() - i,
{
    if !(0 <= i < mods.len()) {
        Seq::empty()
    } else {
        ver_hash_from(mods[i].0, mods[i].1.versions@, 0) + mods_hash_from(mods, i + 1)
    }
}

/// The full hash table of a registry: for every mod, version and artifact,
/// in registry order, the artifact's sha256 mapped to that (GUID, version).
pub open spec fn spec_hashtable(mods: Seq<(GUID, Mod)>) -> Seq<(String, (GUID, Version))> {
    mods_hash_from(mods, 0)
}

/// Derives the sha256-to-(GUID, version) table of a registry snapshot.
pub fn hashtable_from_mod_list(mod_list: &ManifestMods) -> (r: ModHashTable)
    ensures
        r@ == spec_hashtable(mod_list@),
{
    let mut out: ModHashTable = Vec::new();
    let mut i: usize = 0;
    while i < mod_list.len()
        invariant
            i <= mod_list.len(),
            spec_hashtable(mod_list@) =~= out@ + mods_hash_from(mod_list@, i as int),
        decreases mod_list.len() - i,
    {
        let guid = &mod_list[i].0;
        let vers = &mod_list[i].1.versions;
        let mut j: usize = 0;
        while j < vers.len()
            invariant
                i < mod_list.len(),
                j <= vers.len(),
                *guid == mod_list@[i as int].0,
                *vers == mod_list@[i as int].1.versions,
                spec_hashtable(mod_list@) =~= out@ + ver_hash_from(*guid, vers@, j as int)
                    + mods_hash_from(mod_list@, i as int + 1),
            decreases vers.len() - j,
        {
            let ver = &vers[j].0;
            let arts = &vers[j].1.artifacts;
            let mut k: usize = 0;
            while k < arts.len()
                invariant
                    i < mod_list.len(),
                    j < vers.len(),
                    k <= arts.len(),
                    *guid == mod_list@[i as int].0,
                    *vers == mod_list@[i as int].1.versions,
                    *ver == vers@[j as int].0,
                    *arts == vers@[j as int].1.artifacts,
                    spec_hashtable(mod_list@) =~= out@ + art_hash_from(*guid, *ver, arts@, k as int)
                        + ver_hash_from(*guid, vers@, j as int + 1)
                        + mods_hash_from(mod_list@, i as int + 1),
                decreases arts.len() - k,
            {
                out.push((arts[k].sha256.clone(), (guid.clone(), ver.clone())));
                k = k + 1;
            }
            j = j + 1;
        }
        i = i + 1;
    }
    proof {
        assert(out@ =~= spec_hashtable(mod_list@));
    }
    out
}

/// The sha256 hashes of one version's artifacts, in order.
pub open spec fn spec_artifact_hashes(arts: Seq<Artifact>) -> Seq<String> {
    arts.map_values(|a: Artifact| a.sha256)
}

/// The reverse-table entries of one mod, from version `j` on: each (GUID,
/// version) mapped to the sequence of its artifacts' hashes.
pub open spec fn ver_rev_from(guid: String, vers: Seq<(Version, ModVersion)>, j: int) -> Seq<
    ((GUID, Version), Seq<String>),
>
    decreases vers.len() - j,
{
    if !(0 <= j < vers.len()) {
        Seq::empty()
    } else {
        seq![((guid, vers[j].0), spec_artifact_hashes(vers[j].1.artifacts@))] + ver_rev_from(
            guid,
            vers,
            j + 1,
        )
    }
}

/// The reverse-table entries of a registry, from mod `i` on.
pub open spec fn mods_rev_from(mods: Seq<(GUID, Mod)>, i: int) -> Seq<
    ((GUID, Version), Seq<String>),
>
    decreases mods.len() - i,
{
    if !(0 <= i < mods.len()) {
        Seq::empty()
    } else {
        ver_rev_from(mods[i].0, mods[i].1.versions@, 0) + mods_rev_from(mods, i + 1)
    }
}

/// The full reverse table of a registry: every (GUID, version) pair, in
/// registry order, mapped to the hashes of its declared artifacts.
pub open spec fn spec_reverse_table(mods: Seq<(GUID, Mod)>) -> Seq<((GUID, Version), Seq<String>)> {
    mods_rev_from(mods, 0)
}

/// The view of one reverse-table entry.
pub open spec fn rev_entry_view(p: ((GUID, Version), Vec<String>)) -> ((GUID, Version), Seq<String>) {
    (p.0, p.1@)
}

/// Derives the (GUID, version)-to-hashes table of a registry snapshot.
pub fn reverse_hashtable_from_mod_list(mod_list: &ManifestMods) -> (r: ReverseHashTable)
    ensures
        r@.map_values(|p: ((GUID, Version), Vec<String>)| rev_entry_view(p)) == spec_reverse_table(
            mod_list@,
        ),
{
    let mut out: ReverseHashTable = Vec::new();
    let mut i: usize = 0;
    while i < mod_list.len()
        invariant
            i <= mod_list.len(),
            spec_reverse_table(mod_list@) =~= out@.map_values(
                |p: ((GUID, Version), Vec<String>)| rev_entry_view(p),
            ) + mods_rev_from(mod_list@, i as int),
        decreases mod_list.len() - i,
    {
        let guid = &mod_list[i].0;
        let vers = &mod_list[i].1.versions;
        let mut j: usize = 0;
        while j < vers.len()
            invariant
                i < mod_list.len(),
                j <= vers.len(),
                *guid == mod_list@[i as int].0,
                *vers == mod_list@[i as int].1.versions,
                spec_reverse_table(mod_list@) =~= out@.map_values(
                    |p: ((GUID, Version), Vec<String>)| rev_entry_view(p),
                ) + ver_rev_from(*guid, vers@, j as int) + mods_rev_from(mod_list@, i as int + 1),
            decreases vers.len() - j,
        {
            let arts = &vers[j].1.artifacts;
            let mut hashes: Vec<String> = Vec::new();
            let mut k: usize = 0;
            while k < arts.len()
                invariant
                    k <= arts.len(),
                    *arts == vers@[j as int].1.artifacts,
                    j < vers.len(),
                    hashes@ =~= spec_artifact_hashes(arts@.take(k as int)),
                decreases arts.len() - k,
            {
                hashes.push(arts[k].sha256.clone());
                proof {
                    assert(arts@.take(k + 1) =~= arts@.take(k as int).push(arts@[k as int]));
                    assert(spec_artifact_hashes(arts@.take(k + 1)) =~= spec_artifact_hashes(
                        arts@.take(k as int),
                    ).push(arts@[k as int].sha256));
                }
                k = k + 1;
            }
            proof {
                assert(arts@.take(arts@.len() as int) =~= arts@);
            }
            let ghost prev = out@.map_values(|p: ((GUID, Version), Vec<String>)| rev_entry_view(p));
            out.push(((guid.clone(), vers[j].0.clone()), hashes));
            proof {
                assert(out@.map_values(|p: ((GUID, Version), Vec<String>)| rev_entry_view(p))
                    =~= prev + seq![((mod_list@[i as int].0, vers@[j as int].0), spec_artifact_hashes(vers@[j as int].1.artifacts@))]);
            }
            j = j + 1;
        }
        i = i + 1;
    }
    proof {
        assert(out@.map_values(|p: ((GUID, Version), Vec<String>)| rev_entry_view(p))
            =~= spec_reverse_table(mod_list@));
    }
    out
}

/// Where an upsert of `key` lands among string-keyed entries: replacing the
/// first entry with that key, or appended at the end.
pub open spec fn spec_upsert<T>(entries: Seq<(String, T)>, key: String, value: T) -> Seq<
    (String, T),
> {
    let i = crate::assoc::str_key_index(entries, key@);
    if i >= 0 {
        entries.update(i, (key, value))
    } else {
        entries.push((key, value))
    }
}

/// The result of folding the entries of `extra` into `acc`, in order: a
/// later entry for a GUID silently replaces an earlier one.
pub open spec fn spec_merge(acc: Seq<(GUID, Mod)>, extra: Seq<(GUID, Mod)>) -> Seq<(GUID, Mod)>
    decreases extra.len(),
{
    if extra.len() == 0 {
        acc
    } else {
        spec_merge(spec_upsert(acc, extra[0].0, extra[0].1), extra.skip(1))
    }
}

/// Flattens a later manifest's mods into an aggregate: entries for new GUIDs
/// are appended in order, and an entry for an already-present GUID replaces
/// it in place, silently (last write wins across sources).
pub fn merge_manifest_mods(base: ManifestMods, extra: ManifestMods) -> (r: ManifestMods)
    ensures
        r@ == spec_merge(base@, extra@),
{
    let ghost base0 = base@;
    let ghost extra0 = extra@;
    let mut acc = base;
    let mut rest = extra;
    while rest.len() > 0
        invariant
            spec_merge(acc@, rest@) == spec_merge(base0, extra0),
        decreases rest.len(),
    {
        let ghost pre = rest@;
        let e = rest.remove(0);
        proof {
            assert(rest@ =~= pre.skip(1));
        }
        acc = upsert_mod(acc, e.0, e.1);
    }
    acc
}

/// Inserts or replaces the entry for one GUID.
fn upsert_mod(entries: ManifestMods, key: GUID, value: Mod) -> (r: ManifestMods)
    ensures
        r@ == spec_upsert(entries@, key, value),
{
    let mut i: usize = 0;
    while i < entries.len()
        invariant
            i <= entries.len(),
            forall|j: int| 0 <= j < i ==> (#[trigger] entries@[j]).0@ != key@,
        decreases entries.len() - i,
    {
        if crate::text::str_eq(entries[i].0.as_str(), key.as_str()) {
            proof {
                crate::assoc::lemma_str_key_index_is(entries@, key@, i as int);
            }
            let mut out = entries;
            out.set(i, (key, value));
            return out;
        }
        i = i + 1;
    }
    proof {
        crate::assoc::lemma_str_key_index_is(entries@, key@, entries@.len() as int);
    }
    let mut out = entries;
    out.push((key, value));
    out
}

} // verus!
