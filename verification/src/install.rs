//! Installed-state model, conflict detection and the install executor.
//!
//! An installed state ([`ModMap`]) maps mod GUIDs to the versions currently
//! on disk and the files each version brought. The conflict detector walks a
//! state against a registry snapshot and reports every inconsistency it can
//! see; it never fails. The virtual executor applies install plans to an
//! in-memory state for preview and testing.

use vstd::prelude::*;
use std::sync::Arc;
use crate::assoc::{str_key_get, str_key_lookup, ver_key_get, ver_key_lookup};
use crate::manifest::{Artifact, GUID, ManifestMods, Mod, ModVersion};
use crate::paths::{find_filename_from_url, join_path, spec_filename_from_url, spec_join_path};
use crate::requirement::{ComparatorView, VersionReq};
use crate::version::{Version, VersionView};

verus! {

/// A mod id together with one of its versions.
pub type IDVersion = (GUID, Version);

/// A mod id together with a version requirement on it.
pub type IDVersionReq = (GUID, VersionReq);

/// Snapshot of installed mods: GUID to installed versions, each with the
/// files it brought.
pub type ModMap = Vec<(GUID, Vec<(Version, ModFile)>)>;

/// One file on disk belonging to an installed mod version.
#[derive(Debug)]
pub struct ModFileArtifact {
    pub file_path: String,
    pub file_hash: String,
    pub disabled: bool,
}

/// The files one installed mod version brought.
#[derive(Debug)]
pub struct ModFile {
    pub files: Vec<ModFileArtifact>,
}

/// The mathematical model of a [`ModFileArtifact`].
pub struct ModFileArtifactView {
    pub file_path: Seq<char>,
    pub file_hash: Seq<char>,
    pub disabled: bool,
}

impl View for ModFileArtifact {
    type V = ModFileArtifactView;

    open spec fn view(&self) -> ModFileArtifactView {
        ModFileArtifactView {
            file_path: self.file_path@,
            file_hash: self.file_hash@,
            disabled: self.disabled,
        }
    }
}

impl View for ModFile {
    type V = Seq<ModFileArtifactView>;

    open spec fn view(&self) -> Seq<ModFileArtifactView> {
        self.files@.map_values(|a: ModFileArtifact| a@)
    }
}

impl Clone for ModFile {
    fn clone(&self) -> (r: Self)
        ensures
            r@ == self@,
    {
        let mut files: Vec<ModFileArtifact> = Vec::new();
        let mut i: usize = 0;
        while i < self.files.len()
            invariant
                i <= self.files.len(),
                files@.map_values(|a: ModFileArtifact| a@) =~= self@.take(i as int),
            decreases self.files.len() - i,
        {
            let ghost prev = files@.map_values(|a: ModFileArtifact| a@);
            files.push(self.files[i].clone());
            proof {
                assert(files@.map_values(|a: ModFileArtifact| a@) =~= prev + seq![self@[i as int]]);
                assert(prev + seq![self@[i as int]] =~= self@.take(i + 1));
            }
            i = i + 1;
        }
        proof {
            assert(self@.take(self.files.len() as int) =~= self@);
        }
        ModFile { files }
    }
}

impl Clone for ModFileArtifact {
    fn clone(&self) -> (r: Self)
        ensures
            r == *self,
    {
        ModFileArtifact {
            file_path: self.file_path.clone(),
            file_hash: self.file_hash.clone(),
            disabled: self.disabled,
        }
    }
}

/// The filename an artifact installs as, before any fallback: the explicit
/// filename if given, else the one derived from the URL.
pub open spec fn spec_artifact_filename(a: Artifact) -> Option<Seq<char>> {
    match a.filename {
        Some(f) => Some(f@),
        None => spec_filename_from_url(a.url@, ".dll"@),
    }
}

/// The directory an artifact installs into: its declared location, else the
/// conventional mods directory.
pub open spec fn spec_install_dir(a: Artifact) -> Seq<char> {
    match a.install_location {
        Some(l) => l@,
        None => "/nml_mods"@,
    }
}

/// The full intended install path of an artifact whose filename resolves.
pub open spec fn spec_artifact_path_opt(a: Artifact) -> Option<Seq<char>> {
    match spec_artifact_filename(a) {
        Some(f) => Some(spec_join_path(spec_install_dir(a), f)),
        None => None,
    }
}

/// The filename an artifact installs as, with the synthetic fallback the
/// conflict detector uses when nothing resolves.
pub open spec fn spec_artifact_filename_or_unknown(a: Artifact) -> Seq<char> {
    match spec_artifact_filename(a) {
        Some(f) => f,
        None => "unknown.dll"@,
    }
}

/// The full intended install path the conflict detector computes.
pub open spec fn spec_artifact_path(a: Artifact) -> Seq<char> {
    spec_join_path(spec_install_dir(a), spec_artifact_filename_or_unknown(a))
}

/// The filename of an artifact, if explicit or derivable from its URL.
fn artifact_filename(a: &Artifact) -> (r: Option<String>)
    ensures
        match r {
            Some(f) => spec_artifact_filename(*a) == Some(f@),
            None => spec_artifact_filename(*a) is None,
        },
{
    match &a.filename {
        Some(f) => Some(f.clone()),
        None => find_filename_from_url(a.url.as_str(), ".dll"),
    }
}

/// The install path of an artifact for a given filename.
fn artifact_path_for(a: &Artifact, filename: &str) -> (r: String)
    ensures
        r@ == spec_join_path(spec_install_dir(*a), filename@),
{
    match &a.install_location {
        Some(l) => join_path(l.as_str(), filename),
        None => join_path("/nml_mods", filename),
    }
}

/// The file records an install of `(mod_id, ver)` is expected to produce:
/// one per declared artifact whose filename resolves, at its intended path,
/// with the declared hash, enabled.
pub open spec fn mod_file_arts_from(arts: Seq<Artifact>, k: int) -> Seq<ModFileArtifactView>
    decreases arts.len() - k,
{
    if !(0 <= k < arts.len()) {
        Seq::empty()
    } else {
        match spec_artifact_path_opt(arts[k]) {
            Some(p) => seq![
                ModFileArtifactView { file_path: p, file_hash: arts[k].sha256@, disabled: false },
            ] + mod_file_arts_from(arts, k + 1),
            None => mod_file_arts_from(arts, k + 1),
        }
    }
}

/// What [`ModFile::new`] yields: the expected file records of the
/// registry-declared artifacts of `(mod_id, ver)`, or none when the registry
/// does not know that pair.
pub open spec fn spec_mod_file(mod_id: Seq<char>, ver: VersionView, mods: Seq<(GUID, Mod)>) -> Seq<
    ModFileArtifactView,
> {
    match str_key_lookup(mods, mod_id) {
        None => Seq::empty(),
        Some(m) => match ver_key_lookup(m.versions@, ver) {
            None => Seq::empty(),
            Some(mv) => mod_file_arts_from(mv.artifacts@, 0),
        },
    }
}

impl ModFile {
    /// Synthesizes the file records an install of `(mod_id, version)` should
    /// produce, from the registry's declared artifacts.
    pub fn new(mod_id: &str, version: &Version, mods: &ManifestMods) -> (r: ModFile)
        ensures
            r@ == spec_mod_file(mod_id@, version@, mods@),
    {
        let mut files: Vec<ModFileArtifact> = Vec::new();
        let mod_info = match str_key_get(mods, mod_id) {
            Some(m) => m,
            None => {
                return ModFile { files };
            },
        };
        let version_info = match ver_key_get(&mod_info.versions, version) {
            Some(mv) => mv,
            None => {
                return ModFile { files };
            },
        };
        let arts = &version_info.artifacts;
        let mut k: usize = 0;
        while k < arts.len()
            invariant
                k <= arts.len(),
                spec_mod_file(mod_id@, version@, mods@) =~= files@.map_values(
                    |a: ModFileArtifact| a@,
                ) + mod_file_arts_from(arts@, k as int),
            decreases arts.len() - k,
        {
            let ghost prev = files@.map_values(|a: ModFileArtifact| a@);
            if let Some(filename) = artifact_filename(&arts[k]) {
                let path = artifact_path_for(&arts[k], filename.as_str());
                files.push(
                    ModFileArtifact {
                        file_path: path,
                        file_hash: arts[k].sha256.clone(),
                        disabled: false,
                    },
                );
                proof {
                    assert(files@.map_values(|a: ModFileArtifact| a@) =~= prev + seq![
                        ModFileArtifactView {
                            file_path: spec_join_path(
                                spec_install_dir(arts@[k as int]),
                                spec_artifact_filename_or_unknown(arts@[k as int]),
                            ),
                            file_hash: arts@[k as int].sha256@,
                            disabled: false,
                        },
                    ]);
                }
            }
            k = k + 1;
        }
        proof {
            assert(spec_mod_file(mod_id@, version@, mods@) =~= files@.map_values(
                |a: ModFileArtifact| a@,
            ));
        }
        ModFile { files }
    }
}

/// One finding of the conflict detector. A finding is a diagnostic value,
/// not an error: detection never fails, it returns zero or more of these.
#[derive(Debug)]
pub enum ModConflict {
    /// More than one version of a single mod is installed.
    VersionConflict(GUID),
    /// An installed mod declares a conflict on another installed mod whose
    /// installed version matches the conflict requirement.
    DirectConflict { this: IDVersion, conflict_with: IDVersion },
    /// A declared dependency is not installed at all.
    DependencyMissing { this: IDVersion, needs: IDVersionReq },
    /// A declared dependency is installed, but no installed version of it
    /// satisfies the requirement; reports all installed versions found.
    DependencyMismatch { this: IDVersion, needs: IDVersionReq, found_versions: Vec<Version> },
    /// No installed file's hash matches a declared artifact of the mod.
    IncompleteInstall { this: IDVersion, missing_file: String },
    /// An artifact's intended install path is already claimed by an earlier
    /// artifact of this detection pass: one of another mod, or of this same
    /// mod version. A claim by a different version of the same mod does not
    /// collide; that situation is reported as a version conflict instead.
    FileConflict { this: IDVersion, already_exists: String },
}

/// The mathematical model of a [`ModConflict`].
pub enum ModConflictView {
    VersionConflict(Seq<char>),
    DirectConflict { this: (Seq<char>, VersionView), conflict_with: (Seq<char>, VersionView) },
    DependencyMissing { this: (Seq<char>, VersionView), needs: (Seq<char>, Seq<ComparatorView>) },
    DependencyMismatch {
        this: (Seq<char>, VersionView),
        needs: (Seq<char>, Seq<ComparatorView>),
        found_versions: Seq<VersionView>,
    },
    IncompleteInstall { this: (Seq<char>, VersionView), missing_file: Seq<char> },
    FileConflict { this: (Seq<char>, VersionView), already_exists: Seq<char> },
}

impl View for ModConflict {
    type V = ModConflictView;

    open spec fn view(&self) -> ModConflictView {
        match self {
            ModConflict::VersionConflict(g) => ModConflictView::VersionConflict(g@),
            ModConflict::DirectConflict { this, conflict_with } => ModConflictView::DirectConflict {
                this: (this.0@, this.1@),
                conflict_with: (conflict_with.0@, conflict_with.1@),
            },
            ModConflict::DependencyMissing { this, needs } => ModConflictView::DependencyMissing {
                this: (this.0@, this.1@),
                needs: (needs.0@, needs.1@),
            },
            ModConflict::DependencyMismatch { this, needs, found_versions } =>
                ModConflictView::DependencyMismatch {
                this: (this.0@, this.1@),
                needs: (needs.0@, needs.1@),
                found_versions: found_versions@.map_values(|v: Version| v@),
            },
            ModConflict::IncompleteInstall { this, missing_file } =>
                ModConflictView::IncompleteInstall {
                this: (this.0@, this.1@),
                missing_file: missing_file@,
            },
            ModConflict::FileConflict { this, already_exists } => ModConflictView::FileConflict {
                this: (this.0@, this.1@),
                already_exists: already_exists@,
            },
        }
    }
}

/// The view of a list of findings.
pub open spec fn conflicts_view(cs: Seq<ModConflict>) -> Seq<ModConflictView> {
    cs.map_values(|c: ModConflict| c@)
}

/// One claim of the detection pass: a path with the GUID and version of the
/// mod whose artifact claimed it first.
pub type ClaimView = (Seq<char>, Seq<char>, VersionView);

/// The claimed-path set of one detection pass.
pub open spec fn claimed_view(c: Seq<(String, String, Version)>) -> Seq<ClaimView> {
    c.map_values(|p: (String, String, Version)| (p.0@, p.1@, p.2@))
}

pub open spec fn path_claimed(claimed: Seq<ClaimView>, p: Seq<char>) -> bool {
    exists|i: int| 0 <= i < claimed.len() && (#[trigger] claimed[i]).0 == p
}

/// An earlier claim of `p` collides with an artifact of `(g, ver)`: any
/// claim by another mod, or by the same mod version over again. The one
/// exemption is an earlier claim by a different version of the same mod:
/// versions of one mod share their files by design, and the simultaneous
/// install itself is already reported as a version conflict.
pub open spec fn path_claim_collides(
    claimed: Seq<ClaimView>,
    p: Seq<char>,
    g: Seq<char>,
    ver: VersionView,
) -> bool {
    exists|i: int|
        0 <= i < claimed.len() && (#[trigger] claimed[i]).0 == p && (claimed[i].1 != g
            || crate::version::sem_eq(claimed[i].2, ver))
}

/// Some installed file of this mod version carries the hash `h`.
pub open spec fn file_has_hash(file: Seq<ModFileArtifactView>, h: Seq<char>) -> bool {
    exists|i: int| 0 <= i < file.len() && (#[trigger] file[i]).file_hash == h
}

/// Index of the first installed version satisfying `req`, or the length.
pub open spec fn first_req_match(
    entries: Seq<(Version, ModFile)>,
    req: Seq<ComparatorView>,
    j: int,
) -> int
    decreases entries.len() - j,
{
    if !(0 <= j < entries.len()) {
        entries.len() as int
    } else if crate::requirement::req_matches(req, entries[j].0@) {
        j
    } else {
        first_req_match(entries, req, j + 1)
    }
}

/// The artifact findings for one installed mod version, from artifact `k`
/// on, threading the claimed-path set: a path whose earlier claim collides
/// is a file conflict; a path not yet claimed is claimed for this pair; a
/// declared hash that no installed file carries is an incomplete install.
pub open spec fn art_checks_from(
    guid: Seq<char>,
    ver: VersionView,
    file: Seq<ModFileArtifactView>,
    arts: Seq<Artifact>,
    k: int,
    claimed: Seq<ClaimView>,
) -> (Seq<ModConflictView>, Seq<ClaimView>)
    decreases arts.len() - k,
{
    if !(0 <= k < arts.len()) {
        (Seq::empty(), claimed)
    } else {
        let fname = spec_artifact_filename_or_unknown(arts[k]);
        let p = spec_artifact_path(arts[k]);
        let fc: Seq<ModConflictView> = if path_claim_collides(claimed, p, guid, ver) {
            seq![ModConflictView::FileConflict { this: (guid, ver), already_exists: p }]
        } else {
            Seq::empty()
        };
        let claimed2 = if path_claimed(claimed, p) {
            claimed
        } else {
            claimed.push((p, guid, ver))
        };
        let ic: Seq<ModConflictView> = if !file_has_hash(file, arts[k].sha256@) {
            seq![ModConflictView::IncompleteInstall { this: (guid, ver), missing_file: fname }]
        } else {
            Seq::empty()
        };
        let rest = art_checks_from(guid, ver, file, arts, k + 1, claimed2);
        (fc + ic + rest.0, rest.1)
    }
}

/// The dependency findings for one installed mod version, from dependency
/// `d` on: a dependency GUID absent from the installed state is missing; one
/// present with no installed version satisfying the requirement is a
/// mismatch, reporting all installed versions found.
pub open spec fn dep_checks_from(
    map: Seq<(GUID, Vec<(Version, ModFile)>)>,
    guid: Seq<char>,
    ver: VersionView,
    deps: Seq<(GUID, crate::manifest::Dependency)>,
    d: int,
) -> Seq<ModConflictView>
    decreases deps.len() - d,
{
    if !(0 <= d < deps.len()) {
        Seq::empty()
    } else {
        let dg = deps[d].0;
        let req = deps[d].1.version;
        let c: Seq<ModConflictView> = match str_key_lookup(map, dg@) {
            None => seq![
                ModConflictView::DependencyMissing { this: (guid, ver), needs: (dg@, req@) },
            ],
            Some(found) => if first_req_match(found@, req@, 0) < found@.len() {
                Seq::empty()
            } else {
                seq![
                    ModConflictView::DependencyMismatch {
                        this: (guid, ver),
                        needs: (dg@, req@),
                        found_versions: found@.map_values(|p: (Version, ModFile)| p.0@),
                    },
                ]
            },
        };
        c + dep_checks_from(map, guid, ver, deps, d + 1)
    }
}

/// The direct-conflict findings for one installed mod version, from declared
/// conflict `c` on: a conflict GUID installed at a version satisfying the
/// conflict requirement is reported against the first such version.
pub open spec fn conf_checks_from(
    map: Seq<(GUID, Vec<(Version, ModFile)>)>,
    guid: Seq<char>,
    ver: VersionView,
    confs: Seq<(GUID, crate::manifest::Conflict)>,
    c: int,
) -> Seq<ModConflictView>
    decreases confs.len() - c,
{
    if !(0 <= c < confs.len()) {
        Seq::empty()
    } else {
        let cg = confs[c].0;
        let req = confs[c].1.version;
        let cc: Seq<ModConflictView> = match str_key_lookup(map, cg@) {
            None => Seq::empty(),
            Some(found) => {
                let fm = first_req_match(found@, req@, 0);
                if fm < found@.len() {
                    seq![
                        ModConflictView::DirectConflict {
                            this: (guid, ver),
                            conflict_with: (cg@, found@[fm].0@),
                        },
                    ]
                } else {
                    Seq::empty()
                }
            },
        };
        cc + conf_checks_from(map, guid, ver, confs, c + 1)
    }
}

/// All findings for one installed (GUID, version) pair: nothing when the
/// registry does not know the pair; otherwise the artifact findings, then
/// the dependency findings, then the direct-conflict findings.
pub open spec fn per_version_checks(
    map: Seq<(GUID, Vec<(Version, ModFile)>)>,
    mods: Seq<(GUID, Mod)>,
    guid: Seq<char>,
    ver: VersionView,
    file: Seq<ModFileArtifactView>,
    claimed: Seq<ClaimView>,
) -> (Seq<ModConflictView>, Seq<ClaimView>) {
    match str_key_lookup(mods, guid) {
        None => (Seq::empty(), claimed),
        Some(m) => match ver_key_lookup(m.versions@, ver) {
            None => (Seq::empty(), claimed),
            Some(mv) => {
                let acs = art_checks_from(guid, ver, file, mv.artifacts@, 0, claimed);
                let dcs = match mv.dependencies {
                    Some(deps) => dep_checks_from(map, guid, ver, deps@, 0),
                    None => Seq::empty(),
                };
                let ccs = match mv.conflicts {
                    Some(confs) => conf_checks_from(map, guid, ver, confs@, 0),
                    None => Seq::empty(),
                };
                (acs.0 + dcs + ccs, acs.1)
            },
        },
    }
}

/// The findings for all installed versions of one GUID, from version `j` on.
pub open spec fn entry_checks_from(
    map: Seq<(GUID, Vec<(Version, ModFile)>)>,
    mods: Seq<(GUID, Mod)>,
    guid: Seq<char>,
    vers: Seq<(Version, ModFile)>,
    j: int,
    claimed: Seq<ClaimView>,
) -> (Seq<ModConflictView>, Seq<ClaimView>)
    decreases vers.len() - j,
{
    if !(0 <= j < vers.len()) {
        (Seq::empty(), claimed)
    } else {
        let c1 = per_version_checks(map, mods, guid, vers[j].0@, vers[j].1@, claimed);
        let c2 = entry_checks_from(map, mods, guid, vers, j + 1, c1.1);
        (c1.0 + c2.0, c2.1)
    }
}

/// The findings over the installed state, from entry `i` on: per GUID, a
/// version conflict when several versions are installed at once, then the
/// findings of each installed version.
pub open spec fn conflicts_from(
    map: Seq<(GUID, Vec<(Version, ModFile)>)>,
    mods: Seq<(GUID, Mod)>,
    i: int,
    claimed: Seq<ClaimView>,
) -> (Seq<ModConflictView>, Seq<ClaimView>)
    decreases map.len() - i,
{
    if !(0 <= i < map.len()) {
        (Seq::empty(), claimed)
    } else {
        let vc: Seq<ModConflictView> = if map[i].1@.len() > 1 {
            seq![ModConflictView::VersionConflict(map[i].0@)]
        } else {
            Seq::empty()
        };
        let c1 = entry_checks_from(map, mods, map[i].0@, map[i].1@, 0, claimed);
        let c2 = conflicts_from(map, mods, i + 1, c1.1);
        (vc + c1.0 + c2.0, c2.1)
    }
}

/// What the conflict detector returns on a given installed state and
/// registry: every applicable check run for every installed (GUID, version),
/// in state order, with no short-circuiting and no deduplication. The
/// claimed-path set is scoped to the whole pass, so the output is one
/// deterministic sequence of findings.
pub open spec fn spec_check_for_conflicts(
    map: Seq<(GUID, Vec<(Version, ModFile)>)>,
    mods: Seq<(GUID, Mod)>,
) -> Seq<ModConflictView> {
    conflicts_from(map, mods, 0, Seq::empty()).0
}

/// Scans the claimed-path set for `path`: whether any entry claims it, and
/// whether an earlier claim collides with an artifact of `(guid, ver)`.
fn claimed_lookup(
    claimed: &Vec<(String, String, Version)>,
    path: &str,
    guid: &str,
    ver: &Version,
) -> (r: (bool, bool))
    ensures
        r.0 == path_claimed(claimed_view(claimed@), path@),
        r.1 == path_claim_collides(claimed_view(claimed@), path@, guid@, ver@),
{
    let ghost cv = claimed_view(claimed@);
    let mut any = false;
    let mut collides = false;
    let mut i: usize = 0;
    while i < claimed.len()
        invariant
            i <= claimed.len(),
            cv == claimed_view(claimed@),
            cv.len() == claimed.len(),
            any == exists|j: int| 0 <= j < i && (#[trigger] cv[j]).0 == path@,
            collides == exists|j: int|
                0 <= j < i && (#[trigger] cv[j]).0 == path@ && (cv[j].1 != guid@
                    || crate::version::sem_eq(cv[j].2, ver@)),
        decreases claimed.len() - i,
    {
        assert(cv[i as int] == (claimed@[i as int].0@, claimed@[i as int].1@, claimed@[i as int].2@));
        if crate::text::str_eq(claimed[i].0.as_str(), path) {
            any = true;
            if !crate::text::str_eq(claimed[i].1.as_str(), guid) || claimed[i].2 == *ver {
                collides = true;
            }
        }
        i = i + 1;
    }
    (any, collides)
}

/// Whether some installed file of this mod version carries the hash `h`.
fn file_has_hash_exec(file: &ModFile, h: &str) -> (r: bool)
    ensures
        r == file_has_hash(file@, h@),
{
    let mut i: usize = 0;
    while i < file.files.len()
        invariant
            i <= file.files.len(),
            forall|j: int| 0 <= j < i ==> (#[trigger] file@[j]).file_hash != h@,
        decreases file.files.len() - i,
    {
        assert(file@[i as int] == file.files@[i as int]@);
        if crate::text::str_eq(file.files[i].file_hash.as_str(), h) {
            assert(file_has_hash(file@, h@));
            return true;
        }
        i = i + 1;
    }
    false
}

/// Index of the first installed version satisfying `req`, or the length.
fn first_req_match_exec(entries: &Vec<(Version, ModFile)>, req: &VersionReq) -> (r: usize)
    ensures
        r as int == first_req_match(entries@, req@, 0),
        r <= entries.len(),
{
    let mut j: usize = 0;
    while j < entries.len()
        invariant
            j <= entries.len(),
            first_req_match(entries@, req@, 0) == first_req_match(entries@, req@, j as int),
        decreases entries.len() - j,
    {
        if req.matches(&entries[j].0) {
            return j;
        }
        j = j + 1;
    }
    entries.len()
}

/// Runs the artifact checks of one installed mod version, from artifact `k`
/// on, appending findings to `out` and claiming paths in `claimed`.
fn check_artifacts(
    guid: &GUID,
    ver: &Version,
    file: &ModFile,
    arts: &Vec<Artifact>,
    k: usize,
    claimed: &mut Vec<(String, String, Version)>,
    out: &mut Vec<ModConflict>,
)
    ensures
        ({
            let step = art_checks_from(
                guid@,
                ver@,
                file@,
                arts@,
                k as int,
                claimed_view(old(claimed)@),
            );
            &&& conflicts_view(final(out)@) == conflicts_view(old(out)@) + step.0
            &&& claimed_view(final(claimed)@) == step.1
        }),
    decreases arts.len() - k,
{
    let ghost cl_in = claimed_view(claimed@);
    let ghost out_in = conflicts_view(out@);
    if k >= arts.len() {
        proof {
            assert(conflicts_view(out@) =~= out_in + Seq::<ModConflictView>::empty());
        }
        return ;
    }
    let a = &arts[k];
    let filename: String = match artifact_filename(a) {
        Some(f) => f,
        None => String::from_str("unknown.dll"),
    };
    assert(filename@ == spec_artifact_filename_or_unknown(arts@[k as int]));
    let path = artifact_path_for(a, filename.as_str());
    assert(path@ == spec_artifact_path(arts@[k as int]));
    let (any, collides) = claimed_lookup(claimed, path.as_str(), guid.as_str(), ver);
    let ghost fc: Seq<ModConflictView> = if path_claim_collides(cl_in, path@, guid@, ver@) {
        seq![ModConflictView::FileConflict { this: (guid@, ver@), already_exists: path@ }]
    } else {
        Seq::empty()
    };
    let ghost ic: Seq<ModConflictView> = if !file_has_hash(file@, arts@[k as int].sha256@) {
        seq![
            ModConflictView::IncompleteInstall { this: (guid@, ver@), missing_file: filename@ },
        ]
    } else {
        Seq::empty()
    };
    if collides {
        out.push(
            ModConflict::FileConflict {
                this: (guid.clone(), ver.clone()),
                already_exists: path.clone(),
            },
        );
    }
    if !any {
        claimed.push((path.clone(), guid.clone(), ver.clone()));
    }
    proof {
        assert(claimed_view(claimed@) =~= if path_claimed(cl_in, path@) {
            cl_in
        } else {
            cl_in.push((path@, guid@, ver@))
        });
    }
    if !file_has_hash_exec(file, a.sha256.as_str()) {
        out.push(
            ModConflict::IncompleteInstall {
                this: (guid.clone(), ver.clone()),
                missing_file: filename,
            },
        );
    }
    proof {
        assert(conflicts_view(out@) =~= out_in + fc + ic);
    }
    let ghost cl_mid = claimed_view(claimed@);
    check_artifacts(guid, ver, file, arts, k + 1, claimed, out);
    proof {
        let step = art_checks_from(guid@, ver@, file@, arts@, k as int, cl_in);
        let rest = art_checks_from(guid@, ver@, file@, arts@, k + 1, cl_mid);
        assert(step.0 =~= fc + ic + rest.0);
        assert(conflicts_view(out@) =~= out_in + step.0);
    }
}

/// Runs the dependency checks of one installed mod version, from dependency
/// `d` on, appending findings to `out`.
fn check_deps(
    map: &ModMap,
    guid: &GUID,
    ver: &Version,
    deps: &Vec<(GUID, crate::manifest::Dependency)>,
    d: usize,
    out: &mut Vec<ModConflict>,
)
    ensures
        conflicts_view(final(out)@) == conflicts_view(old(out)@) + dep_checks_from(
            map@,
            guid@,
            ver@,
            deps@,
            d as int,
        ),
    decreases deps.len() - d,
{
    let ghost out_in = conflicts_view(out@);
    if d >= deps.len() {
        proof {
            assert(conflicts_view(out@) =~= out_in + Seq::<ModConflictView>::empty());
        }
        return ;
    }
    let dg = &deps[d].0;
    let req = &deps[d].1.version;
    let ghost c: Seq<ModConflictView>;
    match str_key_get(map, dg.as_str()) {
        None => {
            out.push(
                ModConflict::DependencyMissing {
                    this: (guid.clone(), ver.clone()),
                    needs: (dg.clone(), req.clone()),
                },
            );
            proof {
                c = seq![
                    ModConflictView::DependencyMissing { this: (guid@, ver@), needs: (dg@, req@) },
                ];
            }
        },
        Some(found) => {
            let fm = first_req_match_exec(found, req);
            if fm < found.len() {
                proof {
                    c = Seq::empty();
                }
            } else {
                let mut found_versions: Vec<Version> = Vec::new();
                let mut j: usize = 0;
                while j < found.len()
                    invariant
                        j <= found.len(),
                        found_versions@.map_values(|v: Version| v@) =~= found@.take(
                            j as int,
                        ).map_values(|p: (Version, ModFile)| p.0@),
                    decreases found.len() - j,
                {
                    let ghost prev = found_versions@.map_values(|v: Version| v@);
                    found_versions.push(found[j].0.clone());
                    proof {
                        assert(found_versions@.map_values(|v: Version| v@) =~= prev + seq![
                            found@[j as int].0@,
                        ]);
                        assert(found@.take(j + 1).map_values(|p: (Version, ModFile)| p.0@) =~= prev
                            + seq![found@[j as int].0@]);
                    }
                    j = j + 1;
                }
                proof {
                    assert(found@.take(found@.len() as int) =~= found@);
                }
                out.push(
                    ModConflict::DependencyMismatch {
                        this: (guid.clone(), ver.clone()),
                        needs: (dg.clone(), req.clone()),
                        found_versions,
                    },
                );
                proof {
                    c = seq![
                        ModConflictView::DependencyMismatch {
                            this: (guid@, ver@),
                            needs: (dg@, req@),
                            found_versions: found@.map_values(|p: (Version, ModFile)| p.0@),
                        },
                    ];
                }
            }
        },
    }
    proof {
        assert(conflicts_view(out@) =~= out_in + c);
    }
    check_deps(map, guid, ver, deps, d + 1, out);
    proof {
        assert(dep_checks_from(map@, guid@, ver@, deps@, d as int) =~= c + dep_checks_from(
            map@,
            guid@,
            ver@,
            deps@,
            d + 1,
        ));
        assert(conflicts_view(out@) =~= out_in + dep_checks_from(map@, guid@, ver@, deps@, d as int));
    }
}

/// Runs the direct-conflict checks of one installed mod version, from
/// declared conflict `ci` on, appending findings to `out`.
fn check_confs(
    map: &ModMap,
    guid: &GUID,
    ver: &Version,
    confs: &Vec<(GUID, crate::manifest::Conflict)>,
    ci: usize,
    out: &mut Vec<ModConflict>,
)
    ensures
        conflicts_view(final(out)@) == conflicts_view(old(out)@) + conf_checks_from(
            map@,
            guid@,
            ver@,
            confs@,
            ci as int,
        ),
    decreases confs.len() - ci,
{
    let ghost out_in = conflicts_view(out@);
    if ci >= confs.len() {
        proof {
            assert(conflicts_view(out@) =~= out_in + Seq::<ModConflictView>::empty());
        }
        return ;
    }
    let cg = &confs[ci].0;
    let req = &confs[ci].1.version;
    let ghost c: Seq<ModConflictView>;
    match str_key_get(map, cg.as_str()) {
        None => {
            proof {
                c = Seq::empty();
            }
        },
        Some(found) => {
            let fm = first_req_match_exec(found, req);
            if fm < found.len() {
                out.push(
                    ModConflict::DirectConflict {
                        this: (guid.clone(), ver.clone()),
                        conflict_with: (cg.clone(), found[fm].0.clone()),
                    },
                );
                proof {
                    c = seq![
                        ModConflictView::DirectConflict {
                            this: (guid@, ver@),
                            conflict_with: (cg@, found@[fm as int].0@),
                        },
                    ];
                }
            } else {
                proof {
                    c = Seq::empty();
                }
            }
        },
    }
    proof {
        assert(conflicts_view(out@) =~= out_in + c);
    }
    check_confs(map, guid, ver, confs, ci + 1, out);
    proof {
        assert(conf_checks_from(map@, guid@, ver@, confs@, ci as int) =~= c + conf_checks_from(
            map@,
            guid@,
            ver@,
            confs@,
            ci + 1,
        ));
        assert(conflicts_view(out@) =~= out_in + conf_checks_from(map@, guid@, ver@, confs@, ci as int));
    }
}

/// Runs every check for one installed (GUID, version) pair.
fn check_one_version(
    map: &ModMap,
    mods: &ManifestMods,
    guid: &GUID,
    ver: &Version,
    file: &ModFile,
    claimed: &mut Vec<(String, String, Version)>,
    out: &mut Vec<ModConflict>,
)
    ensures
        ({
            let step = per_version_checks(
                map@,
                mods@,
                guid@,
                ver@,
                file@,
                claimed_view(old(claimed)@),
            );
            &&& conflicts_view(final(out)@) == conflicts_view(old(out)@) + step.0
            &&& claimed_view(final(claimed)@) == step.1
        }),
{
    let ghost cl_in = claimed_view(claimed@);
    let ghost out_in = conflicts_view(out@);
    let mod_info = match str_key_get(mods, guid.as_str()) {
        Some(m) => m,
        None => {
            proof {
                assert(conflicts_view(out@) =~= out_in + Seq::<ModConflictView>::empty());
            }
            return ;
        },
    };
    let version_info = match ver_key_get(&mod_info.versions, ver) {
        Some(mv) => mv,
        None => {
            proof {
                assert(conflicts_view(out@) =~= out_in + Seq::<ModConflictView>::empty());
            }
            return ;
        },
    };
    check_artifacts(guid, ver, file, &version_info.artifacts, 0, claimed, out);
    if let Some(deps) = &version_info.dependencies {
        check_deps(map, guid, ver, deps, 0, out);
    }
    if let Some(confs) = &version_info.conflicts {
        check_confs(map, guid, ver, confs, 0, out);
    }
    proof {
        let step = per_version_checks(map@, mods@, guid@, ver@, file@, cl_in);
        assert(conflicts_view(out@) =~= out_in + step.0);
    }
}

/// Runs the checks for all installed versions of one GUID, from `j` on.
fn check_entry_versions(
    map: &ModMap,
    mods: &ManifestMods,
    guid: &GUID,
    vers: &Vec<(Version, ModFile)>,
    j: usize,
    claimed: &mut Vec<(String, String, Version)>,
    out: &mut Vec<ModConflict>,
)
    ensures
        ({
            let step = entry_checks_from(
                map@,
                mods@,
                guid@,
                vers@,
                j as int,
                claimed_view(old(claimed)@),
            );
            &&& conflicts_view(final(out)@) == conflicts_view(old(out)@) + step.0
            &&& claimed_view(final(claimed)@) == step.1
        }),
    decreases vers.len() - j,
{
    let ghost out_in = conflicts_view(out@);
    let ghost cl_in = claimed_view(claimed@);
    if j >= vers.len() {
        proof {
            assert(conflicts_view(out@) =~= out_in + Seq::<ModConflictView>::empty());
        }
        return ;
    }
    check_one_version(map, mods, guid, &vers[j].0, &vers[j].1, claimed, out);
    let ghost cl_1 = claimed_view(claimed@);
    check_entry_versions(map, mods, guid, vers, j + 1, claimed, out);
    proof {
        let step = entry_checks_from(map@, mods@, guid@, vers@, j as int, cl_in);
        let rest = entry_checks_from(map@, mods@, guid@, vers@, j + 1, cl_1);
        assert(step.0 =~= per_version_checks(map@, mods@, guid@, vers@[j as int].0@, vers@[j as int].1@, cl_in).0 + rest.0);
        assert(conflicts_view(out@) =~= out_in + step.0);
    }
}

/// Runs the detection pass over the installed state, from entry `i` on.
fn check_entries(
    map: &ModMap,
    mods: &ManifestMods,
    i: usize,
    claimed: &mut Vec<(String, String, Version)>,
    out: &mut Vec<ModConflict>,
)
    ensures
        ({
            let step = conflicts_from(map@, mods@, i as int, claimed_view(old(claimed)@));
            &&& conflicts_view(final(out)@) == conflicts_view(old(out)@) + step.0
            &&& claimed_view(final(claimed)@) == step.1
        }),
    decreases map.len() - i,
{
    let ghost out_in = conflicts_view(out@);
    let ghost cl_in = claimed_view(claimed@);
    if i >= map.len() {
        proof {
            assert(conflicts_view(out@) =~= out_in + Seq::<ModConflictView>::empty());
        }
        return ;
    }
    let guid = &map[i].0;
    let vers = &map[i].1;
    if vers.len() > 1 {
        out.push(ModConflict::VersionConflict(guid.clone()));
    }
    let ghost vc: Seq<ModConflictView> = if map@[i as int].1@.len() > 1 {
        seq![ModConflictView::VersionConflict(map@[i as int].0@)]
    } else {
        Seq::empty()
    };
    proof {
        assert(conflicts_view(out@) =~= out_in + vc);
    }
    check_entry_versions(map, mods, guid, vers, 0, claimed, out);
    let ghost cl_1 = claimed_view(claimed@);
    check_entries(map, mods, i + 1, claimed, out);
    proof {
        let step = conflicts_from(map@, mods@, i as int, cl_in);
        let c1 = entry_checks_from(map@, mods@, map@[i as int].0@, map@[i as int].1@, 0, cl_in);
        let rest = conflicts_from(map@, mods@, i + 1, cl_1);
        assert(step.0 =~= vc + c1.0 + rest.0);
        assert(conflicts_view(out@) =~= out_in + step.0);
    }
}

/// Detects every inconsistency between an installed state and a registry
/// snapshot: simultaneous versions, file collisions across mods, incomplete
/// installs, missing or mismatched dependencies, and direct conflicts.
/// Detection never fails; it returns zero or more findings, in state order.
pub fn check_for_conflicts(map: &ModMap, mods: &ManifestMods) -> (r: Vec<ModConflict>)
    ensures
        conflicts_view(r@) == spec_check_for_conflicts(map@, mods@),
{
    let mut out: Vec<ModConflict> = Vec::new();
    let mut claimed: Vec<(String, String, Version)> = Vec::new();
    proof {
        assert(claimed_view(claimed@) =~= Seq::<ClaimView>::empty());
        assert(conflicts_view(out@) =~= Seq::<ModConflictView>::empty());
    }
    check_entries(map, mods, 0, &mut claimed, &mut out);
    proof {
        assert(conflicts_view(out@) =~= spec_check_for_conflicts(map@, mods@));
    }
    out
}

/// A failure while applying install operations.
#[derive(Clone, Copy, Debug, PartialEq, Eq, Structural)]
pub enum InstallError {
    /// An install targeted a file that already exists.
    FileAlreadyExists,
    /// An uninstall targeted a mod that is not installed.
    FileNotFound,
    /// A file operation failed in the underlying storage.
    FileError,
    /// A scan path escaped the install directory.
    StripError,
}

/// One step of an install plan.
#[derive(Debug)]
pub enum ModInstallOperations {
    InstallMod(IDVersion),
    UninstallMod(IDVersion),
}

/// The mathematical model of a [`ModInstallOperations`] step.
pub enum ModInstallOperationsView {
    InstallMod((Seq<char>, VersionView)),
    UninstallMod((Seq<char>, VersionView)),
}

impl View for ModInstallOperations {
    type V = ModInstallOperationsView;

    open spec fn view(&self) -> ModInstallOperationsView {
        match self {
            ModInstallOperations::InstallMod(p) => ModInstallOperationsView::InstallMod(
                (p.0@, p.1@),
            ),
            ModInstallOperations::UninstallMod(p) => ModInstallOperationsView::UninstallMod(
                (p.0@, p.1@),
            ),
        }
    }
}

impl Clone for ModInstallOperations {
    fn clone(&self) -> (r: Self)
        ensures
            r == *self,
    {
        match self {
            ModInstallOperations::InstallMod(p) => ModInstallOperations::InstallMod(
                (p.0.clone(), p.1.clone()),
            ),
            ModInstallOperations::UninstallMod(p) => ModInstallOperations::UninstallMod(
                (p.0.clone(), p.1.clone()),
            ),
        }
    }
}

/// The view of a list of operations.
pub open spec fn ops_view(ops: Seq<ModInstallOperations>) -> Seq<ModInstallOperationsView> {
    ops.map_values(|o: ModInstallOperations| o@)
}

/// The mathematical model of an installed state: GUID to installed versions,
/// each with the files it brought.
pub type ModMapView = Seq<(Seq<char>, Seq<(VersionView, Seq<ModFileArtifactView>)>)>;

/// The view of an installed state.
pub open spec fn map_view(m: Seq<(GUID, Vec<(Version, ModFile)>)>) -> ModMapView {
    m.map_values(
        |e: (GUID, Vec<(Version, ModFile)>)|
            (e.0@, e.1@.map_values(|p: (Version, ModFile)| (p.0@, p.1@))),
    )
}

/// Index of the first state entry for `id`, or `-1`.
pub open spec fn mapv_index(m: ModMapView, id: Seq<char>) -> int
    decreases m.len(),
{
    if m.len() == 0 {
        -1
    } else if m[0].0 == id {
        0
    } else {
        let r = mapv_index(m.skip(1), id);
        if r < 0 {
            -1
        } else {
            r + 1
        }
    }
}

/// Index of the first installed version equal to `ver`, or `-1`.
pub open spec fn versv_index(vs: Seq<(VersionView, Seq<ModFileArtifactView>)>, ver: VersionView) -> int
    decreases vs.len(),
{
    if vs.len() == 0 {
        -1
    } else if crate::version::sem_eq(vs[0].0, ver) {
        0
    } else {
        let r = versv_index(vs.skip(1), ver);
        if r < 0 {
            -1
        } else {
            r + 1
        }
    }
}

/// Installing `(id, ver)` with file records `file`: an existing entry for
/// that version keeps its key and gets the new records; a new version is
/// appended to the mod's entry; a mod not present at all gets a fresh entry
/// at the end.
pub open spec fn spec_install(
    m: ModMapView,
    id: Seq<char>,
    ver: VersionView,
    file: Seq<ModFileArtifactView>,
) -> ModMapView {
    let i = mapv_index(m, id);
    if i >= 0 {
        let vs = m[i].1;
        let j = versv_index(vs, ver);
        if j >= 0 {
            m.update(i, (m[i].0, vs.update(j, (vs[j].0, file))))
        } else {
            m.update(i, (m[i].0, vs.push((ver, file))))
        }
    } else {
        m.push((id, seq![(ver, file)]))
    }
}

/// Whether the state holds an entry for `id` that records version `ver`.
pub open spec fn pair_installed(m: ModMapView, id: Seq<char>, ver: VersionView) -> bool {
    let i = mapv_index(m, id);
    i >= 0 && versv_index(m[i].1, ver) >= 0
}

/// Uninstalling an installed `(id, ver)`: the version's record is removed,
/// and the mod's entry is pruned once it holds no versions.
pub open spec fn spec_uninstall(m: ModMapView, id: Seq<char>, ver: VersionView) -> ModMapView {
    let i = mapv_index(m, id);
    let vs = m[i].1;
    let vs2 = vs.remove(versv_index(vs, ver));
    if vs2.len() == 0 {
        m.remove(i)
    } else {
        m.update(i, (m[i].0, vs2))
    }
}

/// Applying the operations from index `i` on to state `m`: sequential, first
/// error stops the run and leaves the earlier operations applied. An install
/// synthesizes its file records from the registry; an uninstall whose
/// (GUID, version) target is not installed fails with `FileNotFound`.
pub open spec fn spec_apply_from(
    m: ModMapView,
    mods: Seq<(GUID, Mod)>,
    ops: Seq<ModInstallOperationsView>,
    i: int,
) -> (ModMapView, Option<InstallError>)
    decreases ops.len() - i,
{
    if !(0 <= i < ops.len()) {
        (m, None)
    } else {
        match ops[i] {
            ModInstallOperationsView::InstallMod((id, ver)) => spec_apply_from(
                spec_install(m, id, ver, spec_mod_file(id, ver, mods)),
                mods,
                ops,
                i + 1,
            ),
            ModInstallOperationsView::UninstallMod((id, ver)) => {
                if !pair_installed(m, id, ver) {
                    (m, Some(InstallError::FileNotFound))
                } else {
                    spec_apply_from(spec_uninstall(m, id, ver), mods, ops, i + 1)
                }
            },
        }
    }
}

pub proof fn lemma_mapv_index_is(m: ModMapView, id: Seq<char>, k: int)
    requires
        0 <= k <= m.len(),
        forall|j: int| 0 <= j < k ==> (#[trigger] m[j]).0 != id,
        k < m.len() ==> m[k].0 == id,
    ensures
        mapv_index(m, id) == if k < m.len() {
            k
        } else {
            -1
        },
    decreases k,
{
    if k == 0 {
        if m.len() > 0 && m[0].0 != id {
            lemma_mapv_index_is(m.skip(1), id, 0);
        }
    } else {
        let t = m.skip(1);
        assert(forall|j: int| 0 <= j < k - 1 ==> (#[trigger] t[j]) == m[j + 1]);
        lemma_mapv_index_is(t, id, k - 1);
    }
}

pub proof fn lemma_versv_index_is(
    vs: Seq<(VersionView, Seq<ModFileArtifactView>)>,
    ver: VersionView,
    k: int,
)
    requires
        0 <= k <= vs.len(),
        forall|j: int| 0 <= j < k ==> !crate::version::sem_eq((#[trigger] vs[j]).0, ver),
        k < vs.len() ==> crate::version::sem_eq(vs[k].0, ver),
    ensures
        versv_index(vs, ver) == if k < vs.len() {
            k
        } else {
            -1
        },
    decreases k,
{
    if k == 0 {
        if vs.len() > 0 && !crate::version::sem_eq(vs[0].0, ver) {
            lemma_versv_index_is(vs.skip(1), ver, 0);
        }
    } else {
        let t = vs.skip(1);
        assert(forall|j: int| 0 <= j < k - 1 ==> (#[trigger] t[j]) == vs[j + 1]);
        lemma_versv_index_is(t, ver, k - 1);
    }
}

/// Index of the first state entry whose GUID reads as `mod_id`, if any.
pub(crate) fn find_map_entry(map: &ModMap, mod_id: &GUID) -> (r: Option<usize>)
    ensures
        match r {
            Some(i) => i < map.len() && mapv_index(map_view(map@), mod_id@) == i as int,
            None => mapv_index(map_view(map@), mod_id@) == -1,
        },
{
    let ghost m0 = map_view(map@);
    let mut i: usize = 0;
    while i < map.len()
        invariant
            i <= map.len(),
            m0 == map_view(map@),
            m0.len() == map.len(),
            forall|j: int| 0 <= j < i ==> (#[trigger] m0[j]).0 != mod_id@,
        decreases map.len() - i,
    {
        assert(m0[i as int].0 == map@[i as int].0@);
        if crate::text::str_eq(map[i].0.as_str(), mod_id.as_str()) {
            proof {
                lemma_mapv_index_is(m0, mod_id@, i as int);
            }
            return Some(i);
        }
        i = i + 1;
    }
    proof {
        lemma_mapv_index_is(m0, mod_id@, m0.len() as int);
    }
    None
}

/// Index of the first record in an entry's version list equal to `version`,
/// if any.
pub(crate) fn find_version_record(vers: &Vec<(Version, ModFile)>, version: &Version) -> (r: Option<usize>)
    ensures
        ({
            let vs = vers@.map_values(|p: (Version, ModFile)| (p.0@, p.1@));
            match r {
                Some(j) => j < vers.len() && versv_index(vs, version@) == j as int,
                None => versv_index(vs, version@) == -1,
            }
        }),
{
    let ghost vs = vers@.map_values(|p: (Version, ModFile)| (p.0@, p.1@));
    let mut j: usize = 0;
    while j < vers.len()
        invariant
            j <= vers.len(),
            vs == vers@.map_values(|p: (Version, ModFile)| (p.0@, p.1@)),
            vs.len() == vers.len(),
            forall|t: int| 0 <= t < j ==> !crate::version::sem_eq((#[trigger] vs[t]).0, version@),
        decreases vers.len() - j,
    {
        assert(vs[j as int].0 == vers@[j as int].0@);
        if vers[j].0 == *version {
            proof {
                lemma_versv_index_is(vs, version@, j as int);
            }
            return Some(j);
        }
        j = j + 1;
    }
    proof {
        lemma_versv_index_is(vs, version@, vs.len() as int);
    }
    None
}

/// Applies one install to the state in place.
fn install_entry(map: &mut ModMap, mod_id: &GUID, version: &Version, file: ModFile)
    ensures
        map_view(final(map)@) == spec_install(map_view(old(map)@), mod_id@, version@, file@),
{
    let ghost m0 = map_view(map@);
    match find_map_entry(map, mod_id) {
        Some(i) => {
            let ghost vs = m0[i as int].1;
            let mut entry = map.remove(i);
            proof {
                assert(vs == entry.1@.map_values(|p: (Version, ModFile)| (p.0@, p.1@)));
            }
            match find_version_record(&entry.1, version) {
                Some(j) => {
                    let key = entry.1[j].0.clone();
                    entry.1.set(j, (key, file));
                    proof {
                        assert(entry.1@.map_values(|p: (Version, ModFile)| (p.0@, p.1@))
                            =~= vs.update(j as int, (vs[j as int].0, file@)));
                    }
                    let ghost ek = entry.0@;
                    let ghost ev = entry.1@.map_values(|p: (Version, ModFile)| (p.0@, p.1@));
                    map.insert(i, entry);
                    proof {
                        assert(ek == m0[i as int].0);
                        assert(map_view(map@) =~= m0.update(i as int, (ek, ev)));
                        assert(map_view(map@) =~= spec_install(m0, mod_id@, version@, file@));
                    }
                },
                None => {
                    entry.1.push((version.clone(), file));
                    proof {
                        assert(entry.1@.map_values(|p: (Version, ModFile)| (p.0@, p.1@))
                            =~= vs.push((version@, file@)));
                    }
                    let ghost ek = entry.0@;
                    let ghost ev = entry.1@.map_values(|p: (Version, ModFile)| (p.0@, p.1@));
                    map.insert(i, entry);
                    proof {
                        assert(ek == m0[i as int].0);
                        assert(map_view(map@) =~= m0.update(i as int, (ek, ev)));
                        assert(ev == vs.push((version@, file@)));
                        assert(spec_install(m0, mod_id@, version@, file@) == m0.update(
                            i as int,
                            (m0[i as int].0, vs.push((version@, file@))),
                        ));
                        assert(map_view(map@) =~= spec_install(m0, mod_id@, version@, file@));
                    }
                },
            }
        },
        None => {
            let mut inner: Vec<(Version, ModFile)> = Vec::new();
            inner.push((version.clone(), file));
            proof {
                assert(inner@.map_values(|p: (Version, ModFile)| (p.0@, p.1@)) =~= seq![
                    (version@, file@),
                ]);
            }
            let ghost iv = inner@.map_values(|p: (Version, ModFile)| (p.0@, p.1@));
            map.push((mod_id.clone(), inner));
            proof {
                assert(map_view(map@) =~= m0.push((mod_id@, iv)));
                assert(map_view(map@) =~= spec_install(m0, mod_id@, version@, file@));
            }
        },
    }
}

/// Applies one uninstall to the state in place; reports whether the
/// (GUID, version) target was installed at all. An absent target leaves the
/// state untouched.
fn uninstall_entry(map: &mut ModMap, mod_id: &GUID, version: &Version) -> (r: bool)
    ensures
        r == pair_installed(map_view(old(map)@), mod_id@, version@),
        r ==> map_view(final(map)@) == spec_uninstall(map_view(old(map)@), mod_id@, version@),
        !r ==> *final(map) == *old(map),
{
    let ghost m0 = map_view(map@);
    match find_map_entry(map, mod_id) {
        Some(i) => {
            let ghost vs = m0[i as int].1;
            proof {
                assert(vs == map@[i as int].1@.map_values(|p: (Version, ModFile)| (p.0@, p.1@)));
            }
            match find_version_record(&map[i].1, version) {
                Some(j) => {
                    let mut entry = map.remove(i);
                    entry.1.remove(j);
                    proof {
                        assert(entry.1@.map_values(|p: (Version, ModFile)| (p.0@, p.1@))
                            =~= vs.remove(j as int));
                    }
                    if entry.1.len() == 0 {
                        proof {
                            assert(map_view(map@) =~= spec_uninstall(m0, mod_id@, version@));
                        }
                    } else {
                        map.insert(i, entry);
                        proof {
                            assert(map_view(map@) =~= spec_uninstall(m0, mod_id@, version@));
                        }
                    }
                    true
                },
                None => false,
            }
        },
        None => false,
    }
}

/// The shared contract of an install executor: read access to the installed
/// state, sequential application of operations, and a conflict check over
/// the current state that delegates to the detector.
pub trait ModInstall: Sized {
    fn mod_map(&self) -> &ModMap;

    /// Applies operations in order, stopping at the first error; not
    /// transactional: a failure partway leaves the earlier operations
    /// applied.
    fn perform_operations(&mut self, operations: &Vec<ModInstallOperations>) -> Result<
        (),
        InstallError,
    >;

    /// Runs the conflict detector over the current installed state.
    fn check_for_conflicts(&self, mods: &ManifestMods) -> Vec<ModConflict> {
        check_for_conflicts(self.mod_map(), mods)
    }
}

/// The in-memory executor: applies operations to an owned installed state,
/// for dry-run preview and testing. No file operation is performed.
pub struct VirtualInstall {
    pub installed_mods: ModMap,
    pub manifest_mods: Arc<ManifestMods>,
}

impl VirtualInstall {
    pub fn new(mod_map: ModMap, manifest_mods: Arc<ManifestMods>) -> (r: VirtualInstall)
        ensures
            r.installed_mods == mod_map,
            r.manifest_mods == manifest_mods,
    {
        VirtualInstall { installed_mods: mod_map, manifest_mods }
    }

    /// Applies the operations from index `i` on.
    fn apply_from(&mut self, operations: &Vec<ModInstallOperations>, i: usize) -> (r: Result<
        (),
        InstallError,
    >)
        requires
            i <= operations.len(),
        ensures
            ({
                let res = spec_apply_from(
                    map_view(old(self).installed_mods@),
                    old(self).manifest_mods@,
                    ops_view(operations@),
                    i as int,
                );
                &&& map_view(final(self).installed_mods@) == res.0
                &&& final(self).manifest_mods == old(self).manifest_mods
                &&& match r {
                    Ok(_) => res.1 is None,
                    Err(e) => res.1 == Some(e),
                }
            }),
        decreases operations.len() - i,
    {
        if i >= operations.len() {
            return Ok(());
        }
        match &operations[i] {
            ModInstallOperations::InstallMod(p) => {
                let file = ModFile::new(p.0.as_str(), &p.1, &*self.manifest_mods);
                install_entry(&mut self.installed_mods, &p.0, &p.1, file);
            },
            ModInstallOperations::UninstallMod(p) => {
                if !uninstall_entry(&mut self.installed_mods, &p.0, &p.1) {
                    return Err(InstallError::FileNotFound);
                }
            },
        }
        self.apply_from(operations, i + 1)
    }
}

impl ModInstall for VirtualInstall {
    fn mod_map(&self) -> (r: &ModMap)
        ensures
            r == &self.installed_mods,
    {
        &self.installed_mods
    }

    /// Applies operations to the in-memory state: sequential, first error
    /// stops the run, earlier operations stay applied.
    fn perform_operations(&mut self, operations: &Vec<ModInstallOperations>) -> (r: Result<
        (),
        InstallError,
    >)
        ensures
            ({
                let res = spec_apply_from(
                    map_view(old(self).installed_mods@),
                    old(self).manifest_mods@,
                    ops_view(operations@),
                    0,
                );
                &&& map_view(final(self).installed_mods@) == res.0
                &&& final(self).manifest_mods == old(self).manifest_mods
                &&& match r {
                    Ok(_) => res.1 is None,
                    Err(e) => res.1 == Some(e),
                }
            }),
    {
        self.apply_from(operations, 0)
    }

    /// Runs the conflict detector over the in-memory state.
    fn check_for_conflicts(&self, mods: &ManifestMods) -> (r: Vec<ModConflict>)
        ensures
            conflicts_view(r@) == spec_check_for_conflicts(self.installed_mods@, mods@),
    {
        check_for_conflicts(&self.installed_mods, mods)
    }
}

} // verus!
