//! The greedy dependency resolver: turns "install mod X satisfying
//! requirement R" into an ordered sequence of install and uninstall
//! operations, always picking the highest registry version that satisfies a
//! requirement, with no backtracking. Any unsatisfiable node anywhere in the
//! transitive closure fails the whole request.

use vstd::prelude::*;
use crate::assoc::{lemma_str_key_index_props, str_key_get, str_key_index, str_key_lookup};
use crate::install::{ops_view, ModFile, ModInstallOperations, ModInstallOperationsView, ModMap};
use crate::manifest::{GUID, ManifestMods, Mod, ModVersion};
use crate::requirement::{req_matches, VersionReq, ComparatorView};
use crate::version::{lemma_sem_le_trans, sem_eq, sem_le, Version, VersionView};

verus! {

/// The outcome of a resolution: an ordered plan, or the GUID and requirement
/// in the transitive closure that no registry version satisfies.
#[derive(Debug)]
pub enum ResolveResult {
    /// The plan, leaves first: dependencies are installed before dependents.
    Resolved(Vec<ModInstallOperations>),
    /// Some node of the closure could not be satisfied; the whole request
    /// fails, with no partial plan.
    UnableToFind { mod_id: GUID, requirement: VersionReq },
}

/// No registry version of `id` satisfies `req`: the registry does not list
/// the mod at all, or none of its versions match.
pub open spec fn no_match(mods: Seq<(GUID, Mod)>, id: Seq<char>, req: Seq<ComparatorView>) -> bool {
    match str_key_lookup(mods, id) {
        None => true,
        Some(m) => forall|k: int|
            0 <= k < m.versions@.len() ==> !req_matches(req, (#[trigger] m.versions@[k]).0@),
    }
}

/// The request for `id` under `req` is already satisfied by the installed
/// state: some installed version of `id` matches `req` and is at least as
/// high as every matching registry version.
pub open spec fn spec_satisfied(
    map: Seq<(GUID, Vec<(Version, ModFile)>)>,
    mods: Seq<(GUID, Mod)>,
    id: Seq<char>,
    req: Seq<ComparatorView>,
) -> bool {
    match str_key_lookup(map, id) {
        None => false,
        Some(found) => exists|j: int|
            {
                &&& 0 <= j < found@.len()
                &&& req_matches(req, (#[trigger] found@[j]).0@)
                &&& match str_key_lookup(mods, id) {
                    None => true,
                    Some(m) => forall|k: int|
                        0 <= k < m.versions@.len() && req_matches(
                            req,
                            (#[trigger] m.versions@[k]).0@,
                        ) ==> sem_le(m.versions@[k].0@, found@[j].0@),
                }
            },
    }
}

/// A plan step makes sense against the state and registry it was computed
/// from: an install targets a version the registry declares for that GUID,
/// and an uninstall targets a version currently installed for that GUID.
pub open spec fn op_valid(
    op: ModInstallOperationsView,
    map: Seq<(GUID, Vec<(Version, ModFile)>)>,
    mods: Seq<(GUID, Mod)>,
) -> bool {
    match op {
        ModInstallOperationsView::InstallMod((id, ver)) => match str_key_lookup(mods, id) {
            Some(m) => exists|k: int|
                0 <= k < m.versions@.len() && sem_eq((#[trigger] m.versions@[k]).0@, ver),
            None => false,
        },
        ModInstallOperationsView::UninstallMod((id, ver)) => match str_key_lookup(map, id) {
            Some(found) => exists|j: int|
                0 <= j < found@.len() && sem_eq((#[trigger] found@[j]).0@, ver),
            None => false,
        },
    }
}

proof fn lemma_uninstall_op_valid(
    map: Seq<(GUID, Vec<(Version, ModFile)>)>,
    mods: Seq<(GUID, Mod)>,
    id: Seq<char>,
    fv: Vec<(Version, ModFile)>,
    w: VersionView,
)
    requires
        str_key_lookup(map, id) == Some(fv),
        exists|j: int| 0 <= j < fv@.len() && sem_eq((#[trigger] fv@[j]).0@, w),
    ensures
        op_valid(ModInstallOperationsView::UninstallMod((id, w)), map, mods),
{
    let o = ModInstallOperationsView::UninstallMod((id, w));
    match str_key_lookup(map, id) {
        Some(found) => {
            assert(found == fv);
            assert(exists|j: int|
                0 <= j < found@.len() && sem_eq((#[trigger] found@[j]).0@, w));
            assert(op_valid(o, map, mods));
        },
        None => {
            assert(false);
        },
    }
}

proof fn lemma_install_op_valid(
    map: Seq<(GUID, Vec<(Version, ModFile)>)>,
    mods: Seq<(GUID, Mod)>,
    id: Seq<char>,
    mv: Mod,
    w: VersionView,
)
    requires
        str_key_lookup(mods, id) == Some(mv),
        exists|k: int| 0 <= k < mv.versions@.len() && sem_eq((#[trigger] mv.versions@[k]).0@, w),
    ensures
        op_valid(ModInstallOperationsView::InstallMod((id, w)), map, mods),
{
}

proof fn lemma_satisfied_witness(
    map: Seq<(GUID, Vec<(Version, ModFile)>)>,
    mods: Seq<(GUID, Mod)>,
    id: Seq<char>,
    req: Seq<ComparatorView>,
    fv: Vec<(Version, ModFile)>,
    j: int,
)
    requires
        str_key_lookup(map, id) == Some(fv),
        0 <= j < fv@.len(),
        req_matches(req, fv@[j].0@),
        match str_key_lookup(mods, id) {
            None => true,
            Some(m) => forall|kx: int|
                0 <= kx < m.versions@.len() && req_matches(req, (#[trigger] m.versions@[kx]).0@)
                    ==> sem_le(m.versions@[kx].0@, fv@[j].0@),
        },
    ensures
        spec_satisfied(map, mods, id, req),
{
    match str_key_lookup(map, id) {
        Some(found) => {
            assert(found == fv);
            assert(exists|jj: int|
                {
                    &&& 0 <= jj < found@.len()
                    &&& req_matches(req, (#[trigger] found@[jj]).0@)
                    &&& match str_key_lookup(mods, id) {
                        None => true,
                        Some(m) => forall|kx: int|
                            0 <= kx < m.versions@.len() && req_matches(
                                req,
                                (#[trigger] m.versions@[kx]).0@,
                            ) ==> sem_le(m.versions@[kx].0@, found@[jj].0@),
                    }
                }) by {
                assert(found@[j] == fv@[j]);
            }
        },
        None => {
            assert(false);
        },
    }
}

proof fn lemma_declared_dep_witness(
    parent: ResolveNode,
    id: Seq<char>,
    req: Seq<ComparatorView>,
    mods: Seq<(GUID, Mod)>,
    mv: Mod,
    k: int,
    dv: Vec<(GUID, crate::manifest::Dependency)>,
    d: int,
)
    requires
        str_key_lookup(mods, parent.id) == Some(mv),
        0 <= k < mv.versions@.len(),
        mv.versions@[k].0@ == parent.chosen,
        mv.versions@[k].1.dependencies == Some(dv),
        0 <= d < dv@.len(),
        dv@[d].0@ == id,
        dv@[d].1.version@ == req,
    ensures
        declared_dep(parent, id, req, mods),
{
    match str_key_lookup(mods, parent.id) {
        Some(m) => {
            assert(m == mv);
            assert(match m.versions@[k].1.dependencies {
                Some(deps) => exists|dd: int|
                    0 <= dd < deps@.len() && (#[trigger] deps@[dd]).0@ == id && deps@[dd].1.version@
                        == req,
                None => false,
            }) by {
                match m.versions@[k].1.dependencies {
                    Some(deps) => {
                        assert(deps == dv);
                        assert(deps@[d] == dv@[d]);
                    },
                    None => {
                        assert(false);
                    },
                }
            }
            assert(exists|kk: int|
                {
                    &&& 0 <= kk < m.versions@.len()
                    &&& (#[trigger] m.versions@[kk]).0@ == parent.chosen
                    &&& match m.versions@[kk].1.dependencies {
                        Some(deps) => exists|dd: int|
                            0 <= dd < deps@.len() && (#[trigger] deps@[dd]).0@ == id
                                && deps@[dd].1.version@ == req,
                        None => false,
                    }
                }) by {
                assert(0 <= k < m.versions@.len() && m.versions@[k].0@ == parent.chosen);
            }
        },
        None => {
            assert(false);
        },
    }
}

/// Finds the mod entry for `mod_id` and, among its versions that satisfy
/// `requirement`, the highest one (the first of equals). Returns the mod,
/// the chosen version and that version's registry record.
pub fn find_latest_matching<'a>(
    mod_id: &str,
    requirement: &VersionReq,
    mod_list: &'a ManifestMods,
) -> (r: Option<(&'a Mod, &'a Version, &'a ModVersion)>)
    ensures
        match r {
            Some(t) => {
                &&& str_key_lookup(mod_list@, mod_id@) == Some(*t.0)
                &&& exists|k: int|
                    0 <= k < t.0.versions@.len() && (#[trigger] t.0.versions@[k]) == (*t.1, *t.2)
                &&& req_matches(requirement@, t.1@)
                &&& forall|k: int|
                    0 <= k < t.0.versions@.len() && req_matches(
                        requirement@,
                        (#[trigger] t.0.versions@[k]).0@,
                    ) ==> sem_le(t.0.versions@[k].0@, t.1@)
            },
            None => no_match(mod_list@, mod_id@, requirement@),
        },
{
    let mod_info = match str_key_get(mod_list, mod_id) {
        Some(m) => m,
        None => {
            return None;
        },
    };
    let vers = &mod_info.versions;
    let mut best: Option<usize> = None;
    let mut k: usize = 0;
    while k < vers.len()
        invariant
            k <= vers.len(),
            vers == &mod_info.versions,
            match best {
                Some(b) => {
                    &&& b < k
                    &&& req_matches(requirement@, vers@[b as int].0@)
                    &&& forall|t: int|
                        0 <= t < k && req_matches(requirement@, (#[trigger] vers@[t]).0@)
                            ==> sem_le(vers@[t].0@, vers@[b as int].0@)
                },
                None => forall|t: int|
                    0 <= t < k ==> !req_matches(requirement@, (#[trigger] vers@[t]).0@),
            },
        decreases vers.len() - k,
    {
        if requirement.matches(&vers[k].0) {
            match best {
                None => {
                    proof {
                        crate::version::lemma_sem_cmp_eq(vers@[k as int].0@, vers@[k as int].0@);
                    }
                    best = Some(k);
                },
                Some(b) => {
                    if matches!(vers[b].0.cmp_with(&vers[k].0), core::cmp::Ordering::Less) {
                        proof {
                            assert forall|t: int|
                                0 <= t < k + 1 && req_matches(
                                    requirement@,
                                    (#[trigger] vers@[t]).0@,
                                ) implies sem_le(vers@[t].0@, vers@[k as int].0@) by {
                                if t < k {
                                    lemma_sem_le_trans(
                                        vers@[t].0@,
                                        vers@[b as int].0@,
                                        vers@[k as int].0@,
                                    );
                                } else {
                                    crate::version::lemma_sem_cmp_eq(
                                        vers@[k as int].0@,
                                        vers@[k as int].0@,
                                    );
                                }
                            }
                        }
                        best = Some(k);
                    } else {
                        proof {
                            crate::version::lemma_sem_cmp_flip(
                                vers@[b as int].0@,
                                vers@[k as int].0@,
                            );
                        }
                    }
                },
            }
        }
        k = k + 1;
    }
    match best {
        Some(b) => Some((mod_info, &vers[b].0, &vers[b].1)),
        None => None,
    }
}

/// Whether some installed version both satisfies `req` and is at least as
/// high as `chosen`.
fn any_satisfying(installed: &Vec<(Version, ModFile)>, req: &VersionReq, chosen: &Version) -> (r:
    bool)
    ensures
        r == exists|j: int|
            0 <= j < installed@.len() && req_matches(req@, (#[trigger] installed@[j]).0@)
                && sem_le(chosen@, installed@[j].0@),
{
    let mut j: usize = 0;
    while j < installed.len()
        invariant
            j <= installed.len(),
            forall|t: int|
                0 <= t < j ==> !(req_matches(req@, (#[trigger] installed@[t]).0@) && sem_le(
                    chosen@,
                    installed@[t].0@,
                )),
        decreases installed.len() - j,
    {
        if req.matches(&installed[j].0) && !matches!(
            chosen.cmp_with(&installed[j].0),
            core::cmp::Ordering::Greater,
        ) {
            return true;
        }
        j = j + 1;
    }
    false
}

/// Whether the pair `(id, ver)` was already resolved in this walk.
fn visited_contains(visited: &Vec<(GUID, Version)>, id: &str, ver: &Version) -> (r: bool)
    ensures
        r == exists|j: int|
            0 <= j < visited@.len() && (#[trigger] visited@[j]).0@ == id@ && sem_eq(
                visited@[j].1@,
                ver@,
            ),
{
    let mut j: usize = 0;
    while j < visited.len()
        invariant
            j <= visited.len(),
            forall|t: int|
                0 <= t < j ==> !((#[trigger] visited@[t]).0@ == id@ && sem_eq(
                    visited@[t].1@,
                    ver@,
                )),
        decreases visited.len() - j,
    {
        if crate::text::str_eq(visited[j].0.as_str(), id) && visited[j].1 == *ver {
            return true;
        }
        j = j + 1;
    }
    false
}

/// The (GUID, version) pairs declared by one mod, from version `k` on.
pub open spec fn mod_pairs_from(guid: Seq<char>, vers: Seq<(Version, ModVersion)>, k: int) -> Seq<
    (Seq<char>, VersionView),
>
    decreases vers.len() - k,
{
    if !(0 <= k < vers.len()) {
        Seq::empty()
    } else {
        seq![(guid, vers[k].0@)] + mod_pairs_from(guid, vers, k + 1)
    }
}

/// All (GUID, version) pairs the registry declares, from mod `i` on.
pub open spec fn registry_pairs_from(mods: Seq<(GUID, Mod)>, i: int) -> Seq<
    (Seq<char>, VersionView),
>
    decreases mods.len() - i,
{
    if !(0 <= i < mods.len()) {
        Seq::empty()
    } else {
        mod_pairs_from(mods[i].0@, mods[i].1.versions@, 0) + registry_pairs_from(mods, i + 1)
    }
}

proof fn lemma_mod_pairs_contains(guid: Seq<char>, vers: Seq<(Version, ModVersion)>, s: int, k: int)
    requires
        0 <= s <= k < vers.len(),
    ensures
        mod_pairs_from(guid, vers, s).contains((guid, vers[k].0@)),
    decreases k - s,
{
    if s == k {
        assert(mod_pairs_from(guid, vers, s)[0] == (guid, vers[k].0@));
    } else {
        lemma_mod_pairs_contains(guid, vers, s + 1, k);
        let rest = mod_pairs_from(guid, vers, s + 1);
        let whole = mod_pairs_from(guid, vers, s);
        let w = choose|t: int| 0 <= t < rest.len() && rest[t] == (guid, vers[k].0@);
        assert(whole[w + 1] == rest[w]);
    }
}

proof fn lemma_registry_pairs_contains(mods: Seq<(GUID, Mod)>, s: int, i: int, k: int)
    requires
        0 <= s <= i < mods.len(),
        0 <= k < mods[i].1.versions@.len(),
    ensures
        registry_pairs_from(mods, s).contains((mods[i].0@, mods[i].1.versions@[k].0@)),
    decreases i - s,
{
    let whole = registry_pairs_from(mods, s);
    let head = mod_pairs_from(mods[s].0@, mods[s].1.versions@, 0);
    if s == i {
        lemma_mod_pairs_contains(mods[i].0@, mods[i].1.versions@, 0, k);
        let w = choose|t: int|
            0 <= t < head.len() && head[t] == (mods[i].0@, mods[i].1.versions@[k].0@);
        assert(whole[w] == head[w]);
    } else {
        lemma_registry_pairs_contains(mods, s + 1, i, k);
        let rest = registry_pairs_from(mods, s + 1);
        let w = choose|t: int|
            0 <= t < rest.len() && rest[t] == (mods[i].0@, mods[i].1.versions@[k].0@);
        assert(whole[head.len() + w] == rest[w]);
    }
}

/// A list of pairwise-distinct pairs, each of which the registry declares,
/// is no longer than the registry's own list of pairs.
proof fn lemma_visited_bound(vw: Seq<(Seq<char>, VersionView)>, pairs: Seq<(Seq<char>, VersionView)>)
    requires
        vw.no_duplicates(),
        forall|j: int| 0 <= j < vw.len() ==> pairs.contains(#[trigger] vw[j]),
    ensures
        vw.len() <= pairs.len(),
{
    broadcast use vstd::seq_lib::seq_to_set_is_finite;
    broadcast use vstd::set::group_set_axioms;

    vw.unique_seq_to_set();
    assert(vw.to_set().subset_of(pairs.to_set())) by {
        assert(forall|x: (Seq<char>, VersionView)| vw.to_set().contains(x) ==> pairs.to_set().contains(x)) by {
            assert(forall|x: (Seq<char>, VersionView)| #[trigger] vw.contains(x) ==> pairs.contains(x));
        }
    }
    pairs.lemma_cardinality_of_set();
    vstd::set_lib::lemma_len_subset(vw.to_set(), pairs.to_set());
}

/// The view of the visited list.
pub open spec fn visited_view(v: Seq<(GUID, Version)>) -> Seq<(Seq<char>, VersionView)> {
    v.map_values(|p: (GUID, Version)| (p.0@, p.1@))
}

/// One processed node of the dependency walk: the requirement it was
/// reached under, the version chosen for it, and the installed versions it
/// displaces.
pub struct ResolveNode {
    pub id: Seq<char>,
    pub req: Seq<ComparatorView>,
    pub chosen: VersionView,
    pub uninstalls: Seq<VersionView>,
}

/// The node records one valid greedy step: its chosen version is a declared
/// registry version of its GUID that satisfies its requirement and is at
/// least every satisfying registry version; its uninstalls are exactly the
/// installed versions of its GUID, in state order; and the node was not
/// already satisfied, since a satisfied node is skipped, never processed.
pub open spec fn node_valid(
    n: ResolveNode,
    map: Seq<(GUID, Vec<(Version, ModFile)>)>,
    mods: Seq<(GUID, Mod)>,
) -> bool {
    &&& match str_key_lookup(mods, n.id) {
        Some(m) => {
            &&& exists|k: int|
                0 <= k < m.versions@.len() && (#[trigger] m.versions@[k]).0@ == n.chosen
            &&& req_matches(n.req, n.chosen)
            &&& forall|k: int|
                0 <= k < m.versions@.len() && req_matches(n.req, (#[trigger] m.versions@[k]).0@)
                    ==> sem_le(m.versions@[k].0@, n.chosen)
        },
        None => false,
    }
    &&& match str_key_lookup(map, n.id) {
        Some(found) => n.uninstalls == found@.map_values(|p: (Version, ModFile)| p.0@),
        None => n.uninstalls == Seq::<VersionView>::empty(),
    }
    &&& !spec_satisfied(map, mods, n.id, n.req)
}

/// The operations one node contributes: an uninstall of every installed
/// version of its GUID, then the install of the chosen version.
pub open spec fn node_group(n: ResolveNode) -> Seq<ModInstallOperationsView> {
    n.uninstalls.map_values(
        |v: VersionView| ModInstallOperationsView::UninstallMod((n.id, v)),
    ).push(ModInstallOperationsView::InstallMod((n.id, n.chosen)))
}

/// The plan of a walk: the nodes' groups flattened in reverse discovery
/// order, so a dependency's operations come before its dependent's.
pub open spec fn trace_plan(trace: Seq<ResolveNode>) -> Seq<ModInstallOperationsView>
    decreases trace.len(),
{
    if trace.len() == 0 {
        Seq::empty()
    } else {
        node_group(trace.last()) + trace_plan(trace.drop_last())
    }
}

/// The registry record of `parent`'s chosen version declares the dependency
/// `(id, req)`.
pub open spec fn declared_dep(
    parent: ResolveNode,
    id: Seq<char>,
    req: Seq<ComparatorView>,
    mods: Seq<(GUID, Mod)>,
) -> bool {
    match str_key_lookup(mods, parent.id) {
        Some(m) => exists|k: int|
            {
                &&& 0 <= k < m.versions@.len()
                &&& (#[trigger] m.versions@[k]).0@ == parent.chosen
                &&& match m.versions@[k].1.dependencies {
                    Some(deps) => exists|d: int|
                        0 <= d < deps@.len() && (#[trigger] deps@[d]).0@ == id
                            && deps@[d].1.version@ == req,
                    None => false,
                }
            },
        None => false,
    }
}

/// A valid walk from the root request: every node a valid greedy step,
/// every node after the first reached as a declared dependency of an
/// earlier node's chosen version, and the first node the root itself.
pub open spec fn trace_valid(
    trace: Seq<ResolveNode>,
    map: Seq<(GUID, Vec<(Version, ModFile)>)>,
    mods: Seq<(GUID, Mod)>,
    root_id: Seq<char>,
    root_req: Seq<ComparatorView>,
) -> bool {
    &&& forall|t: int| 0 <= t < trace.len() ==> node_valid(#[trigger] trace[t], map, mods)
    &&& forall|t: int|
        1 <= t < trace.len() ==> exists|s: int|
            0 <= s < t && declared_dep(trace[s], (#[trigger] trace[t]).id, trace[t].req, mods)
    &&& (trace.len() > 0 ==> trace[0].id == root_id && trace[0].req == root_req)
}

/// Computes the ordered operations that bring the installed state into
/// compliance with "install `mod_id` satisfying `requirement`" and its
/// transitive dependencies, greedily choosing the highest satisfying
/// registry version for every node, with no backtracking.
///
/// A node already installed at a version that satisfies its requirement and
/// is at least the registry's best is treated as satisfied and its subtree
/// is not re-walked; in particular, a satisfied root yields the empty plan.
/// A node resolved once is not resolved again, so the walk terminates even
/// on cyclic dependency graphs. Any node with no satisfying registry version
/// aborts the whole resolution, naming that GUID and requirement.
///
/// The contract describes the result through the walk itself: a `Resolved`
/// plan is exactly the flattened, reverse-discovery-order groups of a valid
/// walk from the root, each node uninstalling every installed version of its
/// GUID and installing the greatest satisfying one; an unsatisfied,
/// satisfiable root forces a nonempty walk. An `UnableToFind` names an
/// unsatisfiable pair that is the root itself or a dependency declared by a
/// chosen version of a valid walk.
#[verifier::rlimit(100)]
#[verifier::spinoff_prover]
pub fn resolve_install_mod(
    mod_id: &str,
    requirement: &VersionReq,
    current_install: &ModMap,
    mod_list: &ManifestMods,
) -> (r: ResolveResult)
    ensures
        match r {
            ResolveResult::UnableToFind { mod_id: m, requirement: q } => {
                &&& no_match(mod_list@, m@, q@)
                &&& exists|trace: Seq<ResolveNode>|
                    {
                        &&& #[trigger] trace_valid(
                            trace,
                            current_install@,
                            mod_list@,
                            mod_id@,
                            requirement@,
                        )
                        &&& ((m@ == mod_id@ && q@ == requirement@) || exists|s: int|
                            0 <= s < trace.len() && declared_dep(
                                #[trigger] trace[s],
                                m@,
                                q@,
                                mod_list@,
                            ))
                    }
            },
            ResolveResult::Resolved(ops) => {
                &&& exists|trace: Seq<ResolveNode>|
                    {
                        &&& #[trigger] trace_valid(
                            trace,
                            current_install@,
                            mod_list@,
                            mod_id@,
                            requirement@,
                        )
                        &&& ops_view(ops@) == trace_plan(trace)
                        &&& (!no_match(mod_list@, mod_id@, requirement@) && !spec_satisfied(
                            current_install@,
                            mod_list@,
                            mod_id@,
                            requirement@,
                        ) ==> trace.len() > 0)
                    }
                &&& forall|i: int|
                    0 <= i < ops@.len() ==> op_valid(
                        (#[trigger] ops@[i])@,
                        current_install@,
                        mod_list@,
                    )
                &&& (spec_satisfied(current_install@, mod_list@, mod_id@, requirement@)
                    ==> ops@.len() == 0)
            },
        },
        no_match(mod_list@, mod_id@, requirement@) ==> (r matches ResolveResult::UnableToFind {
            mod_id: m,
            requirement: q,
        } && m@ == mod_id@ && q@ == requirement@),
{
    let ghost pairs = registry_pairs_from(mod_list@, 0);
    let ghost root_unsat = no_match(mod_list@, mod_id@, requirement@);
    let ghost root_sat = spec_satisfied(current_install@, mod_list@, mod_id@, requirement@);
    let ghost mut trace: Seq<ResolveNode> = Seq::empty();
    let mut ops_groups: Vec<Vec<ModInstallOperations>> = Vec::new();
    let mut queue: Vec<(GUID, VersionReq)> = Vec::new();
    queue.push((String::from_str(mod_id), requirement.clone()));
    let mut visited: Vec<(GUID, Version)> = Vec::new();
    while queue.len() > 0
        invariant
            visited_view(visited@).no_duplicates(),
            forall|j: int|
                0 <= j < visited@.len() ==> pairs.contains(#[trigger] visited_view(visited@)[j]),
            visited@.len() <= pairs.len(),
            pairs == registry_pairs_from(mod_list@, 0),
            root_unsat == no_match(mod_list@, mod_id@, requirement@),
            root_sat == spec_satisfied(current_install@, mod_list@, mod_id@, requirement@),
            ops_groups@.len() == trace.len(),
            forall|g: int, t: int|
                0 <= g < ops_groups@.len() && 0 <= t < ops_groups@[g]@.len() ==> op_valid(
                    ((#[trigger] ops_groups@[g]@[t]))@,
                    current_install@,
                    mod_list@,
                ),
            forall|t: int|
                0 <= t < trace.len() ==> ops_view(ops_groups@[t]@) == node_group(#[trigger] trace[t]),
            forall|t: int|
                0 <= t < trace.len() ==> node_valid(#[trigger] trace[t], current_install@, mod_list@),
            forall|t: int|
                1 <= t < trace.len() ==> exists|s: int|
                    0 <= s < t && declared_dep(
                        trace[s],
                        (#[trigger] trace[t]).id,
                        trace[t].req,
                        mod_list@,
                    ),
            trace.len() > 0 ==> trace[0].id == mod_id@ && trace[0].req == requirement@,
            forall|qi: int|
                0 <= qi < queue@.len() ==> (exists|s: int|
                    0 <= s < trace.len() && declared_dep(
                        trace[s],
                        (#[trigger] queue@[qi]).0@,
                        queue@[qi].1@,
                        mod_list@,
                    )) || (trace.len() == 0 && queue@.len() == 1 && queue@[qi].0@ == mod_id@
                    && queue@[qi].1@ == requirement@),
            (!root_unsat && !root_sat) ==> (queue@.len() > 0 || trace.len() > 0),
            (!root_unsat && !root_sat) ==> (visited@.len() > 0 ==> trace.len() > 0),
            root_unsat ==> {
                &&& queue@.len() == 1
                &&& queue@[0].0@ == mod_id@
                &&& queue@[0].1@ == requirement@
            },
            (!root_unsat && root_sat) ==> {
                &&& ops_groups@.len() == 0
                &&& (queue@.len() == 0 || (queue@.len() == 1 && queue@[0].0@ == mod_id@
                    && queue@[0].1@ == requirement@ && visited@.len() == 0))
            },
        decreases pairs.len() - visited@.len(), queue@.len(),
    {
        let ghost q0 = queue@;
        let (cur_id, cur_req) = queue.pop().unwrap();
        let (mod_info, version, version_info) = match find_latest_matching(
            cur_id.as_str(),
            &cur_req,
            mod_list,
        ) {
            Some(t) => t,
            None => {
                proof {
                    assert(trace_valid(trace, current_install@, mod_list@, mod_id@, requirement@));
                    assert(cur_id@ == q0[q0.len() - 1].0@ && cur_req@ == q0[q0.len() - 1].1@);
                }
                return ResolveResult::UnableToFind { mod_id: cur_id, requirement: cur_req };
            },
        };
        proof {
            let k = choose|k: int|
                0 <= k < mod_info.versions@.len() && (#[trigger] mod_info.versions@[k]) == (
                    *version,
                    *version_info,
                );
            assert(req_matches(cur_req@, mod_info.versions@[k].0@));
            assert(!no_match(mod_list@, cur_id@, cur_req@));
        }
        if visited_contains(&visited, cur_id.as_str(), version) {
            continue ;
        }
        let ghost vw0 = visited_view(visited@);
        visited.push((cur_id.clone(), version.clone()));
        proof {
            assert(visited_view(visited@) =~= vw0.push((cur_id@, version@)));
            lemma_str_key_index_props(mod_list@, cur_id@);
            let mi = str_key_index(mod_list@, cur_id@);
            let vk = choose|k: int|
                0 <= k < mod_info.versions@.len() && (#[trigger] mod_info.versions@[k]) == (
                    *version,
                    *version_info,
                );
            lemma_registry_pairs_contains(mod_list@, 0, mi, vk);
            lemma_visited_bound(visited_view(visited@), pairs);
        }
        let mut piece: Vec<ModInstallOperations> = Vec::new();
        let ghost mut node_uninstalls: Seq<VersionView> = Seq::empty();
        let mut skip_node = false;
        match str_key_get(current_install, cur_id.as_str()) {
            Some(installed) => {
                let sat = any_satisfying(installed, &cur_req, version);
                proof {
                    // The executable check agrees with the satisfaction
                    // predicate: being at or above the greatest satisfying
                    // registry version is being at or above all of them.
                    let fv = *installed;
                    assert(str_key_lookup(current_install@, cur_id@) == Some(fv));
                    let mv = *mod_info;
                    assert(str_key_lookup(mod_list@, cur_id@) == Some(mv));
                    let k = choose|k: int|
                        0 <= k < mod_info.versions@.len() && (#[trigger] mod_info.versions@[k])
                            == (*version, *version_info);
                    assert(mv.versions@[k] == mod_info.versions@[k]);
                    assert(req_matches(cur_req@, version@));
                    if sat {
                        let j = choose|j: int|
                            0 <= j < installed@.len() && req_matches(
                                cur_req@,
                                (#[trigger] installed@[j]).0@,
                            ) && sem_le(version@, installed@[j].0@);
                        assert(fv@[j] == installed@[j]);
                        assert forall|kk: int|
                            0 <= kk < mv.versions@.len() && req_matches(
                                cur_req@,
                                (#[trigger] mv.versions@[kk]).0@,
                            ) implies sem_le(mv.versions@[kk].0@, fv@[j].0@) by {
                            assert(mv.versions@[kk] == mod_info.versions@[kk]);
                            assert(sem_le(mod_info.versions@[kk].0@, version@));
                            lemma_sem_le_trans(mv.versions@[kk].0@, version@, fv@[j].0@);
                        }
                        assert(0 <= j < fv@.len() && req_matches(cur_req@, fv@[j].0@));
                        assert(forall|kx: int|
                            0 <= kx < mv.versions@.len() && req_matches(
                                cur_req@,
                                (#[trigger] mv.versions@[kx]).0@,
                            ) ==> sem_le(mv.versions@[kx].0@, fv@[j].0@));
                        lemma_satisfied_witness(
                            current_install@,
                            mod_list@,
                            cur_id@,
                            cur_req@,
                            fv,
                            j,
                        );
                        assert(spec_satisfied(current_install@, mod_list@, cur_id@, cur_req@));
                    } else {
                        if spec_satisfied(current_install@, mod_list@, cur_id@, cur_req@) {
                            let j = choose|j: int|
                                {
                                    &&& 0 <= j < fv@.len()
                                    &&& req_matches(cur_req@, (#[trigger] fv@[j]).0@)
                                    &&& match str_key_lookup(mod_list@, cur_id@) {
                                        None => true,
                                        Some(m) => forall|kx: int|
                                            0 <= kx < m.versions@.len() && req_matches(
                                                cur_req@,
                                                (#[trigger] m.versions@[kx]).0@,
                                            ) ==> sem_le(m.versions@[kx].0@, fv@[j].0@),
                                    }
                                };
                            assert(req_matches(cur_req@, mv.versions@[k].0@));
                            assert(sem_le(version@, fv@[j].0@));
                            assert(installed@[j] == fv@[j]);
                            assert(sat);
                        }
                    }
                    assert(sat == spec_satisfied(current_install@, mod_list@, cur_id@, cur_req@));
                }
                if sat {
                    skip_node = true;
                } else {
                    let mut u: usize = 0;
                    while u < installed.len()
                        invariant
                            u <= installed.len(),
                            str_key_lookup(current_install@, cur_id@) == Some(*installed),
                            ops_view(piece@) == installed@.take(u as int).map_values(
                                |p: (Version, ModFile)| ModInstallOperationsView::UninstallMod(
                                    (cur_id@, p.0@),
                                ),
                            ),
                            forall|t: int|
                                0 <= t < piece@.len() ==> op_valid(
                                    ((#[trigger] piece@[t]))@,
                                    current_install@,
                                    mod_list@,
                                ),
                        decreases installed.len() - u,
                    {
                        let op = ModInstallOperations::UninstallMod(
                            (cur_id.clone(), installed[u].0.clone()),
                        );
                        proof {
                            let fv = *installed;
                            assert(str_key_lookup(current_install@, cur_id@) == Some(fv));
                            assert(exists|j: int|
                                0 <= j < fv@.len() && crate::version::sem_eq(
                                    (#[trigger] fv@[j]).0@,
                                    installed@[u as int].0@,
                                )) by {
                                assert(fv@[u as int] == installed@[u as int]);
                                assert(crate::version::sem_eq(
                                    fv@[u as int].0@,
                                    installed@[u as int].0@,
                                ));
                            }
                            assert(op@ matches ModInstallOperationsView::UninstallMod(pp) && pp
                                == (cur_id@, installed@[u as int].0@));
                            lemma_uninstall_op_valid(
                                current_install@,
                                mod_list@,
                                cur_id@,
                                fv,
                                installed@[u as int].0@,
                            );
                            assert(op_valid(op@, current_install@, mod_list@));
                        }
                        let ghost piece_pre = ops_view(piece@);
                        piece.push(op);
                        proof {
                            assert(ops_view(piece@) =~= piece_pre.push(op@));
                            assert(installed@.take(u + 1) =~= installed@.take(u as int).push(
                                installed@[u as int],
                            ));
                            assert(ops_view(piece@) =~= installed@.take(u + 1).map_values(
                                |p: (Version, ModFile)| ModInstallOperationsView::UninstallMod(
                                    (cur_id@, p.0@),
                                ),
                            ));
                        }
                        u = u + 1;
                    }
                    proof {
                        assert(installed@.take(installed@.len() as int) =~= installed@);
                        node_uninstalls = installed@.map_values(|p: (Version, ModFile)| p.0@);
                        assert(ops_view(piece@) =~= node_uninstalls.map_values(
                            |v: VersionView| ModInstallOperationsView::UninstallMod((cur_id@, v)),
                        ));
                        assert(str_key_lookup(current_install@, cur_id@) == Some(*installed)
                            && node_uninstalls == (*installed)@.map_values(
                            |p: (Version, ModFile)| p.0@,
                        ));
                    }
                }
            },
            None => {
                proof {
                    assert(str_key_lookup(current_install@, cur_id@) is None);
                    assert(!spec_satisfied(current_install@, mod_list@, cur_id@, cur_req@));
                    assert(ops_view(piece@) =~= node_uninstalls.map_values(
                        |v: VersionView| ModInstallOperationsView::UninstallMod((cur_id@, v)),
                    ));
                }
            },
        }
        if skip_node {
            continue ;
        }
        let ghost node = ResolveNode {
            id: cur_id@,
            req: cur_req@,
            chosen: version@,
            uninstalls: node_uninstalls,
        };
        let opi = ModInstallOperations::InstallMod((cur_id.clone(), version.clone()));
        proof {
            let mv = *mod_info;
            assert(str_key_lookup(mod_list@, cur_id@) == Some(mv));
            let k = choose|k: int|
                0 <= k < mod_info.versions@.len() && (#[trigger] mod_info.versions@[k]) == (
                    *version,
                    *version_info,
                );
            assert(exists|t: int|
                0 <= t < mv.versions@.len() && crate::version::sem_eq(
                    (#[trigger] mv.versions@[t]).0@,
                    version@,
                )) by {
                assert(mv.versions@[k] == mod_info.versions@[k]);
                assert(crate::version::sem_eq(mv.versions@[k].0@, version@));
            }
            lemma_install_op_valid(current_install@, mod_list@, cur_id@, mv, version@);
            assert(opi@ matches ModInstallOperationsView::InstallMod(pp) && pp == (
                cur_id@,
                version@,
            ));
            assert(op_valid(opi@, current_install@, mod_list@));
            // The node is a valid greedy step.
            assert(exists|kk: int|
                0 <= kk < mv.versions@.len() && (#[trigger] mv.versions@[kk]).0@ == node.chosen) by {
                assert(mv.versions@[k].0@ == version@);
            }
            assert forall|kk: int|
                0 <= kk < mv.versions@.len() && req_matches(
                    node.req,
                    (#[trigger] mv.versions@[kk]).0@,
                ) implies sem_le(mv.versions@[kk].0@, node.chosen) by {
                assert(mv.versions@[kk] == mod_info.versions@[kk]);
                assert(sem_le(mod_info.versions@[kk].0@, version@));
            }
            assert(node_valid(node, current_install@, mod_list@));
        }
        let ghost piece_unins = ops_view(piece@);
        piece.push(opi);
        proof {
            assert(ops_view(piece@) =~= piece_unins.push(opi@));
            assert(ops_view(piece@) =~= node_group(node));
            assert(forall|t: int|
                0 <= t < piece@.len() ==> op_valid(
                    ((#[trigger] piece@[t]))@,
                    current_install@,
                    mod_list@,
                ));
        }
        let ghost groups0 = ops_groups@;
        let ghost trace0 = trace;
        let ghost piece_final = ops_view(piece@);
        ops_groups.push(piece);
        proof {
            trace = trace0.push(node);
            assert(ops_groups@.len() == trace.len());
            assert forall|g: int, t: int|
                0 <= g < ops_groups@.len() && 0 <= t < ops_groups@[g]@.len() implies op_valid(
                ((#[trigger] ops_groups@[g]@[t]))@,
                current_install@,
                mod_list@,
            ) by {
                if g < groups0.len() {
                    assert(ops_groups@[g] == groups0[g]);
                }
            }
            assert forall|t: int|
                0 <= t < trace.len() implies ops_view(ops_groups@[t]@) == node_group(
                #[trigger] trace[t],
            ) by {
                if t < trace0.len() {
                    assert(ops_groups@[t] == groups0[t]);
                    assert(trace[t] == trace0[t]);
                } else {
                    assert(trace[t] == node);
                    assert(ops_view(ops_groups@[t]@) == piece_final);
                }
            }
            assert forall|t: int|
                0 <= t < trace.len() implies node_valid(
                #[trigger] trace[t],
                current_install@,
                mod_list@,
            ) by {
                if t < trace0.len() {
                    assert(trace[t] == trace0[t]);
                }
            }
            // Linkage: the popped element was the root (when the walk was
            // empty) or a declared dependency of an earlier node.
            assert forall|t: int|
                1 <= t < trace.len() implies exists|s: int|
                0 <= s < t && declared_dep(
                    trace[s],
                    (#[trigger] trace[t]).id,
                    trace[t].req,
                    mod_list@,
                ) by {
                if t < trace0.len() {
                    assert(trace[t] == trace0[t]);
                    let s = choose|s: int|
                        0 <= s < t && declared_dep(
                            trace0[s],
                            trace0[t].id,
                            trace0[t].req,
                            mod_list@,
                        );
                    assert(trace[s] == trace0[s]);
                    assert(declared_dep(trace[s], trace[t].id, trace[t].req, mod_list@));
                } else {
                    // t is the new node; the element it came from sat in the
                    // queue, so it was a declared dependency of an earlier
                    // node (a root-shaped element would mean an empty walk,
                    // putting the new node at position zero).
                    assert(trace[t] == node);
                    let s = choose|s: int|
                        0 <= s < trace0.len() && declared_dep(
                            trace0[s],
                            q0[q0.len() - 1].0@,
                            q0[q0.len() - 1].1@,
                            mod_list@,
                        );
                    assert(trace[s] == trace0[s]);
                    assert(declared_dep(trace[s], trace[t].id, trace[t].req, mod_list@));
                }
            }
        }
        proof {
            assert(!root_unsat) by {
                if root_unsat {
                    assert(cur_id@ == mod_id@ && cur_req@ == requirement@);
                }
            }
            assert(root_unsat || !root_sat) by {
                if !root_unsat && root_sat {
                    assert(cur_id@ == mod_id@ && cur_req@ == requirement@);
                }
            }
            // The shrunk queue still links every element to the walk: a
            // root-shaped element could only have been the lone initial one,
            // which this iteration just consumed.
            assert forall|qi: int|
                0 <= qi < queue@.len() implies exists|s: int|
                0 <= s < trace.len() && declared_dep(
                    trace[s],
                    (#[trigger] queue@[qi]).0@,
                    queue@[qi].1@,
                    mod_list@,
                ) by {
                assert(queue@[qi] == q0[qi]);
                if trace0.len() > 0 {
                    let s = choose|s: int|
                        0 <= s < trace0.len() && declared_dep(
                            trace0[s],
                            q0[qi].0@,
                            q0[qi].1@,
                            mod_list@,
                        );
                    assert(trace[s] == trace0[s]);
                    assert(declared_dep(trace[s], queue@[qi].0@, queue@[qi].1@, mod_list@));
                }
            }
        }
        if let Some(deps) = &version_info.dependencies {
            let ghost find_k = choose|k: int|
                0 <= k < mod_info.versions@.len() && (#[trigger] mod_info.versions@[k]) == (
                    *version,
                    *version_info,
                );
            let mut d: usize = 0;
            while d < deps.len()
                invariant
                    d <= deps.len(),
                    version_info.dependencies == Some(*deps),
                    trace.len() > 0,
                    trace[trace.len() - 1] == node,
                    node.id == cur_id@,
                    node.chosen == version@,
                    str_key_lookup(mod_list@, cur_id@) == Some(*mod_info),
                    0 <= find_k < mod_info.versions@.len(),
                    mod_info.versions@[find_k] == (*version, *version_info),
                    forall|qi: int|
                        0 <= qi < queue@.len() ==> exists|s: int|
                            0 <= s < trace.len() && declared_dep(
                                trace[s],
                                (#[trigger] queue@[qi]).0@,
                                queue@[qi].1@,
                                mod_list@,
                            ),
                decreases deps.len() - d,
            {
                let entry = (deps[d].0.clone(), deps[d].1.version.clone());
                proof {
                    // The pushed pair is a dependency the chosen version of
                    // the newest node declares.
                    let last = trace.len() - 1;
                    let mv = *mod_info;
                    assert(str_key_lookup(mod_list@, node.id) == Some(mv));
                    assert(mv.versions@[find_k] == mod_info.versions@[find_k]);
                    assert(mv.versions@[find_k].0@ == node.chosen);
                    assert(mv.versions@[find_k].1.dependencies == Some(*deps));
                    assert(deps@[d as int].0@ == entry.0@);
                    assert(deps@[d as int].1.version@ == entry.1@);
                    lemma_declared_dep_witness(
                        node,
                        entry.0@,
                        entry.1@,
                        mod_list@,
                        mv,
                        find_k,
                        *deps,
                        d as int,
                    );
                    assert(declared_dep(trace[last], entry.0@, entry.1@, mod_list@));
                }
                queue.push(entry);
                d = d + 1;
            }
        }
    }
    // Reverse the per-node groups (the root was discovered first, so the
    // reversal puts dependencies first) and flatten into the final plan.
    let mut ops: Vec<ModInstallOperations> = Vec::new();
    proof {
        assert(trace.take(trace.len() as int) =~= trace);
        assert(ops_view(ops@) =~= Seq::<ModInstallOperationsView>::empty());
        assert(ops_view(ops@) + trace_plan(trace) =~= trace_plan(trace));
    }
    while ops_groups.len() > 0
        invariant
            ops_groups@.len() <= trace.len(),
            forall|t: int|
                0 <= t < ops_groups@.len() ==> ops_view(ops_groups@[t]@) == node_group(
                    #[trigger] trace[t],
                ),
            ops_view(ops@) + trace_plan(trace.take(ops_groups@.len() as int)) == trace_plan(trace),
            forall|i: int|
                0 <= i < ops@.len() ==> op_valid(
                    ((#[trigger] ops@[i]))@,
                    current_install@,
                    mod_list@,
                ),
            forall|g: int, t: int|
                0 <= g < ops_groups@.len() && 0 <= t < ops_groups@[g]@.len() ==> op_valid(
                    ((#[trigger] ops_groups@[g]@[t]))@,
                    current_install@,
                    mod_list@,
                ),
            (!root_unsat && root_sat) ==> (ops_groups@.len() == 0 && ops@.len() == 0),
        decreases ops_groups@.len(),
    {
        let ghost l = ops_groups@.len() as int;
        let mut group = ops_groups.pop().unwrap();
        let ghost base = ops_view(ops@) + ops_view(group@);
        while group.len() > 0
            invariant
                ops_view(ops@) + ops_view(group@) == base,
                forall|t: int|
                    0 <= t < group@.len() ==> op_valid(
                        ((#[trigger] group@[t]))@,
                        current_install@,
                        mod_list@,
                    ),
                forall|i: int|
                    0 <= i < ops@.len() ==> op_valid(
                        ((#[trigger] ops@[i]))@,
                        current_install@,
                        mod_list@,
                    ),
            decreases group@.len(),
        {
            let ghost pre = group@;
            let ghost ops_pre = ops_view(ops@);
            let op = group.remove(0);
            proof {
                assert(group@ =~= pre.skip(1));
                assert(forall|t: int| 0 <= t < group@.len() ==> group@[t] == pre[t + 1]);
            }
            ops.push(op);
            proof {
                assert(ops_view(ops@) =~= ops_pre.push(pre[0]@));
                assert(ops_view(ops@) + ops_view(group@) =~= base);
            }
        }
        proof {
            assert(ops_view(group@) =~= Seq::<ModInstallOperationsView>::empty());
            assert(ops_view(ops@) =~= base);
            assert(trace.take(l).drop_last() =~= trace.take(l - 1));
            assert(trace.take(l).last() == trace[l - 1]);
            assert(trace_plan(trace.take(l)) == node_group(trace[l - 1]) + trace_plan(
                trace.take(l - 1),
            ));
            assert(ops_view(ops@) + trace_plan(trace.take(l - 1)) =~= trace_plan(trace));
        }
    }
    proof {
        assert(trace.take(0) =~= Seq::<ResolveNode>::empty());
        assert(ops_view(ops@) + trace_plan(trace.take(0)) =~= ops_view(ops@));
        assert(ops_view(ops@) == trace_plan(trace));
        assert(trace_valid(trace, current_install@, mod_list@, mod_id@, requirement@));
    }
    ResolveResult::Resolved(ops)
}

} // verus!
