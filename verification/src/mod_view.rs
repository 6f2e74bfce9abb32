//! The list model consumers browse: one entry per installed mod, a view that
//! arranges entries alphabetically or by category, and the case-insensitive
//! filter applied to entries.

use vstd::prelude::*;
use crate::assoc::{str_key_get, str_key_lookup};
use crate::install::{ModFile, ModMap};
use crate::manifest::{Category, ManifestMods, Mod, ModVersion, GUID};
use crate::text::seq_char_cmp;
use crate::version::{lemma_seq_char_le_trans, lemma_seq_char_cmp_flip, sem_le, Version};

verus! {

/// One row of the mod list: what is known about an installed mod, joined
/// with its registry entry when the registry knows it.
#[derive(Debug)]
pub struct ModEntry {
    pub category: Category,
    pub name: String,
    pub id: Option<String>,
    pub version: Option<Version>,
    pub latest_version: Option<Version>,
    pub description: Option<String>,
    pub enabled: bool,
}

/// How the list is arranged: not built yet, grouped by category, or one
/// alphabetic list.
pub enum ModView {
    NotInitialized,
    Category(Vec<(String, Vec<ModEntry>)>),
    All(Vec<ModEntry>),
}

impl ModView {
    /// The name of the arrangement, as shown in a chooser.
    pub fn variant(&self) -> (r: String)
        ensures
            r@ == (match self {
                ModView::Category(_) => "Category"@,
                _ => "Alphabetic"@,
            }),
    {
        match self {
            ModView::Category(_) => String::from_str("Category"),
            _ => String::from_str("Alphabetic"),
        }
    }

    pub fn is_category(&self) -> (r: bool)
        ensures
            r == (self is Category),
    {
        match self {
            ModView::Category(_) => true,
            _ => false,
        }
    }

    pub fn is_all(&self) -> (r: bool)
        ensures
            r == (self is All),
    {
        match self {
            ModView::All(_) => true,
            _ => false,
        }
    }
}

impl Default for ModView {
    /// A fresh list starts unbuilt.
    fn default() -> (r: Self)
        ensures
            r is NotInitialized,
    {
        ModView::NotInitialized
    }
}

/// The case folding of a character sequence. Unicode case folding takes
/// pages to state; the result depends on the characters alone.
pub uninterp spec fn lower_of(s: Seq<char>) -> Seq<char>;

/// Relies on `str::to_lowercase`: the result depends on the characters
/// alone, and an empty string stays empty.
#[verifier::external_body]
fn lowercase(s: &str) -> (r: String)
    ensures
        r@ == lower_of(s@),
        s@.len() == 0 ==> r@.len() == 0,
{
    s.to_lowercase()
}

/// `needle` occurs in `hay` starting at position `i`.
pub open spec fn occurs_at(hay: Seq<char>, needle: Seq<char>, i: int) -> bool {
    &&& 0 <= i
    &&& i + needle.len() <= hay.len()
    &&& hay.subrange(i, i + needle.len() as int) == needle
}

/// `needle` occurs somewhere in `hay`; an empty needle occurs everywhere.
pub open spec fn seq_contains(hay: Seq<char>, needle: Seq<char>) -> bool {
    exists|i: int| occurs_at(hay, needle, i)
}

/// Whether `needle` occurs in `hay`, by scanning every start position.
fn str_contains(hay: &str, needle: &str) -> (r: bool)
    ensures
        r == seq_contains(hay@, needle@),
{
    let hn = hay.unicode_len();
    let nn = needle.unicode_len();
    if nn > hn {
        proof {
            assert(forall|i: int| !occurs_at(hay@, needle@, i));
        }
        return false;
    }
    let mut i: usize = 0;
    while i <= hn - nn
        invariant
            nn <= hn,
            hn == hay@.len(),
            nn == needle@.len(),
            i <= hn - nn + 1,
            forall|t: int| 0 <= t < i ==> !occurs_at(hay@, needle@, t),
        decreases hn - nn - i + 1,
    {
        let mut j: usize = 0;
        while j < nn && hay.get_char(i + j) == needle.get_char(j)
            invariant
                i + nn <= hn,
                hn == hay@.len(),
                nn == needle@.len(),
                j <= nn,
                forall|t: int| 0 <= t < j ==> hay@[i + t] == needle@[t],
            decreases nn - j,
        {
            j = j + 1;
        }
        if j == nn {
            proof {
                assert(hay@.subrange(i as int, i + nn) =~= needle@);
                assert(occurs_at(hay@, needle@, i as int));
            }
            return true;
        }
        proof {
            assert(hay@[i + j] != needle@[j as int]);
            assert(!occurs_at(hay@, needle@, i as int)) by {
                if occurs_at(hay@, needle@, i as int) {
                    assert(hay@.subrange(i as int, i + nn)[j as int] == needle@[j as int]);
                }
            }
        }
        i = i + 1;
    }
    proof {
        assert(forall|t: int| !occurs_at(hay@, needle@, t));
    }
    false
}

/// Whether an entry passes a case-insensitive filter: the folded filter text
/// occurs in the folded name, the folded id or the folded description.
pub open spec fn spec_filter_entry(
    filter: Seq<char>,
    name: Seq<char>,
    id: Option<Seq<char>>,
    description: Option<Seq<char>>,
) -> bool {
    let f = lower_of(filter);
    ||| seq_contains(lower_of(name), f)
    ||| (id matches Some(s) && seq_contains(lower_of(s), f))
    ||| (description matches Some(s) && seq_contains(lower_of(s), f))
}

/// Whether `entry` passes the case-insensitive `filter`.
pub fn filter_entry(filter: &str, entry: &ModEntry) -> (r: bool)
    ensures
        r == spec_filter_entry(
            filter@,
            entry.name@,
            match entry.id {
                Some(s) => Some(s@),
                None => None,
            },
            match entry.description {
                Some(s) => Some(s@),
                None => None,
            },
        ),
{
    let folded = lowercase(filter);
    if str_contains(lowercase(entry.name.as_str()).as_str(), folded.as_str()) {
        return true;
    }
    if let Some(id) = &entry.id {
        if str_contains(lowercase(id.as_str()).as_str(), folded.as_str()) {
            return true;
        }
    }
    if let Some(description) = &entry.description {
        if str_contains(lowercase(description.as_str()).as_str(), folded.as_str()) {
            return true;
        }
    }
    false
}

/// The greatest version key among registry entries, folded left with later
/// equal keys winning, seeded with `acc`.
pub open spec fn max_key_from(vers: Seq<(Version, ModVersion)>, i: int, acc: Version) -> Version
    decreases vers.len() - i,
{
    if !(0 <= i < vers.len()) {
        acc
    } else {
        max_key_from(
            vers,
            i + 1,
            if sem_le(acc@, vers[i].0@) {
                vers[i].0
            } else {
                acc
            },
        )
    }
}

/// Whether every file record of a version is enabled on disk.
pub open spec fn spec_all_enabled(file: ModFile) -> bool {
    forall|i: int| 0 <= i < file@.len() ==> !(#[trigger] file@[i]).disabled
}

/// The list row for one installed mod: joined with its registry entry when
/// the registry knows the GUID, else a synthetic unknown row named after the
/// GUID. The shown version is the first installed one; the latest version is
/// the greatest registry key.
pub open spec fn spec_entry(
    guid: GUID,
    files: Vec<(Version, ModFile)>,
    mods: Seq<(GUID, Mod)>,
) -> ModEntry {
    match str_key_lookup(mods, guid@) {
        Some(m) => ModEntry {
            category: m.category,
            name: m.name,
            id: Some(guid),
            version: Some(files@[0].0),
            latest_version: if m.versions@.len() == 0 {
                None
            } else {
                Some(max_key_from(m.versions@, 1, m.versions@[0].0))
            },
            description: Some(m.description),
            enabled: spec_all_enabled(files@[0].1),
        },
        None => ModEntry {
            category: Category::Unknown,
            name: guid,
            id: None,
            version: None,
            latest_version: None,
            description: None,
            enabled: spec_all_enabled(files@[0].1),
        },
    }
}

/// The list rows of an installed state, from entry `i` on: one row per mod
/// that has at least one installed version, in state order.
pub open spec fn spec_entries_from(
    map: Seq<(GUID, Vec<(Version, ModFile)>)>,
    mods: Seq<(GUID, Mod)>,
    i: int,
) -> Seq<ModEntry>
    decreases map.len() - i,
{
    if !(0 <= i < map.len()) {
        Seq::empty()
    } else {
        (if map[i].1@.len() > 0 {
            seq![spec_entry(map[i].0, map[i].1, mods)]
        } else {
            Seq::<ModEntry>::empty()
        }) + spec_entries_from(map, mods, i + 1)
    }
}

/// Rows in nondescending name order.
pub open spec fn entries_sorted_by_name(s: Seq<ModEntry>) -> bool {
    forall|i: int, j: int|
        0 <= i < j < s.len() ==> seq_char_cmp((#[trigger] s[i]).name@, (#[trigger] s[j]).name@)
            != core::cmp::Ordering::Greater
}

/// The greatest registry version key of one mod.
fn max_version_key(m: &Mod) -> (r: Option<Version>)
    ensures
        m.versions@.len() == 0 ==> r is None,
        m.versions@.len() > 0 ==> r == Some(max_key_from(m.versions@, 1, m.versions@[0].0)),
{
    if m.versions.len() == 0 {
        return None;
    }
    let mut acc = m.versions[0].0.clone();
    let mut i: usize = 1;
    while i < m.versions.len()
        invariant
            1 <= i <= m.versions.len(),
            max_key_from(m.versions@, 1, m.versions@[0].0) == max_key_from(
                m.versions@,
                i as int,
                acc,
            ),
        decreases m.versions.len() - i,
    {
        if !matches!(acc.cmp_with(&m.versions[i].0), core::cmp::Ordering::Greater) {
            acc = m.versions[i].0.clone();
        } else {
        }
        i = i + 1;
    }
    Some(acc)
}

/// Whether every file record of a version is enabled.
fn all_enabled(file: &ModFile) -> (r: bool)
    ensures
        r == spec_all_enabled(*file),
{
    let mut i: usize = 0;
    while i < file.files.len()
        invariant
            i <= file.files.len(),
            forall|j: int| 0 <= j < i ==> !(#[trigger] file@[j]).disabled,
        decreases file.files.len() - i,
    {
        assert(file@[i as int] == file.files@[i as int]@);
        if file.files[i].disabled {
            return false;
        }
        i = i + 1;
    }
    true
}

/// Inserts rows in nondescending name order, keeping earlier rows first
/// among equal names.
fn sort_entries_by_name(input: Vec<ModEntry>) -> (r: Vec<ModEntry>)
    ensures
        entries_sorted_by_name(r@),
        r@.to_multiset() == input@.to_multiset(),
{
    broadcast use vstd::seq_lib::group_to_multiset_ensures;

    let ghost input0 = input@;
    let mut out: Vec<ModEntry> = Vec::new();
    let mut rest = input;
    proof {
        assert(out@.to_multiset().add(rest@.to_multiset()) =~= input0.to_multiset());
    }
    while rest.len() > 0
        invariant
            entries_sorted_by_name(out@),
            out@.to_multiset().add(rest@.to_multiset()) == input0.to_multiset(),
        decreases rest@.len(),
    {
        let ghost rest_pre = rest@;
        let x = rest.remove(0);
        proof {
            assert(rest@ =~= rest_pre.remove(0));
            rest_pre.to_multiset_ensures();
            assert(rest_pre.remove(0).to_multiset() =~= rest_pre.to_multiset().remove(
                rest_pre[0],
            ));
            assert(rest@.to_multiset() =~= rest_pre.to_multiset().remove(x));
        }
        let mut p: usize = 0;
        while p < out.len() && !matches!(
            crate::text::str_cmp(out[p].name.as_str(), x.name.as_str()),
            core::cmp::Ordering::Greater,
        )
            invariant
                p <= out.len(),
                forall|t: int|
                    0 <= t < p ==> seq_char_cmp((#[trigger] out@[t]).name@, x.name@)
                        != core::cmp::Ordering::Greater,
            decreases out.len() - p,
        {
            p = p + 1;
        }
        let ghost out_pre = out@;
        out.insert(p, x);
        proof {
            assert(out@.remove(p as int) =~= out_pre);
            out@.to_multiset_ensures();
            assert(out@.remove(p as int).to_multiset() =~= out@.to_multiset().remove(
                out@[p as int],
            ));
            assert(out_pre.to_multiset() =~= out@.to_multiset().remove(x));
            assert(out@[p as int] == x);
            assert(out@.to_multiset().count(x) > 0) by {
                assert(out@.contains(x));
            }
            assert(out@.to_multiset() =~= out_pre.to_multiset().insert(x));
            assert(out@.to_multiset().add(rest@.to_multiset()) =~= input0.to_multiset());
            assert forall|i: int, j: int|
                0 <= i < j < out@.len() implies seq_char_cmp(
                (#[trigger] out@[i]).name@,
                (#[trigger] out@[j]).name@,
            ) != core::cmp::Ordering::Greater by {
                if i < p && j < p {
                    assert(out@[i] == out_pre[i] && out@[j] == out_pre[j]);
                } else if j == p {
                    assert(out@[i] == out_pre[i]);
                } else if i == p {
                    assert(out@[j] == out_pre[j - 1]);
                    assert(p < out_pre.len() ==> seq_char_cmp(out_pre[p as int].name@, x.name@)
                        == core::cmp::Ordering::Greater);
                    lemma_seq_char_cmp_flip(out_pre[p as int].name@, x.name@);
                    if j - 1 > p {
                        lemma_seq_char_le_trans(
                            x.name@,
                            out_pre[p as int].name@,
                            out_pre[j - 1].name@,
                        );
                    }
                } else if i < p {
                    assert(out@[i] == out_pre[i]);
                    assert(out@[j] == out_pre[j - 1]);
                    assert(i < j - 1);
                } else {
                    assert(out@[i] == out_pre[i - 1]);
                    assert(out@[j] == out_pre[j - 1]);
                }
            }
        }
    }
    proof {
        assert(rest@.to_multiset() =~= Seq::<ModEntry>::empty().to_multiset());
        assert(out@.to_multiset().add(rest@.to_multiset()) =~= out@.to_multiset());
    }
    out
}

/// Joins the installed state with the registry into list rows, one per mod
/// with at least one installed version, in nondescending name order.
pub fn build_entries(mod_map: &ModMap, mods: &ManifestMods) -> (r: Vec<ModEntry>)
    ensures
        entries_sorted_by_name(r@),
        r@.to_multiset() == spec_entries_from(mod_map@, mods@, 0).to_multiset(),
{
    let mut entries: Vec<ModEntry> = Vec::new();
    let mut i: usize = 0;
    while i < mod_map.len()
        invariant
            i <= mod_map.len(),
            spec_entries_from(mod_map@, mods@, 0) =~= entries@ + spec_entries_from(
                mod_map@,
                mods@,
                i as int,
            ),
        decreases mod_map.len() - i,
    {
        let guid = &mod_map[i].0;
        let files = &mod_map[i].1;
        if files.len() > 0 {
            let enabled = all_enabled(&files[0].1);
            let entry = match str_key_get(mods, guid.as_str()) {
                Some(m) => ModEntry {
                    category: m.category,
                    name: m.name.clone(),
                    id: Some(guid.clone()),
                    version: Some(files[0].0.clone()),
                    latest_version: max_version_key(m),
                    description: Some(m.description.clone()),
                    enabled,
                },
                None => ModEntry {
                    category: Category::Unknown,
                    name: guid.clone(),
                    id: None,
                    version: None,
                    latest_version: None,
                    description: None,
                    enabled,
                },
            };
            proof {
                assert(entry == spec_entry(mod_map@[i as int].0, mod_map@[i as int].1, mods@));
            }
            let ghost prev = entries@;
            entries.push(entry);
            proof {
                assert(entries@ =~= prev + seq![
                    spec_entry(mod_map@[i as int].0, mod_map@[i as int].1, mods@),
                ]);
                assert(spec_entries_from(mod_map@, mods@, 0) =~= entries@ + spec_entries_from(
                    mod_map@,
                    mods@,
                    i + 1,
                ));
            }
        }
        i = i + 1;
    }
    proof {
        assert(spec_entries_from(mod_map@, mods@, 0) =~= entries@);
    }
    sort_entries_by_name(entries)
}

/// The position of a category in the fixed listing order.
pub open spec fn category_rank(c: Category) -> int {
    match c {
        Category::AssetImportingTweaks => 0,
        Category::BugWorkarounds => 1,
        Category::ContextMenuTweaks => 2,
        Category::DashTweaks => 3,
        Category::Developers => 4,
        Category::GeneralUITweaks => 5,
        Category::HardwareIntegrations => 6,
        Category::Inspectors => 7,
        Category::KeybindsGestures => 8,
        Category::Libraries => 9,
        Category::LogiX => 10,
        Category::Memes => 11,
        Category::Misc => 12,
        Category::Optimization => 13,
        Category::Plugins => 14,
        Category::TechnicalTweaks => 15,
        Category::VisualTweaks => 16,
        Category::Wizards => 17,
        Category::Unknown => 18,
    }
}

/// The heading a category is shown under.
pub open spec fn category_display(c: Category) -> Seq<char> {
    match c {
        Category::AssetImportingTweaks => "Asset Importing Tweaks"@,
        Category::BugWorkarounds => "Bug Workarounds"@,
        Category::ContextMenuTweaks => "Context Menu Tweaks"@,
        Category::DashTweaks => "Dash Tweaks"@,
        Category::Developers => "Developers"@,
        Category::GeneralUITweaks => "General UI Tweaks"@,
        Category::HardwareIntegrations => "Hardware Integrations"@,
        Category::Inspectors => "Inspectors"@,
        Category::KeybindsGestures => "Keybinds & Gestures"@,
        Category::Libraries => "Libraries"@,
        Category::LogiX => "LogiX"@,
        Category::Memes => "Memes"@,
        Category::Misc => "Misc"@,
        Category::Optimization => "Optimization"@,
        Category::Plugins => "Plugins"@,
        Category::TechnicalTweaks => "Technical Tweaks"@,
        Category::VisualTweaks => "Visual Tweaks"@,
        Category::Wizards => "Wizards"@,
        Category::Unknown => "Unknown"@,
    }
}

/// The position of a category in the fixed listing order.
fn category_rank_of(c: &Category) -> (r: u8)
    ensures
        r as int == category_rank(*c),
        r < 19,
{
    match c {
        Category::AssetImportingTweaks => 0,
        Category::BugWorkarounds => 1,
        Category::ContextMenuTweaks => 2,
        Category::DashTweaks => 3,
        Category::Developers => 4,
        Category::GeneralUITweaks => 5,
        Category::HardwareIntegrations => 6,
        Category::Inspectors => 7,
        Category::KeybindsGestures => 8,
        Category::Libraries => 9,
        Category::LogiX => 10,
        Category::Memes => 11,
        Category::Misc => 12,
        Category::Optimization => 13,
        Category::Plugins => 14,
        Category::TechnicalTweaks => 15,
        Category::VisualTweaks => 16,
        Category::Wizards => 17,
        Category::Unknown => 18,
    }
}

/// The heading a category is shown under.
fn category_name(c: &Category) -> (r: String)
    ensures
        r@ == category_display(*c),
{
    match c {
        Category::AssetImportingTweaks => String::from_str("Asset Importing Tweaks"),
        Category::BugWorkarounds => String::from_str("Bug Workarounds"),
        Category::ContextMenuTweaks => String::from_str("Context Menu Tweaks"),
        Category::DashTweaks => String::from_str("Dash Tweaks"),
        Category::Developers => String::from_str("Developers"),
        Category::GeneralUITweaks => String::from_str("General UI Tweaks"),
        Category::HardwareIntegrations => String::from_str("Hardware Integrations"),
        Category::Inspectors => String::from_str("Inspectors"),
        Category::KeybindsGestures => String::from_str("Keybinds & Gestures"),
        Category::Libraries => String::from_str("Libraries"),
        Category::LogiX => String::from_str("LogiX"),
        Category::Memes => String::from_str("Memes"),
        Category::Misc => String::from_str("Misc"),
        Category::Optimization => String::from_str("Optimization"),
        Category::Plugins => String::from_str("Plugins"),
        Category::TechnicalTweaks => String::from_str("Technical Tweaks"),
        Category::VisualTweaks => String::from_str("Visual Tweaks"),
        Category::Wizards => String::from_str("Wizards"),
        Category::Unknown => String::from_str("Unknown"),
    }
}

/// The rows among the first `i` whose category is `c`, in order.
pub open spec fn cat_filter_upto(s: Seq<ModEntry>, c: Category, i: int) -> Seq<ModEntry>
    decreases i,
{
    if i <= 0 {
        Seq::empty()
    } else {
        cat_filter_upto(s, c, i - 1) + (if s[i - 1].category == c {
            seq![s[i - 1]]
        } else {
            Seq::<ModEntry>::empty()
        })
    }
}

/// `groups` arranges `entries` by category: one group per category that
/// occurs, headed by its display name, holding exactly the rows of that
/// category in row order, with the groups in listing order.
pub open spec fn categories_arrangement(
    cats: Seq<Category>,
    groups: Seq<(String, Vec<ModEntry>)>,
    entries: Seq<ModEntry>,
) -> bool {
    &&& groups.len() == cats.len()
    &&& forall|i: int, j: int|
        0 <= i < j < cats.len() ==> category_rank(#[trigger] cats[i]) < category_rank(
            #[trigger] cats[j],
        )
    &&& forall|g: int| 0 <= g < groups.len() ==> (#[trigger] groups[g]).0@ == category_display(cats[g])
    &&& forall|g: int|
        0 <= g < groups.len() ==> (#[trigger] groups[g]).1@ == cat_filter_upto(
            entries,
            cats[g],
            entries.len() as int,
        )
    &&& forall|t: int|
        0 <= t < entries.len() ==> exists|g: int|
            0 <= g < cats.len() && (#[trigger] entries[t]).category == cats[g]
}

/// Splits rows into one group per category, headed by the category's display
/// name, groups in listing order and rows in their original order.
pub fn split_by_categories(entries: Vec<ModEntry>) -> (r: Vec<(String, Vec<ModEntry>)>)
    ensures
        exists|cats: Seq<Category>| #[trigger] categories_arrangement(cats, r@, entries@),
{
    let ghost es = entries@;
    let mut groups: Vec<(Category, Vec<ModEntry>)> = Vec::new();
    let mut rest = entries;
    let ghost n = es.len() as int;
    let ghost mut i: int = 0;
    while rest.len() > 0
        invariant
            0 <= i,
            i + rest@.len() == es.len(),
            rest@ =~= es.skip(i),
            forall|g1: int, g2: int|
                0 <= g1 < g2 < groups@.len() ==> (#[trigger] groups@[g1]).0 != (
                #[trigger] groups@[g2]).0,
            forall|g: int|
                0 <= g < groups@.len() ==> (#[trigger] groups@[g]).1@ == cat_filter_upto(
                    es,
                    groups@[g].0,
                    i,
                ),
            forall|t: int|
                0 <= t < i ==> exists|g: int|
                    0 <= g < groups@.len() && (#[trigger] es[t]).category == groups@[g].0,
        decreases rest@.len(),
    {
        let ghost rest_pre = rest@;
        let e = rest.remove(0);
        proof {
            assert(rest@ =~= rest_pre.skip(1));
            assert(e == es[i]);
            assert(rest@ =~= es.skip(i + 1));
        }
        let cat = e.category;
        let mut gi: usize = 0;
        let mut found = false;
        while gi < groups.len() && !found
            invariant
                gi <= groups.len(),
                !found ==> forall|g: int| 0 <= g < gi ==> (#[trigger] groups@[g]).0 != cat,
                found ==> gi < groups.len() && groups@[gi as int].0 == cat,
            decreases groups.len() - gi, (if found { 0int } else { 1int }),
        {
            if groups[gi].0 == cat {
                found = true;
            } else {
                gi = gi + 1;
            }
        }
        let ghost groups_pre = groups@;
        if found {
            let mut grp = groups.remove(gi);
            grp.1.push(e);
            groups.insert(gi, grp);
            proof {
                assert(groups@.len() == groups_pre.len());
                assert(forall|g: int|
                    0 <= g < groups@.len() && g != gi ==> groups@[g] == groups_pre[g]);
                assert(forall|g: int|
                    0 <= g < groups@.len() ==> (#[trigger] groups@[g]).0 == groups_pre[g].0);
                assert(groups@[gi as int].0 == cat);
                assert(groups@[gi as int].1@ =~= groups_pre[gi as int].1@ + seq![es[i]]);
            }
        } else {
            let mut v: Vec<ModEntry> = Vec::new();
            v.push(e);
            groups.push((cat, v));
            proof {
                assert(groups@[groups_pre.len() as int].1@ =~= seq![es[i]]);
            }
        }
        proof {
            assert forall|g: int|
                0 <= g < groups@.len() implies (#[trigger] groups@[g]).1@ == cat_filter_upto(
                es,
                groups@[g].0,
                i + 1,
            ) by {
                assert(cat_filter_upto(es, groups@[g].0, i + 1) == cat_filter_upto(
                    es,
                    groups@[g].0,
                    i,
                ) + (if es[i].category == groups@[g].0 {
                    seq![es[i]]
                } else {
                    Seq::<ModEntry>::empty()
                }));
                if found {
                    if g != gi {
                        assert(groups@[g] == groups_pre[g]);
                        assert(groups@[g].0 != cat);
                        assert(cat_filter_upto(es, groups@[g].0, i + 1) =~= groups@[g].1@);
                    } else {
                        assert(cat_filter_upto(es, groups@[g].0, i + 1) =~= groups@[g].1@);
                    }
                } else {
                    if g < groups_pre.len() {
                        assert(groups@[g] == groups_pre[g]);
                        assert(groups@[g].0 != cat);
                        assert(cat_filter_upto(es, groups@[g].0, i + 1) =~= groups@[g].1@);
                    } else {
                        assert(cat_filter_upto(es, cat, i) =~= Seq::<ModEntry>::empty()) by {
                            lemma_cat_filter_empty(es, cat, i, groups_pre);
                        }
                        assert(cat_filter_upto(es, groups@[g].0, i + 1) =~= groups@[g].1@);
                    }
                }
            }
            assert forall|t: int|
                0 <= t < i + 1 implies exists|g: int|
                0 <= g < groups@.len() && (#[trigger] es[t]).category == groups@[g].0 by {
                if t < i {
                    let g = choose|g: int|
                        0 <= g < groups_pre.len() && es[t].category == groups_pre[g].0;
                    if found {
                        assert(groups@[g].0 == groups_pre[g].0);
                    } else {
                        assert(groups@[g] == groups_pre[g]);
                    }
                } else {
                    if found {
                        assert(groups@[gi as int].0 == cat);
                    } else {
                        assert(groups@[groups_pre.len() as int].0 == cat);
                    }
                }
            }
            i = i + 1;
        }
    }
    proof {
        assert(i == n);
    }
    // Pick the groups out in listing order; every category occurs at most
    // once, so one pass per rank drains them all.
    let mut out: Vec<(String, Vec<ModEntry>)> = Vec::new();
    let ghost mut out_cats: Seq<Category> = Seq::empty();
    let mut rank: u8 = 0;
    while rank < 19
        invariant
            rank <= 19,
            out@.len() == out_cats.len(),
            forall|g1: int, g2: int|
                0 <= g1 < g2 < out_cats.len() ==> category_rank(#[trigger] out_cats[g1])
                    < category_rank(#[trigger] out_cats[g2]),
            forall|g: int|
                0 <= g < out_cats.len() ==> category_rank(#[trigger] out_cats[g]) < rank as int,
            forall|g: int|
                0 <= g < out@.len() ==> (#[trigger] out@[g]).0@ == category_display(out_cats[g]),
            forall|g: int|
                0 <= g < out@.len() ==> (#[trigger] out@[g]).1@ == cat_filter_upto(
                    es,
                    out_cats[g],
                    n,
                ),
            forall|g: int|
                0 <= g < groups@.len() ==> category_rank((#[trigger] groups@[g]).0) >= rank as int,
            forall|g1: int, g2: int|
                0 <= g1 < g2 < groups@.len() ==> (#[trigger] groups@[g1]).0 != (
                #[trigger] groups@[g2]).0,
            forall|g: int|
                0 <= g < groups@.len() ==> (#[trigger] groups@[g]).1@ == cat_filter_upto(
                    es,
                    groups@[g].0,
                    n,
                ),
            forall|t: int|
                0 <= t < es.len() ==> (exists|g: int|
                    0 <= g < out_cats.len() && (#[trigger] es[t]).category == out_cats[g])
                    || (exists|g: int|
                    0 <= g < groups@.len() && (#[trigger] es[t]).category == groups@[g].0),
        decreases 19 - rank,
    {
        let mut gi: usize = 0;
        let mut found = false;
        while gi < groups.len() && !found
            invariant
                gi <= groups.len(),
                !found ==> forall|g: int|
                    0 <= g < gi ==> category_rank((#[trigger] groups@[g]).0) != rank as int,
                found ==> gi < groups.len() && category_rank(groups@[gi as int].0) == rank as int,
            decreases groups.len() - gi, (if found { 0int } else { 1int }),
        {
            if category_rank_of(&groups[gi].0) == rank {
                found = true;
            } else {
                gi = gi + 1;
            }
        }
        if found {
            let ghost groups_pre = groups@;
            let grp = groups.remove(gi);
            let ghost out_cats_pre = out_cats;
            proof {
                out_cats = out_cats.push(grp.0);
            }
            out.push((category_name(&grp.0), grp.1));
            proof {
                assert(forall|g: int|
                    0 <= g < groups@.len() ==> (#[trigger] groups@[g]) == (if g < gi {
                        groups_pre[g]
                    } else {
                        groups_pre[g + 1]
                    }));
                assert forall|t: int|
                    0 <= t < es.len() implies (exists|g: int|
                    0 <= g < out_cats.len() && (#[trigger] es[t]).category == out_cats[g]) || (
                exists|g: int| 0 <= g < groups@.len() && es[t].category == groups@[g].0) by {
                    if exists|g: int|
                        0 <= g < out_cats_pre.len() && es[t].category == out_cats_pre[g] {
                        let g = choose|g: int|
                            0 <= g < out_cats_pre.len() && es[t].category == out_cats_pre[g];
                        assert(out_cats[g] == out_cats_pre[g]);
                    } else if exists|g: int|
                        0 <= g < groups_pre.len() && es[t].category == groups_pre[g].0 {
                        let g = choose|g: int|
                            0 <= g < groups_pre.len() && es[t].category == groups_pre[g].0;
                        if g == gi {
                            assert(out_cats[out_cats_pre.len() as int] == groups_pre[gi as int].0);
                        } else if g < gi {
                            assert(groups@[g] == groups_pre[g]);
                        } else {
                            assert(groups@[g - 1] == groups_pre[g]);
                        }
                    }
                }
            }
        }
        rank = rank + 1;
    }
    proof {
        assert(groups@.len() == 0) by {
            if groups@.len() > 0 {
                assert(category_rank(groups@[0].0) >= 19);
            }
        }
        assert(categories_arrangement(out_cats, out@, es));
    }
    out
}

/// A category no group carries has no rows in the processed prefix.
proof fn lemma_cat_filter_empty(
    es: Seq<ModEntry>,
    cat: Category,
    i: int,
    groups: Seq<(Category, Vec<ModEntry>)>,
)
    requires
        0 <= i <= es.len(),
        forall|g: int| 0 <= g < groups.len() ==> (#[trigger] groups[g]).0 != cat,
        forall|t: int|
            0 <= t < i ==> exists|g: int|
                0 <= g < groups.len() && (#[trigger] es[t]).category == groups[g].0,
    ensures
        cat_filter_upto(es, cat, i) == Seq::<ModEntry>::empty(),
    decreases i,
{
    if i > 0 {
        lemma_cat_filter_empty(es, cat, i - 1, groups);
        assert(es[i - 1].category != cat) by {
            let g = choose|g: int|
                0 <= g < groups.len() && es[i - 1].category == groups[g].0;
            assert(groups[g].0 != cat);
        }
        assert(cat_filter_upto(es, cat, i) =~= cat_filter_upto(es, cat, i - 1));
    }
}

} // verus!
