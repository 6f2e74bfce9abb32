//! Association lists standing in for hash maps: entry vectors keyed by a
//! string identifier or by a version, looked up by the first matching key.

use vstd::prelude::*;
use crate::text::str_eq;
use crate::version::{sem_eq, Version};

verus! {

/// Index of the first entry whose string key reads as `key`, or `-1`.
pub open spec fn str_key_index<T>(entries: Seq<(String, T)>, key: Seq<char>) -> int
    decreases entries.len(),
{
    if entries.len() == 0 {
        -1
    } else if entries[0].0@ == key {
        0
    } else {
        let r = str_key_index(entries.skip(1), key);
        if r < 0 {
            -1
        } else {
            r + 1
        }
    }
}

/// The value at the first entry whose string key reads as `key`.
pub open spec fn str_key_lookup<T>(entries: Seq<(String, T)>, key: Seq<char>) -> Option<T> {
    let i = str_key_index(entries, key);
    if i >= 0 {
        Some(entries[i].1)
    } else {
        None
    }
}

/// The scan for a string key lands on the first hit: an index below which no
/// key matches, and which either matches or is the end, is the result.
pub proof fn lemma_str_key_index_is<T>(entries: Seq<(String, T)>, key: Seq<char>, k: int)
    requires
        0 <= k <= entries.len(),
        forall|j: int| 0 <= j < k ==> (#[trigger] entries[j]).0@ != key,
        k < entries.len() ==> entries[k].0@ == key,
    ensures
        str_key_index(entries, key) == if k < entries.len() {
            k
        } else {
            -1
        },
    decreases k,
{
    if k == 0 {
        if entries.len() > 0 && entries[0].0@ != key {
            lemma_str_key_index_is(entries.skip(1), key, 0);
        }
    } else {
        assert(entries[0].0@ != key);
        let t = entries.skip(1);
        assert(forall|j: int| 0 <= j < k - 1 ==> (#[trigger] t[j]).0@ != key) by {
            assert(forall|j: int| 0 <= j < k - 1 ==> t[j] == entries[j + 1]);
        }
        lemma_str_key_index_is(t, key, k - 1);
    }
}

/// Bounds and properties of a successful string-key scan.
pub proof fn lemma_str_key_index_props<T>(entries: Seq<(String, T)>, key: Seq<char>)
    ensures
        str_key_index(entries, key) >= 0 ==> {
            &&& str_key_index(entries, key) < entries.len()
            &&& entries[str_key_index(entries, key)].0@ == key
        },
        str_key_index(entries, key) >= -1,
    decreases entries.len(),
{
    if entries.len() > 0 && entries[0].0@ != key {
        lemma_str_key_index_props(entries.skip(1), key);
    }
}

/// Looks `key` up among string-keyed entries, first match wins.
pub fn str_key_get<'a, T>(entries: &'a Vec<(String, T)>, key: &str) -> (r: Option<&'a T>)
    ensures
        match r {
            Some(t) => str_key_lookup(entries@, key@) == Some(*t),
            None => str_key_lookup(entries@, key@) is None,
        },
{
    let mut i: usize = 0;
    while i < entries.len()
        invariant
            i <= entries.len(),
            forall|j: int| 0 <= j < i ==> (#[trigger] entries@[j]).0@ != key@,
        decreases entries.len() - i,
    {
        if str_eq(entries[i].0.as_str(), key) {
            proof {
                lemma_str_key_index_is(entries@, key@, i as int);
            }
            return Some(&entries[i].1);
        }
        i = i + 1;
    }
    proof {
        lemma_str_key_index_is(entries@, key@, entries@.len() as int);
    }
    None
}

/// Index of the first entry whose version key equals `key` under version
/// equality (missing fields read as zero), or `-1`.
pub open spec fn ver_key_index<T>(entries: Seq<(Version, T)>, key: crate::version::VersionView) -> int
    decreases entries.len(),
{
    if entries.len() == 0 {
        -1
    } else if sem_eq(entries[0].0@, key) {
        0
    } else {
        let r = ver_key_index(entries.skip(1), key);
        if r < 0 {
            -1
        } else {
            r + 1
        }
    }
}

/// The value at the first entry whose version key equals `key`.
pub open spec fn ver_key_lookup<T>(
    entries: Seq<(Version, T)>,
    key: crate::version::VersionView,
) -> Option<T> {
    let i = ver_key_index(entries, key);
    if i >= 0 {
        Some(entries[i].1)
    } else {
        None
    }
}

pub proof fn lemma_ver_key_index_is<T>(
    entries: Seq<(Version, T)>,
    key: crate::version::VersionView,
    k: int,
)
    requires
        0 <= k <= entries.len(),
        forall|j: int| 0 <= j < k ==> !sem_eq((#[trigger] entries[j]).0@, key),
        k < entries.len() ==> sem_eq(entries[k].0@, key),
    ensures
        ver_key_index(entries, key) == if k < entries.len() {
            k
        } else {
            -1
        },
    decreases k,
{
    if k == 0 {
        if entries.len() > 0 && !sem_eq(entries[0].0@, key) {
            lemma_ver_key_index_is(entries.skip(1), key, 0);
        }
    } else {
        let t = entries.skip(1);
        assert(forall|j: int| 0 <= j < k - 1 ==> !sem_eq((#[trigger] t[j]).0@, key)) by {
            assert(forall|j: int| 0 <= j < k - 1 ==> t[j] == entries[j + 1]);
        }
        lemma_ver_key_index_is(t, key, k - 1);
    }
}

/// Looks `key` up among version-keyed entries, first match wins.
pub fn ver_key_get<'a, T>(entries: &'a Vec<(Version, T)>, key: &Version) -> (r: Option<&'a T>)
    ensures
        match r {
            Some(t) => ver_key_lookup(entries@, key@) == Some(*t),
            None => ver_key_lookup(entries@, key@) is None,
        },
{
    let mut i: usize = 0;
    while i < entries.len()
        invariant
            i <= entries.len(),
            forall|j: int| 0 <= j < i ==> !sem_eq((#[trigger] entries@[j]).0@, key@),
        decreases entries.len() - i,
    {
        if entries[i].0 == *key {
            proof {
                lemma_ver_key_index_is(entries@, key@, i as int);
            }
            return Some(&entries[i].1);
        }
        i = i + 1;
    }
    proof {
        lemma_ver_key_index_is(entries@, key@, entries@.len() as int);
    }
    None
}

} // verus!
