//! The compute side of a rescan: hashing file contents, naming unrecognized
//! files, and rebuilding an installed state from scanned file records and
//! the registry-derived hash table. Reading directories and files is the
//! caller's business; everything here is a function of the bytes and paths
//! handed in.

use vstd::prelude::*;
use sha2::{Digest, Sha256};
use crate::install::{map_view, mapv_index, versv_index, ModFile, ModFileArtifact, ModFileArtifactView, ModMap, ModMapView};
use crate::manifest::{ModHashTable, GUID};
use crate::paths::last_slash_before;
use crate::version::{Version, VersionView};
use crate::assoc::str_key_lookup;

verus! {

/// The sha256 digest of a byte sequence. Stating the algorithm itself is not
/// this library's business; the digest is a function of the bytes alone.
pub uninterp spec fn sha256_of(data: Seq<u8>) -> Seq<u8>;

/// The lowercase hex digit for a value below sixteen.
pub open spec fn hex_digit(n: int) -> char {
    if n == 0 { '0' }
    else if n == 1 { '1' }
    else if n == 2 { '2' }
    else if n == 3 { '3' }
    else if n == 4 { '4' }
    else if n == 5 { '5' }
    else if n == 6 { '6' }
    else if n == 7 { '7' }
    else if n == 8 { '8' }
    else if n == 9 { '9' }
    else if n == 10 { 'a' }
    else if n == 11 { 'b' }
    else if n == 12 { 'c' }
    else if n == 13 { 'd' }
    else if n == 14 { 'e' }
    else { 'f' }
}

/// Lowercase hex text of a byte sequence: two digits per byte, high nibble
/// first.
pub open spec fn hex_of(b: Seq<u8>) -> Seq<char> {
    Seq::new(
        b.len() * 2,
        |i: int| if i % 2 == 0 {
            hex_digit(b[i / 2] as int / 16)
        } else {
            hex_digit(b[i / 2] as int % 16)
        },
    )
}

/// Relies on sha2's `Sha256`: the digest is 32 bytes and depends on the
/// input bytes alone.
#[verifier::external_body]
fn sha256_digest(data: &[u8]) -> (r: Vec<u8>)
    ensures
        r@ == sha256_of(data@),
        r@.len() == 32,
{
    Sha256::digest(data).to_vec()
}

/// Relies on `hex::encode`: two lowercase hex digits per byte, high nibble
/// first.
#[verifier::external_body]
fn hex_encode(data: &[u8]) -> (r: String)
    ensures
        r@ == hex_of(data@),
{
    hex::encode(data)
}

/// The lowercase hex sha256 digest of the given bytes, 64 characters.
pub fn sha256_hex(data: &Vec<u8>) -> (r: String)
    ensures
        r@ == hex_of(sha256_of(data@)),
        r@.len() == 64,
{
    let digest = sha256_digest(data.as_slice());
    hex_encode(digest.as_slice())
}

/// How an unrecognized file is named: the part of its path after the last
/// slash, or a synthetic name when that is empty.
pub open spec fn spec_scan_name(p: Seq<char>) -> Seq<char> {
    let i = last_slash_before(p, p.len() as int);
    let name = p.subrange(i + 1, p.len() as int);
    if name.len() == 0 {
        "unknown.dll"@
    } else {
        name
    }
}

/// The filename component of a scanned path.
fn scan_file_name(path: &str) -> (r: String)
    ensures
        r@ == spec_scan_name(path@),
{
    let n = path.unicode_len();
    let mut e: usize = n;
    while e > 0
        invariant
            e <= n,
            n == path@.len(),
            forall|j: int| e <= j < n ==> path@[j] != '/',
        decreases e,
    {
        if path.get_char(e - 1) == '/' {
            proof {
                crate::paths::lemma_last_slash_is(path@, n as int, e - 1);
            }
            if e >= n {
                return String::from_str("unknown.dll");
            }
            return path.substring_char(e, n).to_owned();
        }
        e = e - 1;
    }
    proof {
        crate::paths::lemma_last_slash_is(path@, n as int, -1);
        assert(path@.subrange(0, n as int) =~= path@);
    }
    if n == 0 {
        return String::from_str("unknown.dll");
    }
    path.to_owned()
}

/// Builds the installed-file record for one scanned file: its path, the hex
/// sha256 digest of its contents, and whether it sits disabled on disk.
pub fn scan_record(file_path: String, data: &Vec<u8>, disabled: bool) -> (r: ModFileArtifact)
    ensures
        r.file_path == file_path,
        r.file_hash@ == hex_of(sha256_of(data@)),
        r.disabled == disabled,
{
    let file_hash = sha256_hex(data);
    ModFileArtifact { file_path, file_hash, disabled }
}

/// Recording one scanned file under `(id, ver)`: the record is appended to
/// that pair's file list, creating the version entry or the whole mod entry
/// when absent.
pub open spec fn spec_add_scanned(
    m: ModMapView,
    id: Seq<char>,
    ver: VersionView,
    art: ModFileArtifactView,
) -> ModMapView {
    let i = mapv_index(m, id);
    if i >= 0 {
        let vs = m[i].1;
        let j = versv_index(vs, ver);
        if j >= 0 {
            m.update(i, (m[i].0, vs.update(j, (vs[j].0, vs[j].1.push(art)))))
        } else {
            m.update(i, (m[i].0, vs.push((ver, seq![art]))))
        }
    } else {
        m.push((id, seq![(ver, seq![art])]))
    }
}

/// Appends one scanned record to the state in place.
fn add_scanned_entry(map: &mut ModMap, mod_id: &GUID, version: &Version, art: ModFileArtifact)
    ensures
        map_view(final(map)@) == spec_add_scanned(map_view(old(map)@), mod_id@, version@, art@),
{
    let ghost m0 = map_view(map@);
    match crate::install::find_map_entry(map, mod_id) {
        Some(i) => {
            let ghost vs = m0[i as int].1;
            let mut entry = map.remove(i);
            proof {
                assert(vs == entry.1@.map_values(|p: (Version, ModFile)| (p.0@, p.1@)));
            }
            match crate::install::find_version_record(&entry.1, version) {
                Some(j) => {
                    let ghost fa0 = entry.1@[j as int].1@;
                    let mut rec = entry.1.remove(j);
                    rec.1.files.push(art);
                    proof {
                        assert(rec.1@ =~= fa0.push(art@));
                    }
                    entry.1.insert(j, rec);
                    proof {
                        assert(entry.1@.map_values(|p: (Version, ModFile)| (p.0@, p.1@))
                            =~= vs.update(j as int, (vs[j as int].0, vs[j as int].1.push(art@))));
                    }
                },
                None => {
                    let mut files: Vec<ModFileArtifact> = Vec::new();
                    files.push(art);
                    let file = ModFile { files };
                    proof {
                        assert(file@ =~= seq![art@]);
                    }
                    entry.1.push((version.clone(), file));
                    proof {
                        assert(entry.1@.map_values(|p: (Version, ModFile)| (p.0@, p.1@))
                            =~= vs.push((version@, seq![art@])));
                    }
                },
            }
            let ghost ek = entry.0@;
            let ghost ev = entry.1@.map_values(|p: (Version, ModFile)| (p.0@, p.1@));
            map.insert(i, entry);
            proof {
                assert(ek == m0[i as int].0);
                assert(map_view(map@) =~= m0.update(i as int, (ek, ev)));
                assert(map_view(map@) =~= spec_add_scanned(m0, mod_id@, version@, art@));
            }
        },
        None => {
            let mut files: Vec<ModFileArtifact> = Vec::new();
            files.push(art);
            let file = ModFile { files };
            proof {
                assert(file@ =~= seq![art@]);
            }
            let mut inner: Vec<(Version, ModFile)> = Vec::new();
            inner.push((version.clone(), file));
            proof {
                assert(inner@.map_values(|p: (Version, ModFile)| (p.0@, p.1@)) =~= seq![
                    (version@, seq![art@]),
                ]);
            }
            let ghost iv = inner@.map_values(|p: (Version, ModFile)| (p.0@, p.1@));
            map.push((mod_id.clone(), inner));
            proof {
                assert(map_view(map@) =~= m0.push((mod_id@, iv)));
                assert(map_view(map@) =~= spec_add_scanned(m0, mod_id@, version@, art@));
            }
        },
    }
}

/// The state after recording the scanned files from index `i` on: each file
/// whose hash the table knows lands under its (GUID, version); any other
/// file becomes a synthetic entry named after the file, at version zero.
pub open spec fn spec_scan_from(
    m: ModMapView,
    table: Seq<(String, (GUID, Version))>,
    recs: Seq<ModFileArtifactView>,
    i: int,
) -> ModMapView
    decreases recs.len() - i,
{
    if !(0 <= i < recs.len()) {
        m
    } else {
        let rec = recs[i];
        let next = match str_key_lookup(table, rec.file_hash) {
            Some(idv) => spec_add_scanned(m, idv.0@, idv.1@, rec),
            None => spec_add_scanned(
                m,
                spec_scan_name(rec.file_path),
                VersionView { major: 0, minor: None, patch: None, revision: None, suffix: None },
                rec,
            ),
        };
        spec_scan_from(next, table, recs, i + 1)
    }
}

/// Rebuilds an installed state from scanned file records, matching each
/// record's hash against the registry-derived table; unrecognized hashes
/// become synthetic entries named after the file, at version zero.
pub fn build_installed_state(records: Vec<ModFileArtifact>, table: &ModHashTable) -> (r: ModMap)
    ensures
        map_view(r@) == spec_scan_from(
            Seq::empty(),
            table@,
            records@.map_values(|a: ModFileArtifact| a@),
            0,
        ),
{
    let ghost recs = records@.map_values(|a: ModFileArtifact| a@);
    let mut map: ModMap = Vec::new();
    proof {
        assert(map_view(map@) =~= Seq::<(Seq<char>, Seq<(VersionView, Seq<ModFileArtifactView>)>)>::empty());
    }
    let mut i: usize = 0;
    while i < records.len()
        invariant
            i <= records.len(),
            recs == records@.map_values(|a: ModFileArtifact| a@),
            spec_scan_from(map_view(map@), table@, recs, i as int) == spec_scan_from(
                Seq::empty(),
                table@,
                recs,
                0,
            ),
        decreases records.len() - i,
    {
        let rec = records[i].clone();
        let ghost rv = rec@;
        assert(rv == recs[i as int]);
        match crate::assoc::str_key_get(table, rec.file_hash.as_str()) {
            Some(idv) => {
                let id = idv.0.clone();
                let ver = idv.1.clone();
                add_scanned_entry(&mut map, &id, &ver, rec);
            },
            None => {
                let name = scan_file_name(rec.file_path.as_str());
                let zero = Version::zero();
                add_scanned_entry(&mut map, &name, &zero, rec);
            },
        }
        i = i + 1;
    }
    map
}

} // verus!
