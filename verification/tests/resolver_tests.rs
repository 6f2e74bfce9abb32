use mod_planner::config::{default_manifest_links, default_scan_locations};
use mod_planner::mod_view::{build_entries, split_by_categories};
use mod_planner::install::{ModFile, ModFileArtifact, ModInstallOperations, ModMap};
use mod_planner::manifest::{
    hashtable_from_mod_list, merge_manifest_mods, reverse_hashtable_from_mod_list, Artifact,
    Category, Dependency, ManifestMods, Mod, ModVersion,
};
use mod_planner::paths::{append_relative_path, find_filename_from_url, join_path};
use mod_planner::requirement::VersionReq;
use mod_planner::resolver::{find_latest_matching, resolve_install_mod, ResolveResult};
use mod_planner::scan::{build_installed_state, scan_record, sha256_hex};
use mod_planner::version::Version;

fn reg_artifact(url: &str, sha256: &str) -> Artifact {
    Artifact {
        url: url.to_string(),
        filename: None,
        sha256: sha256.to_string(),
        blake3: None,
        install_location: None,
    }
}

fn reg_version(dependencies: Option<Vec<(String, Dependency)>>, artifacts: Vec<Artifact>) -> ModVersion {
    ModVersion {
        changelog: None,
        release_url: None,
        neos_version_compatibility: None,
        modloader_version_compatibility: None,
        flags: None,
        conflicts: None,
        dependencies,
        artifacts,
    }
}

fn reg_mod(name: &str, versions: Vec<(Version, ModVersion)>) -> Mod {
    Mod {
        name: name.to_string(),
        color: None,
        description: String::new(),
        authors: Vec::new(),
        source_location: None,
        website: None,
        tags: None,
        category: Category::Misc,
        flags: None,
        versions,
    }
}

fn needs(guid: &str, req: &str) -> Vec<(String, Dependency)> {
    vec![(guid.to_string(), Dependency { version: VersionReq::parse(req).unwrap() })]
}

#[test]
fn find_latest_picks_highest_matching() {
    let mods: ManifestMods = vec![(
        "app.mod".to_string(),
        reg_mod(
            "App",
            vec![
                (Version::from_minor(1, 0), reg_version(None, vec![reg_artifact("h/a.dll", "a1")])),
                (Version::from_minor(1, 4), reg_version(None, vec![reg_artifact("h/a.dll", "a3")])),
                (Version::from_minor(1, 2), reg_version(None, vec![reg_artifact("h/a.dll", "a2")])),
                (Version::from_minor(2, 0), reg_version(None, vec![reg_artifact("h/a.dll", "a4")])),
            ],
        ),
    )];
    let req = VersionReq::parse("1").unwrap();
    let (_, version, _) = find_latest_matching("app.mod", &req, &mods).unwrap();
    assert!(*version == Version::from_minor(1, 4));

    let none = find_latest_matching("app.mod", &VersionReq::parse("3").unwrap(), &mods);
    assert!(none.is_none());
    assert!(find_latest_matching("other", &req, &mods).is_none());
}

#[test]
fn resolve_missing_transitive_dependency_fails_whole_plan() {
    // The registry's mod depends on "dep", which the registry does not list.
    let mods: ManifestMods = vec![(
        "app.mod".to_string(),
        reg_mod(
            "App",
            vec![(
                Version::from_patch(1, 12, 5),
                reg_version(Some(needs("dep", "1")), vec![reg_artifact("h/a.dll", "a1")]),
            )],
        ),
    )];
    let empty: ModMap = Vec::new();
    let r = resolve_install_mod("app.mod", &VersionReq::parse("*").unwrap(), &empty, &mods);
    match r {
        ResolveResult::UnableToFind { mod_id, requirement } => {
            assert_eq!(mod_id, "dep");
            assert!(requirement == VersionReq::parse("1").unwrap());
        }
        ResolveResult::Resolved(_) => panic!("resolution should have failed"),
    }
}

#[test]
fn resolve_already_satisfied_yields_empty_plan() {
    let mods: ManifestMods = vec![(
        "app.mod".to_string(),
        reg_mod(
            "App",
            vec![
                (Version::from_minor(1, 0), reg_version(None, vec![reg_artifact("h/a.dll", "a1")])),
                (Version::from_minor(2, 0), reg_version(None, vec![reg_artifact("h/a.dll", "a2")])),
            ],
        ),
    )];
    let latest = Version::from_minor(2, 0);
    let map: ModMap = vec![(
        "app.mod".to_string(),
        vec![(latest.clone(), ModFile::new("app.mod", &latest, &mods))],
    )];
    let r = resolve_install_mod("app.mod", &VersionReq::parse("*").unwrap(), &map, &mods);
    match r {
        ResolveResult::Resolved(ops) => assert_eq!(ops.len(), 0),
        ResolveResult::UnableToFind { .. } => panic!("resolution should have succeeded"),
    }
}

#[test]
fn resolve_orders_dependencies_first() {
    let mods: ManifestMods = vec![
        (
            "app.mod".to_string(),
            reg_mod(
                "App",
                vec![(
                    Version::from_minor(2, 0),
                    reg_version(Some(needs("dep", "1")), vec![reg_artifact("h/a.dll", "a1")]),
                )],
            ),
        ),
        (
            "dep".to_string(),
            reg_mod(
                "Dep",
                vec![(
                    Version::from_minor(1, 0),
                    reg_version(None, vec![reg_artifact("h/d.dll", "d1")]),
                )],
            ),
        ),
    ];
    let empty: ModMap = Vec::new();
    let r = resolve_install_mod("app.mod", &VersionReq::parse("*").unwrap(), &empty, &mods);
    match r {
        ResolveResult::Resolved(ops) => {
            assert_eq!(ops.len(), 2);
            match &ops[0] {
                ModInstallOperations::InstallMod((id, ver)) => {
                    assert_eq!(id, "dep");
                    assert!(*ver == Version::from_minor(1, 0));
                }
                other => panic!("unexpected first operation: {:?}", other),
            }
            match &ops[1] {
                ModInstallOperations::InstallMod((id, ver)) => {
                    assert_eq!(id, "app.mod");
                    assert!(*ver == Version::from_minor(2, 0));
                }
                other => panic!("unexpected second operation: {:?}", other),
            }
        }
        ResolveResult::UnableToFind { .. } => panic!("resolution should have succeeded"),
    }
}

#[test]
fn resolve_replaces_outdated_install() {
    let mods: ManifestMods = vec![(
        "app.mod".to_string(),
        reg_mod(
            "App",
            vec![
                (Version::from_minor(1, 0), reg_version(None, vec![reg_artifact("h/a.dll", "a1")])),
                (Version::from_minor(2, 0), reg_version(None, vec![reg_artifact("h/a.dll", "a2")])),
            ],
        ),
    )];
    let old = Version::from_minor(1, 0);
    let map: ModMap = vec![(
        "app.mod".to_string(),
        vec![(old.clone(), ModFile::new("app.mod", &old, &mods))],
    )];
    let r = resolve_install_mod("app.mod", &VersionReq::parse("*").unwrap(), &map, &mods);
    match r {
        ResolveResult::Resolved(ops) => {
            assert_eq!(ops.len(), 2);
            assert!(matches!(
                &ops[0],
                ModInstallOperations::UninstallMod((id, ver))
                    if id == "app.mod" && *ver == Version::from_minor(1, 0)
            ));
            assert!(matches!(
                &ops[1],
                ModInstallOperations::InstallMod((id, ver))
                    if id == "app.mod" && *ver == Version::from_minor(2, 0)
            ));
        }
        ResolveResult::UnableToFind { .. } => panic!("resolution should have succeeded"),
    }
}

#[test]
fn hash_tables_cover_every_artifact() {
    let mods: ManifestMods = vec![(
        "m".to_string(),
        reg_mod(
            "M",
            vec![
                (Version::from_major(1), reg_version(None, vec![reg_artifact("h/a.dll", "h1")])),
                (
                    Version::from_major(2),
                    reg_version(None, vec![reg_artifact("h/a.dll", "h2"), reg_artifact("h/b.dll", "h3")]),
                ),
            ],
        ),
    )];
    let table = hashtable_from_mod_list(&mods);
    assert_eq!(table.len(), 3);
    assert_eq!(table[0].0, "h1");
    assert_eq!(table[0].1 .0, "m");
    assert!(table[0].1 .1 == Version::from_major(1));
    assert_eq!(table[1].0, "h2");
    assert_eq!(table[2].0, "h3");
    assert!(table[2].1 .1 == Version::from_major(2));

    let reverse = reverse_hashtable_from_mod_list(&mods);
    assert_eq!(reverse.len(), 2);
    assert_eq!(reverse[0].0 .0, "m");
    assert!(reverse[0].0 .1 == Version::from_major(1));
    assert_eq!(reverse[0].1, vec!["h1".to_string()]);
    assert_eq!(reverse[1].1, vec!["h2".to_string(), "h3".to_string()]);
}

#[test]
fn merge_overwrites_and_appends() {
    let base: ManifestMods = vec![
        ("a".to_string(), reg_mod("A", vec![])),
        ("b".to_string(), reg_mod("B", vec![])),
    ];
    let extra: ManifestMods = vec![
        ("b".to_string(), reg_mod("B2", vec![])),
        ("c".to_string(), reg_mod("C", vec![])),
    ];
    let merged = merge_manifest_mods(base, extra);
    assert_eq!(merged.len(), 3);
    assert_eq!(merged[0].0, "a");
    assert_eq!(merged[1].0, "b");
    assert_eq!(merged[1].1.name, "B2");
    assert_eq!(merged[2].0, "c");
}

#[test]
fn filename_from_url_rules() {
    assert_eq!(find_filename_from_url("test.com/test.dll", ".dll").as_deref(), Some("test.dll"));
    assert_eq!(find_filename_from_url("a/b/c.dll", ".dll").as_deref(), Some("c.dll"));
    assert_eq!(find_filename_from_url("nodirectory.dll", ".dll"), None);
    assert_eq!(find_filename_from_url("test.com/test.zip", ".dll"), None);
    assert_eq!(find_filename_from_url("test.com/", ".dll"), None);
}

#[test]
fn path_joining_rules() {
    assert_eq!(join_path("/nml_mods", "a.dll"), "/nml_mods/a.dll");
    assert_eq!(join_path("/nml_mods/", "a.dll"), "/nml_mods/a.dll");
    assert_eq!(join_path("/nml_mods", "/abs.dll"), "/abs.dll");
    assert_eq!(join_path("", "a.dll"), "a.dll");

    let mut target = "/root".to_string();
    assert!(append_relative_path(&mut target, "/Libraries").is_ok());
    assert_eq!(target, "/root/Libraries");
    let mut target2 = "/root".to_string();
    assert!(append_relative_path(&mut target2, "nml_mods").is_ok());
    assert_eq!(target2, "/root/nml_mods");
}

#[test]
fn sha256_hex_digest_values() {
    assert_eq!(
        sha256_hex(&Vec::new()),
        "e3b0c44298fc1c149afbf4c8996fb92427ae41e4649b934ca495991b7852b855"
    );
    assert_eq!(
        sha256_hex(&b"abc".to_vec()),
        "ba7816bf8f01cfea414140de5dae2223b00361a396177a9cb410ff61f20015ad"
    );
}

#[test]
fn scan_rebuilds_installed_state() {
    let abc_hash = "ba7816bf8f01cfea414140de5dae2223b00361a396177a9cb410ff61f20015ad";
    let table = vec![(abc_hash.to_string(), ("m".to_string(), Version::from_major(1)))];

    let recognized = scan_record("/root/nml_mods/a.dll".to_string(), &b"abc".to_vec(), false);
    assert_eq!(recognized.file_hash, abc_hash);
    let unknown = scan_record("/root/nml_mods/strange.dll".to_string(), &b"xyz".to_vec(), true);
    assert!(unknown.disabled);

    let state = build_installed_state(vec![recognized, unknown], &table);
    assert_eq!(state.len(), 2);
    assert_eq!(state[0].0, "m");
    assert!(state[0].1[0].0 == Version::from_major(1));
    assert_eq!(state[0].1[0].1.files[0].file_path, "/root/nml_mods/a.dll");
    // The unrecognized file becomes a synthetic entry named after the file,
    // at the zero version.
    assert_eq!(state[1].0, "strange.dll");
    assert!(state[1].1[0].0 == Version::zero());
    assert!(state[1].1[0].1.files[0].disabled);
}

#[test]
fn scan_appends_to_existing_version_entry() {
    let h1 = sha256_hex(&b"one".to_vec());
    let h2 = sha256_hex(&b"two".to_vec());
    let table = vec![
        (h1.clone(), ("m".to_string(), Version::from_major(1))),
        (h2.clone(), ("m".to_string(), Version::from_minor(1, 0))),
    ];
    let r1 = scan_record("/p/a.dll".to_string(), &b"one".to_vec(), false);
    let r2 = scan_record("/p/b.dll".to_string(), &b"two".to_vec(), false);
    let state = build_installed_state(vec![r1, r2], &table);
    // 1 and 1.0 are the same version, so both files land in one entry.
    assert_eq!(state.len(), 1);
    assert_eq!(state[0].1.len(), 1);
    assert_eq!(state[0].1[0].1.files.len(), 2);
}

#[test]
fn default_configuration_values() {
    let locations = default_scan_locations();
    assert_eq!(locations, vec!["/Libraries", "/nml_libs", "/nml_mods"]);
    let links = default_manifest_links();
    assert_eq!(links.len(), 1);
    assert!(links[0].ends_with("mods.json"));
}

#[test]
fn mod_file_artifact_from_scan_matches_registry_shape() {
    // A freshly installed mod passes the conflict check when its on-disk
    // hashes mirror the registry's declared artifacts.
    let mods: ManifestMods = vec![(
        "m".to_string(),
        reg_mod(
            "M",
            vec![(Version::from_major(1), reg_version(None, vec![reg_artifact("h/a.dll", "h1")]))],
        ),
    )];
    let file = ModFile::new("m", &Version::from_major(1), &mods);
    let map: ModMap = vec![("m".to_string(), vec![(Version::from_major(1), file)])];
    let found = mod_planner::install::check_for_conflicts(&map, &mods);
    assert_eq!(found.len(), 0);

    // A record with a different hash is an incomplete install.
    let bad = ModFile {
        files: vec![ModFileArtifact {
            file_path: "/nml_mods/a.dll".to_string(),
            file_hash: "other".to_string(),
            disabled: false,
        }],
    };
    let map2: ModMap = vec![("m".to_string(), vec![(Version::from_major(1), bad)])];
    assert_eq!(mod_planner::install::check_for_conflicts(&map2, &mods).len(), 1);
}

#[test]
fn entries_join_state_with_registry() {
    let mods: ManifestMods = vec![
        (
            "b.mod".to_string(),
            reg_mod(
                "Beta",
                vec![
                    (Version::from_minor(1, 0), reg_version(None, vec![reg_artifact("h/b.dll", "b1")])),
                    (Version::from_minor(2, 0), reg_version(None, vec![reg_artifact("h/b.dll", "b2")])),
                ],
            ),
        ),
        (
            "a.mod".to_string(),
            reg_mod(
                "Alpha",
                vec![(Version::from_minor(1, 0), reg_version(None, vec![reg_artifact("h/a.dll", "a1")]))],
            ),
        ),
    ];
    let map: ModMap = vec![
        (
            "b.mod".to_string(),
            vec![(Version::from_minor(1, 0), ModFile::new("b.mod", &Version::from_minor(1, 0), &mods))],
        ),
        (
            "a.mod".to_string(),
            vec![(Version::from_minor(1, 0), ModFile::new("a.mod", &Version::from_minor(1, 0), &mods))],
        ),
        ("stray.dll".to_string(), vec![(Version::zero(), ModFile { files: Vec::new() })]),
        ("emptied.mod".to_string(), Vec::new()),
    ];
    let entries = build_entries(&map, &mods);
    // One row per mod with an installed version, in name order.
    assert_eq!(entries.len(), 3);
    assert_eq!(entries[0].name, "Alpha");
    assert_eq!(entries[1].name, "Beta");
    assert_eq!(entries[2].name, "stray.dll");
    assert!(entries[1].latest_version.as_ref().unwrap() == &Version::from_minor(2, 0));
    assert_eq!(entries[2].id, None);
    assert!(entries[2].version.is_none());

    let groups = split_by_categories(entries);
    // Misc (both registry mods) sorts before Unknown (the stray file).
    assert_eq!(groups.len(), 2);
    assert_eq!(groups[0].0, "Misc");
    assert_eq!(groups[0].1.len(), 2);
    assert_eq!(groups[0].1[0].name, "Alpha");
    assert_eq!(groups[1].0, "Unknown");
    assert_eq!(groups[1].1.len(), 1);
}
