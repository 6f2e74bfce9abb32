use std::sync::Arc;
use mod_planner::install::{
    check_for_conflicts, InstallError, ModConflict, ModFile, ModInstall, ModInstallOperations,
    ModMap, VirtualInstall,
};
use mod_planner::manifest::{Artifact, Category, Conflict, Dependency, ManifestMods, Mod, ModVersion};
use mod_planner::requirement::VersionReq;
use mod_planner::version::Version;

fn artifact(url: &str, sha256: &str) -> Artifact {
    Artifact {
        url: url.to_string(),
        filename: None,
        sha256: sha256.to_string(),
        blake3: None,
        install_location: None,
    }
}

fn mod_version(
    dependencies: Option<Vec<(String, Dependency)>>,
    conflicts: Option<Vec<(String, Conflict)>>,
    artifacts: Vec<Artifact>,
) -> ModVersion {
    ModVersion {
        changelog: None,
        release_url: None,
        neos_version_compatibility: None,
        modloader_version_compatibility: None,
        flags: None,
        conflicts,
        dependencies,
        artifacts,
    }
}

fn plain_mod(name: &str, description: &str, category: Category, versions: Vec<(Version, ModVersion)>) -> Mod {
    Mod {
        name: name.to_string(),
        color: None,
        description: description.to_string(),
        authors: Vec::new(),
        source_location: None,
        website: None,
        tags: None,
        category,
        flags: None,
        versions,
    }
}

fn dep_on(guid: &str, req: &str) -> Vec<(String, Dependency)> {
    vec![(guid.to_string(), Dependency { version: VersionReq::parse(req).unwrap() })]
}

fn conflict_on(guid: &str, req: &str) -> Vec<(String, Conflict)> {
    vec![(guid.to_string(), Conflict { version: VersionReq::parse(req).unwrap() })]
}

fn installed(mods: &ManifestMods, entries: &[(&str, &[Version])]) -> ModMap {
    let mut map: ModMap = Vec::new();
    for (guid, versions) in entries {
        let mut files = Vec::new();
        for v in versions.iter() {
            files.push((v.clone(), ModFile::new(guid, v, mods)));
        }
        map.push((guid.to_string(), files));
    }
    map
}

#[test]
fn mod_install_missing_dependency() {
    let manifest_mods: Arc<ManifestMods> = Arc::new(vec![(
        format!("test.mod.1"),
        plain_mod(
            "Test Mod 1",
            "Testing things and how they work",
            Category::AssetImportingTweaks,
            vec![(
                Version::from_major(1),
                mod_version(
                    Some(dep_on("test.mod.dep", "1")),
                    None,
                    vec![artifact("test.com/test.dll", "135153")],
                ),
            )],
        ),
    )]);

    let mod_map = installed(&manifest_mods, &[("test.mod.1", &[Version::from_major(1)])]);
    let virt = VirtualInstall::new(mod_map, manifest_mods.clone());

    assert_eq!(virt.check_for_conflicts(&manifest_mods).len(), 1)
}

#[test]
fn mod_install_valid_dependency() {
    let manifest_mods: Arc<ManifestMods> = Arc::new(vec![
        (
            format!("test.mod.1"),
            plain_mod(
                "Test Mod 1",
                "Testing things and how they work",
                Category::AssetImportingTweaks,
                vec![(
                    Version::from_major(1),
                    mod_version(
                        Some(dep_on("test.mod.dep", "1")),
                        None,
                        vec![artifact("test.com/test.dll", "135153")],
                    ),
                )],
            ),
        ),
        (
            format!("test.mod.dep"),
            plain_mod(
                "",
                "",
                Category::Libraries,
                vec![(
                    Version::from_major(1),
                    mod_version(None, None, vec![artifact("test.mod/testdep.dll", "356357")]),
                )],
            ),
        ),
    ]);

    let mod_map = installed(
        &manifest_mods,
        &[
            ("test.mod.1", &[Version::from_major(1)]),
            ("test.mod.dep", &[Version::from_major(1)]),
        ],
    );
    let virt = VirtualInstall::new(mod_map, manifest_mods.clone());

    assert_eq!(virt.check_for_conflicts(&manifest_mods).len(), 0)
}

#[test]
fn mod_install_invalid_dependency() {
    let manifest_mods: Arc<ManifestMods> = Arc::new(vec![
        (
            format!("test.mod.1"),
            plain_mod(
                "Test Mod 1",
                "Testing things and how they work",
                Category::AssetImportingTweaks,
                vec![(
                    Version::from_major(1),
                    mod_version(
                        Some(dep_on("test.mod.dep", "1")),
                        None,
                        vec![artifact("test.com/test.dll", "135153")],
                    ),
                )],
            ),
        ),
        (
            format!("test.mod.dep"),
            plain_mod(
                "",
                "",
                Category::Libraries,
                vec![(
                    Version::from_major(2),
                    mod_version(None, None, vec![artifact("test.mod/testdep.dll", "356357")]),
                )],
            ),
        ),
    ]);

    let mod_map = installed(
        &manifest_mods,
        &[
            ("test.mod.1", &[Version::from_major(1)]),
            ("test.mod.dep", &[Version::from_major(2)]),
        ],
    );
    let virt = VirtualInstall::new(mod_map, manifest_mods.clone());

    assert_eq!(virt.check_for_conflicts(&manifest_mods).len(), 1)
}

#[test]
fn mod_install_multiple_versions() {
    let manifest_mods: Arc<ManifestMods> = Arc::new(vec![
        (
            format!("test.mod.1"),
            plain_mod(
                "Test Mod 1",
                "Testing things and how they work",
                Category::AssetImportingTweaks,
                vec![(
                    Version::from_major(1),
                    mod_version(
                        Some(dep_on("test.mod.dep", "1")),
                        None,
                        vec![artifact("test.com/test.dll", "135153")],
                    ),
                )],
            ),
        ),
        (
            format!("test.mod.dep"),
            plain_mod(
                "",
                "",
                Category::Libraries,
                vec![
                    (
                        Version::from_major(2),
                        mod_version(None, None, vec![artifact("test.mod/testdep.dll", "356357")]),
                    ),
                    (
                        Version::from_major(3),
                        mod_version(None, None, vec![artifact("test.mod/testdep.dll", "356357")]),
                    ),
                ],
            ),
        ),
    ]);

    let mod_map = installed(
        &manifest_mods,
        &[
            ("test.mod.1", &[Version::from_major(1)]),
            ("test.mod.dep", &[Version::from_major(2), Version::from_major(3)]),
        ],
    );
    let virt = VirtualInstall::new(mod_map, manifest_mods.clone());

    assert_eq!(virt.check_for_conflicts(&manifest_mods).len(), 2)
}

#[test]
fn mod_install_direct_conflict() {
    let manifest_mods: Arc<ManifestMods> = Arc::new(vec![
        (
            format!("test.mod.1"),
            plain_mod(
                "Test Mod 1",
                "Testing things and how they work",
                Category::AssetImportingTweaks,
                vec![(
                    Version::from_major(1),
                    mod_version(
                        None,
                        Some(conflict_on("test.mod.dep", "*")),
                        vec![artifact("test.com/test.dll", "135153")],
                    ),
                )],
            ),
        ),
        (
            format!("test.mod.dep"),
            plain_mod(
                "",
                "",
                Category::Libraries,
                vec![(
                    Version::from_major(2),
                    mod_version(None, None, vec![artifact("test.mod/testdep.dll", "356357")]),
                )],
            ),
        ),
    ]);

    let mod_map = installed(
        &manifest_mods,
        &[
            ("test.mod.1", &[Version::from_major(1)]),
            ("test.mod.dep", &[Version::from_major(1)]),
        ],
    );
    let virt = VirtualInstall::new(mod_map, manifest_mods.clone());

    assert_eq!(virt.check_for_conflicts(&manifest_mods).len(), 1)
}

#[test]
fn mod_install_direct_conflict_unaffected() {
    let manifest_mods: Arc<ManifestMods> = Arc::new(vec![
        (
            format!("test.mod.1"),
            plain_mod(
                "Test Mod 1",
                "Testing things and how they work",
                Category::AssetImportingTweaks,
                vec![(
                    Version::from_major(1),
                    mod_version(
                        None,
                        Some(conflict_on("test.mod.dep", "^0.1")),
                        vec![artifact("test.com/test.dll", "135153")],
                    ),
                )],
            ),
        ),
        (
            format!("test.mod.dep"),
            plain_mod(
                "",
                "",
                Category::Libraries,
                vec![(
                    Version::from_major(2),
                    mod_version(None, None, vec![artifact("test.mod/testdep.dll", "356357")]),
                )],
            ),
        ),
    ]);

    let mod_map = installed(
        &manifest_mods,
        &[
            ("test.mod.1", &[Version::from_major(1)]),
            ("test.mod.dep", &[Version::from_major(1)]),
        ],
    );
    let virt = VirtualInstall::new(mod_map, manifest_mods.clone());

    assert_eq!(virt.check_for_conflicts(&manifest_mods).len(), 0)
}

#[test]
fn detector_reports_dependency_kinds() {
    // "dep" missing entirely: DependencyMissing naming the dependency.
    let mods: ManifestMods = vec![(
        "a".to_string(),
        plain_mod(
            "A",
            "",
            Category::Misc,
            vec![(
                Version::from_major(1),
                mod_version(Some(dep_on("dep", "1")), None, vec![artifact("h/a.dll", "aa")]),
            )],
        ),
    )];
    let map = installed(&mods, &[("a", &[Version::from_major(1)])]);
    let found = check_for_conflicts(&map, &mods);
    assert_eq!(found.len(), 1);
    match &found[0] {
        ModConflict::DependencyMissing { this, needs } => {
            assert_eq!(this.0, "a");
            assert!(this.1 == Version::from_major(1));
            assert_eq!(needs.0, "dep");
            assert!(needs.1 == VersionReq::parse("1").unwrap());
        }
        other => panic!("unexpected finding: {:?}", other),
    }
}

#[test]
fn detector_reports_file_conflict_across_mods() {
    // Two different mods install an artifact at the same resolved path.
    let mods: ManifestMods = vec![
        (
            "a".to_string(),
            plain_mod(
                "A",
                "",
                Category::Misc,
                vec![(
                    Version::from_major(1),
                    mod_version(None, None, vec![artifact("host/shared.dll", "aa")]),
                )],
            ),
        ),
        (
            "b".to_string(),
            plain_mod(
                "B",
                "",
                Category::Misc,
                vec![(
                    Version::from_major(1),
                    mod_version(None, None, vec![artifact("mirror/shared.dll", "bb")]),
                )],
            ),
        ),
    ];
    let map = installed(
        &mods,
        &[("a", &[Version::from_major(1)]), ("b", &[Version::from_major(1)])],
    );
    let found = check_for_conflicts(&map, &mods);
    assert_eq!(found.len(), 1);
    match &found[0] {
        ModConflict::FileConflict { this, already_exists } => {
            assert_eq!(this.0, "b");
            assert_eq!(already_exists, "/nml_mods/shared.dll");
        }
        other => panic!("unexpected finding: {:?}", other),
    }
}

#[test]
fn detector_reports_incomplete_install() {
    // The installed record's hash does not match the declared artifact.
    let mods: ManifestMods = vec![(
        "a".to_string(),
        plain_mod(
            "A",
            "",
            Category::Misc,
            vec![(
                Version::from_major(1),
                mod_version(None, None, vec![artifact("host/a.dll", "declared")]),
            )],
        ),
    )];
    let map: ModMap = vec![(
        "a".to_string(),
        vec![(
            Version::from_major(1),
            ModFile {
                files: vec![mod_planner::install::ModFileArtifact {
                    file_path: "/nml_mods/a.dll".to_string(),
                    file_hash: "on-disk".to_string(),
                    disabled: false,
                }],
            },
        )],
    )];
    let found = check_for_conflicts(&map, &mods);
    assert_eq!(found.len(), 1);
    match &found[0] {
        ModConflict::IncompleteInstall { this, missing_file } => {
            assert_eq!(this.0, "a");
            assert_eq!(missing_file, "a.dll");
        }
        other => panic!("unexpected finding: {:?}", other),
    }
}

#[test]
fn mod_file_new_resolves_paths() {
    let mods: ManifestMods = vec![(
        "a".to_string(),
        plain_mod(
            "A",
            "",
            Category::Misc,
            vec![(
                Version::from_major(1),
                mod_version(None, None, vec![artifact("test.com/test.dll", "135153")]),
            )],
        ),
    )];
    let file = ModFile::new("a", &Version::from_major(1), &mods);
    assert_eq!(file.files.len(), 1);
    assert_eq!(file.files[0].file_path, "/nml_mods/test.dll");
    assert_eq!(file.files[0].file_hash, "135153");
    assert!(!file.files[0].disabled);

    // Unknown (GUID, version) pairs yield no expected files.
    let empty = ModFile::new("a", &Version::from_major(2), &mods);
    assert_eq!(empty.files.len(), 0);
}

#[test]
fn virtual_install_applies_and_uninstalls() {
    let mods: Arc<ManifestMods> = Arc::new(vec![(
        "a".to_string(),
        plain_mod(
            "A",
            "",
            Category::Misc,
            vec![(
                Version::from_major(1),
                mod_version(None, None, vec![artifact("test.com/test.dll", "135153")]),
            )],
        ),
    )]);
    let mut virt = VirtualInstall::new(Vec::new(), mods.clone());

    let install = vec![ModInstallOperations::InstallMod(("a".to_string(), Version::from_major(1)))];
    assert!(virt.perform_operations(&install).is_ok());
    assert_eq!(virt.mod_map().len(), 1);
    assert_eq!(virt.mod_map()[0].0, "a");
    assert_eq!(virt.mod_map()[0].1.len(), 1);
    assert_eq!(virt.mod_map()[0].1[0].1.files[0].file_path, "/nml_mods/test.dll");

    let uninstall = vec![ModInstallOperations::UninstallMod((
        "a".to_string(),
        Version::from_major(1),
    ))];
    assert!(virt.perform_operations(&uninstall).is_ok());
    // The empty entry is pruned entirely.
    assert_eq!(virt.mod_map().len(), 0);
}

#[test]
fn uninstall_requires_the_exact_version() {
    let mods: Arc<ManifestMods> = Arc::new(vec![(
        "a".to_string(),
        plain_mod(
            "A",
            "",
            Category::Misc,
            vec![(
                Version::from_major(1),
                mod_version(None, None, vec![artifact("test.com/test.dll", "135153")]),
            )],
        ),
    )]);
    let map = installed(&mods, &[("a", &[Version::from_major(1)])]);
    let mut virt = VirtualInstall::new(map, mods.clone());

    // The GUID is installed, but not at this version: the target is absent.
    let wrong = vec![ModInstallOperations::UninstallMod(("a".to_string(), Version::from_major(2)))];
    assert!(matches!(virt.perform_operations(&wrong), Err(InstallError::FileNotFound)));
    assert_eq!(virt.mod_map().len(), 1);
    assert_eq!(virt.mod_map()[0].1.len(), 1);

    // Version equality is by value: 1.0.0.0 names the installed version 1.
    let equal = vec![ModInstallOperations::UninstallMod((
        "a".to_string(),
        Version::from_revision(1, 0, 0, 0),
    ))];
    assert!(virt.perform_operations(&equal).is_ok());
    assert_eq!(virt.mod_map().len(), 0);
}

#[test]
fn detector_reports_duplicate_paths_within_one_version() {
    // One mod version declares two artifacts at the same resolved path.
    let mods: ManifestMods = vec![(
        "a".to_string(),
        plain_mod(
            "A",
            "",
            Category::Misc,
            vec![(
                Version::from_major(1),
                mod_version(
                    None,
                    None,
                    vec![artifact("host/same.dll", "h1"), artifact("mirror/same.dll", "h2")],
                ),
            )],
        ),
    )];
    let map = installed(&mods, &[("a", &[Version::from_major(1)])]);
    let found = check_for_conflicts(&map, &mods);
    assert_eq!(found.len(), 1);
    assert!(matches!(
        &found[0],
        ModConflict::FileConflict { this, already_exists }
            if this.0 == "a" && already_exists == "/nml_mods/same.dll"
    ));
}

#[test]
fn virtual_install_is_not_transactional() {
    let mods: Arc<ManifestMods> = Arc::new(vec![(
        "a".to_string(),
        plain_mod(
            "A",
            "",
            Category::Misc,
            vec![(
                Version::from_major(1),
                mod_version(None, None, vec![artifact("test.com/test.dll", "135153")]),
            )],
        ),
    )]);
    let mut virt = VirtualInstall::new(Vec::new(), mods.clone());

    let ops = vec![
        ModInstallOperations::InstallMod(("a".to_string(), Version::from_major(1))),
        ModInstallOperations::UninstallMod(("absent".to_string(), Version::from_major(1))),
    ];
    let r = virt.perform_operations(&ops);
    assert!(matches!(r, Err(InstallError::FileNotFound)));
    // The first operation stays applied.
    assert_eq!(virt.mod_map().len(), 1);
    assert_eq!(virt.mod_map()[0].0, "a");
}
