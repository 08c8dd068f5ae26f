use senget::dist::{
    use_cached_distributable, Dist, DistType, ExeDist, InstallerDist, PackageInfo, UninstallEntry,
    ZipDist,
};
use senget::errors::SengetErrors;
use senget::fs_model::FsEntry;
use senget::snapshot::snapshot_diff;

fn strings(items: &[&str]) -> Vec<String> {
    items.iter().map(|s| s.to_string()).collect()
}

fn file(name: &str, path: &str) -> FsEntry {
    FsEntry::File {
        name: name.to_string(),
        path: path.to_string(),
    }
}

fn folder(name: &str, path: &str, entries: Vec<FsEntry>) -> FsEntry {
    FsEntry::Folder {
        name: name.to_string(),
        path: path.to_string(),
        entries,
    }
}

fn package_info(name: &str) -> PackageInfo {
    PackageInfo::new(
        name.to_string(),
        format!("https://example.com/{}", name),
        "1.0".to_string(),
        format!("{}.exe", name),
        42,
    )
}

#[test]
fn snapshot_diff_keeps_exactly_the_new_entries() {
    // before {A,B} and after {A,B,C}: the difference is exactly {C}.
    let before = strings(&["A", "B"]);
    let after = strings(&["A", "B", "C"]);
    assert_eq!(snapshot_diff(&before, &after), strings(&["C"]));
}

#[test]
fn snapshot_diff_is_a_subset_of_after_and_disjoint_from_before() {
    let before = strings(&["k1", "k2"]);
    let after = strings(&["k3", "k1", "k4"]);
    let diff = snapshot_diff(&before, &after);
    assert_eq!(diff, strings(&["k3", "k4"]));
    for d in &diff {
        assert!(after.contains(d));
        assert!(!before.contains(d));
    }
    assert!(snapshot_diff(&after, &after).is_empty());
}

#[test]
fn bfs_returns_exact_match_over_earlier_loose_match() {
    // The looser "contains the name" match sits in the root, the exact
    // <name>.exe deeper in the tree; the exact match wins.
    let tree = folder(
        "root",
        "C:\\pkg",
        vec![
            file("myapp-helper.exe", "C:\\pkg\\myapp-helper.exe"),
            folder(
                "bin",
                "C:\\pkg\\bin",
                vec![file("MyApp.exe", "C:\\pkg\\bin\\MyApp.exe")],
            ),
        ],
    );
    let found = ZipDist::find_executable_path("myapp", tree);
    assert_eq!(found, Some("C:\\pkg\\bin\\MyApp.exe".to_string()));
}

#[test]
fn bfs_falls_back_to_the_first_loose_match() {
    let tree = folder(
        "root",
        "C:\\pkg",
        vec![
            file("readme.txt", "C:\\pkg\\readme.txt"),
            file("myapp-cli.exe", "C:\\pkg\\myapp-cli.exe"),
            file("myapp-gui.exe", "C:\\pkg\\myapp-gui.exe"),
        ],
    );
    let found = ZipDist::find_executable_path("myapp", tree);
    assert_eq!(found, Some("C:\\pkg\\myapp-cli.exe".to_string()));
}

#[test]
fn bfs_yields_nothing_without_any_match() {
    let tree = folder(
        "root",
        "C:\\pkg",
        vec![file("other.exe", "C:\\pkg\\other.exe")],
    );
    assert_eq!(ZipDist::find_executable_path("myapp", tree), None);
}

#[test]
fn flattening_is_a_no_op_on_flat_folders() {
    // A folder with zero or with two or more top-level entries is already
    // flat: flattening leaves it untouched.
    let empty = folder("root", "C:\\pkg", vec![]);
    match ZipDist::find_inner_unzip_folder(empty) {
        FsEntry::Folder { path, entries, .. } => {
            assert_eq!(path, "C:\\pkg");
            assert!(entries.is_empty());
        }
        _ => panic!("expected a folder"),
    }
    let two = folder(
        "root",
        "C:\\pkg",
        vec![
            folder("a", "C:\\pkg\\a", vec![]),
            folder("b", "C:\\pkg\\b", vec![]),
        ],
    );
    match ZipDist::find_inner_unzip_folder(two) {
        FsEntry::Folder { path, entries, .. } => {
            assert_eq!(path, "C:\\pkg");
            assert_eq!(entries.len(), 2);
        }
        _ => panic!("expected a folder"),
    }
}

#[test]
fn flattening_descends_single_folder_wrappers() {
    let tree = folder(
        "root",
        "C:\\pkg",
        vec![folder(
            "wrap",
            "C:\\pkg\\wrap",
            vec![folder(
                "inner",
                "C:\\pkg\\wrap\\inner",
                vec![file("a.exe", "C:\\pkg\\wrap\\inner\\a.exe")],
            )],
        )],
    );
    match ZipDist::find_inner_unzip_folder(tree) {
        FsEntry::Folder { path, entries, .. } => {
            assert_eq!(path, "C:\\pkg\\wrap\\inner");
            assert_eq!(entries.len(), 1);
        }
        _ => panic!("expected the innermost folder"),
    }
    // A single top-level file stops the flattening.
    let tree = folder(
        "root",
        "C:\\pkg",
        vec![file("only.exe", "C:\\pkg\\only.exe")],
    );
    match ZipDist::find_inner_unzip_folder(tree) {
        FsEntry::Folder { path, .. } => assert_eq!(path, "C:\\pkg"),
        _ => panic!("expected the root folder"),
    }
}

#[test]
fn shortcut_files_are_collected_recursively() {
    let tree = folder(
        "Programs",
        "C:\\menu",
        vec![
            file("App.lnk", "C:\\menu\\App.lnk"),
            file("notes.txt", "C:\\menu\\notes.txt"),
            folder(
                "Vendor",
                "C:\\menu\\Vendor",
                vec![file("Tool.lnk", "C:\\menu\\Vendor\\Tool.lnk")],
            ),
        ],
    );
    let mut files = Vec::new();
    InstallerDist::fetch_shortcut_files(&mut files, &tree);
    assert_eq!(
        files,
        strings(&["C:\\menu\\App.lnk", "C:\\menu\\Vendor\\Tool.lnk"])
    );
}

#[test]
fn static_shortcut_guess_tries_both_conventions() {
    let dist = InstallerDist {
        package_info: package_info("MyApp"),
    };
    let existing = strings(&["C:\\menu\\MyApp.lnk"]);
    assert_eq!(
        dist.statically_generate_package_shortcut("C:\\menu", &existing),
        Some("C:\\menu\\MyApp.lnk".to_string())
    );
    let existing = strings(&["C:\\menu\\MyApp\\MyApp.lnk"]);
    assert_eq!(
        dist.statically_generate_package_shortcut("C:\\menu", &existing),
        Some("C:\\menu\\MyApp\\MyApp.lnk".to_string())
    );
    let existing = strings(&["C:\\menu\\Other.lnk"]);
    assert_eq!(
        dist.statically_generate_package_shortcut("C:\\menu", &existing),
        None
    );
}

#[test]
fn dynamic_shortcut_diff_picks_the_named_new_file() {
    let before = strings(&["C:\\menu\\Old.lnk"]);
    let after = strings(&[
        "C:\\menu\\Old.lnk",
        "C:\\menu\\Unrelated.lnk",
        "C:\\menu\\MyApp.lnk",
    ]);
    assert_eq!(
        InstallerDist::dynamically_find_package_shortcut("myapp", &before, &after),
        Some("C:\\menu\\MyApp.lnk".to_string())
    );
    assert_eq!(
        InstallerDist::dynamically_find_package_shortcut("myapp", &after, &after),
        None
    );
}

fn entry(
    key: &str,
    display: Option<&str>,
    quiet: Option<&str>,
    plain: Option<&str>,
) -> UninstallEntry {
    UninstallEntry {
        key_name: key.to_string(),
        display_name: display.map(|s| s.to_string()),
        quiet_uninstall_string: quiet.map(|s| s.to_string()),
        uninstall_string: plain.map(|s| s.to_string()),
    }
}

#[test]
fn uninstall_command_prefers_the_quiet_string() {
    let keys = vec![entry(
        "k1",
        Some("MyApp 2.0"),
        Some("C:\\u.exe /quiet"),
        Some("C:\\u.exe"),
    )];
    assert_eq!(
        InstallerDist::extract_uninstall_command_from_keys("myapp", &keys),
        Some("C:\\u.exe /quiet".to_string())
    );
    let keys = vec![entry("k1", Some("MyApp 2.0"), None, Some("C:\\u.exe"))];
    assert_eq!(
        InstallerDist::extract_uninstall_command_from_keys("myapp", &keys),
        Some("C:\\u.exe".to_string())
    );
}

#[test]
fn uninstall_command_stops_at_the_first_display_match() {
    // The first entry whose display name shows the package name decides,
    // even when it offers no command and a later entry would.
    let keys = vec![
        entry("k1", Some("MyApp"), None, None),
        entry("k2", Some("MyApp Runtime"), None, Some("C:\\later.exe")),
    ];
    assert_eq!(
        InstallerDist::extract_uninstall_command_from_keys("myapp", &keys),
        None
    );
    let keys = vec![
        entry("k1", Some("Other"), None, Some("C:\\other.exe")),
        entry("k2", None, None, Some("C:\\skipped.exe")),
        entry("k3", Some("MyApp"), None, Some("C:\\mine.exe")),
    ];
    assert_eq!(
        InstallerDist::extract_uninstall_command_from_keys("myapp", &keys),
        Some("C:\\mine.exe".to_string())
    );
}

#[test]
fn uninstall_command_only_considers_new_keys() {
    let before = strings(&["k1"]);
    let after = vec![
        entry("k1", Some("MyApp old"), None, Some("C:\\old.exe")),
        entry("k2", Some("MyApp"), None, Some("C:\\new.exe")),
    ];
    assert_eq!(
        InstallerDist::fetch_uninstall_command_for_key("myapp", &before, &after),
        Some("C:\\new.exe".to_string())
    );
}

#[test]
fn uninstall_command_layers_user_machine_then_folder() {
    let empty_before = Vec::new();
    let no_entries = Vec::new();
    let machine_after = vec![entry("m1", Some("MyApp"), None, Some("C:\\machine.exe"))];
    let got = InstallerDist::fetch_uninstall_command(
        "myapp",
        &None,
        &empty_before,
        &no_entries,
        &empty_before,
        &machine_after,
    );
    assert_eq!(got, Some("C:\\machine.exe".to_string()));

    let folder_items = Some(strings(&[
        "C:\\app\\myapp.exe",
        "C:\\app\\unins000.exe",
    ]));
    let got = InstallerDist::fetch_uninstall_command(
        "myapp",
        &folder_items,
        &empty_before,
        &no_entries,
        &empty_before,
        &no_entries,
    );
    assert_eq!(got, Some("C:\\app\\unins000.exe".to_string()));

    let got = InstallerDist::fetch_uninstall_command(
        "myapp",
        &None,
        &empty_before,
        &no_entries,
        &empty_before,
        &no_entries,
    );
    assert_eq!(got, None);
}

#[test]
fn folder_scan_finds_the_uninstaller_executable() {
    let items = strings(&["C:\\app\\MyApp.exe", "C:\\app\\Unins000.exe", "C:\\app\\unins000.dat"]);
    assert_eq!(
        InstallerDist::fetch_uninstall_command_from_executable(&items),
        Some("C:\\app\\Unins000.exe".to_string())
    );
    let items = strings(&["C:\\app\\MyApp.exe"]);
    assert_eq!(
        InstallerDist::fetch_uninstall_command_from_executable(&items),
        None
    );
}

#[test]
fn only_installers_reuse_a_cached_download() {
    assert!(use_cached_distributable(DistType::Installer, true));
    assert!(!use_cached_distributable(DistType::Installer, false));
    assert!(!use_cached_distributable(DistType::Zip, true));
    assert!(!use_cached_distributable(DistType::Exe, true));
}

#[test]
fn silent_install_command_depends_on_the_extension() {
    let (program, args) = InstallerDist::run_installation_command("msi", "C:\\d\\a.msi");
    assert_eq!(program, "MsiExec.exe");
    assert_eq!(args, strings(&["/i", "C:\\d\\a.msi"]));
    let (program, args) = InstallerDist::run_installation_command("exe", "C:\\d\\a.exe");
    assert_eq!(program, "cmd");
    assert_eq!(args, strings(&["/c", "C:\\d\\a.exe", "/VERYSILENT", "/S"]));
}

#[test]
fn startmenu_paths_extend_the_environment_roots() {
    let folders = InstallerDist::generate_startmenu_paths("C:\\U\\AppData", "C:\\ProgramData");
    assert_eq!(
        folders.appdata,
        "C:\\U\\AppData\\Microsoft\\Windows\\Start Menu\\Programs"
    );
    assert_eq!(
        folders.programdata,
        "C:\\ProgramData\\Microsoft\\Windows\\Start Menu\\Programs"
    );
}

#[test]
fn folder_paths_are_derived_from_the_roots() {
    assert_eq!(
        Dist::generate_dists_folder_path("C:\\senget"),
        "C:\\senget\\distributables"
    );
    assert_eq!(
        Dist::generate_packages_folder_path("C:\\senget", "C:\\menu", true),
        "C:\\senget\\packages"
    );
    assert_eq!(
        Dist::generate_packages_folder_path("C:\\senget", "C:\\menu", false),
        "C:\\menu\\Local\\Programs"
    );
}

#[test]
fn standalone_install_record_points_into_the_package_folder() {
    let dist = ExeDist {
        package_info: package_info("MyApp"),
    };
    let info = dist.install_info("C:\\pkgs", true);
    assert_eq!(
        info.executable_path,
        Some("C:\\pkgs\\MyApp\\MyApp.exe".to_string())
    );
    assert_eq!(info.installation_folder, Some("C:\\pkgs\\MyApp".to_string()));
    assert_eq!(info.uninstall_command, None);
    assert_eq!(info.dist_type, DistType::Exe);
    assert!(info.create_shortcut_file);
}

#[test]
fn archive_install_record_requires_an_executable() {
    let dist = ZipDist {
        package_info: package_info("MyApp"),
    };
    let info = dist
        .install_info(
            "C:\\pkgs\\MyApp".to_string(),
            Some("C:\\pkgs\\MyApp\\MyApp.exe".to_string()),
            false,
        )
        .unwrap();
    assert_eq!(info.dist_type, DistType::Zip);
    assert_eq!(info.installation_folder, Some("C:\\pkgs\\MyApp".to_string()));
    assert_eq!(info.uninstall_command, None);

    let dist = ZipDist {
        package_info: package_info("MyApp"),
    };
    let err = dist
        .install_info("C:\\pkgs\\MyApp".to_string(), None, false)
        .unwrap_err();
    assert!(matches!(err, SengetErrors::NoExeFound(_)));
}

#[test]
fn installer_markers_reclassify_a_standalone_download() {
    let dist = ExeDist {
        package_info: package_info("MyApp"),
    };
    let bytes: Vec<u8> = b"\x00\x01In2no ... Inno Setup".to_vec();
    match dist.check_if_is_actually_installer(&bytes) {
        Dist::Installer(d) => assert_eq!(d.package_info.name, "MyApp"),
        _ => panic!("expected reclassification"),
    }
    let dist = ExeDist {
        package_info: package_info("MyApp"),
    };
    let bytes: Vec<u8> = b"plain old binary".to_vec();
    match dist.check_if_is_actually_installer(&bytes) {
        Dist::Exe(d) => assert_eq!(d.package_info.name, "MyApp"),
        _ => panic!("expected a standalone"),
    }
}
