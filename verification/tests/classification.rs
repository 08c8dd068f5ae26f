use senget::dist::{Dist, DistType};
use senget::github::{
    extract_repo, find_repo, fuzz_asset_name, parse_asset_info, Asset, License, Repo,
    RepoResponseJson,
};

fn asset(name: &str) -> Asset {
    Asset {
        name: name.to_string(),
        size: 1000,
        browser_download_url: format!("https://example.com/{}", name),
    }
}

fn bar_repo() -> Repo {
    Repo::new(
        "Bar".to_string(),
        "Foo/Bar".to_string(),
        "https://github.com/Foo/Bar".to_string(),
        None,
        None,
        None,
    )
}

#[test]
fn fuzz_name_reduces_installer_decorations() {
    assert_eq!(fuzz_asset_name("myapp-setup-x64.exe"), "myapp");
    assert_eq!(fuzz_asset_name("myapp.exe"), "myapp");
    assert_eq!(fuzz_asset_name("myapp"), "myapp");
    assert_eq!(
        fuzz_asset_name("myapp-setup-x64.exe"),
        fuzz_asset_name("myapp.exe")
    );
}

#[test]
fn fuzz_name_strips_platform_tokens() {
    assert_eq!(fuzz_asset_name("tool-windows-amd64.zip"), "tool");
    assert_eq!(fuzz_asset_name("tool_win32_portable.zip"), "tool");
    assert_eq!(fuzz_asset_name("tool-i386.msi"), "tool");
}

#[test]
fn classification_rejects_arm_assets() {
    assert!(parse_asset_info("bar", &asset("Bar-arm64.exe")).is_none());
    assert!(parse_asset_info("bar", &asset("bar-ARM.zip")).is_none());
    assert!(parse_asset_info("bar", &asset("bar-armv7-setup.exe")).is_none());
}

#[test]
fn classification_rejects_foreign_os_zips() {
    assert!(parse_asset_info("bar", &asset("bar-macos.zip")).is_none());
    assert!(parse_asset_info("bar", &asset("bar-darwin-x64.zip")).is_none());
    assert!(parse_asset_info("bar", &asset("bar-linux.zip")).is_none());
    assert!(parse_asset_info("bar", &asset("bar-win.zip")).is_some());
}

#[test]
fn classification_requires_repo_name_in_asset() {
    assert!(parse_asset_info("bar", &asset("other.exe")).is_none());
    assert!(parse_asset_info("bar", &asset("Bar.exe")).is_some());
}

#[test]
fn classification_assigns_kinds_by_extension_and_keywords() {
    let info = parse_asset_info("bar", &asset("bar.msi")).unwrap();
    assert_eq!(info.dist_type, DistType::Installer);
    let info = parse_asset_info("bar", &asset("bar-setup.exe")).unwrap();
    assert_eq!(info.dist_type, DistType::Installer);
    let info = parse_asset_info("bar", &asset("bar-installer.exe")).unwrap();
    assert_eq!(info.dist_type, DistType::Installer);
    let info = parse_asset_info("bar", &asset("bar-updater.exe")).unwrap();
    assert_eq!(info.dist_type, DistType::Installer);
    let info = parse_asset_info("bar", &asset("bar.exe")).unwrap();
    assert_eq!(info.dist_type, DistType::Exe);
    let info = parse_asset_info("bar", &asset("bar.zip")).unwrap();
    assert_eq!(info.dist_type, DistType::Zip);
    assert!(parse_asset_info("bar", &asset("bar.tar.gz")).is_none());
}

#[test]
fn classification_lowercases_asset_names() {
    // An upper-case asset name still shows the lower-cased repository name
    // and keywords once lowered.
    let info = parse_asset_info("bar", &asset("BAR-SETUP.EXE")).unwrap();
    assert_eq!(info.dist_type, DistType::Installer);
    assert!(info.is_exact_match);
}

#[test]
fn classification_flags_fuzzy_exact_matches() {
    let info = parse_asset_info("bar", &asset("Bar-Setup-x64.exe")).unwrap();
    assert!(info.is_exact_match);
    let info = parse_asset_info("bar", &asset("bar-extras.exe")).unwrap();
    assert!(!info.is_exact_match);
}

#[test]
fn selection_prefers_installer_over_archive_over_standalone() {
    let repo = bar_repo();
    let assets = vec![asset("bar.exe"), asset("bar.zip"), asset("bar-setup.exe")];
    let dist = repo
        .parse_assets_for_distributable(assets, "1.0".to_string(), &None)
        .unwrap();
    match dist {
        Dist::Installer(d) => assert_eq!(d.package_info.file_title, "bar-setup.exe"),
        _ => panic!("expected the installer to win"),
    }
    let repo = bar_repo();
    let assets = vec![asset("bar.exe"), asset("bar.zip")];
    let dist = repo
        .parse_assets_for_distributable(assets, "1.0".to_string(), &None)
        .unwrap();
    match dist {
        Dist::Zip(d) => assert_eq!(d.package_info.file_title, "bar.zip"),
        _ => panic!("expected the archive to win over the standalone"),
    }
}

#[test]
fn selection_breaks_kind_ties_by_exact_match() {
    let repo = bar_repo();
    let assets = vec![asset("bar-extras.exe"), asset("bar.exe")];
    let dist = repo
        .parse_assets_for_distributable(assets, "1.0".to_string(), &None)
        .unwrap();
    match dist {
        Dist::Exe(d) => assert_eq!(d.package_info.file_title, "bar.exe"),
        _ => panic!("expected a standalone"),
    }
}

#[test]
fn selection_honors_preferred_kind_without_fallback() {
    let repo = bar_repo();
    let assets = vec![asset("bar-setup.exe"), asset("bar.zip")];
    let dist = repo
        .parse_assets_for_distributable(assets, "1.0".to_string(), &Some(DistType::Zip))
        .unwrap();
    match dist {
        Dist::Zip(d) => assert_eq!(d.package_info.file_title, "bar.zip"),
        _ => panic!("expected the preferred kind"),
    }
    let repo = bar_repo();
    let assets = vec![asset("bar-setup.exe")];
    assert!(repo
        .parse_assets_for_distributable(assets, "1.0".to_string(), &Some(DistType::Zip))
        .is_none());
}

#[test]
fn end_to_end_bar_release() {
    // Repository Foo/Bar with a setup executable, a zip and an ARM build:
    // the ARM asset is excluded and the installer wins by kind priority.
    let repo = bar_repo();
    let assets = vec![
        asset("Bar-Setup.exe"),
        asset("Bar.zip"),
        asset("Bar-arm64.exe"),
    ];
    let dist = repo
        .parse_assets_for_distributable(assets, "2.0".to_string(), &None)
        .unwrap();
    match dist {
        Dist::Installer(d) => {
            assert_eq!(d.package_info.file_title, "Bar-Setup.exe");
            assert_eq!(d.package_info.name, "Bar");
            assert_eq!(d.package_info.version, "2.0");
        }
        _ => panic!("expected the installer"),
    }
}

#[test]
fn empty_classification_is_no_distributable() {
    let repo = bar_repo();
    let assets = vec![asset("bar-linux.zip"), asset("notes.txt")];
    assert!(repo
        .parse_assets_for_distributable(assets, "1.0".to_string(), &None)
        .is_none());
}

#[test]
fn find_repo_matches_names_case_insensitively() {
    let repos = vec![
        Repo::new(
            "Other".to_string(),
            "Foo/Other".to_string(),
            "https://github.com/Foo/Other".to_string(),
            None,
            None,
            None,
        ),
        bar_repo(),
    ];
    let found = find_repo("BAR", &repos).unwrap();
    assert_eq!(found.full_name, "Foo/Bar");
    let found = find_repo("foo/bar", &repos).unwrap();
    assert_eq!(found.name, "Bar");
    assert!(find_repo("missing", &repos).is_none());
}

#[test]
fn extract_repo_flattens_the_license() {
    let json = RepoResponseJson {
        name: "Bar".to_string(),
        full_name: "Foo/Bar".to_string(),
        html_url: "https://github.com/Foo/Bar".to_string(),
        description: Some("d".to_string()),
        language: Some("Rust".to_string()),
        license: Some(License {
            name: Some("MIT License".to_string()),
        }),
    };
    let repo = extract_repo(json);
    assert_eq!(repo.license, Some("MIT License".to_string()));
    assert_eq!(repo.url, "https://github.com/Foo/Bar");

    let json = RepoResponseJson {
        name: "Bar".to_string(),
        full_name: "Foo/Bar".to_string(),
        html_url: "u".to_string(),
        description: None,
        language: None,
        license: Some(License { name: None }),
    };
    assert_eq!(extract_repo(json).license, None);
}

#[test]
fn generate_endpoint_builds_the_resource_url() {
    let repo = bar_repo();
    assert_eq!(
        repo.generate_endpoint("releases"),
        "https://api.github.com/repos/Foo/Bar/releases"
    );
}
