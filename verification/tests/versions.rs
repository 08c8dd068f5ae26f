use senget::errors::SengetErrors;
use senget::github::{Asset, ReleaseResponseJson, Repo};
use senget::lifecycle::validate_update_version;
use senget::version::parse_version;

#[test]
fn parse_version_extracts_the_first_dotted_run() {
    assert_eq!(parse_version("v2.0.7"), Some("2.0.7".to_string()));
    assert_eq!(parse_version("2.0.7"), Some("2.0.7".to_string()));
    assert_eq!(parse_version("release-10"), Some("10".to_string()));
    assert_eq!(parse_version("v1.2-rc3"), Some("1.2".to_string()));
    assert_eq!(parse_version("v1..2"), Some("1".to_string()));
    assert_eq!(parse_version("nightly"), None);
    assert_eq!(parse_version(""), None);
}

fn release(tag: &str, asset_names: &[&str]) -> ReleaseResponseJson {
    ReleaseResponseJson {
        tag_name: tag.to_string(),
        assets: asset_names
            .iter()
            .map(|n| Asset {
                name: n.to_string(),
                size: 1,
                browser_download_url: format!("https://example.com/{}/{}", tag, n),
            })
            .collect(),
    }
}

#[test]
fn requested_version_matches_one_release_exactly() {
    // Tags v2.0.9, v2.0.7, v2.0.6 with request "2.0.7": the second
    // release's assets are fetched, none other.
    let releases = vec![
        release("v2.0.9", &["app-2.0.9.exe"]),
        release("v2.0.7", &["app-2.0.7.exe"]),
        release("v2.0.6", &["app-2.0.6.exe"]),
    ];
    let (assets, version) = Repo::get_assets_by_version(&releases, "2.0.7").unwrap();
    assert_eq!(version, "2.0.7");
    assert_eq!(assets.len(), 1);
    assert_eq!(assets[0].name, "app-2.0.7.exe");
}

#[test]
fn unmatched_or_unparsable_versions_yield_nothing() {
    let releases = vec![release("v1.0", &["a.exe"])];
    assert!(Repo::get_assets_by_version(&releases, "2.0").is_none());
    assert!(Repo::get_assets_by_version(&releases, "latest").is_none());
    assert!(Repo::get_assets_by_version(&Vec::new(), "1.0").is_none());
}

#[test]
fn tags_without_tokens_are_skipped() {
    let releases = vec![release("nightly", &["a.exe"]), release("v3", &["b.exe"])];
    let (assets, version) = Repo::get_assets_by_version(&releases, "3").unwrap();
    assert_eq!(version, "3");
    assert_eq!(assets[0].name, "b.exe");
}

#[test]
fn update_to_same_version_fails_fast() {
    // A resolved version equal to the installed one never proceeds to a
    // download or install step.
    assert!(matches!(
        validate_update_version("2.0.7", "2.0.7", "latest"),
        Err(SengetErrors::AlreadyUptoDateError(_))
    ));
    assert!(matches!(
        validate_update_version("2.0.7", "2.0.7", "2.0.7"),
        Err(SengetErrors::VersionAlreadyInstalledError(_))
    ));
    assert!(validate_update_version("2.0.6", "2.0.7", "latest").is_ok());
}
