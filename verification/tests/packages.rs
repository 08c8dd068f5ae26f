use senget::database::PackageDatabase;
use senget::dist::{DistType, InstallInfo};
use senget::env_vars::{
    add_package_folder_to_senget_env_var, remove_package_folder_from_senget_env_var,
    setup_senget_packages_path_env_var,
};
use senget::errors::{check_for_other_errors, SengetErrors};
use senget::github::Repo;
use senget::lifecycle::{
    cache_size_warning, ensure_package_not_installed, packages_to_purge,
    validate_uninstall_outcome,
};
use senget::package::{Package, uninstall_failure_is_soft};
use senget::senget::{generate_senget_package, setup_senget_package};
use senget::table::generate_table_string;
use senget::text::parent_dir_str;

fn strings(items: &[&str]) -> Vec<String> {
    items.iter().map(|s| s.to_string()).collect()
}

fn repo(name: &str, full_name: &str) -> Repo {
    Repo::new(
        name.to_string(),
        full_name.to_string(),
        format!("https://github.com/{}", full_name),
        Some("a tool".to_string()),
        Some("Rust".to_string()),
        None,
    )
}

fn install_info(kind: DistType, exe: Option<&str>) -> InstallInfo {
    InstallInfo {
        executable_path: exe.map(|s| s.to_string()),
        installation_folder: exe.map(|_| "C:\\pkgs\\App".to_string()),
        uninstall_command: None,
        dist_type: kind,
        create_shortcut_file: false,
    }
}

fn package(name: &str, full_name: &str, version: &str) -> Package {
    Package::new(
        version.to_string(),
        repo(name, full_name),
        install_info(DistType::Exe, Some("C:\\pkgs\\App\\App.exe")),
    )
}

#[test]
fn new_package_caches_lowercase_names() {
    let p = package("Senpwai", "SenZmaKi/Senpwai", "2.0.9");
    assert_eq!(p.lowercase_name, "senpwai");
    assert_eq!(p.lowercase_fullname, "senzmaki/senpwai");
}

#[test]
fn export_carries_the_reinstall_essentials() {
    let p = package("Senpwai", "SenZmaKi/Senpwai", "2.0.9");
    let e = p.export();
    assert_eq!(e.lowercase_fullname, "senzmaki/senpwai");
    assert_eq!(e.version, "2.0.9");
    assert_eq!(e.preferred_dist_type, DistType::Exe);
    assert!(!e.create_shortcut_file);
}

#[test]
fn installation_folder_string_defaults_to_empty() {
    let p = package("A", "B/A", "1");
    assert_eq!(p.installation_folder_str(), "C:\\pkgs\\App");
    let bare = Package::new("1".to_string(), repo("A", "B/A"), install_info(DistType::Exe, None));
    assert_eq!(bare.installation_folder_str(), "");
}

#[test]
fn msiexec_commands_split_after_the_token() {
    let (program, args) = Package::extract_program_and_args("MsiExec.exe /X{GUID}");
    assert_eq!(program, "MsiExec.exe");
    assert_eq!(args, strings(&["/X{GUID}"]));
}

#[test]
fn quoted_commands_split_into_program_and_arguments() {
    let (program, args) =
        Package::extract_program_and_args("\"C:\\Programs\\App\\Uninstall App.exe\" /S");
    assert_eq!(program, "C:\\Programs\\App\\Uninstall App.exe");
    assert_eq!(args, strings(&["/S"]));
    let (program, args) =
        Package::extract_program_and_args("\"C:\\App\\u.exe\" /currentuser /S");
    assert_eq!(program, "C:\\App\\u.exe");
    assert_eq!(args, strings(&["/currentuser", "/S"]));
}

#[test]
fn bare_commands_are_all_program() {
    let (program, args) = Package::extract_program_and_args("C:\\App\\unins000.exe");
    assert_eq!(program, "C:\\App\\unins000.exe");
    assert!(args.is_empty());
}

#[test]
fn parent_dir_is_the_path_before_the_last_separator() {
    assert_eq!(
        parent_dir_str("C:\\Programs\\App\\App.exe"),
        Some("C:\\Programs\\App".to_string())
    );
    assert_eq!(parent_dir_str("App.exe"), None);
}

#[test]
fn soft_uninstall_failure_is_recognized_by_the_os_text() {
    assert!(uninstall_failure_is_soft(
        "The filename, directory name, or volume label syntax is incorrect."
    ));
    assert!(!uninstall_failure_is_soft("Access is denied."));
}

#[test]
fn update_merges_missing_fields_from_the_old_record() {
    let old = Package::new(
        "1.0".to_string(),
        repo("App", "Foo/App"),
        InstallInfo {
            executable_path: Some("C:\\old\\App.exe".to_string()),
            installation_folder: Some("C:\\old".to_string()),
            uninstall_command: Some("C:\\old\\unins.exe".to_string()),
            dist_type: DistType::Installer,
            create_shortcut_file: true,
        },
    );
    let fresh = InstallInfo {
        executable_path: None,
        installation_folder: Some("C:\\new".to_string()),
        uninstall_command: None,
        dist_type: DistType::Installer,
        create_shortcut_file: false,
    };
    let updated = old.install_updated_version("2.0".to_string(), fresh);
    assert_eq!(updated.version, "2.0");
    assert_eq!(
        updated.install_info.executable_path,
        Some("C:\\old\\App.exe".to_string())
    );
    assert_eq!(
        updated.install_info.installation_folder,
        Some("C:\\new".to_string())
    );
    assert_eq!(
        updated.install_info.uninstall_command,
        Some("C:\\old\\unins.exe".to_string())
    );
    assert!(updated.install_info.create_shortcut_file);
    assert_eq!(updated.repo.full_name, "Foo/App");
}

#[test]
fn database_finds_packages_case_insensitively() {
    let mut db = PackageDatabase::new(Vec::new());
    db.add_package(package("Senpwai", "SenZmaKi/Senpwai", "2.0.9"));
    db.add_package(package("Hatt", "Frenchgithubuser/Hatt", "0.3.1"));
    let found = db.find_package("SENPWAI").unwrap();
    assert_eq!(found.version, "2.0.9");
    let found = db.find_package("frenchgithubuser/hatt").unwrap();
    assert_eq!(found.repo.name, "Hatt");
    assert!(db.find_package("missing").is_none());
}

#[test]
fn database_updates_and_removes_by_record_equality() {
    let mut db = PackageDatabase::new(Vec::new());
    let old = package("App", "Foo/App", "1.0");
    db.add_package(old.clone());
    db.add_package(package("Other", "Foo/Other", "3.0"));
    assert_eq!(db.find_package_index(&old), Some(0));

    let newer = package("App", "Foo/App", "2.0");
    db.update_package(&old, newer.clone());
    assert_eq!(db.find_package("app").unwrap().version, "2.0");
    assert_eq!(db.find_package_index(&old), None);

    db.remove_package(&newer);
    assert!(db.find_package("app").is_none());
    assert_eq!(db.fetch_all_packages().len(), 1);
}

#[test]
fn install_is_refused_while_a_record_exists() {
    let mut db = PackageDatabase::new(Vec::new());
    assert!(ensure_package_not_installed(&db, "App").is_ok());
    db.add_package(package("App", "Foo/App", "1.0"));
    assert!(matches!(
        ensure_package_not_installed(&db, "foo/app"),
        Err(SengetErrors::PackageAlreadyInstalledError(_))
    ));
}

#[test]
fn uninstall_outcome_gates_record_removal() {
    assert!(validate_uninstall_outcome(true, false).is_ok());
    assert!(validate_uninstall_outcome(false, true).is_ok());
    assert!(matches!(
        validate_uninstall_outcome(false, false),
        Err(SengetErrors::FailedToUninstallError(_))
    ));
}

#[test]
fn purge_selects_records_whose_executable_vanished() {
    let gone = package("Gone", "Foo/Gone", "1.0");
    let kept = package("Kept", "Foo/Kept", "1.0");
    let no_exe = Package::new(
        "1.0".to_string(),
        repo("Bare", "Foo/Bare"),
        install_info(DistType::Exe, None),
    );
    let packages = vec![gone, kept, no_exe];
    let exists = vec![false, true, false];
    let to_purge = packages_to_purge(&packages, &exists);
    assert_eq!(to_purge.len(), 1);
    assert_eq!(to_purge[0].repo.name, "Gone");
}

#[test]
fn cache_warning_starts_at_a_hundred_megabytes() {
    assert_eq!(cache_size_warning(99 * 1024 * 1024), None);
    assert_eq!(cache_size_warning(100 * 1024 * 1024), Some(100));
    assert_eq!(cache_size_warning(0), None);
}

#[test]
fn os_errors_are_normalized_into_reportable_kinds() {
    let err = check_for_other_errors(SengetErrors::IoError {
        permission_denied: true,
        message: "Access is denied.".to_string(),
    });
    assert!(matches!(err, SengetErrors::PrivilegeError(_)));
    let err = check_for_other_errors(SengetErrors::IoError {
        permission_denied: false,
        message: "disk full".to_string(),
    });
    assert!(matches!(err, SengetErrors::IoError { .. }));
    let err = check_for_other_errors(SengetErrors::RequestError {
        message: "error sending request: No such host is known.".to_string(),
    });
    assert!(matches!(err, SengetErrors::NetworkError(_)));
    let err = check_for_other_errors(SengetErrors::RequestError {
        message: "IncompleteBody while streaming".to_string(),
    });
    assert!(matches!(err, SengetErrors::NetworkError(_)));
    let err = check_for_other_errors(SengetErrors::RequestError {
        message: "status 500".to_string(),
    });
    assert!(matches!(err, SengetErrors::RequestError { .. }));
    let err = check_for_other_errors(SengetErrors::NoPackageError(
        senget::errors::NoPackageError,
    ));
    assert!(matches!(err, SengetErrors::NoPackageError(_)));
}

#[test]
fn env_var_setup_proposes_only_the_missing_pieces() {
    let (path, var) = setup_senget_packages_path_env_var("C:\\bin", false, "C:\\senget");
    assert_eq!(path, Some("C:\\bin;%SENGET_PACKAGES%".to_string()));
    assert_eq!(var, Some("C:\\senget".to_string()));
    let (path, var) =
        setup_senget_packages_path_env_var("C:\\bin;%SENGET_PACKAGES%", true, "C:\\senget");
    assert_eq!(path, None);
    assert_eq!(var, None);
}

#[test]
fn env_var_add_and_remove_are_inverse_on_the_tail() {
    let value = add_package_folder_to_senget_env_var("C:\\a", "C:\\pkgs\\App");
    assert_eq!(value, "C:\\a;C:\\pkgs\\App");
    let removed = remove_package_folder_from_senget_env_var(&value, "C:\\pkgs\\App");
    assert_eq!(removed, "C:\\a");
}

#[test]
fn senget_records_itself_like_any_package() {
    let items = strings(&["C:\\senget\\senget.exe", "C:\\senget\\unins000.exe"]);
    let p = generate_senget_package("C:\\senget", "0.1.0", "a package manager", &items);
    assert_eq!(p.repo.name, "Senget");
    assert_eq!(p.lowercase_name, "senget");
    assert_eq!(p.version, "0.1.0");
    assert_eq!(
        p.install_info.executable_path,
        Some("C:\\senget\\senget.exe".to_string())
    );
    assert_eq!(
        p.install_info.uninstall_command,
        Some("C:\\senget\\unins000.exe".to_string())
    );
    assert_eq!(p.install_info.dist_type, DistType::Installer);
}

#[test]
fn senget_setup_adds_replaces_or_leaves_the_record() {
    let items = Vec::new();
    let mut db = PackageDatabase::new(Vec::new());
    let current = generate_senget_package("C:\\senget", "0.2.0", "d", &items);
    setup_senget_package(&mut db, &current, "0.2.0");
    assert_eq!(db.find_package("Senget").unwrap().version, "0.2.0");

    // same version: untouched
    setup_senget_package(&mut db, &current, "0.2.0");
    assert_eq!(db.fetch_all_packages().len(), 1);

    // older recorded version: replaced
    let newer = generate_senget_package("C:\\senget", "0.3.0", "d", &items);
    setup_senget_package(&mut db, &newer, "0.3.0");
    assert_eq!(db.fetch_all_packages().len(), 1);
    assert_eq!(db.find_package("Senget").unwrap().version, "0.3.0");
}

#[test]
fn table_string_aligns_columns_and_rules_the_header() {
    let headers = strings(&["Name", "Version"]);
    let rows = vec![strings(&["a", "1.0"]), strings(&["bc", "2"])];
    let expected = "Name    Version\n---------------\na       1.0    \nbc      2      \n";
    assert_eq!(generate_table_string(&headers, &rows), expected);
}

#[test]
fn table_string_with_no_rows_is_header_and_rule() {
    let headers = strings(&["Name", "Error"]);
    let rows: Vec<Vec<String>> = Vec::new();
    let expected = "Name    Error\n-------------\n";
    assert_eq!(generate_table_string(&headers, &rows), expected);
}
