//! The tool's record of itself: it appears in its own database like any
//! other package, and the record is refreshed whenever the running version
//! differs from the recorded one.

use vstd::prelude::*;
use crate::database::{
    find_package_spec, lemma_find_package_in_db, package_index, PackageDatabase,
};
use crate::dist::{DistType, InstallInfo, InstallInfoView, InstallerDist, unins_exe_of};
use crate::github::{Repo, RepoView};
use crate::package::{Package, PackageView};
use crate::text::{eq_str, lower_of, str_concat};

verus! {

/// The record that stands for the tool itself: a third-party-installer
/// package rooted at the running executable's folder, with the uninstall
/// command taken from that folder's own uninstaller, if present.
pub open spec fn senget_package_spec(
    root_dir: Seq<char>,
    version: Seq<char>,
    description: Seq<char>,
    root_folder_items: Seq<Seq<char>>,
) -> PackageView {
    let repo = RepoView {
        name: "Senget"@,
        full_name: "SenZmaKi/Senget"@,
        url: "https://github.com/SenZmaKi/Senget"@,
        description: Some(description),
        language: Some("Rust"@),
        license: Some("GNU General Public License v3.0"@),
    };
    PackageView {
        version: version,
        lowercase_name: lower_of("Senget"@),
        lowercase_fullname: lower_of("SenZmaKi/Senget"@),
        repo: repo,
        install_info: InstallInfoView {
            executable_path: Some(root_dir + "\\senget.exe"@),
            installation_folder: Some(root_dir),
            uninstall_command: unins_exe_of(root_folder_items),
            dist_type: DistType::Installer,
            create_shortcut_file: false,
        },
    }
}

/// Builds the tool's own package record from its installation folder and
/// that folder's file listing.
pub fn generate_senget_package(
    root_dir: &str,
    version: &str,
    description: &str,
    root_folder_items: &Vec<String>,
) -> (r: Package)
    ensures
        r.deep_view() == senget_package_spec(
            root_dir@,
            version@,
            description@,
            root_folder_items.deep_view(),
        ),
{
    let repo = Repo::new(
        String::from_str("Senget"),
        String::from_str("SenZmaKi/Senget"),
        String::from_str("https://github.com/SenZmaKi/Senget"),
        Some(String::from_str(description)),
        Some(String::from_str("Rust")),
        Some(String::from_str("GNU General Public License v3.0")),
    );
    let executable_path = Some(str_concat(root_dir, "\\senget.exe"));
    let uninstall_command = InstallerDist::fetch_uninstall_command_from_executable(
        root_folder_items,
    );
    let installation_folder = Some(String::from_str(root_dir));
    let install_info = InstallInfo {
        executable_path,
        installation_folder,
        uninstall_command,
        dist_type: DistType::Installer,
        create_shortcut_file: false,
    };
    Package::new(String::from_str(version), repo, install_info)
}

/// Keeps the tool's own record current: a missing record is added, one with
/// another version is replaced, a record at the running version is left
/// alone.
pub fn setup_senget_package(db: &mut PackageDatabase, senget_package: &Package, version: &str)
    ensures
        ({
            let dv = old(db).deep_view();
            match find_package_spec(dv, lower_of("Senget"@)) {
                None => final(db).deep_view() == dv.push(senget_package.deep_view()),
                Some(oldp) => if oldp.version != version@ {
                    final(db).deep_view() == dv.update(
                        package_index(dv, oldp),
                        senget_package.deep_view(),
                    )
                } else {
                    final(db).deep_view() == dv
                },
            }
        }),
{
    proof {
        lemma_find_package_in_db(db.deep_view(), lower_of("Senget"@));
    }
    match db.find_package("Senget") {
        Some(old_senget_package) => {
            if !eq_str(old_senget_package.version.as_str(), version) {
                db.update_package(&old_senget_package, senget_package.clone());
            }
        },
        None => {
            db.add_package(senget_package.clone());
        },
    }
}

} // verus!
