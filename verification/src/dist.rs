//! Distributables: the three installable artifact kinds, their shared
//! package info, and the install-result record the engine produces.

use vstd::prelude::*;
use crate::fs_model::{
    bfs_items, bfs_search_result, entry_name_ref, entry_path_ref, entry_size, first_exact,
    first_loose, flatten_entry, folders_of, is_exact_exe, is_loose_exe, lemma_entry_size_children,
    lemma_filter_size, lemma_first_exact_append, lemma_first_loose_append, lemma_seq_size_concat,
    seq_size, shortcut_files_of, shortcut_files_of_list, FsEntry,
};
use crate::errors::{NoExeFoundInZipError, SengetErrors};
use crate::snapshot::{contains_string, lemma_filter_push, snapshot_diff, snapshot_diff_spec};
use crate::text::{
    contains_str, ends_with, ends_with_str, eq_str, filename_of, filename_str, has_substring,
    lower_of, lowercase, str_concat,
};

verus! {

pub const MSI_EXEC: &'static str = "MsiExec.exe";

/// The two start-menu "Programs" roots, per-user and per-machine.
pub struct StartmenuFolders {
    pub appdata: String,
    pub programdata: String,
}

pub ghost struct StartmenuFoldersView {
    pub appdata: Seq<char>,
    pub programdata: Seq<char>,
}

impl DeepView for StartmenuFolders {
    type V = StartmenuFoldersView;

    open spec fn deep_view(&self) -> StartmenuFoldersView {
        StartmenuFoldersView { appdata: self.appdata@, programdata: self.programdata@ }
    }
}

#[derive(Clone, Copy, Debug, Hash, PartialEq, Eq, Structural)]
pub enum DistType {
    Installer,
    Zip,
    Exe,
}

/// Payload shared by all three distributable kinds.
#[derive(Debug)]
pub struct PackageInfo {
    pub name: String,
    pub file_title: String,
    pub file_size: u64,
    pub download_url: String,
    pub version: String,
}

pub ghost struct PackageInfoView {
    pub name: Seq<char>,
    pub file_title: Seq<char>,
    pub file_size: u64,
    pub download_url: Seq<char>,
    pub version: Seq<char>,
}

impl DeepView for PackageInfo {
    type V = PackageInfoView;

    open spec fn deep_view(&self) -> PackageInfoView {
        PackageInfoView {
            name: self.name@,
            file_title: self.file_title@,
            file_size: self.file_size,
            download_url: self.download_url@,
            version: self.version@,
        }
    }
}

impl Clone for PackageInfo {
    fn clone(&self) -> (r: Self)
        ensures
            r.deep_view() == self.deep_view(),
    {
        PackageInfo {
            name: self.name.clone(),
            file_title: self.file_title.clone(),
            file_size: self.file_size,
            download_url: self.download_url.clone(),
            version: self.version.clone(),
        }
    }
}

/// Standalone executable distributable.
#[derive(Debug)]
pub struct ExeDist {
    pub package_info: PackageInfo,
}

/// Zipped package distributable.
#[derive(Debug)]
pub struct ZipDist {
    pub package_info: PackageInfo,
}

/// Third-party installer distributable, e.g. inno-setup, nsis or msi.
#[derive(Debug)]
pub struct InstallerDist {
    pub package_info: PackageInfo,
}

impl Clone for ExeDist {
    fn clone(&self) -> (r: Self)
        ensures
            r.deep_view() == self.deep_view(),
    {
        ExeDist { package_info: self.package_info.clone() }
    }
}

impl Clone for ZipDist {
    fn clone(&self) -> (r: Self)
        ensures
            r.deep_view() == self.deep_view(),
    {
        ZipDist { package_info: self.package_info.clone() }
    }
}

impl Clone for InstallerDist {
    fn clone(&self) -> (r: Self)
        ensures
            r.deep_view() == self.deep_view(),
    {
        InstallerDist { package_info: self.package_info.clone() }
    }
}

impl DeepView for ExeDist {
    type V = PackageInfoView;

    open spec fn deep_view(&self) -> PackageInfoView {
        self.package_info.deep_view()
    }
}

impl DeepView for ZipDist {
    type V = PackageInfoView;

    open spec fn deep_view(&self) -> PackageInfoView {
        self.package_info.deep_view()
    }
}

impl DeepView for InstallerDist {
    type V = PackageInfoView;

    open spec fn deep_view(&self) -> PackageInfoView {
        self.package_info.deep_view()
    }
}

/// A distributable: the variant tag and the shared payload are set together
/// at classification time and never diverge.
#[derive(Debug)]
pub enum Dist {
    Zip(ZipDist),
    Exe(ExeDist),
    Installer(InstallerDist),
}

impl Clone for Dist {
    fn clone(&self) -> (r: Self)
        ensures
            r.deep_view() == self.deep_view(),
    {
        match self {
            Dist::Zip(d) => Dist::Zip(d.clone()),
            Dist::Exe(d) => Dist::Exe(d.clone()),
            Dist::Installer(d) => Dist::Installer(d.clone()),
        }
    }
}

pub ghost enum DistView {
    Zip(PackageInfoView),
    Exe(PackageInfoView),
    Installer(PackageInfoView),
}

impl DeepView for Dist {
    type V = DistView;

    open spec fn deep_view(&self) -> DistView {
        match self {
            Dist::Zip(d) => DistView::Zip(d.deep_view()),
            Dist::Exe(d) => DistView::Exe(d.deep_view()),
            Dist::Installer(d) => DistView::Installer(d.deep_view()),
        }
    }
}

/// The payload of a distributable, whatever its kind.
pub open spec fn dist_info(d: DistView) -> PackageInfoView {
    match d {
        DistView::Zip(p) => p,
        DistView::Exe(p) => p,
        DistView::Installer(p) => p,
    }
}

/// The kind of a distributable.
pub open spec fn dist_kind(d: DistView) -> DistType {
    match d {
        DistView::Zip(_) => DistType::Zip,
        DistView::Exe(_) => DistType::Exe,
        DistView::Installer(_) => DistType::Installer,
    }
}

impl PackageInfo {
    pub fn new(
        name: String,
        download_url: String,
        version: String,
        file_title: String,
        file_size: u64,
    ) -> (r: Self)
        ensures
            r.deep_view() == (PackageInfoView {
                name: name@,
                file_title: file_title@,
                file_size: file_size,
                download_url: download_url@,
                version: version@,
            }),
    {
        Self { name, download_url, version, file_title, file_size }
    }

    /// Wraps this payload in the distributable variant for `dist_type`.
    pub fn fetch_dist(self, dist_type: DistType) -> (r: Dist)
        ensures
            dist_info(r.deep_view()) == self.deep_view(),
            dist_kind(r.deep_view()) == dist_type,
    {
        match dist_type {
            DistType::Exe => Dist::Exe(ExeDist { package_info: self }),
            DistType::Zip => Dist::Zip(ZipDist { package_info: self }),
            DistType::Installer => Dist::Installer(InstallerDist { package_info: self }),
        }
    }
}

impl Dist {
    pub fn version(&self) -> (r: &str)
        ensures
            r@ == dist_info(self.deep_view()).version,
    {
        match self {
            Dist::Exe(dist) => dist.package_info.version.as_str(),
            Dist::Zip(dist) => dist.package_info.version.as_str(),
            Dist::Installer(dist) => dist.package_info.version.as_str(),
        }
    }

    pub fn dist_type(&self) -> (r: DistType)
        ensures
            r == dist_kind(self.deep_view()),
    {
        match self {
            Dist::Exe(_) => DistType::Exe,
            Dist::Zip(_) => DistType::Zip,
            Dist::Installer(_) => DistType::Installer,
        }
    }

    pub fn package_info(&self) -> (r: &PackageInfo)
        ensures
            r.deep_view() == dist_info(self.deep_view()),
    {
        match self {
            Dist::Exe(dist) => &dist.package_info,
            Dist::Zip(dist) => &dist.package_info,
            Dist::Installer(dist) => &dist.package_info,
        }
    }

    /// Folder that downloaded distributables are kept in.
    pub fn generate_dists_folder_path(root_dir: &str) -> (r: String)
        ensures
            r@ == root_dir@ + "\\distributables"@,
    {
        str_concat(root_dir, "\\distributables")
    }

    /// Folder that packages are installed into: a debug build keeps them
    /// beside the tool, a release build under the user's programs folder.
    pub fn generate_packages_folder_path(
        root_dir: &str,
        appdata_startmenu_folder: &str,
        debug: bool,
    ) -> (r: String)
        ensures
            debug ==> r@ == root_dir@ + "\\packages"@,
            !debug ==> r@ == appdata_startmenu_folder@ + "\\Local\\Programs"@,
    {
        if debug {
            str_concat(root_dir, "\\packages")
        } else {
            str_concat(appdata_startmenu_folder, "\\Local\\Programs")
        }
    }
}

/// What the engine reads of one uninstall registry subkey: its name and the
/// three values the inference inspects.
#[derive(Debug)]
pub struct UninstallEntry {
    pub key_name: String,
    pub display_name: Option<String>,
    pub quiet_uninstall_string: Option<String>,
    pub uninstall_string: Option<String>,
}

pub ghost struct UninstallEntryView {
    pub key_name: Seq<char>,
    pub display_name: Option<Seq<char>>,
    pub quiet_uninstall_string: Option<Seq<char>>,
    pub uninstall_string: Option<Seq<char>>,
}

impl DeepView for UninstallEntry {
    type V = UninstallEntryView;

    open spec fn deep_view(&self) -> UninstallEntryView {
        UninstallEntryView {
            key_name: self.key_name@,
            display_name: self.display_name.deep_view(),
            quiet_uninstall_string: self.quiet_uninstall_string.deep_view(),
            uninstall_string: self.uninstall_string.deep_view(),
        }
    }
}

impl Clone for UninstallEntry {
    fn clone(&self) -> (r: Self)
        ensures
            r.deep_view() == self.deep_view(),
    {
        UninstallEntry {
            key_name: self.key_name.clone(),
            display_name: clone_opt_string(&self.display_name),
            quiet_uninstall_string: clone_opt_string(&self.quiet_uninstall_string),
            uninstall_string: clone_opt_string(&self.uninstall_string),
        }
    }
}

/// The command a registry entry offers: the quiet uninstall string when
/// present, else the plain one.
pub open spec fn uninstall_command_of(e: UninstallEntryView) -> Option<Seq<char>> {
    match e.quiet_uninstall_string {
        Some(q) => Some(q),
        None => e.uninstall_string,
    }
}

/// The command taken from the first entry whose display name shows the
/// package name; its command is final even when absent.
pub open spec fn extract_uninstall_command_spec(
    target: Seq<char>,
    keys: Seq<UninstallEntryView>,
) -> Option<Seq<char>>
    decreases keys.len(),
{
    if keys.len() == 0 {
        None
    } else {
        match keys[0].display_name {
            Some(dn) => if has_substring(lower_of(dn), target) {
                uninstall_command_of(keys[0])
            } else {
                extract_uninstall_command_spec(target, keys.drop_first())
            },
            None => extract_uninstall_command_spec(target, keys.drop_first()),
        }
    }
}

/// The registry entries of `after` whose key names `before` lacks.
pub open spec fn new_entries(before: Seq<Seq<char>>, after: Seq<UninstallEntryView>) -> Seq<
    UninstallEntryView,
> {
    after.filter(|e: UninstallEntryView| !before.contains(e.key_name))
}

/// What diffing one registry hive yields: the uninstall command of the first
/// new subkey whose display name shows the package name.
pub open spec fn fetch_for_key_spec(
    target: Seq<char>,
    before: Seq<Seq<char>>,
    after: Seq<UninstallEntryView>,
) -> Option<Seq<char>> {
    extract_uninstall_command_spec(target, new_entries(before, after))
}

/// The full path of the first folder item whose lowered file name shows
/// "unins" and ends in ".exe".
pub open spec fn unins_exe_of(items: Seq<Seq<char>>) -> Option<Seq<char>>
    decreases items.len(),
{
    if items.len() == 0 {
        None
    } else if has_substring(lower_of(filename_of(items[0])), "unins"@) && ends_with(
        lower_of(filename_of(items[0])),
        ".exe"@,
    ) {
        Some(items[0])
    } else {
        unins_exe_of(items.drop_first())
    }
}

/// What the layered uninstall-command inference yields: the user hive's diff
/// first, then the machine hive's, then the installation folder's own
/// uninstaller executable.
pub open spec fn fetch_uninstall_command_spec(
    target: Seq<char>,
    folder_items: Option<Seq<Seq<char>>>,
    user_before: Seq<Seq<char>>,
    user_after: Seq<UninstallEntryView>,
    machine_before: Seq<Seq<char>>,
    machine_after: Seq<UninstallEntryView>,
) -> Option<Seq<char>> {
    match fetch_for_key_spec(target, user_before, user_after) {
        Some(c) => Some(c),
        None => match fetch_for_key_spec(target, machine_before, machine_after) {
            Some(c) => Some(c),
            None => match folder_items {
                Some(items) => unins_exe_of(items),
                None => None,
            },
        },
    }
}

/// The two candidate shortcut paths the naming convention predicts, and the
/// first of them that actually exists.
pub open spec fn static_shortcut_spec(
    name: Seq<char>,
    startmenu_folder: Seq<char>,
    existing: Seq<Seq<char>>,
) -> Option<Seq<char>> {
    let direct = startmenu_folder + "\\"@ + name + ".lnk"@;
    let nested = startmenu_folder + "\\"@ + name + "\\"@ + name + ".lnk"@;
    if existing.contains(direct) {
        Some(direct)
    } else if existing.contains(nested) {
        Some(nested)
    } else {
        None
    }
}

/// The first shortcut file whose lowered file name shows the package name.
pub open spec fn first_matching_shortcut(files: Seq<Seq<char>>, target: Seq<char>) -> Option<
    Seq<char>,
>
    decreases files.len(),
{
    if files.len() == 0 {
        None
    } else if has_substring(lower_of(filename_of(files[0])), target) {
        Some(files[0])
    } else {
        first_matching_shortcut(files.drop_first(), target)
    }
}

impl InstallerDist {
    /// The start-menu "Programs" folders under the given per-user and
    /// per-machine roots.
    pub fn generate_startmenu_paths(appdata: &str, programdata: &str) -> (r: StartmenuFolders)
        ensures
            r.deep_view().appdata == appdata@ + "\\Microsoft\\Windows\\Start Menu\\Programs"@,
            r.deep_view().programdata == programdata@
                + "\\Microsoft\\Windows\\Start Menu\\Programs"@,
    {
        StartmenuFolders {
            appdata: str_concat(appdata, "\\Microsoft\\Windows\\Start Menu\\Programs"),
            programdata: str_concat(programdata, "\\Microsoft\\Windows\\Start Menu\\Programs"),
        }
    }

    /// The command line that runs the installer silently: msiexec with the
    /// install verb for an MSI, else the file itself through the shell with
    /// both common silent flags, each ignored by the other technology.
    pub fn run_installation_command(file_extension: &str, file_path: &str) -> (r: (
        String,
        Vec<String>,
    ))
        ensures
            file_extension@ == "msi"@ ==> r.0@ == "MsiExec.exe"@ && r.1.deep_view() =~= seq![
                "/i"@,
                file_path@,
            ],
            file_extension@ != "msi"@ ==> r.0@ == "cmd"@ && r.1.deep_view() =~= seq![
                "/c"@,
                file_path@,
                "/VERYSILENT"@,
                "/S"@,
            ],
    {
        let mut args: Vec<String> = Vec::new();
        if eq_str(file_extension, "msi") {
            args.push(String::from_str("/i"));
            args.push(String::from_str(file_path));
            (String::from_str(MSI_EXEC), args)
        } else {
            args.push(String::from_str("/c"));
            args.push(String::from_str(file_path));
            args.push(String::from_str("/VERYSILENT"));
            args.push(String::from_str("/S"));
            (String::from_str("cmd"), args)
        }
    }

    /// Tries the two conventional shortcut locations,
    /// `<root>\<name>.lnk` and `<root>\<name>\<name>.lnk`, against the set of
    /// files that exist.
    pub fn statically_generate_package_shortcut(
        &self,
        startmenu_folder: &str,
        existing_files: &Vec<String>,
    ) -> (r: Option<String>)
        ensures
            r.deep_view() == static_shortcut_spec(
                self.package_info.name@,
                startmenu_folder@,
                existing_files.deep_view(),
            ),
    {
        let base = str_concat(startmenu_folder, "\\");
        let with_name = str_concat(base.as_str(), self.package_info.name.as_str());
        let direct = str_concat(with_name.as_str(), ".lnk");
        let nested_base = str_concat(with_name.as_str(), "\\");
        let nested_with_name = str_concat(nested_base.as_str(), self.package_info.name.as_str());
        let nested = str_concat(nested_with_name.as_str(), ".lnk");
        proof {
            assert(direct@ =~= startmenu_folder@ + "\\"@ + self.package_info.name@ + ".lnk"@);
            assert(nested@ =~= startmenu_folder@ + "\\"@ + self.package_info.name@ + "\\"@
                + self.package_info.name@ + ".lnk"@);
        }
        if contains_string(existing_files, direct.as_str()) {
            Some(direct)
        } else if contains_string(existing_files, nested.as_str()) {
            Some(nested)
        } else {
            None
        }
    }

    /// Diffs the shortcut snapshots and picks the first new shortcut whose
    /// file name shows the package name.
    pub fn dynamically_find_package_shortcut(
        target_name_lower: &str,
        shortcut_files_before: &Vec<String>,
        shortcut_files_after: &Vec<String>,
    ) -> (r: Option<String>)
        ensures
            r.deep_view() == first_matching_shortcut(
                snapshot_diff_spec(
                    shortcut_files_before.deep_view(),
                    shortcut_files_after.deep_view(),
                ),
                target_name_lower@,
            ),
    {
        let new_files = snapshot_diff(shortcut_files_before, shortcut_files_after);
        let ghost fdv = new_files.deep_view();
        let n = new_files.len();
        let mut i: usize = 0;
        proof {
            assert(fdv.skip(0) =~= fdv);
        }
        while i < n
            invariant
                n == new_files.len(),
                fdv == new_files.deep_view(),
                fdv == snapshot_diff_spec(
                    shortcut_files_before.deep_view(),
                    shortcut_files_after.deep_view(),
                ),
                i <= n,
                first_matching_shortcut(fdv, target_name_lower@) == first_matching_shortcut(
                    fdv.skip(i as int),
                    target_name_lower@,
                ),
            decreases n - i,
        {
            proof {
                assert(fdv.skip(i as int)[0] == fdv[i as int]);
                assert(fdv.skip(i as int).drop_first() =~= fdv.skip(i + 1));
            }
            let fname = filename_str(new_files[i].as_str());
            let fname_lower = lowercase(fname.as_str());
            if contains_str(fname_lower.as_str(), target_name_lower) {
                return Some(new_files[i].clone());
            }
            i += 1;
        }
        proof {
            assert(fdv.skip(n as int) =~= Seq::<Seq<char>>::empty());
        }
        None
    }

    /// Reads the new registry entries for the uninstall command of the first
    /// one whose display name shows the package name; that entry's command is
    /// taken even when it offers none.
    pub fn extract_uninstall_command_from_keys(
        target_name_lower: &str,
        new_keys: &Vec<UninstallEntry>,
    ) -> (r: Option<String>)
        ensures
            r.deep_view() == extract_uninstall_command_spec(
                target_name_lower@,
                new_keys.deep_view(),
            ),
    {
        let ghost kdv = new_keys.deep_view();
        let n = new_keys.len();
        let mut i: usize = 0;
        proof {
            assert(kdv.skip(0) =~= kdv);
        }
        while i < n
            invariant
                n == new_keys.len(),
                kdv == new_keys.deep_view(),
                i <= n,
                extract_uninstall_command_spec(target_name_lower@, kdv)
                    == extract_uninstall_command_spec(target_name_lower@, kdv.skip(i as int)),
            decreases n - i,
        {
            proof {
                assert(kdv.skip(i as int)[0] == kdv[i as int]);
                assert(kdv.skip(i as int).drop_first() =~= kdv.skip(i + 1));
            }
            let entry = &new_keys[i];
            match &entry.display_name {
                Some(disp_name) => {
                    let disp_lower = lowercase(disp_name.as_str());
                    if contains_str(disp_lower.as_str(), target_name_lower) {
                        let command = match &entry.quiet_uninstall_string {
                            Some(q) => Some(q.clone()),
                            None => clone_opt_string(&entry.uninstall_string),
                        };
                        return command;
                    }
                },
                None => {},
            }
            i += 1;
        }
        proof {
            assert(kdv.skip(n as int) =~= Seq::<UninstallEntryView>::empty());
        }
        None
    }

    /// Diffs one registry hive: keeps the entries whose subkey names are new
    /// and extracts the uninstall command from them.
    pub fn fetch_uninstall_command_for_key(
        target_name_lower: &str,
        before_keys: &Vec<String>,
        after_entries: &Vec<UninstallEntry>,
    ) -> (r: Option<String>)
        ensures
            r.deep_view() == fetch_for_key_spec(
                target_name_lower@,
                before_keys.deep_view(),
                after_entries.deep_view(),
            ),
    {
        let ghost bdv = before_keys.deep_view();
        let ghost adv = after_entries.deep_view();
        let ghost pred = |e: UninstallEntryView| !bdv.contains(e.key_name);
        let n = after_entries.len();
        let mut new_keys: Vec<UninstallEntry> = Vec::new();
        let mut i: usize = 0;
        proof {
            assert(adv.take(0) =~= Seq::<UninstallEntryView>::empty());
            reveal(Seq::filter);
            assert(new_keys.deep_view() =~= adv.take(0).filter(pred));
        }
        while i < n
            invariant
                n == after_entries.len(),
                bdv == before_keys.deep_view(),
                adv == after_entries.deep_view(),
                pred == (|e: UninstallEntryView| !bdv.contains(e.key_name)),
                i <= n,
                new_keys.deep_view() == adv.take(i as int).filter(pred),
            decreases n - i,
        {
            let ghost prev = new_keys.deep_view();
            if !contains_string(before_keys, after_entries[i].key_name.as_str()) {
                new_keys.push(after_entries[i].clone());
                proof {
                    assert(new_keys.deep_view() =~= prev.push(adv[i as int]));
                }
            }
            proof {
                lemma_filter_push(adv.take(i as int), adv[i as int], pred);
                assert(adv.take(i as int).push(adv[i as int]) =~= adv.take(i + 1));
            }
            i += 1;
        }
        proof {
            assert(adv.take(n as int) =~= adv);
        }
        Self::extract_uninstall_command_from_keys(target_name_lower, &new_keys)
    }

    /// The layered inference of the uninstall command: the user hive's
    /// registry diff, then the machine hive's, then a scan of the resolved
    /// installation folder for an uninstaller executable.
    pub fn fetch_uninstall_command(
        target_name_lower: &str,
        installation_folder_items: &Option<Vec<String>>,
        user_reg_keys_before: &Vec<String>,
        user_entries_after: &Vec<UninstallEntry>,
        machine_reg_keys_before: &Vec<String>,
        machine_entries_after: &Vec<UninstallEntry>,
    ) -> (r: Option<String>)
        ensures
            r.deep_view() == fetch_uninstall_command_spec(
                target_name_lower@,
                installation_folder_items.deep_view(),
                user_reg_keys_before.deep_view(),
                user_entries_after.deep_view(),
                machine_reg_keys_before.deep_view(),
                machine_entries_after.deep_view(),
            ),
    {
        let mut uninstall_command = Self::fetch_uninstall_command_for_key(
            target_name_lower,
            user_reg_keys_before,
            user_entries_after,
        );
        if uninstall_command.is_none() {
            uninstall_command = Self::fetch_uninstall_command_for_key(
                target_name_lower,
                machine_reg_keys_before,
                machine_entries_after,
            );
        }
        if uninstall_command.is_none() {
            match installation_folder_items {
                Some(items) => {
                    uninstall_command = Self::fetch_uninstall_command_from_executable(items);
                },
                None => {},
            }
        }
        uninstall_command
    }

    /// Scans a folder listing for an uninstaller left by the installer: the
    /// first file whose lowered name shows "unins" and ends in ".exe".
    pub fn fetch_uninstall_command_from_executable(installation_folder_items: &Vec<String>) -> (r:
        Option<String>)
        ensures
            r.deep_view() == unins_exe_of(installation_folder_items.deep_view()),
    {
        let ghost idv = installation_folder_items.deep_view();
        let n = installation_folder_items.len();
        let mut i: usize = 0;
        proof {
            assert(idv.skip(0) =~= idv);
        }
        while i < n
            invariant
                n == installation_folder_items.len(),
                idv == installation_folder_items.deep_view(),
                i <= n,
                unins_exe_of(idv) == unins_exe_of(idv.skip(i as int)),
            decreases n - i,
        {
            proof {
                assert(idv.skip(i as int)[0] == idv[i as int]);
                assert(idv.skip(i as int).drop_first() =~= idv.skip(i + 1));
            }
            let fname = filename_str(installation_folder_items[i].as_str());
            let file_name_lower = lowercase(fname.as_str());
            if contains_str(file_name_lower.as_str(), "unins") && ends_with_str(
                file_name_lower.as_str(),
                ".exe",
            ) {
                return Some(installation_folder_items[i].clone());
            }
            i += 1;
        }
        proof {
            assert(idv.skip(n as int) =~= Seq::<Seq<char>>::empty());
        }
        None
    }
}

/// Whether a download may be answered from the cache folder: only a
/// third-party installer reuses a file already sitting at the target path;
/// the other kinds are fetched anew.
pub fn use_cached_distributable(dist_type: DistType, cached_file_exists: bool) -> (r: bool)
    ensures
        r == (dist_type == DistType::Installer && cached_file_exists),
{
    dist_type == DistType::Installer && cached_file_exists
}

impl ExeDist {
    /// The install record a standalone executable produces: the package gets
    /// its own folder holding `<name>.exe`, and no uninstall command since
    /// uninstallation is a folder deletion.
    pub fn install_info(&self, packages_folder_path: &str, create_shortcut_file: bool) -> (r:
        InstallInfo)
        ensures
            r.deep_view() == (InstallInfoView {
                executable_path: Some(
                    packages_folder_path@ + "\\"@ + self.package_info.name@ + "\\"@
                        + self.package_info.name@ + ".exe"@,
                ),
                installation_folder: Some(
                    packages_folder_path@ + "\\"@ + self.package_info.name@,
                ),
                uninstall_command: None,
                dist_type: DistType::Exe,
                create_shortcut_file: create_shortcut_file,
            }),
    {
        let base = str_concat(packages_folder_path, "\\");
        let p_folder_path = str_concat(base.as_str(), self.package_info.name.as_str());
        let exe_base = str_concat(p_folder_path.as_str(), "\\");
        let exe_with_name = str_concat(exe_base.as_str(), self.package_info.name.as_str());
        let exe_path = str_concat(exe_with_name.as_str(), ".exe");
        proof {
            assert(p_folder_path@ =~= packages_folder_path@ + "\\"@ + self.package_info.name@);
            assert(exe_path@ =~= packages_folder_path@ + "\\"@ + self.package_info.name@ + "\\"@
                + self.package_info.name@ + ".exe"@);
        }
        InstallInfo {
            executable_path: Some(exe_path),
            installation_folder: Some(p_folder_path),
            uninstall_command: None,
            dist_type: DistType::Exe,
            create_shortcut_file,
        }
    }

    /// Judges a downloaded standalone executable by its bytes: one whose
    /// ASCII letters spell an installer framework's marker is reclassified
    /// as a third-party installer.
    pub fn check_if_is_actually_installer(self, file_bytes: &Vec<u8>) -> (r: Dist)
        ensures
            ({
                let text = ascii_letters(file_bytes@);
                if has_substring(text, "Inno"@) || has_substring(text, "Nullsoft"@) {
                    r.deep_view() == DistView::Installer(self.deep_view())
                } else {
                    r.deep_view() == DistView::Exe(self.deep_view())
                }
            }),
    {
        let ghost bv = file_bytes@;
        let n = file_bytes.len();
        let mut text = String::new();
        let mut i: usize = 0;
        proof {
            assert(bv.skip(0) =~= bv);
            assert(text@ + ascii_letters(bv) =~= ascii_letters(bv));
        }
        while i < n
            invariant
                n == file_bytes.len(),
                bv == file_bytes@,
                i <= n,
                ascii_letters(bv) == text@ + ascii_letters(bv.skip(i as int)),
            decreases n - i,
        {
            let ghost rest = bv.skip(i as int);
            proof {
                assert(rest[0] == bv[i as int]);
                assert(rest.skip(1) =~= bv.skip(i + 1));
            }
            let b = file_bytes[i];
            if (65 <= b && b <= 90) || (97 <= b && b <= 122) {
                let ghost prev = text@;
                text.push(b as char);
                proof {
                    assert(prev + (seq![bv[i as int] as char] + ascii_letters(bv.skip(i + 1)))
                        =~= prev.push(bv[i as int] as char) + ascii_letters(bv.skip(i + 1)));
                }
            }
            i += 1;
        }
        proof {
            assert(bv.skip(n as int) =~= Seq::<u8>::empty());
            assert(text@ + ascii_letters(bv.skip(n as int)) =~= text@);
        }
        if contains_str(text.as_str(), "Inno") || contains_str(text.as_str(), "Nullsoft") {
            Dist::Installer(InstallerDist { package_info: self.package_info })
        } else {
            Dist::Exe(self)
        }
    }
}

/// The ASCII letters among `bytes`, in order, as characters.
pub open spec fn ascii_letters(bytes: Seq<u8>) -> Seq<char>
    decreases bytes.len(),
{
    if bytes.len() == 0 {
        Seq::empty()
    } else {
        let rest = ascii_letters(bytes.skip(1));
        if (65 <= bytes[0] && bytes[0] <= 90) || (97 <= bytes[0] && bytes[0] <= 122) {
            seq![bytes[0] as char] + rest
        } else {
            rest
        }
    }
}

impl ZipDist {
    /// The install record an extracted archive produces, once the flattened
    /// root and the executable search's result are known: without a runnable
    /// entry point the package is not installed.
    pub fn install_info(
        &self,
        installation_folder: String,
        executable_path: Option<String>,
        create_shortcut_file: bool,
    ) -> (r: Result<InstallInfo, SengetErrors>)
        ensures
            match r {
                Ok(info) => executable_path is Some && info.deep_view() == (InstallInfoView {
                    executable_path: executable_path.deep_view(),
                    installation_folder: Some(installation_folder@),
                    uninstall_command: None,
                    dist_type: DistType::Zip,
                    create_shortcut_file: create_shortcut_file,
                }),
                Err(e) => executable_path is None && e == SengetErrors::NoExeFound(
                    NoExeFoundInZipError,
                ),
            },
    {
        if executable_path.is_none() {
            return Err(SengetErrors::NoExeFound(NoExeFoundInZipError));
        }
        Ok(
            InstallInfo {
                executable_path,
                installation_folder: Some(installation_folder),
                uninstall_command: None,
                dist_type: DistType::Zip,
                create_shortcut_file,
            },
        )
    }
}

/// Best-effort record of where a package ended up and how to remove it.
/// All three optional fields may legitimately be absent.
#[derive(Debug)]
pub struct InstallInfo {
    pub executable_path: Option<String>,
    pub installation_folder: Option<String>,
    pub uninstall_command: Option<String>,
    pub dist_type: DistType,
    pub create_shortcut_file: bool,
}

pub ghost struct InstallInfoView {
    pub executable_path: Option<Seq<char>>,
    pub installation_folder: Option<Seq<char>>,
    pub uninstall_command: Option<Seq<char>>,
    pub dist_type: DistType,
    pub create_shortcut_file: bool,
}

impl DeepView for InstallInfo {
    type V = InstallInfoView;

    open spec fn deep_view(&self) -> InstallInfoView {
        InstallInfoView {
            executable_path: self.executable_path.deep_view(),
            installation_folder: self.installation_folder.deep_view(),
            uninstall_command: self.uninstall_command.deep_view(),
            dist_type: self.dist_type,
            create_shortcut_file: self.create_shortcut_file,
        }
    }
}

pub(crate) fn is_folder_entry(e: &FsEntry) -> (r: bool)
    ensures
        r == e.is_folder(),
{
    match e {
        FsEntry::Folder { .. } => true,
        FsEntry::File { .. } => false,
    }
}

impl ZipDist {
    /// Walks past superfluous nesting: while the folder holds exactly one
    /// entry and that entry is a directory, descend into it. A folder that is
    /// already flat comes back unchanged.
    pub fn find_inner_unzip_folder(outer_unzip_folder: FsEntry) -> (r: FsEntry)
        ensures
            r == flatten_entry(outer_unzip_folder),
    {
        let mut cur = outer_unzip_folder;
        loop
            invariant
                flatten_entry(cur) == flatten_entry(outer_unzip_folder),
            ensures
                cur == flatten_entry(outer_unzip_folder),
            decreases cur,
        {
            let descend = match &cur {
                FsEntry::Folder { entries, .. } => entries.len() == 1 && is_folder_entry(
                    &entries[0],
                ),
                FsEntry::File { .. } => false,
            };
            if !descend {
                break;
            }
            cur = match cur {
                FsEntry::Folder { entries, .. } => {
                    let mut entries = entries;
                    entries.remove(0)
                },
                FsEntry::File { name, path } => {
                    proof {
                        assert(false);
                    }
                    FsEntry::File { name, path }
                },
            };
        }
        cur
    }
}

impl ZipDist {
    /// Breadth-first search, nearest folders first, for the package
    /// executable: an exact `<name>.exe` match anywhere wins immediately; a
    /// looser name ending in "exe" that shows the package name is remembered
    /// as the fallback, but the search keeps going for an exact match.
    pub fn find_executable_path(self_name_lower: &str, folder: FsEntry) -> (r: Option<String>)
        ensures
            r.deep_view() == bfs_search_result(
                bfs_items(seq![folder]),
                self_name_lower@ + ".exe"@,
                self_name_lower@,
            ),
    {
        let ghost init: Seq<FsEntry> = seq![folder];
        let ghost ex: Seq<char> = self_name_lower@ + ".exe"@;
        let ghost nl: Seq<char> = self_name_lower@;
        let self_exe_name_lower = str_concat(self_name_lower, ".exe");
        let mut queue: Vec<FsEntry> = Vec::new();
        let mut found_exe: Option<String> = None;
        let ghost mut visited: Seq<FsEntry> = Seq::empty();
        queue.push(folder);
        proof {
            assert(queue@ =~= init);
            assert(visited + bfs_items(init) =~= bfs_items(init));
        }
        while queue.len() > 0
            invariant
                ex == self_exe_name_lower@,
                ex == self_name_lower@ + ".exe"@,
                nl == self_name_lower@,
                init == seq![folder],
                bfs_items(init) == visited + bfs_items(queue@),
                first_exact(visited, ex) is None,
                match first_loose(visited, nl) {
                    Some(e) => found_exe.deep_view() == Some(e.path()),
                    None => found_exe is None,
                },
            ensures
                queue@.len() == 0,
                bfs_items(init) == visited + bfs_items(queue@),
                first_exact(visited, ex) is None,
                match first_loose(visited, nl) {
                    Some(e) => found_exe.deep_view() == Some(e.path()),
                    None => found_exe is None,
                },
            decreases seq_size(queue@),
        {
            let ghost qfull = queue@;
            let current = queue.remove(0);
            let ghost qpre = queue@;
            let ghost cur = current;
            let mut children: Vec<FsEntry> = match current {
                FsEntry::Folder { entries, .. } => entries,
                FsEntry::File { .. } => Vec::new(),
            };
            let ghost c_all: Seq<FsEntry> = children@;
            proof {
                assert(c_all =~= cur.children());
                assert(qfull[0] == cur);
                assert(qfull.drop_first() =~= qpre);
                assert(bfs_items(qfull) == c_all + bfs_items(qpre + folders_of(c_all)));
                assert(visited + (c_all + bfs_items(qpre + folders_of(c_all))) =~= (visited + c_all)
                    + bfs_items(qpre + folders_of(c_all)));
                assert(c_all.take(0) =~= Seq::<FsEntry>::empty());
                assert(visited + c_all.take(0) =~= visited);
                assert(folders_of(c_all.take(0)) =~= Seq::<FsEntry>::empty());
                assert(qpre + folders_of(c_all.take(0)) =~= qpre);
                assert(c_all.skip(0) =~= c_all);
            }
            let ghost mut j: int = 0;
            while children.len() > 0
                invariant
                    ex == self_exe_name_lower@,
                    ex == self_name_lower@ + ".exe"@,
                    nl == self_name_lower@,
                    init == seq![folder],
                    0 <= j <= c_all.len(),
                    children@ == c_all.skip(j),
                    queue@ == qpre + folders_of(c_all.take(j)),
                    bfs_items(init) == (visited + c_all) + bfs_items(qpre + folders_of(c_all)),
                    first_exact(visited, ex) is None,
                    first_exact(visited + c_all.take(j), ex) is None,
                    match first_loose(visited + c_all.take(j), nl) {
                        Some(e) => found_exe.deep_view() == Some(e.path()),
                        None => found_exe is None,
                    },
                ensures
                    j == c_all.len(),
                    queue@ == qpre + folders_of(c_all.take(j)),
                    first_exact(visited + c_all.take(j), ex) is None,
                    match first_loose(visited + c_all.take(j), nl) {
                        Some(e) => found_exe.deep_view() == Some(e.path()),
                        None => found_exe is None,
                    },
                decreases children.len(),
            {
                let c = children.remove(0);
                proof {
                    assert(c_all.skip(j)[0] == c_all[j]);
                    assert(c_all.skip(j).drop_first() =~= c_all.skip(j + 1));
                }
                let name_l = lowercase(entry_name_ref(&c).as_str());
                if eq_str(name_l.as_str(), self_exe_name_lower.as_str()) {
                    let p = entry_path_ref(&c).clone();
                    proof {
                        let pre = visited + c_all.take(j);
                        let post = c_all.skip(j + 1) + bfs_items(qpre + folders_of(c_all));
                        assert(is_exact_exe(c, ex));
                        assert(bfs_items(init) =~= pre + (seq![c] + post)) by {
                            assert(c_all.take(j) + seq![c] + c_all.skip(j + 1) =~= c_all);
                            assert((visited + c_all) + bfs_items(qpre + folders_of(c_all)) =~= (
                            visited + c_all.take(j)) + (seq![c] + (c_all.skip(j + 1) + bfs_items(
                                qpre + folders_of(c_all),
                            ))));
                        }
                        lemma_first_exact_append(pre, seq![c] + post, ex);
                        assert((seq![c] + post)[0] == c);
                        assert(first_exact(seq![c] + post, ex) == Some(c));
                        assert(first_exact(bfs_items(init), ex) == Some(c));
                    }
                    return Some(p);
                }
                let is_loose = found_exe.is_none() && ends_with_str(name_l.as_str(), ".exe")
                    && contains_str(name_l.as_str(), self_name_lower);
                let ghost prev_found = found_exe.deep_view();
                if is_loose {
                    found_exe = Some(entry_path_ref(&c).clone());
                }
                let is_dir = is_folder_entry(&c);
                if is_dir {
                    queue.push(c);
                } else {
                }
                proof {
                    let pre = visited + c_all.take(j);
                    assert(visited + c_all.take(j + 1) =~= pre + seq![c]) by {
                        assert(c_all.take(j + 1) =~= c_all.take(j) + seq![c]);
                        assert(visited + (c_all.take(j) + seq![c]) =~= (visited + c_all.take(j))
                            + seq![c]);
                    }
                    lemma_first_exact_append(pre, seq![c], ex);
                    assert(seq![c].drop_first() =~= Seq::<FsEntry>::empty());
                    assert(seq![c][0] == c);
                    assert(!is_exact_exe(c, ex));
                    assert(first_exact(Seq::<FsEntry>::empty(), ex) is None);
                    assert(first_loose(Seq::<FsEntry>::empty(), nl) is None);
                    assert(first_exact(seq![c], ex) is None);
                    lemma_first_loose_append(pre, seq![c], nl);
                    if is_loose_exe(c, nl) {
                        assert(first_loose(seq![c], nl) == Some(c));
                    } else {
                        assert(first_loose(seq![c], nl) is None);
                    }
                    // the new queue is the old one plus this entry when it is a folder
                    lemma_filter_push(c_all.take(j), c, |e: FsEntry| e.is_folder());
                    assert(c_all.take(j).push(c) =~= c_all.take(j + 1));
                    if is_dir {
                        assert(queue@ =~= (qpre + folders_of(c_all.take(j))).push(c));
                        assert((qpre + folders_of(c_all.take(j))).push(c) =~= qpre + folders_of(
                            c_all.take(j),
                        ).push(c));
                    }
                    j = j + 1;
                }
            }
            proof {
                assert(c_all.take(c_all.len() as int) =~= c_all);
                assert(queue@ == qpre + folders_of(c_all));
                assert(first_exact(visited + c_all, ex) is None);
                visited = visited + c_all;
                // the queue shrank: what was added is smaller than the entry removed
                lemma_seq_size_concat(qpre, folders_of(c_all));
                lemma_filter_size(c_all, |e: FsEntry| e.is_folder());
                lemma_entry_size_children(cur);
                assert(seq_size(qfull) == entry_size(cur) + seq_size(qpre)) by {
                    assert(qfull[0] == cur);
                    assert(qfull.drop_first() =~= qpre);
                }
            }
        }
        proof {
            assert(queue@ =~= Seq::<FsEntry>::empty());
            assert(bfs_items(queue@) =~= Seq::<FsEntry>::empty());
            assert(visited + Seq::<FsEntry>::empty() =~= visited);
            assert(bfs_items(init) == visited);
        }
        found_exe
    }
}

impl InstallerDist {
    /// Collects every `.lnk` file under a start-menu folder, recursively,
    /// appending each full path to `files`.
    pub fn fetch_shortcut_files(files: &mut Vec<String>, startmenu_folder: &FsEntry)
        ensures
            final(files).deep_view() == old(files).deep_view() + shortcut_files_of(
                *startmenu_folder,
            ),
        decreases *startmenu_folder,
    {
        match startmenu_folder {
            FsEntry::File { name, path } => {
                if ends_with_str(name.as_str(), ".lnk") {
                    let ghost prev = files.deep_view();
                    files.push(path.clone());
                    proof {
                        assert(files.deep_view() =~= prev.push(path@));
                        assert(prev.push(path@) =~= prev + seq![path@]);
                    }
                } else {
                    proof {
                        assert(files.deep_view() =~= files.deep_view() + Seq::<
                            Seq<char>,
                        >::empty());
                    }
                }
            },
            FsEntry::Folder { entries, .. } => {
                let n = entries.len();
                let mut i: usize = 0;
                proof {
                    assert(files.deep_view() + Seq::<Seq<char>>::empty() =~= files.deep_view());
                }
                while i < n
                    invariant
                        n == entries.len(),
                        i <= n,
                        (*startmenu_folder) matches FsEntry::Folder { entries: es, .. } && es
                            == *entries,
                        files.deep_view() + shortcut_files_of_list(*entries, i as int) == old(
                            files,
                        ).deep_view() + shortcut_files_of_list(*entries, 0),
                    decreases n - i,
                {
                    let ghost prev = files.deep_view();
                    Self::fetch_shortcut_files(files, &entries[i]);
                    proof {
                        assert((prev + shortcut_files_of(entries[i as int]))
                            + shortcut_files_of_list(*entries, i + 1) =~= prev + (
                        shortcut_files_of(entries[i as int]) + shortcut_files_of_list(
                            *entries,
                            i + 1,
                        )));
                    }
                    i += 1;
                }
                proof {
                    assert(shortcut_files_of_list(*entries, n as int) =~= Seq::<
                        Seq<char>,
                    >::empty());
                    assert(files.deep_view() + Seq::<Seq<char>>::empty() =~= files.deep_view());
                    assert(old(files).deep_view() + shortcut_files_of_list(*entries, 0)
                        == files.deep_view());
                }
            },
        }
    }
}

pub(crate) fn clone_opt_string(o: &Option<String>) -> (r: Option<String>)
    ensures
        r.deep_view() == o.deep_view(),
{
    match o {
        Some(s) => Some(s.clone()),
        None => None,
    }
}

pub(crate) fn opt_string_eq(a: &Option<String>, b: &Option<String>) -> (r: bool)
    ensures
        r == (a.deep_view() == b.deep_view()),
{
    match (a, b) {
        (Some(x), Some(y)) => eq_str(x.as_str(), y.as_str()),
        (None, None) => true,
        _ => false,
    }
}

impl PartialEq for InstallInfo {
    fn eq(&self, other: &Self) -> (r: bool) {
        opt_string_eq(&self.executable_path, &other.executable_path) && opt_string_eq(
            &self.installation_folder,
            &other.installation_folder,
        ) && opt_string_eq(&self.uninstall_command, &other.uninstall_command) && self.dist_type
            == other.dist_type && self.create_shortcut_file == other.create_shortcut_file
    }
}

impl vstd::std_specs::cmp::PartialEqSpecImpl for InstallInfo {
    open spec fn obeys_eq_spec() -> bool {
        true
    }

    open spec fn eq_spec(&self, other: &Self) -> bool {
        self.deep_view() == other.deep_view()
    }
}

impl Clone for InstallInfo {
    fn clone(&self) -> (r: Self)
        ensures
            r.deep_view() == self.deep_view(),
    {
        InstallInfo {
            executable_path: clone_opt_string(&self.executable_path),
            installation_folder: clone_opt_string(&self.installation_folder),
            uninstall_command: clone_opt_string(&self.uninstall_command),
            dist_type: self.dist_type,
            create_shortcut_file: self.create_shortcut_file,
        }
    }
}

} // verus!
