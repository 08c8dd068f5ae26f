//! Installed packages: the persisted record of a successful installation,
//! the merge of install results on update, and the parsing of a stored
//! uninstall command into a program and its arguments.

use vstd::prelude::*;
use crate::dist::{
    clone_opt_string, DistType, InstallInfo, InstallInfoView, MSI_EXEC,
};
use crate::github::{Repo, RepoView};
use crate::text::{
    eq_str, find_str, first_occurrence, has_substring, lemma_first_occurrence, lower_of,
    lowercase, occurs_at, split_ws, split_ws_str,
};

verus! {

/// The package list entry written to an export file: enough to reinstall
/// the same package the same way.
#[derive(Debug)]
pub struct ExportedPackage {
    pub lowercase_fullname: String,
    pub version: String,
    pub preferred_dist_type: DistType,
    pub create_shortcut_file: bool,
}

pub ghost struct ExportedPackageView {
    pub lowercase_fullname: Seq<char>,
    pub version: Seq<char>,
    pub preferred_dist_type: DistType,
    pub create_shortcut_file: bool,
}

impl DeepView for ExportedPackage {
    type V = ExportedPackageView;

    open spec fn deep_view(&self) -> ExportedPackageView {
        ExportedPackageView {
            lowercase_fullname: self.lowercase_fullname@,
            version: self.version@,
            preferred_dist_type: self.preferred_dist_type,
            create_shortcut_file: self.create_shortcut_file,
        }
    }
}

/// A persisted package record: its version, repository, install record, and
/// lowercase-cached names for fast lookup.
#[derive(Debug)]
pub struct Package {
    pub version: String,
    pub lowercase_name: String,
    pub lowercase_fullname: String,
    pub repo: Repo,
    pub install_info: InstallInfo,
}

pub ghost struct PackageView {
    pub version: Seq<char>,
    pub lowercase_name: Seq<char>,
    pub lowercase_fullname: Seq<char>,
    pub repo: RepoView,
    pub install_info: InstallInfoView,
}

impl DeepView for Package {
    type V = PackageView;

    open spec fn deep_view(&self) -> PackageView {
        PackageView {
            version: self.version@,
            lowercase_name: self.lowercase_name@,
            lowercase_fullname: self.lowercase_fullname@,
            repo: self.repo.deep_view(),
            install_info: self.install_info.deep_view(),
        }
    }
}

impl PartialEq for Package {
    fn eq(&self, other: &Self) -> (r: bool) {
        eq_str(self.version.as_str(), other.version.as_str()) && eq_str(
            self.lowercase_name.as_str(),
            other.lowercase_name.as_str(),
        ) && eq_str(self.lowercase_fullname.as_str(), other.lowercase_fullname.as_str())
            && self.repo == other.repo && self.install_info == other.install_info
    }
}

impl vstd::std_specs::cmp::PartialEqSpecImpl for Package {
    open spec fn obeys_eq_spec() -> bool {
        true
    }

    open spec fn eq_spec(&self, other: &Self) -> bool {
        self.deep_view() == other.deep_view()
    }
}

impl Clone for Package {
    fn clone(&self) -> (r: Self)
        ensures
            r.deep_view() == self.deep_view(),
    {
        Package {
            version: self.version.clone(),
            lowercase_name: self.lowercase_name.clone(),
            lowercase_fullname: self.lowercase_fullname.clone(),
            repo: self.repo.clone(),
            install_info: self.install_info.clone(),
        }
    }
}

impl Package {
    pub fn new(version: String, repo: Repo, install_info: InstallInfo) -> (r: Package)
        ensures
            r.deep_view() == (PackageView {
                version: version@,
                lowercase_name: lower_of(repo.deep_view().name),
                lowercase_fullname: lower_of(repo.deep_view().full_name),
                repo: repo.deep_view(),
                install_info: install_info.deep_view(),
            }),
    {
        let lowercase_name = lowercase(repo.name.as_str());
        let lowercase_fullname = lowercase(repo.full_name.as_str());
        Package { version, lowercase_name, lowercase_fullname, repo, install_info }
    }

    /// The export-file entry for this package.
    pub fn export(&self) -> (r: ExportedPackage)
        ensures
            r.deep_view() == (ExportedPackageView {
                lowercase_fullname: self.deep_view().lowercase_fullname,
                version: self.deep_view().version,
                preferred_dist_type: self.deep_view().install_info.dist_type,
                create_shortcut_file: self.deep_view().install_info.create_shortcut_file,
            }),
    {
        ExportedPackage {
            lowercase_fullname: self.lowercase_fullname.clone(),
            version: self.version.clone(),
            preferred_dist_type: self.install_info.dist_type,
            create_shortcut_file: self.install_info.create_shortcut_file,
        }
    }

    /// The recorded installation folder, or the empty string when none is
    /// known.
    pub fn installation_folder_str(&self) -> (r: String)
        ensures
            r@ == (match self.deep_view().install_info.installation_folder {
                Some(f) => f,
                None => Seq::<char>::empty(),
            }),
    {
        match &self.install_info.installation_folder {
            Some(f) => f.clone(),
            None => String::new(),
        }
    }

    /// Parses a stored uninstall command. A command that references the
    /// system installer executable splits right after that token; otherwise
    /// the first quoted segment is the program and the remainder its
    /// space-delimited arguments; a bare command is all program.
    pub fn extract_program_and_args(uninstall_command: &str) -> (r: (String, Vec<String>))
        ensures
            r.0@ == program_and_args_spec(uninstall_command@).0,
            r.1.deep_view() == program_and_args_spec(uninstall_command@).1,
    {
        let n = uninstall_command.unicode_len();
        match find_str(uninstall_command, MSI_EXEC) {
            Some(idx) => {
                let m = MSI_EXEC.unicode_len();
                proof {
                    lemma_first_occurrence(uninstall_command@, MSI_EXEC@);
                    assert(first_occurrence(uninstall_command@, MSI_EXEC@) == idx) by {
                        let fo = first_occurrence(uninstall_command@, MSI_EXEC@);
                        if fo < idx {
                            assert(!occurs_at(uninstall_command@, MSI_EXEC@, fo));
                        }
                        if fo > idx {
                            assert(!occurs_at(uninstall_command@, MSI_EXEC@, idx as int));
                        }
                    }
                }
                let rest = uninstall_command.substring_char(idx + m, n);
                let args = split_ws_str(rest);
                (String::from_str(MSI_EXEC), args)
            },
            None => {
                if n > 0 && uninstall_command.get_char(0) == '"' {
                    let mut k: usize = 1;
                    while k < n && uninstall_command.get_char(k) != '"'
                        invariant
                            n == uninstall_command@.len(),
                            1 <= k <= n,
                            forall|j: int| 1 <= j < k ==> uninstall_command@[j] != '"',
                        decreases n - k,
                    {
                        k += 1;
                    }
                    proof {
                        lemma_first_quote_from(uninstall_command@, 1);
                        assert(first_quote_from(uninstall_command@, 1) == k) by {
                            let fq = first_quote_from(uninstall_command@, 1);
                            if fq < k {
                                assert(uninstall_command@[fq] == '"');
                            }
                            if fq > k {
                                assert(k < n);
                            }
                        }
                    }
                    if k < n {
                        let program = String::from_str(uninstall_command.substring_char(1, k));
                        let rest = uninstall_command.substring_char(k + 1, n);
                        let args = split_ws_str(rest);
                        (program, args)
                    } else {
                        let args: Vec<String> = Vec::new();
                        proof {
                            assert(args.deep_view() =~= Seq::<Seq<char>>::empty());
                        }
                        (String::from_str(uninstall_command), args)
                    }
                } else {
                    let args: Vec<String> = Vec::new();
                    proof {
                        assert(args.deep_view() =~= Seq::<Seq<char>>::empty());
                    }
                    (String::from_str(uninstall_command), args)
                }
            },
        }
    }

    /// The replacement record an update produces: the new version and
    /// install result, each absent field filled from the previous record,
    /// since an in-place update often leaves no new registry or shortcut
    /// entries to discover.
    pub fn install_updated_version(&self, version: String, install_info: InstallInfo) -> (r:
        Package)
        ensures
            r.deep_view() == merged_package(self.deep_view(), version@, install_info.deep_view()),
    {
        let executable_path = match install_info.executable_path {
            Some(p) => Some(p),
            None => clone_opt_string(&self.install_info.executable_path),
        };
        let installation_folder = match install_info.installation_folder {
            Some(p) => Some(p),
            None => clone_opt_string(&self.install_info.installation_folder),
        };
        let uninstall_command = match install_info.uninstall_command {
            Some(p) => Some(p),
            None => clone_opt_string(&self.install_info.uninstall_command),
        };
        Package::new(
            version,
            self.repo.clone(),
            InstallInfo {
                executable_path,
                installation_folder,
                uninstall_command,
                dist_type: install_info.dist_type,
                create_shortcut_file: self.install_info.create_shortcut_file,
            },
        )
    }
}

/// Whichever of the two is present, the new value first.
pub open spec fn or_path(a: Option<Seq<char>>, b: Option<Seq<char>>) -> Option<Seq<char>> {
    match a {
        Some(x) => Some(x),
        None => b,
    }
}

/// The record built by an update: new version and repository carried over,
/// each optional install-info field from the new result with the old record
/// as fallback, the shortcut choice kept from the old record.
pub open spec fn merged_package(
    old: PackageView,
    version: Seq<char>,
    new_info: InstallInfoView,
) -> PackageView {
    PackageView {
        version: version,
        lowercase_name: lower_of(old.repo.name),
        lowercase_fullname: lower_of(old.repo.full_name),
        repo: old.repo,
        install_info: InstallInfoView {
            executable_path: or_path(new_info.executable_path, old.install_info.executable_path),
            installation_folder: or_path(
                new_info.installation_folder,
                old.install_info.installation_folder,
            ),
            uninstall_command: or_path(
                new_info.uninstall_command,
                old.install_info.uninstall_command,
            ),
            dist_type: new_info.dist_type,
            create_shortcut_file: old.install_info.create_shortcut_file,
        },
    }
}

/// First position at or after `i` holding a double quote, or the length.
pub open spec fn first_quote_from(s: Seq<char>, i: int) -> int
    decreases s.len() - i,
{
    if i < 0 || i >= s.len() {
        s.len() as int
    } else if s[i] == '"' {
        i
    } else {
        first_quote_from(s, i + 1)
    }
}

proof fn lemma_first_quote_from(s: Seq<char>, i: int)
    requires
        0 <= i <= s.len(),
    ensures
        i <= first_quote_from(s, i) <= s.len(),
        forall|j: int| i <= j < first_quote_from(s, i) ==> s[j] != '"',
        first_quote_from(s, i) < s.len() ==> s[first_quote_from(s, i)] == '"',
    decreases s.len() - i,
{
    if i < s.len() && s[i] != '"' {
        lemma_first_quote_from(s, i + 1);
    }
}

/// What uninstall-command parsing yields for `cmd`: program and arguments.
pub open spec fn program_and_args_spec(cmd: Seq<char>) -> (Seq<char>, Seq<Seq<char>>) {
    if has_substring(cmd, "MsiExec.exe"@) {
        let rest = cmd.skip(first_occurrence(cmd, "MsiExec.exe"@) + "MsiExec.exe"@.len());
        ("MsiExec.exe"@, split_ws(rest))
    } else if cmd.len() > 0 && cmd[0] == '"' && first_quote_from(cmd, 1) < cmd.len() {
        let close = first_quote_from(cmd, 1);
        (cmd.subrange(1, close), split_ws(cmd.skip(close + 1)))
    } else {
        (cmd, Seq::empty())
    }
}

/// An uninstall command that fails because the recorded path no longer
/// parses is a soft failure: the user removed the program by hand.
pub open spec fn is_soft_uninstall_failure(err_text: Seq<char>) -> bool {
    has_substring(err_text, "The filename, directory name, or volume label syntax is incorrect."@)
}

/// Whether a failed uninstall-command invocation should be reported as the
/// soft "not uninstalled" outcome rather than an error.
pub fn uninstall_failure_is_soft(err_text: &str) -> (r: bool)
    ensures
        r == is_soft_uninstall_failure(err_text@),
{
    crate::text::contains_str(
        err_text,
        "The filename, directory name, or volume label syntax is incorrect.",
    )
}

} // verus!
