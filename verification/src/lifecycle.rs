//! The decisions the install, update, uninstall and purge commands make
//! before and after any download or OS work: when to refuse, when to fail
//! fast, and which records to drop.

use vstd::prelude::*;
use crate::database::{find_package_spec, PackageDatabase};
use crate::errors::{
    AlreadyUptoDateError, FailedToUninstallError, PackageAlreadyInstalledError, SengetErrors,
    VersionAlreadyInstalledError,
};
use crate::package::{Package, PackageView};
use crate::text::{eq_str, lower_of};

verus! {

pub const IBYTES_TO_MBS_DIVISOR: u64 = 1024 * 1024;

/// Update against a resolved version equal to the installed version never
/// proceeds to a download or install step: it fails fast, as already up to
/// date for a "latest" request, as version already installed for an
/// explicit one.
pub fn validate_update_version(
    installed_version: &str,
    resolved_version: &str,
    requested_version: &str,
) -> (r: Result<(), SengetErrors>)
    ensures
        installed_version@ == resolved_version@ && requested_version@ == "latest"@ ==> r
            == Err::<(), SengetErrors>(SengetErrors::AlreadyUptoDateError(AlreadyUptoDateError)),
        installed_version@ == resolved_version@ && requested_version@ != "latest"@ ==> r == Err::<
            (),
            SengetErrors,
        >(SengetErrors::VersionAlreadyInstalledError(VersionAlreadyInstalledError)),
        installed_version@ != resolved_version@ ==> r is Ok,
{
    if eq_str(installed_version, resolved_version) {
        if eq_str(requested_version, "latest") {
            Err(SengetErrors::AlreadyUptoDateError(AlreadyUptoDateError))
        } else {
            Err(SengetErrors::VersionAlreadyInstalledError(VersionAlreadyInstalledError))
        }
    } else {
        Ok(())
    }
}

/// A fresh install is refused while a record with the same name exists.
pub fn ensure_package_not_installed(db: &PackageDatabase, name: &str) -> (r: Result<
    (),
    SengetErrors,
>)
    ensures
        find_package_spec(db.deep_view(), lower_of(name@)) is Some ==> r == Err::<
            (),
            SengetErrors,
        >(SengetErrors::PackageAlreadyInstalledError(PackageAlreadyInstalledError)),
        find_package_spec(db.deep_view(), lower_of(name@)) is None ==> r is Ok,
{
    match db.find_package(name) {
        Some(_) => Err(SengetErrors::PackageAlreadyInstalledError(PackageAlreadyInstalledError)),
        None => Ok(()),
    }
}

/// A record leaves the database only when uninstallation succeeded or the
/// caller forces the removal.
pub fn validate_uninstall_outcome(success: bool, force: bool) -> (r: Result<(), SengetErrors>)
    ensures
        !success && !force ==> r == Err::<(), SengetErrors>(
            SengetErrors::FailedToUninstallError(FailedToUninstallError),
        ),
        success || force ==> r is Ok,
{
    if !(success || force) {
        Err(SengetErrors::FailedToUninstallError(FailedToUninstallError))
    } else {
        Ok(())
    }
}

/// The cache-folder size in whole megabytes when it is large enough to be
/// worth a warning, a hundred megabytes or more.
pub fn cache_size_warning(size_bytes: u64) -> (r: Option<u64>)
    ensures
        ({
            let mbs = size_bytes / IBYTES_TO_MBS_DIVISOR;
            if mbs >= 100 {
                r == Some(mbs)
            } else {
                r is None
            }
        }),
{
    let size_mbs = size_bytes / IBYTES_TO_MBS_DIVISOR;
    if size_mbs >= 100 {
        Some(size_mbs)
    } else {
        None
    }
}

/// The records to purge: those with a recorded executable path whose file no
/// longer exists on disk, in record order.
pub open spec fn purge_selection_spec(pkgs: Seq<PackageView>, exists: Seq<bool>) -> Seq<
    PackageView,
>
    decreases pkgs.len(),
{
    if pkgs.len() == 0 {
        Seq::empty()
    } else {
        let rest = purge_selection_spec(pkgs.drop_first(), exists.drop_first());
        if pkgs[0].install_info.executable_path is Some && exists.len() > 0 && !exists[0] {
            seq![pkgs[0]] + rest
        } else {
            rest
        }
    }
}

/// Picks the packages whose recorded executable no longer exists; the caller
/// hands in, for each package, whether that file is still on disk.
pub fn packages_to_purge(packages: &Vec<Package>, executable_exists: &Vec<bool>) -> (r: Vec<
    Package,
>)
    requires
        packages.len() == executable_exists.len(),
    ensures
        r.deep_view() == purge_selection_spec(packages.deep_view(), executable_exists@),
{
    let ghost pdv = packages.deep_view();
    let ghost ev = executable_exists@;
    let n = packages.len();
    let mut r: Vec<Package> = Vec::new();
    let mut i: usize = 0;
    proof {
        assert(pdv.skip(0) =~= pdv);
        assert(ev.skip(0) =~= ev);
        assert(r.deep_view() + purge_selection_spec(pdv, ev) =~= purge_selection_spec(pdv, ev));
    }
    while i < n
        invariant
            n == packages.len(),
            n == executable_exists.len(),
            pdv == packages.deep_view(),
            ev == executable_exists@,
            i <= n,
            purge_selection_spec(pdv, ev) == r.deep_view() + purge_selection_spec(
                pdv.skip(i as int),
                ev.skip(i as int),
            ),
        decreases n - i,
    {
        proof {
            assert(pdv.skip(i as int)[0] == pdv[i as int]);
            assert(ev.skip(i as int)[0] == ev[i as int]);
            assert(pdv.skip(i as int).drop_first() =~= pdv.skip(i + 1));
            assert(ev.skip(i as int).drop_first() =~= ev.skip(i + 1));
        }
        let keep = packages[i].install_info.executable_path.is_some() && !executable_exists[i];
        if keep {
            let ghost prev = r.deep_view();
            r.push(packages[i].clone());
            proof {
                assert(r.deep_view() =~= prev.push(pdv[i as int]));
                assert(prev + (seq![pdv[i as int]] + purge_selection_spec(
                    pdv.skip(i + 1),
                    ev.skip(i + 1),
                )) =~= prev.push(pdv[i as int]) + purge_selection_spec(
                    pdv.skip(i + 1),
                    ev.skip(i + 1),
                ));
            }
        }
        i += 1;
    }
    proof {
        assert(pdv.skip(n as int) =~= Seq::<PackageView>::empty());
        assert(r.deep_view() + Seq::<PackageView>::empty() =~= r.deep_view());
    }
    r
}

} // verus!
