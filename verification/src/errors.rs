//! Error taxonomy: resolution failures, state failures, execution failures,
//! and the normalization of OS-level errors into reportable kinds.

use vstd::prelude::*;
use crate::text::has_substring;
use crate::text::contains_str;

verus! {

#[derive(Clone, Copy, Debug, PartialEq, Eq, Structural)]
pub struct ExportFileNotFoundError;

#[derive(Clone, Copy, Debug, PartialEq, Eq, Structural)]
pub struct NoExeFoundInZipError;

#[derive(Clone, Copy, Debug, PartialEq, Eq, Structural)]
pub struct PrivilegeError;

#[derive(Clone, Copy, Debug, PartialEq, Eq, Structural)]
pub struct NetworkError;

#[derive(Clone, Copy, Debug, PartialEq, Eq, Structural)]
pub struct NoInstalledPackageError;

#[derive(Clone, Copy, Debug, PartialEq, Eq, Structural)]
pub struct NoPackageError;

#[derive(Clone, Copy, Debug, PartialEq, Eq, Structural)]
pub struct NoValidDistError;

#[derive(Clone, Copy, Debug, PartialEq, Eq, Structural)]
pub struct PackageAlreadyInstalledError;

#[derive(Clone, Copy, Debug, PartialEq, Eq, Structural)]
pub struct FailedToUninstallError;

#[derive(Clone, Copy, Debug, PartialEq, Eq, Structural)]
pub struct AlreadyUptoDateError;

#[derive(Clone, Copy, Debug, PartialEq, Eq, Structural)]
pub struct VersionAlreadyInstalledError;

#[derive(Clone, Copy, Debug, PartialEq, Eq, Structural)]
pub struct NoExecutableError;

/// Every failure the engine reports. OS-level failures carry the reported
/// message as plain text plus the one fact the engine inspects about them.
#[derive(Debug)]
pub enum SengetErrors {
    RequestError { message: String },
    IoError { permission_denied: bool, message: String },
    SerdeError { message: String },
    MSLinkError { message: String },
    ZipError { message: String },
    NetworkError(NetworkError),
    PrivilegeError(PrivilegeError),
    NoExecutableError(NoExecutableError),
    NoInstalledPackageError(NoInstalledPackageError),
    FailedToUninstallError(FailedToUninstallError),
    AlreadyUptoDateError(AlreadyUptoDateError),
    VersionAlreadyInstalledError(VersionAlreadyInstalledError),
    NoPackageError(NoPackageError),
    NoValidDistError(NoValidDistError),
    PackageAlreadyInstalledError(PackageAlreadyInstalledError),
    NoExeFound(NoExeFoundInZipError),
    ExportFileNotFoundError(ExportFileNotFoundError),
}

/// An I/O failure for lack of privilege becomes `PrivilegeError`; a request
/// failure whose text shows an unreachable host or a cut-off body becomes
/// `NetworkError`; everything else is left as it is.
pub open spec fn normalized_error(err: SengetErrors) -> SengetErrors {
    match err {
        SengetErrors::IoError { permission_denied, message } => if permission_denied {
            SengetErrors::PrivilegeError(PrivilegeError)
        } else {
            err
        },
        SengetErrors::RequestError { message } => if has_substring(
            message@,
            "No such host is known."@,
        ) || has_substring(message@, "IncompleteBody"@) {
            SengetErrors::NetworkError(NetworkError)
        } else {
            err
        },
        _ => err,
    }
}

pub fn check_for_other_errors(err: SengetErrors) -> (r: SengetErrors)
    ensures
        r == normalized_error(err),
{
    match err {
        SengetErrors::IoError { permission_denied, message } => {
            if permission_denied {
                SengetErrors::PrivilegeError(PrivilegeError)
            } else {
                SengetErrors::IoError { permission_denied, message }
            }
        },
        SengetErrors::RequestError { message } => {
            if contains_str(message.as_str(), "No such host is known.") || contains_str(
                message.as_str(),
                "IncompleteBody",
            ) {
                SengetErrors::NetworkError(NetworkError)
            } else {
                SengetErrors::RequestError { message }
            }
        },
        _ => err,
    }
}

} // verus!
