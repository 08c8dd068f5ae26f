//! The bookkeeping of the packages path variable: what new values the
//! environment should be given when the tool is set up and when a package
//! folder is added or removed. Reading and writing the environment is the
//! caller's business; the string rules live here.

use vstd::prelude::*;
use crate::text::{contains_str, has_substring, remove_all, remove_all_str, str_concat};

verus! {

/// What setting up the packages path variable requires of the environment:
/// a new Path value when Path does not yet reference the variable, and an
/// initial value for the variable itself when it does not exist yet.
pub fn setup_senget_packages_path_env_var(
    path_value: &str,
    senget_var_exists: bool,
    senget_installation_folder: &str,
) -> (r: (Option<String>, Option<String>))
    ensures
        r.0.deep_view() == (if !has_substring(path_value@, "SENGET_PACKAGES"@) {
            Some(path_value@ + ";%SENGET_PACKAGES%"@)
        } else {
            None::<Seq<char>>
        }),
        r.1.deep_view() == (if !senget_var_exists {
            Some(senget_installation_folder@)
        } else {
            None::<Seq<char>>
        }),
{
    let new_path_value = if !contains_str(path_value, "SENGET_PACKAGES") {
        Some(str_concat(path_value, ";%SENGET_PACKAGES%"))
    } else {
        None
    };
    let new_senget_value = if !senget_var_exists {
        Some(String::from_str(senget_installation_folder))
    } else {
        None
    };
    (new_path_value, new_senget_value)
}

/// The variable's value with one more package folder appended.
pub fn add_package_folder_to_senget_env_var(
    current_value: &str,
    package_installation_folder: &str,
) -> (r: String)
    ensures
        r@ == current_value@ + ";"@ + package_installation_folder@,
{
    let with_sep = str_concat(current_value, ";");
    let r = str_concat(with_sep.as_str(), package_installation_folder);
    proof {
        assert((current_value@ + ";"@) + package_installation_folder@ =~= current_value@ + ";"@
            + package_installation_folder@);
    }
    r
}

/// The variable's value with every listing of the package folder removed.
pub fn remove_package_folder_from_senget_env_var(
    current_value: &str,
    package_installation_folder: &str,
) -> (r: String)
    ensures
        r@ == remove_all(current_value@, ";"@ + package_installation_folder@),
{
    let to_replace = str_concat(";", package_installation_folder);
    remove_all_str(current_value, to_replace.as_str())
}

} // verus!
