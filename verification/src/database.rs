//! The installed-package records: lookup by case-insensitive name, and the
//! add/replace/remove operations the lifecycle performs. Loading and saving
//! the records is the persistence collaborator's business; the rules about
//! what the collection holds live here.

use vstd::prelude::*;
use crate::package::{Package, PackageView};
use crate::text::{eq_str, lower_of, lowercase};

verus! {

pub struct PackageDatabase {
    packages: Vec<Package>,
}

impl DeepView for PackageDatabase {
    type V = Seq<PackageView>;

    closed spec fn deep_view(&self) -> Seq<PackageView> {
        self.packages.deep_view()
    }
}

/// The first package whose recomputed lowercase short or full repository
/// name equals `name_lower`.
pub open spec fn find_package_spec(packages: Seq<PackageView>, name_lower: Seq<char>) -> Option<
    PackageView,
>
    decreases packages.len(),
{
    if packages.len() == 0 {
        None
    } else if lower_of(packages[0].repo.name) == name_lower || lower_of(
        packages[0].repo.full_name,
    ) == name_lower {
        Some(packages[0])
    } else {
        find_package_spec(packages.drop_first(), name_lower)
    }
}

/// Position of the first record equal to `p`, or the length when none is.
pub open spec fn package_index(packages: Seq<PackageView>, p: PackageView) -> int
    decreases packages.len(),
{
    if packages.len() == 0 {
        0
    } else if packages[0] == p {
        0
    } else {
        1 + package_index(packages.drop_first(), p)
    }
}

pub proof fn lemma_package_index(packages: Seq<PackageView>, p: PackageView)
    ensures
        0 <= package_index(packages, p) <= packages.len(),
        forall|j: int| 0 <= j < package_index(packages, p) ==> packages[j] != p,
        package_index(packages, p) < packages.len() ==> packages[package_index(packages, p)] == p,
    decreases packages.len(),
{
    if packages.len() > 0 && packages[0] != p {
        lemma_package_index(packages.drop_first(), p);
        assert forall|j: int| 0 <= j < package_index(packages, p) implies packages[j] != p by {
            if j >= 1 {
                assert(packages.drop_first()[j - 1] == packages[j]);
            }
        }
        if package_index(packages, p) < packages.len() {
            assert(packages.drop_first()[package_index(packages, p) - 1] == packages[package_index(
                packages,
                p,
            )]);
        }
    }
}

/// A found record is one of the records, so replacing or removing it by
/// equality is sure to land on a package of the list.
pub proof fn lemma_find_package_in_db(packages: Seq<PackageView>, name_lower: Seq<char>)
    ensures
        match find_package_spec(packages, name_lower) {
            Some(p) => package_index(packages, p) < packages.len(),
            None => true,
        },
    decreases packages.len(),
{
    if packages.len() > 0 {
        if lower_of(packages[0].repo.name) == name_lower || lower_of(packages[0].repo.full_name)
            == name_lower {
        } else {
            lemma_find_package_in_db(packages.drop_first(), name_lower);
            match find_package_spec(packages.drop_first(), name_lower) {
                Some(p) => {
                    if packages[0] != p {
                        assert(package_index(packages, p) == 1 + package_index(
                            packages.drop_first(),
                            p,
                        ));
                    }
                },
                None => {},
            }
        }
    }
}

impl PackageDatabase {
    /// A database holding exactly the given records.
    pub fn new(packages: Vec<Package>) -> (r: PackageDatabase)
        ensures
            r.deep_view() == packages.deep_view(),
    {
        PackageDatabase { packages }
    }

    /// All records, in insertion order.
    pub fn fetch_all_packages(&self) -> (r: Vec<Package>)
        ensures
            r.deep_view() == self.deep_view(),
    {
        let n = self.packages.len();
        let mut r: Vec<Package> = Vec::new();
        let mut i: usize = 0;
        while i < n
            invariant
                n == self.packages.len(),
                i <= n,
                r.deep_view() =~= self.deep_view().take(i as int),
            decreases n - i,
        {
            let ghost prev = r.deep_view();
            r.push(self.packages[i].clone());
            proof {
                assert(r.deep_view() =~= prev.push(self.deep_view()[i as int]));
                assert(r.deep_view() =~= self.deep_view().take(i + 1));
            }
            i += 1;
        }
        proof {
            assert(self.deep_view().take(n as int) =~= self.deep_view());
        }
        r
    }

    /// Looks `name` up case-insensitively against each record's short and
    /// full repository name; the first match wins.
    pub fn find_package(&self, name: &str) -> (r: Option<Package>)
        ensures
            r.deep_view() == find_package_spec(self.deep_view(), lower_of(name@)),
    {
        let name_lower = lowercase(name);
        let ghost dv = self.deep_view();
        let n = self.packages.len();
        let mut i: usize = 0;
        proof {
            assert(dv.skip(0) =~= dv);
        }
        while i < n
            invariant
                n == self.packages.len(),
                dv == self.deep_view(),
                name_lower@ == lower_of(name@),
                i <= n,
                find_package_spec(dv, lower_of(name@)) == find_package_spec(
                    dv.skip(i as int),
                    lower_of(name@),
                ),
            decreases n - i,
        {
            proof {
                assert(dv.skip(i as int)[0] == dv[i as int]);
                assert(dv.skip(i as int).drop_first() =~= dv.skip(i + 1));
            }
            let p = &self.packages[i];
            let rn = lowercase(p.repo.name.as_str());
            let rf = lowercase(p.repo.full_name.as_str());
            if eq_str(rn.as_str(), name_lower.as_str()) || eq_str(
                rf.as_str(),
                name_lower.as_str(),
            ) {
                return Some(p.clone());
            }
            i += 1;
        }
        proof {
            assert(dv.skip(n as int) =~= Seq::<PackageView>::empty());
        }
        None
    }

    /// Position of the first record equal to `package`, if any.
    pub fn find_package_index(&self, package: &Package) -> (r: Option<usize>)
        ensures
            ({
                let dv = self.deep_view();
                let pv = package.deep_view();
                match r {
                    Some(i) => i as int == package_index(dv, pv) && package_index(dv, pv)
                        < dv.len(),
                    None => package_index(dv, pv) == dv.len(),
                }
            }),
    {
        let ghost dv = self.deep_view();
        let ghost pv = package.deep_view();
        let n = self.packages.len();
        let mut i: usize = 0;
        proof {
            lemma_package_index(dv, pv);
        }
        while i < n
            invariant
                n == self.packages.len(),
                dv == self.deep_view(),
                pv == package.deep_view(),
                i <= n,
                forall|j: int| 0 <= j < i ==> dv[j] != pv,
            decreases n - i,
        {
            if &self.packages[i] == package {
                proof {
                    lemma_package_index(dv, pv);
                    assert(package_index(dv, pv) == i) by {
                        if package_index(dv, pv) < i {
                            assert(dv[package_index(dv, pv)] == pv);
                        }
                        if package_index(dv, pv) > i {
                            assert(dv[i as int] != pv);
                        }
                    }
                }
                return Some(i);
            }
            i += 1;
        }
        proof {
            lemma_package_index(dv, pv);
            assert(package_index(dv, pv) == n) by {
                if package_index(dv, pv) < n {
                    assert(dv[package_index(dv, pv)] == pv);
                }
            }
        }
        None
    }

    /// Appends a new record.
    pub fn add_package(&mut self, package: Package)
        ensures
            final(self).deep_view() == old(self).deep_view().push(package.deep_view()),
    {
        let ghost prev = self.deep_view();
        let ghost pv = package.deep_view();
        self.packages.push(package);
        proof {
            assert(self.deep_view() =~= prev.push(pv));
        }
    }

    /// Swaps the record equal to `old_package` for `updated_package`.
    pub fn update_package(&mut self, old_package: &Package, updated_package: Package)
        requires
            package_index(old(self).deep_view(), old_package.deep_view()) < old(
                self,
            ).deep_view().len(),
        ensures
            final(self).deep_view() == old(self).deep_view().update(
                package_index(old(self).deep_view(), old_package.deep_view()),
                updated_package.deep_view(),
            ),
    {
        let ghost prev = self.deep_view();
        let ghost uv = updated_package.deep_view();
        let index = match self.find_package_index(old_package) {
            Some(i) => i,
            None => {
                proof {
                    assert(false);
                }
                0
            },
        };
        self.packages[index] = updated_package;
        proof {
            assert(self.deep_view() =~= prev.update(index as int, uv));
        }
    }

    /// Removes the record equal to `package`.
    pub fn remove_package(&mut self, package: &Package)
        requires
            package_index(old(self).deep_view(), package.deep_view()) < old(
                self,
            ).deep_view().len(),
        ensures
            final(self).deep_view() == old(self).deep_view().remove(
                package_index(old(self).deep_view(), package.deep_view()),
            ),
    {
        let ghost prev = self.deep_view();
        let index = match self.find_package_index(package) {
            Some(i) => i,
            None => {
                proof {
                    assert(false);
                }
                0
            },
        };
        self.packages.remove(index);
        proof {
            assert(self.deep_view() =~= prev.remove(index as int));
        }
    }
}

} // verus!
