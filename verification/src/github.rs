//! Repositories, release shapes, and the asset classification and ranking
//! that picks one distributable out of a release's assets.

use vstd::prelude::*;
use crate::dist::{Dist, DistType, DistView, PackageInfo, PackageInfoView};
use crate::text::{
    contains_str, ends_with, ends_with_str, eq_str, has_substring, lower_of, lowercase, remove_all,
    remove_all_str, str_concat,
};
use crate::version::version_token;

verus! {

/// A GitHub repository as the engine sees it.
#[derive(Debug)]
pub struct Repo {
    pub name: String,
    pub full_name: String,
    pub url: String,
    pub description: Option<String>,
    pub language: Option<String>,
    pub license: Option<String>,
}

pub ghost struct RepoView {
    pub name: Seq<char>,
    pub full_name: Seq<char>,
    pub url: Seq<char>,
    pub description: Option<Seq<char>>,
    pub language: Option<Seq<char>>,
    pub license: Option<Seq<char>>,
}

impl DeepView for Repo {
    type V = RepoView;

    open spec fn deep_view(&self) -> RepoView {
        RepoView {
            name: self.name@,
            full_name: self.full_name@,
            url: self.url@,
            description: self.description.deep_view(),
            language: self.language.deep_view(),
            license: self.license.deep_view(),
        }
    }
}

impl PartialEq for Repo {
    fn eq(&self, other: &Self) -> (r: bool) {
        eq_str(self.name.as_str(), other.name.as_str()) && eq_str(
            self.full_name.as_str(),
            other.full_name.as_str(),
        ) && eq_str(self.url.as_str(), other.url.as_str()) && crate::dist::opt_string_eq(
            &self.description,
            &other.description,
        ) && crate::dist::opt_string_eq(&self.language, &other.language)
            && crate::dist::opt_string_eq(&self.license, &other.license)
    }
}

impl vstd::std_specs::cmp::PartialEqSpecImpl for Repo {
    open spec fn obeys_eq_spec() -> bool {
        true
    }

    open spec fn eq_spec(&self, other: &Self) -> bool {
        self.deep_view() == other.deep_view()
    }
}

impl Clone for Repo {
    fn clone(&self) -> (r: Self)
        ensures
            r.deep_view() == self.deep_view(),
    {
        Repo {
            name: self.name.clone(),
            full_name: self.full_name.clone(),
            url: self.url.clone(),
            description: crate::dist::clone_opt_string(&self.description),
            language: crate::dist::clone_opt_string(&self.language),
            license: crate::dist::clone_opt_string(&self.license),
        }
    }
}

/// One release asset: file name, byte size, direct download URL.
#[derive(Debug)]
pub struct Asset {
    pub name: String,
    pub size: u64,
    pub browser_download_url: String,
}

pub ghost struct AssetView {
    pub name: Seq<char>,
    pub size: u64,
    pub browser_download_url: Seq<char>,
}

impl DeepView for Asset {
    type V = AssetView;

    open spec fn deep_view(&self) -> AssetView {
        AssetView {
            name: self.name@,
            size: self.size,
            browser_download_url: self.browser_download_url@,
        }
    }
}

impl Clone for Asset {
    fn clone(&self) -> (r: Self)
        ensures
            r.deep_view() == self.deep_view(),
    {
        Asset {
            name: self.name.clone(),
            size: self.size,
            browser_download_url: self.browser_download_url.clone(),
        }
    }
}

#[derive(Debug)]
pub struct License {
    pub name: Option<String>,
}

#[derive(Debug)]
pub struct RepoResponseJson {
    pub name: String,
    pub full_name: String,
    pub html_url: String,
    pub description: Option<String>,
    pub language: Option<String>,
    pub license: Option<License>,
}

pub ghost struct RepoResponseJsonView {
    pub name: Seq<char>,
    pub full_name: Seq<char>,
    pub html_url: Seq<char>,
    pub description: Option<Seq<char>>,
    pub language: Option<Seq<char>>,
    pub license: Option<Option<Seq<char>>>,
}

impl DeepView for RepoResponseJson {
    type V = RepoResponseJsonView;

    open spec fn deep_view(&self) -> RepoResponseJsonView {
        RepoResponseJsonView {
            name: self.name@,
            full_name: self.full_name@,
            html_url: self.html_url@,
            description: self.description.deep_view(),
            language: self.language.deep_view(),
            license: match self.license {
                Some(l) => Some(l.name.deep_view()),
                None => None,
            },
        }
    }
}

#[derive(Debug)]
pub struct SearchResponseJson {
    pub items: Vec<RepoResponseJson>,
}

impl DeepView for SearchResponseJson {
    type V = Seq<RepoResponseJsonView>;

    open spec fn deep_view(&self) -> Seq<RepoResponseJsonView> {
        self.items.deep_view()
    }
}

#[derive(Debug)]
pub struct ReleaseResponseJson {
    pub assets: Vec<Asset>,
    pub tag_name: String,
}

pub ghost struct ReleaseResponseJsonView {
    pub assets: Seq<AssetView>,
    pub tag_name: Seq<char>,
}

impl DeepView for ReleaseResponseJson {
    type V = ReleaseResponseJsonView;

    open spec fn deep_view(&self) -> ReleaseResponseJsonView {
        ReleaseResponseJsonView { assets: self.assets.deep_view(), tag_name: self.tag_name@ }
    }
}

/// A classified asset: a plausible distributable with its kind and whether
/// its name is a fuzzy exact match for the repository name.
#[derive(Debug)]
pub struct AssetInfo {
    pub file_title: String,
    pub download_url: String,
    pub file_size: u64,
    pub dist_type: DistType,
    pub is_exact_match: bool,
}

pub ghost struct AssetInfoView {
    pub file_title: Seq<char>,
    pub download_url: Seq<char>,
    pub file_size: u64,
    pub dist_type: DistType,
    pub is_exact_match: bool,
}

impl DeepView for AssetInfo {
    type V = AssetInfoView;

    open spec fn deep_view(&self) -> AssetInfoView {
        AssetInfoView {
            file_title: self.file_title@,
            download_url: self.download_url@,
            file_size: self.file_size,
            dist_type: self.dist_type,
            is_exact_match: self.is_exact_match,
        }
    }
}

impl Repo {
    pub fn new(
        name: String,
        full_name: String,
        url: String,
        description: Option<String>,
        language: Option<String>,
        license: Option<String>,
    ) -> (r: Repo)
        ensures
            r.deep_view() == (RepoView {
                name: name@,
                full_name: full_name@,
                url: url@,
                description: description.deep_view(),
                language: language.deep_view(),
                license: license.deep_view(),
            }),
    {
        Repo { url, name, full_name, description, language, license }
    }

    /// The API endpoint for one of this repository's resources.
    pub fn generate_endpoint(&self, resource: &str) -> (r: String)
        ensures
            r@ == "https://api.github.com/repos/"@ + self.full_name@ + "/"@ + resource@,
    {
        let head = str_concat("https://api.github.com/repos/", self.full_name.as_str());
        let head = str_concat(head.as_str(), "/");
        let r = str_concat(head.as_str(), resource);
        proof {
            assert(("https://api.github.com/repos/"@ + self.full_name@) + "/"@ + resource@
                =~= "https://api.github.com/repos/"@ + self.full_name@ + "/"@ + resource@);
        }
        r
    }
}

/// Builds a `Repo` from the repository JSON shape.
pub fn extract_repo(repo_response_json: RepoResponseJson) -> (r: Repo)
    ensures
        r.deep_view() == (RepoView {
            name: repo_response_json.deep_view().name,
            full_name: repo_response_json.deep_view().full_name,
            url: repo_response_json.deep_view().html_url,
            description: repo_response_json.deep_view().description,
            language: repo_response_json.deep_view().language,
            license: flatten_license(repo_response_json.deep_view().license),
        }),
{
    let license = match repo_response_json.license {
        Some(l) => l.name,
        None => None,
    };
    Repo::new(
        repo_response_json.name,
        repo_response_json.full_name,
        repo_response_json.html_url,
        repo_response_json.description,
        repo_response_json.language,
        license,
    )
}

/// The license name of the repository JSON shape, if both layers are present.
pub open spec fn flatten_license(l: Option<Option<Seq<char>>>) -> Option<Seq<char>> {
    match l {
        Some(inner) => inner,
        None => None,
    }
}

/// The fixed vocabulary of packaging tokens that fuzzy-name normalization
/// strips, in the order they are stripped.
pub open spec fn fuzz_spec(s: Seq<char>) -> Seq<char> {
    let s = remove_all(s, "-"@);
    let s = remove_all(s, "_"@);
    let s = remove_all(s, "."@);
    let s = remove_all(s, "installer"@);
    let s = remove_all(s, "update"@);
    let s = remove_all(s, "updater"@);
    let s = remove_all(s, "setup"@);
    let s = remove_all(s, "msi"@);
    let s = remove_all(s, "zip"@);
    let s = remove_all(s, "portable"@);
    let s = remove_all(s, "port"@);
    let s = remove_all(s, "exe"@);
    let s = remove_all(s, "windows"@);
    let s = remove_all(s, "win"@);
    let s = remove_all(s, "x"@);
    let s = remove_all(s, "bit"@);
    let s = remove_all(s, "amd64"@);
    let s = remove_all(s, "amd"@);
    let s = remove_all(s, "i386"@);
    let s = remove_all(s, "386"@);
    let s = remove_all(s, "86"@);
    let s = remove_all(s, "64"@);
    let s = remove_all(s, "32"@);
    s
}

/// Strips punctuation and packaging tokens from an already-lowercased name,
/// so that e.g. an installer's file name can be compared with the bare
/// repository name.
pub fn fuzz_asset_name(lower_name: &str) -> (r: String)
    ensures
        r@ == fuzz_spec(lower_name@),
{
    let r = remove_all_str(lower_name, "-");
    let r = remove_all_str(r.as_str(), "_");
    let r = remove_all_str(r.as_str(), ".");
    let r = remove_all_str(r.as_str(), "installer");
    let r = remove_all_str(r.as_str(), "update");
    let r = remove_all_str(r.as_str(), "updater");
    let r = remove_all_str(r.as_str(), "setup");
    let r = remove_all_str(r.as_str(), "msi");
    let r = remove_all_str(r.as_str(), "zip");
    let r = remove_all_str(r.as_str(), "portable");
    let r = remove_all_str(r.as_str(), "port");
    let r = remove_all_str(r.as_str(), "exe");
    let r = remove_all_str(r.as_str(), "windows");
    let r = remove_all_str(r.as_str(), "win");
    let r = remove_all_str(r.as_str(), "x");
    let r = remove_all_str(r.as_str(), "bit");
    let r = remove_all_str(r.as_str(), "amd64");
    let r = remove_all_str(r.as_str(), "amd");
    let r = remove_all_str(r.as_str(), "i386");
    let r = remove_all_str(r.as_str(), "386");
    let r = remove_all_str(r.as_str(), "86");
    let r = remove_all_str(r.as_str(), "64");
    let r = remove_all_str(r.as_str(), "32");
    r
}

/// The distributable kind of an asset, judged from its lowercased file name:
/// ARM builds and zips for other operating systems are never candidates, the
/// name must show the repository name, and the extension plus installer
/// keywords decide the kind.
pub open spec fn classify_kind(lower: Seq<char>, repo_lower: Seq<char>) -> Option<DistType> {
    if has_substring(lower, "arm"@) {
        None
    } else if !has_substring(lower, repo_lower) {
        None
    } else {
        let is_exe = ends_with(lower, ".exe"@);
        let is_installer_dist = ends_with(lower, ".msi"@) || (is_exe && (has_substring(
            lower,
            "install"@,
        ) || has_substring(lower, "setup"@) || has_substring(lower, "update"@)));
        let is_exe_dist = !is_installer_dist && is_exe;
        let is_zip_dist = ends_with(lower, ".zip"@) && !has_substring(lower, "mac"@)
            && !has_substring(lower, "darwin"@) && !has_substring(lower, "linux"@);
        if is_exe_dist {
            Some(DistType::Exe)
        } else if is_zip_dist {
            Some(DistType::Zip)
        } else if is_installer_dist {
            Some(DistType::Installer)
        } else {
            None
        }
    }
}

/// What classification makes of one asset: nothing when it is not a
/// plausible distributable, else its kind and the fuzzy exact-match flag.
pub open spec fn parse_asset_info_spec(a: AssetView, repo_lower: Seq<char>) -> Option<
    AssetInfoView,
> {
    let lower = lower_of(a.name);
    match classify_kind(lower, repo_lower) {
        None => None,
        Some(k) => Some(
            AssetInfoView {
                file_title: a.name,
                download_url: a.browser_download_url,
                file_size: a.size,
                dist_type: k,
                is_exact_match: fuzz_spec(lower) == fuzz_spec(repo_lower),
            },
        ),
    }
}

/// Classifies one asset; an asset that fails classification yields nothing,
/// which is a normal outcome, not an error.
pub fn parse_asset_info(repo_name_lower: &str, asset: &Asset) -> (r: Option<AssetInfo>)
    ensures
        r.deep_view() == parse_asset_info_spec(asset.deep_view(), repo_name_lower@),
{
    let asset_name_lower = lowercase(asset.name.as_str());
    let lower = asset_name_lower.as_str();
    if contains_str(lower, "arm") {
        return None;
    }
    if !contains_str(lower, repo_name_lower) {
        return None;
    }
    let is_exe = ends_with_str(lower, ".exe");
    let is_installer_dist = ends_with_str(lower, ".msi") || (is_exe && (contains_str(
        lower,
        "install",
    ) || contains_str(lower, "setup") || contains_str(lower, "update")));
    let is_exe_dist = !is_installer_dist && is_exe;
    let is_zip_dist = ends_with_str(lower, ".zip") && !contains_str(lower, "mac") && !contains_str(
        lower,
        "darwin",
    ) && !contains_str(lower, "linux");
    if is_exe_dist || is_zip_dist || is_installer_dist {
        let dist_type = if is_exe_dist {
            DistType::Exe
        } else if is_zip_dist {
            DistType::Zip
        } else {
            DistType::Installer
        };
        let fuzzed_asset = fuzz_asset_name(lower);
        let fuzzed_repo = fuzz_asset_name(repo_name_lower);
        let is_exact_match = eq_str(fuzzed_asset.as_str(), fuzzed_repo.as_str());
        Some(
            AssetInfo {
                file_title: asset.name.clone(),
                file_size: asset.size,
                download_url: asset.browser_download_url.clone(),
                dist_type,
                is_exact_match,
            },
        )
    } else {
        None
    }
}

/// The distributable built from a classified asset: the repository name and
/// the resolved version joined with the asset's own fields, wrapped in the
/// variant for the asset's kind.
pub open spec fn built_dist(info: AssetInfoView, repo_name: Seq<char>, version: Seq<char>) -> DistView {
    let p = PackageInfoView {
        name: repo_name,
        file_title: info.file_title,
        file_size: info.file_size,
        download_url: info.download_url,
        version: version,
    };
    match info.dist_type {
        DistType::Exe => DistView::Exe(p),
        DistType::Zip => DistView::Zip(p),
        DistType::Installer => DistView::Installer(p),
    }
}

/// Index of the first classified asset of kind `k`, or the length of `s`.
pub open spec fn find_kind_index(s: Seq<AssetInfoView>, k: DistType) -> int
    decreases s.len(),
{
    if s.len() == 0 {
        0
    } else if s[0].dist_type == k {
        0
    } else {
        1 + find_kind_index(s.drop_first(), k)
    }
}

/// The first classified asset of kind `k`, if any.
pub open spec fn find_kind(s: Seq<AssetInfoView>, k: DistType) -> Option<AssetInfoView> {
    let i = find_kind_index(s, k);
    if i < s.len() {
        Some(s[i])
    } else {
        None
    }
}

proof fn lemma_find_kind_index(s: Seq<AssetInfoView>, k: DistType)
    ensures
        0 <= find_kind_index(s, k) <= s.len(),
        forall|j: int| 0 <= j < find_kind_index(s, k) ==> s[j].dist_type != k,
        find_kind_index(s, k) < s.len() ==> s[find_kind_index(s, k)].dist_type == k,
    decreases s.len(),
{
    if s.len() > 0 && s[0].dist_type != k {
        lemma_find_kind_index(s.drop_first(), k);
        assert forall|j: int| 0 <= j < find_kind_index(s, k) implies s[j].dist_type != k by {
            if j >= 1 {
                assert(s.drop_first()[j - 1] == s[j]);
            }
        }
        if find_kind_index(s, k) < s.len() {
            assert(s.drop_first()[find_kind_index(s, k) - 1] == s[find_kind_index(s, k)]);
        }
    }
}

/// Ranking for the no-preference case: kind priority first
/// (installer over zip over standalone), exact match as the tiebreak.
pub open spec fn kind_rank(k: DistType) -> int {
    match k {
        DistType::Installer => 2,
        DistType::Zip => 1,
        DistType::Exe => 0,
    }
}

pub open spec fn sel_key(info: AssetInfoView) -> int {
    2 * kind_rank(info.dist_type) + if info.is_exact_match {
        1int
    } else {
        0int
    }
}

/// The greatest selection key in `s`, or -1 when `s` is empty.
pub open spec fn max_sel_key(s: Seq<AssetInfoView>) -> int
    decreases s.len(),
{
    if s.len() == 0 {
        -1
    } else {
        let rest = max_sel_key(s.drop_first());
        if sel_key(s[0]) >= rest {
            sel_key(s[0])
        } else {
            rest
        }
    }
}

/// Index of the first element attaining the greatest selection key.
pub open spec fn first_best_index(s: Seq<AssetInfoView>) -> int
    decreases s.len(),
{
    if s.len() == 0 {
        0
    } else if sel_key(s[0]) == max_sel_key(s) {
        0
    } else {
        1 + first_best_index(s.drop_first())
    }
}

/// The top-ranked classified asset: greatest selection key, earliest first.
pub open spec fn select_best(s: Seq<AssetInfoView>) -> AssetInfoView {
    s[first_best_index(s)]
}

proof fn lemma_first_best_index(s: Seq<AssetInfoView>)
    requires
        s.len() > 0,
    ensures
        0 <= first_best_index(s) < s.len(),
        sel_key(s[first_best_index(s)]) == max_sel_key(s),
        forall|j: int| 0 <= j < s.len() ==> sel_key(s[j]) <= max_sel_key(s),
        forall|j: int| 0 <= j < first_best_index(s) ==> sel_key(s[j]) < max_sel_key(s),
    decreases s.len(),
{
    let rest = s.drop_first();
    if s.len() == 1 {
        assert(max_sel_key(rest) == -1);
        assert(sel_key(s[0]) == max_sel_key(s));
    } else {
        lemma_first_best_index(rest);
        assert(forall|j: int| 1 <= j < s.len() ==> s[j] == rest[j - 1]);
        if sel_key(s[0]) != max_sel_key(s) {
            assert(max_sel_key(s) == max_sel_key(rest));
            assert(first_best_index(s) == 1 + first_best_index(rest));
        }
    }
}

/// Filters and ranks one release's assets and builds the chosen
/// distributable for `repo_name` at `version`, honoring `preferred`.
pub open spec fn selected_dist(
    assets: Seq<AssetView>,
    repo_name: Seq<char>,
    version: Seq<char>,
    preferred: Option<DistType>,
) -> Option<DistView> {
    let infos = classify_assets(assets, lower_of(repo_name));
    if infos.len() == 0 {
        None
    } else {
        match preferred {
            Some(k) => match find_kind(infos, k) {
                Some(info) => Some(built_dist(info, repo_name, version)),
                None => None,
            },
            None => Some(built_dist(select_best(infos), repo_name, version)),
        }
    }
}

/// The classified assets of a release, in release order, with assets that
/// are not plausible distributables silently excluded.
pub open spec fn classify_assets(assets: Seq<AssetView>, repo_lower: Seq<char>) -> Seq<
    AssetInfoView,
>
    decreases assets.len(),
{
    if assets.len() == 0 {
        Seq::empty()
    } else {
        let rest = classify_assets(assets.drop_first(), repo_lower);
        match parse_asset_info_spec(assets[0], repo_lower) {
            Some(info) => seq![info] + rest,
            None => rest,
        }
    }
}

fn build_dist_from_info(info: &AssetInfo, repo_name: String, version: String) -> (r: Dist)
    ensures
        r.deep_view() == built_dist(info.deep_view(), repo_name@, version@),
{
    let package_info = PackageInfo::new(
        repo_name,
        info.download_url.clone(),
        version,
        info.file_title.clone(),
        info.file_size,
    );
    package_info.fetch_dist(info.dist_type)
}

impl Repo {
    /// Picks one classified asset: with a preference, the first of that kind
    /// and no implicit fallback; without one, the top-ranked element.
    pub fn find_preferred_dist(
        preferred_dist_type: &Option<DistType>,
        asset_infos: Vec<AssetInfo>,
        repo_name: String,
        version: String,
    ) -> (r: Option<Dist>)
        ensures
            r.deep_view() == (match *preferred_dist_type {
                Some(k) => match find_kind(asset_infos.deep_view(), k) {
                    Some(info) => Some(built_dist(info, repo_name@, version@)),
                    None => None,
                },
                None => if asset_infos.deep_view().len() == 0 {
                    None::<DistView>
                } else {
                    Some(built_dist(select_best(asset_infos.deep_view()), repo_name@, version@))
                },
            }),
    {
        let ghost dv = asset_infos.deep_view();
        match preferred_dist_type {
            Some(pref) => {
                let n = asset_infos.len();
                let mut i: usize = 0;
                while i < n
                    invariant
                        n == asset_infos.len(),
                        dv == asset_infos.deep_view(),
                        *preferred_dist_type == Some(*pref),
                        i <= n,
                        forall|j: int| 0 <= j < i ==> dv[j].dist_type != *pref,
                    decreases n - i,
                {
                    if asset_infos[i].dist_type == *pref {
                        proof {
                            lemma_find_kind_index(dv, *pref);
                            assert(dv[i as int] == asset_infos[i as int].deep_view());
                            assert(find_kind_index(dv, *pref) == i) by {
                                if find_kind_index(dv, *pref) < i {
                                    assert(dv[find_kind_index(dv, *pref)].dist_type == *pref);
                                }
                                if find_kind_index(dv, *pref) > i {
                                    assert(dv[i as int].dist_type != *pref);
                                }
                            }
                        }
                        let built = build_dist_from_info(&asset_infos[i], repo_name, version);
                        proof {
                            assert(find_kind(dv, *pref) == Some(dv[i as int]));
                        }
                        return Some(built);
                    }
                    i += 1;
                }
                proof {
                    lemma_find_kind_index(dv, *pref);
                    assert(find_kind_index(dv, *pref) == n) by {
                        if find_kind_index(dv, *pref) < n {
                            assert(dv[find_kind_index(dv, *pref)].dist_type == *pref);
                        }
                    }
                }
                None
            },
            None => {
                let n = asset_infos.len();
                if n == 0 {
                    return None;
                }
                let mut best_i: usize = 0;
                let mut i: usize = 1;
                while i < n
                    invariant
                        n == asset_infos.len(),
                        dv == asset_infos.deep_view(),
                        best_i < i <= n,
                        forall|j: int| 0 <= j < i ==> sel_key(dv[j]) <= sel_key(dv[best_i as int]),
                        forall|j: int| 0 <= j < best_i ==> sel_key(dv[j]) < sel_key(
                            dv[best_i as int],
                        ),
                    decreases n - i,
                {
                    if sel_key_exec(&asset_infos[i]) > sel_key_exec(&asset_infos[best_i]) {
                        best_i = i;
                    }
                    i += 1;
                }
                proof {
                    lemma_first_best_index(dv);
                    let fb = first_best_index(dv);
                    assert(best_i == fb) by {
                        if (best_i as int) < fb {
                            assert(sel_key(dv[best_i as int]) < max_sel_key(dv));
                            assert(sel_key(dv[fb]) <= sel_key(dv[best_i as int]));
                        }
                        if fb < best_i as int {
                            assert(sel_key(dv[fb]) < sel_key(dv[best_i as int]));
                            assert(sel_key(dv[best_i as int]) <= max_sel_key(dv));
                        }
                    }
                }
                Some(build_dist_from_info(&asset_infos[best_i], repo_name, version))
            },
        }
    }

    /// Classifies a release's assets and picks the distributable for this
    /// repository; an empty classification yields nothing, not an error.
    pub fn parse_assets_for_distributable(
        &self,
        assets: Vec<Asset>,
        version: String,
        preferred_dist_type: &Option<DistType>,
    ) -> (r: Option<Dist>)
        ensures
            r.deep_view() == selected_dist(
                assets.deep_view(),
                self.name@,
                version@,
                *preferred_dist_type,
            ),
    {
        let repo_name_lower = lowercase(self.name.as_str());
        let ghost adv = assets.deep_view();
        let ghost rl = lower_of(self.name@);
        let n = assets.len();
        let mut asset_infos: Vec<AssetInfo> = Vec::new();
        let mut i: usize = 0;
        proof {
            assert(adv.skip(0) =~= adv);
            assert(asset_infos.deep_view() =~= Seq::<AssetInfoView>::empty());
            assert(Seq::<AssetInfoView>::empty() + classify_assets(adv, rl) =~= classify_assets(
                adv,
                rl,
            ));
        }
        while i < n
            invariant
                n == assets.len(),
                adv == assets.deep_view(),
                rl == repo_name_lower@,
                i <= n,
                classify_assets(adv, rl) == asset_infos.deep_view() + classify_assets(
                    adv.skip(i as int),
                    rl,
                ),
            decreases n - i,
        {
            let ghost rest = adv.skip(i as int);
            proof {
                assert(rest[0] == adv[i as int]);
                assert(rest.drop_first() =~= adv.skip(i + 1));
            }
            match parse_asset_info(repo_name_lower.as_str(), &assets[i]) {
                Some(info) => {
                    let ghost prev_dv = asset_infos.deep_view();
                    let ghost iv = info.deep_view();
                    asset_infos.push(info);
                    proof {
                        assert(asset_infos.deep_view() =~= prev_dv.push(iv));
                        assert(prev_dv + (seq![iv] + classify_assets(adv.skip(i + 1), rl))
                            =~= prev_dv.push(iv) + classify_assets(adv.skip(i + 1), rl));
                    }
                },
                None => {},
            }
            i += 1;
        }
        proof {
            assert(adv.skip(n as int) =~= Seq::<AssetView>::empty());
            assert(asset_infos.deep_view() + classify_assets(adv.skip(n as int), rl)
                =~= asset_infos.deep_view());
        }
        if asset_infos.is_empty() {
            return None;
        }
        Repo::find_preferred_dist(preferred_dist_type, asset_infos, self.name.clone(), version)
    }
}

/// The first release whose tag yields exactly the version token `tok`,
/// as its asset list paired with the token.
pub open spec fn find_release(releases: Seq<ReleaseResponseJsonView>, tok: Seq<char>) -> Option<
    (Seq<AssetView>, Seq<char>),
>
    decreases releases.len(),
{
    if releases.len() == 0 {
        None
    } else if version_token(releases[0].tag_name) == Some(tok) {
        Some((releases[0].assets, tok))
    } else {
        find_release(releases.drop_first(), tok)
    }
}

/// What resolving `version` against a release list yields: nothing when the
/// list is empty or the request holds no version token, else the assets of
/// the first release whose tag token equals the requested token.
pub open spec fn assets_for_version(
    releases: Seq<ReleaseResponseJsonView>,
    version: Seq<char>,
) -> Option<(Seq<AssetView>, Seq<char>)> {
    if releases.len() == 0 {
        None
    } else {
        match version_token(version) {
            None => None,
            Some(tok) => find_release(releases, tok),
        }
    }
}

fn clone_assets(v: &Vec<Asset>) -> (r: Vec<Asset>)
    ensures
        r.deep_view() == v.deep_view(),
{
    let mut r: Vec<Asset> = Vec::new();
    let n = v.len();
    let mut i: usize = 0;
    while i < n
        invariant
            n == v.len(),
            i <= n,
            r.deep_view() =~= v.deep_view().take(i as int),
        decreases n - i,
    {
        let ghost prev = r.deep_view();
        r.push(v[i].clone());
        proof {
            assert(r.deep_view() =~= prev.push(v.deep_view()[i as int]));
            assert(r.deep_view() =~= v.deep_view().take(i + 1));
        }
        i += 1;
    }
    proof {
        assert(v.deep_view().take(n as int) =~= v.deep_view());
    }
    r
}

impl Repo {
    /// Resolves a requested version against a release list: matching is
    /// exact equality of extracted version tokens, nothing more.
    pub fn get_assets_by_version(releases: &Vec<ReleaseResponseJson>, version: &str) -> (r: Option<
        (Vec<Asset>, String),
    >)
        ensures
            match r {
                Some((assets, tok)) => assets_for_version(releases.deep_view(), version@) == Some(
                    (assets.deep_view(), tok@),
                ),
                None => assets_for_version(releases.deep_view(), version@) is None,
            },
    {
        let ghost rdv = releases.deep_view();
        if releases.is_empty() {
            return None;
        }
        let parsed_version = match crate::version::parse_version(version) {
            None => {
                return None;
            },
            Some(v) => v,
        };
        let ghost tok = parsed_version@;
        let n = releases.len();
        let mut i: usize = 0;
        proof {
            assert(rdv.skip(0) =~= rdv);
        }
        while i < n
            invariant
                n == releases.len(),
                rdv == releases.deep_view(),
                tok == parsed_version@,
                version_token(version@) == Some(tok),
                i <= n,
                find_release(rdv, tok) == find_release(rdv.skip(i as int), tok),
            decreases n - i,
        {
            let ghost rest = rdv.skip(i as int);
            proof {
                assert(rest[0] == rdv[i as int]);
                assert(rest.drop_first() =~= rdv.skip(i + 1));
            }
            let curr_ver = crate::version::parse_version(releases[i].tag_name.as_str());
            let matched = match &curr_ver {
                Some(cv) => eq_str(cv.as_str(), parsed_version.as_str()),
                None => false,
            };
            if matched {
                proof {
                    assert(version_token(rdv[i as int].tag_name) == Some(tok));
                    assert(find_release(rest, tok) == Some((rdv[i as int].assets, tok)));
                }
                let assets = clone_assets(&releases[i].assets);
                return Some((assets, parsed_version));
            }
            proof {
                if version_token(rdv[i as int].tag_name) == Some(tok) {
                    assert(curr_ver.deep_view() == Some(tok));
                    assert(false);
                }
            }
            i += 1;
        }
        proof {
            assert(rdv.skip(n as int) =~= Seq::<ReleaseResponseJsonView>::empty());
        }
        None
    }
}

/// The first repository whose name or full name equals `name`
/// case-insensitively, out of a search result list.
pub open spec fn matching_repo(repos: Seq<RepoView>, name_lower: Seq<char>) -> Option<RepoView>
    decreases repos.len(),
{
    if repos.len() == 0 {
        None
    } else if lower_of(repos[0].name) == name_lower || lower_of(repos[0].full_name)
        == name_lower {
        Some(repos[0])
    } else {
        matching_repo(repos.drop_first(), name_lower)
    }
}

/// Picks the repository that `name` denotes out of search results, comparing
/// the short and the full name case-insensitively.
pub fn find_repo(name: &str, repos: &Vec<Repo>) -> (r: Option<Repo>)
    ensures
        r.deep_view() == matching_repo(repos.deep_view(), lower_of(name@)),
{
    let name_lower = lowercase(name);
    let ghost rdv = repos.deep_view();
    let n = repos.len();
    let mut i: usize = 0;
    proof {
        assert(rdv.skip(0) =~= rdv);
    }
    while i < n
        invariant
            n == repos.len(),
            rdv == repos.deep_view(),
            name_lower@ == lower_of(name@),
            i <= n,
            matching_repo(rdv, lower_of(name@)) == matching_repo(
                rdv.skip(i as int),
                lower_of(name@),
            ),
        decreases n - i,
    {
        let ghost rest = rdv.skip(i as int);
        proof {
            assert(rest[0] == rdv[i as int]);
            assert(rest.drop_first() =~= rdv.skip(i + 1));
        }
        let repo = &repos[i];
        let rn = lowercase(repo.name.as_str());
        let rf = lowercase(repo.full_name.as_str());
        if eq_str(rn.as_str(), name_lower.as_str()) || eq_str(rf.as_str(), name_lower.as_str()) {
            return Some(repo.clone());
        }
        i += 1;
    }
    proof {
        assert(rdv.skip(n as int) =~= Seq::<RepoView>::empty());
    }
    None
}

/// Classification never returns an ARM-named asset, and never a zip for
/// another operating system, regardless of any other naming: every
/// classified asset's lowered title is free of "arm", and a classified zip
/// is free of "mac", "darwin" and "linux".
pub proof fn lemma_classification_excludes_foreign(assets: Seq<AssetView>, repo_lower: Seq<char>)
    ensures
        forall|i: int|
            0 <= i < classify_assets(assets, repo_lower).len() ==> !has_substring(
                lower_of(#[trigger] classify_assets(assets, repo_lower)[i].file_title),
                "arm"@,
            ),
        forall|i: int|
            0 <= i < classify_assets(assets, repo_lower).len() && (
            #[trigger] classify_assets(assets, repo_lower)[i]).dist_type == DistType::Zip
                ==> !has_substring(
                lower_of(classify_assets(assets, repo_lower)[i].file_title),
                "mac"@,
            ) && !has_substring(lower_of(classify_assets(assets, repo_lower)[i].file_title), "darwin"@)
                && !has_substring(
                lower_of(classify_assets(assets, repo_lower)[i].file_title),
                "linux"@,
            ),
    decreases assets.len(),
{
    if assets.len() > 0 {
        lemma_classification_excludes_foreign(assets.drop_first(), repo_lower);
        let rest = classify_assets(assets.drop_first(), repo_lower);
        let whole = classify_assets(assets, repo_lower);
        match parse_asset_info_spec(assets[0], repo_lower) {
            Some(info) => {
                assert(whole == seq![info] + rest);
                assert(whole[0] == info);
                assert(forall|i: int| 1 <= i < whole.len() ==> whole[i] == rest[i - 1]);
            },
            None => {
                assert(whole == rest);
            },
        }
    }
}

fn sel_key_exec(info: &AssetInfo) -> (r: u8)
    ensures
        r as int == sel_key(info.deep_view()),
{
    let rank: u8 = match info.dist_type {
        DistType::Installer => 2,
        DistType::Zip => 1,
        DistType::Exe => 0,
    };
    2 * rank + if info.is_exact_match {
        1
    } else {
        0
    }
}

} // verus!
