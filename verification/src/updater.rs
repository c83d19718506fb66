//! Deciding whether a published release should replace the running agent,
//! and which of its files to fetch.

use vstd::prelude::*;
use vstd::string::StringExecFns;
use crate::models::text_is;
use crate::text::{contains, contains_text, trim_leading, without_leading};
use crate::version::{components_newer, is_newer_version, version_components};

verus! {

/// One downloadable file of a release.
#[derive(Debug, Clone, PartialEq, Eq)]
pub struct GithubAsset {
    pub name: String,
    pub browser_download_url: String,
}

/// A published release: its tag and its files.
#[derive(Debug, Clone, PartialEq, Eq)]
pub struct GithubRelease {
    pub tag_name: String,
    pub assets: Vec<GithubAsset>,
}

/// What to do about a release.
#[derive(Debug, Clone, PartialEq, Eq)]
pub enum UpdatePlan {
    /// The release is not ahead of what runs.
    UpToDate,
    /// The release is ahead but offers no file.
    NoAsset,
    /// Fetch the file at `url` and install it as version `version`.
    Download { version: String, url: String },
}

/// The name that every build of the agent goes by.
pub open spec fn agent_name() -> Seq<char> {
    "status-monitor-client"@
}

/// The name of the agent's build for one system and architecture.
pub open spec fn build_name(os: Seq<char>, arch: Seq<char>) -> Seq<char> {
    agent_name() + "-"@ + os + "-"@ + arch
}

/// Where the latest release of the repository `repo` is described.
pub open spec fn release_url_of(repo: Seq<char>) -> Seq<char> {
    "https://api.github.com/repos/"@ + repo + "/releases/latest"@
}

/// The version that a release tag names: the tag without leading `v`s.
pub open spec fn tag_version(tag: Seq<char>) -> Seq<char> {
    without_leading(tag, 'v')
}

/// Whether a file named `name` is the build `wanted`, or the agent's build
/// for any system.
pub open spec fn suits(name: Seq<char>, wanted: Seq<char>) -> bool {
    contains_text(name, wanted) || name == agent_name()
}

/// Whether `at` is the first file of `assets` that suits.
pub open spec fn first_suiting(assets: Seq<GithubAsset>, wanted: Seq<char>, at: int) -> bool {
    &&& 0 <= at < assets.len()
    &&& suits(assets[at].name@, wanted)
    &&& forall|j: int| 0 <= j < at ==> !suits(#[trigger] assets[j].name@, wanted)
}

/// Whether none of `assets` suits.
pub open spec fn none_suits(assets: Seq<GithubAsset>, wanted: Seq<char>) -> bool {
    forall|j: int| 0 <= j < assets.len() ==> !suits(#[trigger] assets[j].name@, wanted)
}

/// Whether `at` is the file of `assets` to fetch: the first that suits, or,
/// if none does, the first there is.
pub open spec fn selected(assets: Seq<GithubAsset>, wanted: Seq<char>, at: int) -> bool {
    first_suiting(assets, wanted, at) || (none_suits(assets, wanted) && at == 0 && assets.len()
        > 0)
}

/// Picks the file of a release to fetch for the system `os` on the
/// architecture `arch`. Only a release without files has none to pick.
pub fn select_asset(assets: &Vec<GithubAsset>, os: &str, arch: &str) -> (choice: Option<usize>)
    ensures
        choice is None <==> assets@.len() == 0,
        choice is Some ==> selected(assets@, build_name(os@, arch@), choice->Some_0 as int),
{
    let mut wanted = String::from_str("status-monitor-client");
    wanted.append("-");
    wanted.append(os);
    wanted.append("-");
    wanted.append(arch);
    let mut i: usize = 0;
    while i < assets.len()
        invariant
            i <= assets@.len(),
            wanted@ == build_name(os@, arch@),
            forall|j: int| 0 <= j < i ==> !suits(#[trigger] assets@[j].name@, wanted@),
        decreases assets@.len() - i,
    {
        if contains(assets[i].name.as_str(), wanted.as_str()) || text_is(
            &assets[i].name,
            "status-monitor-client",
        ) {
            return Some(i);
        }
        i += 1;
    }
    if assets.len() > 0 {
        Some(0)
    } else {
        None
    }
}

/// Looks for newer releases of the agent in one repository.
pub struct Updater {
    github_repo: Option<String>,
}

impl Updater {
    /// The repository that is watched, if any.
    pub closed spec fn spec_repo(&self) -> Option<String> {
        self.github_repo
    }

    pub fn new(github_repo: Option<String>) -> (updater: Self)
        ensures
            updater.spec_repo() == github_repo,
    {
        Updater { github_repo }
    }

    /// Where to ask for the latest release. Without a repository the agent
    /// does not update itself, and there is nowhere to ask.
    pub fn release_url(&self) -> (url: Option<String>)
        ensures
            url is Some <==> self.spec_repo() is Some,
            url is Some ==> url->Some_0@ == release_url_of(self.spec_repo()->Some_0@),
    {
        match &self.github_repo {
            Some(repo) => {
                let mut url = String::from_str("https://api.github.com/repos/");
                url.append(repo.as_str());
                url.append("/releases/latest");
                Some(url)
            },
            None => None,
        }
    }

    /// Decides what to do about `release` when version `current` runs on
    /// the system `os` and the architecture `arch`.
    pub fn plan_update(current: &str, release: &GithubRelease, os: &str, arch: &str) -> (plan:
        UpdatePlan)
        ensures
            plan is UpToDate <==> !components_newer(
                version_components(tag_version(release.tag_name@)),
                version_components(current@),
            ),
            !(plan is UpToDate) ==> (plan is NoAsset <==> release.assets@.len() == 0),
            plan is Download ==> plan->version@ == tag_version(release.tag_name@),
            plan is Download ==> exists|at: int|
                selected(release.assets@, build_name(os@, arch@), at) && plan->url
                    == release.assets@[at].browser_download_url,
    {
        let latest = trim_leading(release.tag_name.as_str(), 'v');
        if !is_newer_version(latest.as_str(), current) {
            return UpdatePlan::UpToDate;
        }
        match select_asset(&release.assets, os, arch) {
            Some(at) => UpdatePlan::Download {
                version: latest,
                url: release.assets[at].browser_download_url.clone(),
            },
            None => UpdatePlan::NoAsset,
        }
    }
}

/// Only one file of a release is the one to fetch.
pub proof fn lemma_selection_unique(assets: Seq<GithubAsset>, wanted: Seq<char>, a: int, b: int)
    requires
        selected(assets, wanted, a),
        selected(assets, wanted, b),
    ensures
        a == b,
{
    if first_suiting(assets, wanted, a) && first_suiting(assets, wanted, b) {
        if a < b {
            assert(!suits(assets[a].name@, wanted));
        } else if b < a {
            assert(!suits(assets[b].name@, wanted));
        }
    } else if first_suiting(assets, wanted, a) {
        assert(!suits(assets[a].name@, wanted));
    } else if first_suiting(assets, wanted, b) {
        assert(!suits(assets[b].name@, wanted));
    }
}

} // verus!
