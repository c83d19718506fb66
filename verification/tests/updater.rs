use status_monitor::updater::{select_asset, GithubAsset, GithubRelease, UpdatePlan, Updater};

fn asset(name: &str) -> GithubAsset {
    GithubAsset { name: name.to_string(), browser_download_url: format!("https://dl/{}", name) }
}

fn release(tag: &str, names: &[&str]) -> GithubRelease {
    GithubRelease { tag_name: tag.to_string(), assets: names.iter().map(|n| asset(n)).collect() }
}

#[test]
fn the_build_for_this_system_is_preferred() {
    let assets = vec![
        asset("checksums.txt"),
        asset("status-monitor-client-linux-aarch64"),
        asset("status-monitor-client-linux-x86_64.tar.gz"),
        asset("status-monitor-client"),
    ];
    assert_eq!(select_asset(&assets, "linux", "x86_64"), Some(2));
    assert_eq!(select_asset(&assets, "linux", "aarch64"), Some(1));
    assert_eq!(select_asset(&assets, "macos", "aarch64"), Some(3));
}

#[test]
fn without_a_suiting_file_the_first_is_taken() {
    let assets = vec![asset("notes.md"), asset("agent.bin")];
    assert_eq!(select_asset(&assets, "linux", "x86_64"), Some(0));
    assert_eq!(select_asset(&Vec::new(), "linux", "x86_64"), None);
    let exact = vec![asset("notes.md"), asset("status-monitor-client")];
    assert_eq!(select_asset(&exact, "linux", "x86_64"), Some(1));
    let close = vec![asset("notes.md"), asset("status-monitor-client.sha256")];
    assert_eq!(select_asset(&close, "linux", "x86_64"), Some(0));
}

#[test]
fn a_newer_release_is_fetched() {
    let plan = Updater::plan_update(
        "1.2.0",
        &release("v1.3.0", &["status-monitor-client-linux-x86_64"]),
        "linux",
        "x86_64",
    );
    assert_eq!(
        plan,
        UpdatePlan::Download {
            version: "1.3.0".to_string(),
            url: "https://dl/status-monitor-client-linux-x86_64".to_string(),
        }
    );
}

#[test]
fn a_release_that_is_not_ahead_is_left_alone() {
    let r = release("v1.2.0", &["status-monitor-client"]);
    assert_eq!(Updater::plan_update("1.2.0", &r, "linux", "x86_64"), UpdatePlan::UpToDate);
    assert_eq!(Updater::plan_update("1.10.0", &r, "linux", "x86_64"), UpdatePlan::UpToDate);
    assert_eq!(Updater::plan_update("1.2.0", &release("nightly", &["x"]), "linux", "x86_64"), UpdatePlan::UpToDate);
}

#[test]
fn a_release_without_files_cannot_be_fetched() {
    assert_eq!(Updater::plan_update("1.0.0", &release("2.0.0", &[]), "linux", "x86_64"), UpdatePlan::NoAsset);
    assert_eq!(Updater::plan_update("3.0.0", &release("2.0.0", &[]), "linux", "x86_64"), UpdatePlan::UpToDate);
}

#[test]
fn every_leading_v_is_dropped_from_the_tag() {
    let plan = Updater::plan_update("1.0.0", &release("vv2.0.0", &["a"]), "linux", "x86_64");
    assert_eq!(plan, UpdatePlan::Download { version: "2.0.0".to_string(), url: "https://dl/a".to_string() });
    let plan = Updater::plan_update("1.0.0", &release("2.0.0v", &["a"]), "linux", "x86_64");
    assert_eq!(plan, UpdatePlan::Download { version: "2.0.0v".to_string(), url: "https://dl/a".to_string() });
}

#[test]
fn releases_are_looked_up_in_the_configured_repository() {
    let updater = Updater::new(Some("acme/monitor".to_string()));
    assert_eq!(
        updater.release_url(),
        Some("https://api.github.com/repos/acme/monitor/releases/latest".to_string())
    );
    assert_eq!(Updater::new(None).release_url(), None);
}
