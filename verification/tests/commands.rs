use gqlup::commands::install::{
    asset_archive_name, asset_entry_name, downloaded_binary_path, find_asset_id, gql_arch_name,
    gql_os_name, latest_release_url, plan_latest_install, plan_pinned_install, release_asset_url,
    release_tag_url, requests_latest, should_link_latest, Args as InstallArgs, GithubAsset,
    InstallPlan,
};
use gqlup::commands::list::remote::{release_tag_names, releases_url, GithubRelease};
use gqlup::commands::uninstall::{plan_uninstall, remap_target, Args as UninstallArgs, UninstallError, UninstallPlan};
use gqlup::config::GithubConfig;
use gqlup::version::Version;

fn github() -> GithubConfig {
    GithubConfig { owner: "acme".to_string(), repository: "gql".to_string() }
}

fn v(text: &str) -> Version {
    Version::parse(text).unwrap()
}

fn asset(name: &str, id: u64) -> GithubAsset {
    GithubAsset { name: name.to_string(), id }
}

#[test]
fn release_urls() {
    let g = github();
    assert_eq!(g.api_base(), "https://api.github.com/repos/acme/gql");
    assert_eq!(latest_release_url(&g), "https://api.github.com/repos/acme/gql/releases/latest");
    assert_eq!(release_tag_url(&g, "1.2.3"), "https://api.github.com/repos/acme/gql/releases/tags/1.2.3");
    assert_eq!(release_asset_url(&g, 204817), "https://api.github.com/repos/acme/gql/releases/assets/204817");
    assert_eq!(releases_url(&g), "https://api.github.com/repos/acme/gql/releases");
}

#[test]
fn platform_names() {
    assert_eq!(gql_os_name("linux"), Some("linux"));
    assert_eq!(gql_os_name("macos"), Some("darwin"));
    assert_eq!(gql_os_name("windows"), None);
    assert_eq!(gql_arch_name("x86_64"), Some("x86_64"));
    assert_eq!(gql_arch_name("aarch64"), Some("arm64"));
    assert_eq!(gql_arch_name("riscv64"), None);
    assert_eq!(asset_archive_name("darwin", "arm64"), "gql-darwin-arm64.tar.gz");
    assert_eq!(asset_entry_name("linux", "x86_64"), "./gql-linux-x86_64");
}

#[test]
fn find_asset_takes_first_match() {
    let assets = vec![
        asset("gql-linux-x86_64.tar.gz.sha256", 1),
        asset("gql-linux-x86_64.tar.gz", 2),
        asset("gql-linux-x86_64.tar.gz", 3),
    ];
    assert_eq!(find_asset_id(&assets, "gql-linux-x86_64.tar.gz"), Some(2));
    assert_eq!(find_asset_id(&assets, "gql-darwin-arm64.tar.gz"), None);
    assert_eq!(find_asset_id(&vec![], "x"), None);
}

#[test]
fn latest_install_plans() {
    let remote = v("2.1.0");
    assert!(matches!(plan_latest_install(Some(&v("2.1.0")), &remote), InstallPlan::AlreadyInstalled));
    match plan_latest_install(Some(&v("2.0.0")), &remote) {
        InstallPlan::Install(version) => assert_eq!(version, "2.1.0"),
        InstallPlan::AlreadyInstalled => panic!("expected an install"),
    }
    match plan_latest_install(None, &v("2.1.0-rc.1")) {
        InstallPlan::Install(version) => assert_eq!(version, "2.1.0-rc.1"),
        InstallPlan::AlreadyInstalled => panic!("expected an install"),
    }
}

#[test]
fn pinned_install_plans() {
    assert!(matches!(plan_pinned_install("1.0.0", true), InstallPlan::AlreadyInstalled));
    match plan_pinned_install("1.0.0", false) {
        InstallPlan::Install(version) => assert_eq!(version, "1.0.0"),
        InstallPlan::AlreadyInstalled => panic!("expected an install"),
    }
    assert!(requests_latest(&InstallArgs { version: "latest".to_string() }));
    assert!(!requests_latest(&InstallArgs { version: "1.0.0".to_string() }));
}

#[test]
fn linking_latest() {
    assert_eq!(should_link_latest("1.0.0", None, "2.0.0"), Some(false));
    assert_eq!(should_link_latest("latest", None, "not-a-version"), Some(true));
    assert_eq!(should_link_latest("latest", Some(&v("1.0.0")), "2.0.0"), Some(true));
    assert_eq!(should_link_latest("latest", Some(&v("2.0.0")), "2.0.0"), Some(false));
    assert_eq!(should_link_latest("latest", Some(&v("2.0.0")), "1.5.0"), Some(false));
    assert_eq!(should_link_latest("latest", Some(&v("2.0.0")), "nightly"), None);
}

#[test]
fn downloaded_binary_location() {
    assert_eq!(downloaded_binary_path("/s/binaries", "1.0.0"), "/s/binaries/gql-1.0.0");
    assert_eq!(downloaded_binary_path("bins", "1.0.0"), "bins/bins/gql-1.0.0");
}

#[test]
fn remote_tag_names() {
    let releases = vec![
        GithubRelease { tag_name: "2.0.0".to_string() },
        GithubRelease { tag_name: "1.9.1".to_string() },
    ];
    assert_eq!(release_tag_names(releases), vec!["2.0.0".to_string(), "1.9.1".to_string()]);
}

fn uninstall(version: &str, remap_latest: bool) -> UninstallArgs {
    UninstallArgs { version: version.to_string(), remap_latest }
}

#[test]
fn uninstall_pinned_version() {
    assert!(matches!(plan_uninstall(&uninstall("1.0.0", false), "2.0.0", None), Ok(UninstallPlan::RemoveVersion)));
    match plan_uninstall(&uninstall("1.0.0", false), "1.0.0", None) {
        Err(e) => {
            assert!(matches!(e, UninstallError::VersionIsDefault(_)));
            assert_eq!(
                e.message(),
                "Version 1.0.0 is set as default, cannot uninstall. Set default version to different version first."
            );
        },
        Ok(_) => panic!("expected a refusal"),
    }
}

#[test]
fn uninstall_latest() {
    match plan_uninstall(&uninstall("latest", false), "1.0.0", Some(v("2.0.0"))) {
        Ok(UninstallPlan::RemoveLatest(c)) => assert_eq!(c.to_string(), "2.0.0"),
        _ => panic!("expected removal of latest"),
    }
    match plan_uninstall(&uninstall("latest", true), "latest", Some(v("2.0.0"))) {
        Ok(UninstallPlan::RemoveLatest(c)) => assert_eq!(c.to_string(), "2.0.0"),
        _ => panic!("expected removal of latest"),
    }
}

#[test]
fn uninstall_latest_refusals() {
    let e = plan_uninstall(&uninstall("latest", true), "latest", None).err().unwrap();
    assert!(matches!(e, UninstallError::LatestNotInstalled));
    assert_eq!(e.message(), "Version latest is not installed");

    let e = plan_uninstall(&uninstall("latest", false), "latest", Some(v("2.0.0"))).err().unwrap();
    assert!(matches!(e, UninstallError::LatestIsDefault));
    assert_eq!(
        e.message(),
        "Version latest is set as default, and --remap-latest=false. Add a flag --remap-latest=true to delete current latest version and remap to most recent previous one."
    );

    let e = plan_uninstall(&uninstall("latest", false), "2.0.0", Some(v("2.0.0"))).err().unwrap();
    assert!(matches!(e, UninstallError::CurrentLatestIsDefault(_)));
    assert_eq!(
        e.message(),
        "Current latest version 2.0.0 is set as default, Set default version to different version first."
    );
}

#[test]
fn remap_to_newest_left() {
    assert!(remap_target(&vec![]).is_none());
    let sorted = vec![v("3.0.0"), v("2.0.0"), v("1.0.0")];
    assert_eq!(remap_target(&sorted).unwrap().to_string(), "3.0.0");
    let unsorted = vec![v("1.0.0"), v("3.0.0-rc.1"), v("3.0.0"), v("2.0.0")];
    assert_eq!(remap_target(&unsorted).unwrap().to_string(), "3.0.0");
}
