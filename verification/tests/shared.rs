use gqlup::shared::{
    binary_name_of,
    names_latest, resolve_current_latest_version, resolve_local_versions, version_binary_name,
    version_binary_path, version_field_of, version_from_binary_name, BinaryNameError, DirEntry,
};
use gqlup::version::Version;

fn entry(name: &str, is_symlink: bool) -> DirEntry {
    DirEntry { file_name: name.to_string(), is_symlink }
}

fn texts(vs: &[Version]) -> Vec<String> {
    vs.iter().map(|v| v.to_string()).collect()
}

#[test]
fn version_field_is_second_dash_field() {
    assert_eq!(version_field_of("gql-1.2.3"), Some("1.2.3".to_string()));
    assert_eq!(version_field_of("gql-1.0.0-rc.1"), Some("1.0.0".to_string()));
    assert_eq!(version_field_of("gql-"), Some("".to_string()));
    assert_eq!(version_field_of("-x-y"), Some("x".to_string()));
    assert_eq!(version_field_of("gql"), None);
    assert_eq!(version_field_of(""), None);
}

#[test]
fn version_from_binary_name_reads_the_version() {
    let v = version_from_binary_name("gql-0.4.12").unwrap();
    assert_eq!(v.to_string(), "0.4.12");
    assert!(matches!(version_from_binary_name("gql"), Err(BinaryNameError::MissingVersionField)));
    assert!(matches!(version_from_binary_name("gql-latest"), Err(BinaryNameError::InvalidVersion)));
    assert!(matches!(version_from_binary_name("gql-"), Err(BinaryNameError::InvalidVersion)));
}

#[test]
fn binary_name_round_trip_without_dash() {
    let v = Version::parse("3.1.4+build.9").unwrap();
    let name = version_binary_name(&v.to_string());
    assert_eq!(name, "gql-3.1.4+build.9");
    assert!(version_from_binary_name(&name).unwrap().same_as(&v));
}

#[test]
fn binary_name_of_prerelease_reads_back_numbers_only() {
    let v = Version::parse("3.1.4-rc.2").unwrap();
    let name = version_binary_name(&v.to_string());
    assert_eq!(name, "gql-3.1.4-rc.2");
    let back = version_from_binary_name(&name).unwrap();
    assert_eq!(back.to_string(), "3.1.4");
    assert!(!back.same_as(&v));
}

#[test]
fn current_latest_from_link_target() {
    assert!(resolve_current_latest_version(None).unwrap().is_none());
    let v = resolve_current_latest_version(Some("gql-2.0.1")).unwrap().unwrap();
    assert_eq!(v.to_string(), "2.0.1");
    assert!(resolve_current_latest_version(Some("gql")).is_err());
}

#[test]
fn local_versions_newest_first_skipping_links() {
    let entries = vec![
        entry("gql-1.2.0", false),
        entry("gql-latest", true),
        entry("gql-1.10.0", false),
        entry("gql-0.9.9", false),
        entry("gql-1.10.0+b", false),
    ];
    let vs = resolve_local_versions(&entries).unwrap();
    assert_eq!(texts(&vs), vec!["1.10.0+b", "1.10.0", "1.2.0", "0.9.9"]);
}

#[test]
fn local_versions_empty_directory() {
    assert!(resolve_local_versions(&vec![]).unwrap().is_empty());
    assert!(resolve_local_versions(&vec![entry("gql-latest", true)]).unwrap().is_empty());
}

#[test]
fn local_versions_fail_on_first_unreadable_name() {
    let entries = vec![
        entry("gql-1.2.0", false),
        entry("notes", true),
        entry("README", false),
        entry("gql-x", false),
    ];
    let e = resolve_local_versions(&entries).unwrap_err();
    assert_eq!(e.file_name, "README");
    assert!(matches!(e.cause, BinaryNameError::MissingVersionField));
    let e = resolve_local_versions(&vec![entry("gql-x", false), entry("README", false)]).unwrap_err();
    assert_eq!(e.file_name, "gql-x");
    assert!(matches!(e.cause, BinaryNameError::InvalidVersion));
}

#[test]
fn binary_paths() {
    assert_eq!(version_binary_path("/state/gqlup/binaries", "1.0.0"), "/state/gqlup/binaries/gql-1.0.0");
    assert_eq!(version_binary_path("/state/", "latest"), "/state/gql-latest");
}

#[test]
fn latest_is_a_keyword() {
    assert!(names_latest("latest"));
    assert!(!names_latest("Latest"));
    assert!(!names_latest("1.0.0"));
}

#[test]
fn binary_name_of_versions() {
    let v = Version::parse("2.4.6+b.1").unwrap();
    let name = binary_name_of(&v);
    assert_eq!(name, "gql-2.4.6+b.1");
    assert!(version_from_binary_name(&name).unwrap().same_as(&v));
    let pre = Version::parse("2.4.6-rc.1").unwrap();
    assert_eq!(binary_name_of(&pre), "gql-2.4.6-rc.1");
    assert_eq!(version_from_binary_name(&binary_name_of(&pre)).unwrap().to_string(), "2.4.6");
}

#[test]
fn local_versions_all_pairs_ordered() {
    let entries = vec![
        entry("gql-1.0.0+a", false),
        entry("gql-1.0.0", false),
        entry("gql-1.0.0+b.11", false),
        entry("gql-1.0.0+b.2", false),
        entry("gql-0.1.0", false),
    ];
    let vs = resolve_local_versions(&entries).unwrap();
    assert_eq!(texts(&vs), vec!["1.0.0+b.11", "1.0.0+b.2", "1.0.0+a", "1.0.0", "0.1.0"]);
    for i in 0..vs.len() {
        for j in i..vs.len() {
            assert!(vs[i].compare(&vs[j]) >= 0);
        }
    }
}
