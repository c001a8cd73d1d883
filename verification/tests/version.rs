use gqlup::version::{decimal_text, Version};

fn v(text: &str) -> Version {
    Version::parse(text).unwrap()
}

#[test]
fn parse_plain_release() {
    let x = v("1.22.333");
    assert_eq!((x.major(), x.minor(), x.patch()), (1, 22, 333));
    assert_eq!(x.pre(), "");
    assert_eq!(x.build(), "");
}

#[test]
fn parse_prerelease_and_build() {
    let x = v("1.0.0-alpha.1+build.5");
    assert_eq!((x.major(), x.minor(), x.patch()), (1, 0, 0));
    assert_eq!(x.pre(), "alpha.1");
    assert_eq!(x.build(), "build.5");
}

#[test]
fn parse_refuses_non_versions() {
    for text in ["", "1.2", "v1.2.3", "01.2.3", "1.2.3-", "1.2.3+", "1.2.3-01", "latest", "1.2.3 "] {
        assert!(Version::parse(text).is_none(), "{text}");
    }
}

#[test]
fn to_string_writes_all_parts() {
    assert_eq!(v("1.2.3").to_string(), "1.2.3");
    assert_eq!(v("0.10.0-rc.1").to_string(), "0.10.0-rc.1");
    assert_eq!(v("1.2.3+sha.5114f85").to_string(), "1.2.3+sha.5114f85");
    assert_eq!(v("1.2.3-beta+exp.sha").to_string(), "1.2.3-beta+exp.sha");
    assert_eq!(v("18446744073709551615.0.7").to_string(), "18446744073709551615.0.7");
}

#[test]
fn decimal_text_values() {
    assert_eq!(decimal_text(0), "0");
    assert_eq!(decimal_text(9), "9");
    assert_eq!(decimal_text(10), "10");
    assert_eq!(decimal_text(1234567890), "1234567890");
    assert_eq!(decimal_text(u64::MAX), u64::MAX.to_string());
}

#[test]
fn precedence_chain_from_semver() {
    let chain = [
        "1.0.0-alpha",
        "1.0.0-alpha.1",
        "1.0.0-alpha.beta",
        "1.0.0-beta",
        "1.0.0-beta.2",
        "1.0.0-beta.11",
        "1.0.0-rc.1",
        "1.0.0",
        "1.0.1",
        "1.1.0",
        "2.0.0",
    ];
    for i in 0..chain.len() {
        for j in 0..chain.len() {
            let expected: i8 = if i < j { -1 } else if i == j { 0 } else { 1 };
            assert_eq!(v(chain[i]).compare(&v(chain[j])), expected, "{} vs {}", chain[i], chain[j]);
        }
    }
}

#[test]
fn numeric_parts_compare_as_numbers() {
    assert_eq!(v("1.10.0").compare(&v("1.9.0")), 1);
    assert!(v("1.9.0").is_older_than(&v("1.10.0")));
    assert!(!v("1.10.0").is_older_than(&v("1.10.0")));
}

#[test]
fn build_metadata_breaks_ties() {
    assert_eq!(v("1.20.0").compare(&v("1.20.0+bc17664")), -1);
    assert_eq!(v("1.20.0+bc17664").compare(&v("1.20.0+c144a98")), -1);
    assert_eq!(v("1.0.0+demo.90").compare(&v("1.0.0+demo.090")), -1);
    assert_eq!(v("1.0.0+demo.200").compare(&v("1.0.0+demo.090")), 1);
}

#[test]
fn equality_is_field_equality() {
    assert!(v("1.2.3").same_as(&v("1.2.3")));
    assert!(!v("1.2.3").same_as(&v("1.2.3+b")));
    assert!(!v("1.2.3-a").same_as(&v("1.2.3")));
    assert!(v("1.2.3-a").same_as(&v("1.2.3-a").duplicate()));
}

#[test]
fn written_text_parses_back() {
    for text in ["0.0.0", "1.2.3", "1.0.0-alpha.1", "1.0.0+build.007", "10.20.30-rc.1+sha.5114f85"] {
        let x = v(text);
        assert_eq!(x.to_string(), text);
        assert!(Version::parse(&x.to_string()).unwrap().same_as(&x));
    }
}

#[test]
fn order_is_transitive_on_mixed_identifiers() {
    let a = v("1.0.0-alpha.1");
    let b = v("1.0.0-alpha.beta");
    let c = v("1.0.0-alpha.beta.2");
    assert_eq!(a.compare(&b), -1);
    assert_eq!(b.compare(&c), -1);
    assert_eq!(a.compare(&c), -1);
    assert_eq!(c.compare(&a), 1);
}
