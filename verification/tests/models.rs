//! The version and channel models, version-line parsing, and directory
//! resolution.

use autocfg::dir_contains_target;
use autocfg::inspect_version_output;
use autocfg::resolve_scratch_dir;
use autocfg::Channel;
use autocfg::Version;

#[test]
fn version_cmp() {
    let v123 = Version::new(1, 2, 3);

    assert!(Version::new(1, 0, 0) < v123);
    assert!(Version::new(1, 2, 2) < v123);
    assert!(Version::new(1, 2, 3) == v123);
    assert!(Version::new(1, 2, 4) > v123);
    assert!(Version::new(1, 10, 0) > v123);
    assert!(Version::new(2, 0, 0) > v123);
}

#[test]
fn version_compare_is_three_way() {
    let a = Version::new(1, 2, 3);
    let b = Version::new(1, 3, 0);
    assert_eq!(a.compare(&b), std::cmp::Ordering::Less);
    assert_eq!(b.compare(&a), std::cmp::Ordering::Greater);
    assert_eq!(a.compare(&Version::new(1, 2, 3)), std::cmp::Ordering::Equal);
}

#[test]
fn channel_cmp() {
    assert!(Channel::Stable < Channel::Beta);
    assert!(Channel::Beta < Channel::Nightly);
    assert!(Channel::Nightly < Channel::Dev);
}

#[test]
fn channel_at_least_is_reflexive() {
    for c in [Channel::Stable, Channel::Beta, Channel::Nightly, Channel::Dev] {
        assert!(c.at_least(&c));
    }
    assert!(Channel::Nightly.at_least(&Channel::Beta));
    assert!(!Channel::Beta.at_least(&Channel::Nightly));
    assert_eq!(
        Channel::Stable.compare(&Channel::Dev),
        std::cmp::Ordering::Less
    );
}

#[test]
fn channel_parse_tokens() {
    assert_eq!(Channel::parse(None), Channel::Stable);
    assert_eq!(Channel::parse(Some("stable")), Channel::Stable);
    assert_eq!(Channel::parse(Some("beta")), Channel::Beta);
    assert_eq!(Channel::parse(Some("nightly")), Channel::Nightly);
    assert_eq!(Channel::parse(Some("dev")), Channel::Dev);
    assert_eq!(Channel::parse(Some("anything-else")), Channel::Dev);
}

#[test]
fn version_parse_canonical() {
    assert_eq!(Version::parse("1.50.0"), Ok(Version::new(1, 50, 0)));
    assert_eq!(
        Version::parse("1.50.0-nightly (abcdef123 2021-01-01)"),
        Ok(Version::new(1, 50, 0))
    );
    assert_eq!(Version::parse("0.9.12-beta.3"), Ok(Version::new(0, 9, 12)));
}

#[test]
fn version_parse_rejects_malformed() {
    assert!(Version::parse("").is_err());
    assert!(Version::parse("hello").is_err());
    assert!(Version::parse("1.50").is_err());
    assert!(Version::parse("1..50.0").is_err());
    assert!(Version::parse(".1.50.0").is_err());
    assert!(Version::parse("1.50.x").is_err());
}

#[test]
fn inspect_reads_version_and_channel() {
    let rep = inspect_version_output("rustc 1.50.0-nightly (abc1234 2021-01-01)").unwrap();
    assert_eq!(rep.version, Version::new(1, 50, 0));
    assert_eq!(rep.channel, Channel::Nightly);

    let rep = inspect_version_output("rustc 1.48.0 (7eac88abb 2020-11-16)").unwrap();
    assert_eq!(rep.version, Version::new(1, 48, 0));
    assert_eq!(rep.channel, Channel::Stable);

    let rep = inspect_version_output("rustc 1.49.0-beta.4 (e636fff2c 2020-12-17)").unwrap();
    assert_eq!(rep.version, Version::new(1, 49, 0));
    assert_eq!(rep.channel, Channel::Beta);

    let rep = inspect_version_output("rustc 1.93.0-dev").unwrap();
    assert_eq!(rep.version, Version::new(1, 93, 0));
    assert_eq!(rep.channel, Channel::Dev);

    assert!(inspect_version_output("no version here").is_err());
}

#[test]
fn dir_does_not_contain_target() {
    assert!(!dir_contains_target(
        &Some("x86_64-unknown-linux-gnu".into()),
        &"/project/target/debug/build/project-ea75983148559682/out".into(),
        None,
    ));
}

#[test]
fn dir_does_contain_target() {
    assert!(dir_contains_target(
        &Some("x86_64-unknown-linux-gnu".into()),
        &"/project/target/x86_64-unknown-linux-gnu/debug/build/project-0147aca016480b9d/out".into(),
        None,
    ));
}

#[test]
fn dir_does_not_contain_target_with_custom_target_dir() {
    assert!(!dir_contains_target(
        &Some("x86_64-unknown-linux-gnu".into()),
        &"/project/custom/debug/build/project-ea75983148559682/out".into(),
        Some("custom".into()),
    ));
}

#[test]
fn dir_does_contain_target_with_custom_target_dir() {
    assert!(dir_contains_target(
        &Some("x86_64-unknown-linux-gnu".into()),
        &"/project/custom/x86_64-unknown-linux-gnu/debug/build/project-0147aca016480b9d/out".into(),
        Some("custom".into()),
    ));
}

#[test]
fn dir_without_triple_never_contains_target() {
    assert!(!dir_contains_target(
        &None,
        &"/project/target/x86_64-unknown-linux-gnu/debug/build/project-0147aca016480b9d/out".into(),
        None,
    ));
}

#[test]
fn scratch_dir_is_beneath_output_dir() {
    let out = resolve_scratch_dir(
        &Some("x86_64-unknown-linux-gnu".into()),
        &"/project/target/debug/build/pkg/out".into(),
        None,
    );
    assert_eq!(out, "/project/target/debug/build/pkg/out/probe-artifacts");
}

#[test]
fn scratch_dir_nests_deeper_inside_target_tree() {
    let out = resolve_scratch_dir(
        &Some("x86_64-unknown-linux-gnu".into()),
        &"/project/target/x86_64-unknown-linux-gnu/debug/build/pkg/out".into(),
        None,
    );
    assert_eq!(
        out,
        "/project/target/x86_64-unknown-linux-gnu/debug/build/pkg/out/probe-artifacts/probe-artifacts"
    );
    let out = resolve_scratch_dir(
        &None,
        &"/project/target/x86_64-unknown-linux-gnu/debug/build/pkg/out".into(),
        None,
    );
    assert_eq!(
        out,
        "/project/target/x86_64-unknown-linux-gnu/debug/build/pkg/out/probe-artifacts"
    );
}
