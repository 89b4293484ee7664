//! The probe engine driven against scripted toolchains: caching,
//! feature-flag mutation, gating, and snippet synthesis.

use autocfg::AutoCfg;
use autocfg::Channel;
use autocfg::ProbeKind;
use autocfg::ProbeStep;
use autocfg::ToolchainReport;
use autocfg::Version;

fn engine(version: Version, channel: Channel) -> AutoCfg {
    let report = ToolchainReport { version, channel };
    AutoCfg::new(&report, "/project/target/probe-artifacts".into(), None)
}

/// A scripted toolchain: accepts a snippet exactly when every feature
/// directive in it is tolerated (nightly and dev only) and the embedded
/// construct is in its supported list.
fn scripted_compile(channel: Channel, supported: &[&str], snippet: &str) -> bool {
    if snippet.contains("#![feature(") && !channel.at_least(&Channel::Nightly) {
        return false;
    }
    supported.iter().any(|c| snippet.contains(c))
}

fn probe_counting(
    ac: &mut AutoCfg,
    channel: Channel,
    supported: &[&str],
    kind: ProbeKind,
    payload: &str,
    invocations: &mut usize,
) -> bool {
    match ac.begin_probe(kind, payload) {
        ProbeStep::Cached(b) => b,
        ProbeStep::Compile(snippet) => {
            *invocations += 1;
            let ok = scripted_compile(channel, supported, &snippet);
            ac.complete_probe(snippet, ok)
        }
    }
}

#[test]
fn repeated_probe_invokes_once() {
    let mut ac = engine(Version::new(1, 50, 0), Channel::Stable);
    let mut invocations = 0;
    let supported = ["std::convert::AsRef"];
    let first = probe_counting(
        &mut ac,
        Channel::Stable,
        &supported,
        ProbeKind::Path,
        "std::convert::AsRef",
        &mut invocations,
    );
    let second = probe_counting(
        &mut ac,
        Channel::Stable,
        &supported,
        ProbeKind::Path,
        "std::convert::AsRef",
        &mut invocations,
    );
    assert!(first);
    assert_eq!(first, second);
    assert_eq!(invocations, 1);
}

#[test]
fn distinct_payloads_invoke_separately() {
    let mut ac = engine(Version::new(1, 50, 0), Channel::Stable);
    let mut invocations = 0;
    let supported = ["std::convert::AsRef"];
    assert!(probe_counting(
        &mut ac,
        Channel::Stable,
        &supported,
        ProbeKind::Path,
        "std::convert::AsRef",
        &mut invocations,
    ));
    assert!(!probe_counting(
        &mut ac,
        Channel::Stable,
        &supported,
        ProbeKind::Path,
        "std::doesnt::Exist",
        &mut invocations,
    ));
    assert_eq!(invocations, 2);
}

#[test]
fn feature_toggle_is_not_answered_from_stale_cache() {
    let mut ac = engine(Version::new(1, 50, 0), Channel::Nightly);
    let mut invocations = 0;
    // The scripted toolchain supports the trait only when its feature
    // directive is present in the snippet.
    let supported = ["#![feature(step_trait)]"];

    ac.set_feature("step_trait");
    let with_feature = probe_counting(
        &mut ac,
        Channel::Nightly,
        &supported,
        ProbeKind::TraitBound,
        "std::iter::Step",
        &mut invocations,
    );
    assert!(with_feature);
    assert_eq!(invocations, 1);

    ac.unset_feature("step_trait");
    let without_feature = probe_counting(
        &mut ac,
        Channel::Nightly,
        &supported,
        ProbeKind::TraitBound,
        "std::iter::Step",
        &mut invocations,
    );
    assert!(!without_feature);
    assert_eq!(invocations, 2);
}

#[test]
fn version_gated_probe() {
    // A construct introduced at (1, 50, 0).
    let before = engine(Version::new(1, 49, 3), Channel::Stable);
    let at = engine(Version::new(1, 50, 0), Channel::Stable);
    let after = engine(Version::new(1, 51, 0), Channel::Stable);
    assert!(!before.probe_rustc_version(1, 50));
    assert!(at.probe_rustc_version(1, 50));
    assert!(after.probe_rustc_version(1, 50));
}

#[test]
fn channel_gated_probe_fails_closed() {
    let channels = [Channel::Stable, Channel::Beta, Channel::Nightly, Channel::Dev];
    // A nightly-only construct: the scripted toolchain only accepts it with
    // its feature directive present, and rejects feature directives outside
    // nightly and dev.
    let supported = ["#![feature(step_trait)]"];
    for &channel in &channels {
        // Feature disabled: false on every channel.
        let mut ac = engine(Version::new(1, 50, 0), channel);
        let mut invocations = 0;
        assert!(!probe_counting(
            &mut ac,
            channel,
            &supported,
            ProbeKind::TraitBound,
            "std::iter::Step",
            &mut invocations,
        ));
        // Feature enabled: true only on nightly and dev, still a plain
        // false on stable and beta.
        ac.set_feature("step_trait");
        let gated = probe_counting(
            &mut ac,
            channel,
            &supported,
            ProbeKind::TraitBound,
            "std::iter::Step",
            &mut invocations,
        );
        assert_eq!(gated, channel.at_least(&Channel::Nightly));
    }
}

#[test]
fn absent_sysroot_crate_probes_false() {
    for version in [Version::new(1, 0, 0), Version::new(1, 36, 0), Version::new(1, 93, 0)] {
        let mut ac = engine(version, Channel::Stable);
        let mut invocations = 0;
        // The scripted toolchain supports no sysroot unit of that name.
        let supported: [&str; 0] = [];
        assert!(!probe_counting(
            &mut ac,
            Channel::Stable,
            &supported,
            ProbeKind::SysrootCrate,
            "doesnt_exist",
            &mut invocations,
        ));
    }
}

#[test]
fn probe_channel_facade() {
    let stable = engine(Version::new(1, 50, 0), Channel::Stable);
    let beta = engine(Version::new(1, 50, 0), Channel::Beta);
    let nightly = engine(Version::new(1, 50, 0), Channel::Nightly);
    let dev = engine(Version::new(1, 50, 0), Channel::Dev);

    assert!(stable.probe_rustc_channel(Channel::Stable));
    assert!(beta.probe_rustc_channel(Channel::Stable));
    assert!(nightly.probe_rustc_channel(Channel::Stable));
    assert!(!stable.probe_rustc_channel(Channel::Beta));
    assert!(beta.probe_rustc_channel(Channel::Beta));
    assert!(nightly.probe_rustc_channel(Channel::Beta));
    assert!(!stable.probe_rustc_channel(Channel::Nightly));
    assert!(!beta.probe_rustc_channel(Channel::Nightly));
    assert!(nightly.probe_rustc_channel(Channel::Nightly));
    assert!(!nightly.probe_rustc_channel(Channel::Dev));
    assert!(dev.probe_rustc_channel(Channel::Dev));
}

#[test]
fn snippet_text_is_exact() {
    let mut ac = engine(Version::new(1, 50, 0), Channel::Nightly);
    assert_eq!(
        ac.build_snippet(ProbeKind::Path, "std::i128"),
        "pub use std::i128;\n"
    );
    assert_eq!(
        ac.build_snippet(ProbeKind::Expression, "\"test\".trim_start()"),
        "fn main() { let _ = \"test\".trim_start(); }\n"
    );
    assert_eq!(
        ac.build_snippet(ProbeKind::Constant, "1 + 2 + 3"),
        "pub const PROBE: () = ((), 1 + 2 + 3).0;\n"
    );
    assert_eq!(
        ac.build_snippet(ProbeKind::SysrootCrate, "alloc"),
        "extern crate alloc as probe_root;\n"
    );
    ac.set_feature("i128_type");
    assert_eq!(
        ac.build_snippet(ProbeKind::Type, "i128"),
        "#![feature(i128_type)]\npub fn probe(_it: i128) {}\n"
    );
    ac.record_std_detection(false);
    assert_eq!(
        ac.build_snippet(ProbeKind::TraitBound, "core::ops::Add"),
        "#![feature(i128_type)]\n#![no_std]\npub trait Probe: core::ops::Add {}\n"
    );
}

#[test]
fn core_std_follows_no_std_mode() {
    let mut ac = engine(Version::new(1, 50, 0), Channel::Stable);
    assert_eq!(ac.core_std("ops::Add"), "std::ops::Add");
    ac.record_std_detection(false);
    assert_eq!(ac.core_std("ops::Add"), "core::ops::Add");
    ac.record_std_detection(true);
    assert_eq!(ac.core_std("ops::Add"), "std::ops::Add");
}

#[test]
fn feature_set_membership() {
    let mut ac = engine(Version::new(1, 50, 0), Channel::Nightly);
    assert!(!ac.has_feature("step_trait"));
    ac.set_feature("step_trait");
    ac.set_feature("step_trait");
    assert!(ac.has_feature("step_trait"));
    ac.set_feature("i128_type");
    ac.unset_feature("step_trait");
    assert!(!ac.has_feature("step_trait"));
    assert!(ac.has_feature("i128_type"));
    ac.unset_feature("i128_type");
    assert!(!ac.has_feature("i128_type"));
}

#[test]
fn engines_do_not_share_feature_state() {
    let mut first = engine(Version::new(1, 50, 0), Channel::Nightly);
    let second = engine(Version::new(1, 50, 0), Channel::Nightly);
    first.set_feature("step_trait");
    assert!(first.has_feature("step_trait"));
    assert!(!second.has_feature("step_trait"));
}

#[test]
fn helper_assertions_hold() {
    let ac = engine(Version::new(1, 50, 0), Channel::Beta);
    ac.assert_std(true);
    ac.assert_min(1, 50, true);
    ac.assert_min(1, 51, false);
    ac.assert_on_channel(Channel::Beta, true);
    ac.assert_on_channel(Channel::Nightly, false);
}

#[test]
fn artifact_names_follow_content() {
    assert_eq!(autocfg::artifact::artifact_name(""), "probe_cbf29ce484222325.rs");
    assert_eq!(autocfg::artifact::artifact_name("abc"), "probe_e71fa2190541574b.rs");
    assert_ne!(
        autocfg::artifact::artifact_name("pub use std::i128;\n"),
        autocfg::artifact::artifact_name("pub use std::i64;\n")
    );
}
