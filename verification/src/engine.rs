//! The probe engine: snippet synthesis, the outcome cache, the feature-flag
//! set, and the version/channel query facade.
//!
//! The engine decides; the caller compiles.  A probe begins with
//! [`AutoCfg::begin_probe`], which synthesizes the snippet and consults the
//! cache.  On a miss the caller compiles the returned snippet text and hands
//! the exit status back to [`AutoCfg::complete_probe`]; any failure to
//! compile means "construct unsupported", never an error.

use vstd::prelude::*;

use crate::channel::Channel;
use crate::inspect::ToolchainReport;
use crate::version::Version;

verus! {

/// The construct kinds a probe can test.
#[derive(Clone, Copy, Debug, PartialEq, Eq, Structural)]
pub enum ProbeKind {
    /// A dotted namespace path: does it resolve to an item?
    Path,
    /// A bound over a placeholder type: does it resolve as a supertrait?
    TraitBound,
    /// A full type expression: is it well-formed, as a parameter type?
    Type,
    /// An expression: does it type-check, evaluated and discarded?
    Expression,
    /// An expression that must additionally be compile-time evaluable.
    Constant,
    /// A top-level library unit of the toolchain's own distribution.
    SysrootCrate,
}

/// The feature-directive header line for one unstable feature name.
pub open spec fn spec_feature_line(f: Seq<char>) -> Seq<char> {
    "#![feature("@ + f + ")]\n"@
}

/// The header of a snippet: one feature directive per enabled feature, in
/// the order the features were enabled.
pub open spec fn spec_feature_header(fs: Seq<Seq<char>>) -> Seq<char>
    decreases fs.len(),
{
    if fs.len() == 0 {
        Seq::empty()
    } else {
        spec_feature_header(fs.drop_last()) + spec_feature_line(fs.last())
    }
}

/// The body of a snippet: the payload embedded in the minimal program shape
/// that tests its kind.
pub open spec fn spec_body(kind: ProbeKind, payload: Seq<char>) -> Seq<char> {
    match kind {
        ProbeKind::Path => "pub use "@ + payload + ";\n"@,
        ProbeKind::TraitBound => "pub trait Probe: "@ + payload + " {}\n"@,
        ProbeKind::Type => "pub fn probe(_it: "@ + payload + ") {}\n"@,
        ProbeKind::Expression => "fn main() { let _ = "@ + payload + "; }\n"@,
        ProbeKind::Constant => "pub const PROBE: () = ((), "@ + payload + ").0;\n"@,
        ProbeKind::SysrootCrate => "extern crate "@ + payload + " as probe_root;\n"@,
    }
}

/// The exact snippet text for a probe, which is also its cache key: the
/// feature-directive header, the minimal-runtime line when that mode is
/// active, and the kind's body embedding the payload.
pub open spec fn spec_snippet(
    kind: ProbeKind,
    payload: Seq<char>,
    fs: Seq<Seq<char>>,
    no_std: bool,
) -> Seq<char> {
    spec_feature_header(fs) + (if no_std {
        "#![no_std]\n"@
    } else {
        Seq::<char>::empty()
    }) + spec_body(kind, payload)
}

/// The mapping an outcome list denotes: each recorded (snippet, outcome)
/// pair in order, later entries shadowing earlier ones.
pub open spec fn spec_cache_map(entries: Seq<(String, bool)>) -> Map<Seq<char>, bool>
    decreases entries.len(),
{
    if entries.len() == 0 {
        Map::empty()
    } else {
        spec_cache_map(entries.drop_last()).insert(entries.last().0@, entries.last().1)
    }
}

/// A key occurs in the denoted mapping exactly when some entry bears it,
/// and with unique keys the entry's outcome is the mapping's value.
pub proof fn lemma_cache_map_entry(entries: Seq<(String, bool)>, k: Seq<char>)
    ensures
        spec_cache_map(entries).contains_key(k) <==> (exists|i: int|
            0 <= i < entries.len() && entries[i].0@ == k),
        forall|i: int|
            (0 <= i < entries.len() && entries[i].0@ == k && (forall|j: int|
                i < j < entries.len() ==> entries[j].0@ != k)) ==> spec_cache_map(entries)[k]
                == entries[i].1,
    decreases entries.len(),
{
    if entries.len() > 0 {
        lemma_cache_map_entry(entries.drop_last(), k);
        assert(forall|i: int| 0 <= i < entries.len() - 1 ==> entries.drop_last()[i] == entries[i]);
        if entries.last().0@ == k {
            assert(entries[entries.len() - 1].0@ == k);
        }
    }
}

/// One step of the probe protocol.
pub enum ProbeStep {
    /// An identical snippet was probed before: its recorded outcome, with
    /// no compilation owed.
    Cached(bool),
    /// A cache miss: the snippet text to compile, whose exit status the
    /// caller hands to `complete_probe`.
    Compile(String),
}

/// The probe engine's persistent state: the discovered toolchain, the
/// resolved scratch directory, the root-namespace mode, the mutable set of
/// enabled unstable features, and the outcome cache.
pub struct AutoCfg {
    /// The resolved scratch directory for probe artifacts.
    out_dir: String,
    /// The toolchain's discovered version, fixed after construction.
    rustc_version: Version,
    /// The toolchain's discovered release channel, fixed after construction.
    rustc_channel: Channel,
    /// The target platform triple, absent when host and target coincide.
    target: Option<String>,
    /// Whether snippets assume the minimal runtime's root namespace.  Set
    /// once, by `record_std_detection` at the end of construction.
    no_std: bool,
    /// The currently enabled unstable feature names, in enabling order.
    /// Mutable only through `set_feature` and `unset_feature`.
    features: Vec<String>,
    /// The recorded probe outcomes, keyed by exact snippet text.  Grows
    /// only through `complete_probe`; an entry, once made, never changes.
    cache: Vec<(String, bool)>,
}

impl AutoCfg {
    /// The resolved scratch directory.
    pub closed spec fn spec_out_dir(self) -> String {
        self.out_dir
    }

    /// The toolchain's discovered version.
    pub closed spec fn spec_version(self) -> Version {
        self.rustc_version
    }

    /// The toolchain's discovered release channel.
    pub closed spec fn spec_channel(self) -> Channel {
        self.rustc_channel
    }

    /// The target platform triple, absent when host and target coincide.
    pub closed spec fn spec_target(self) -> Option<String> {
        self.target
    }

    /// Whether snippets assume the minimal runtime's root namespace.
    pub closed spec fn spec_no_std(self) -> bool {
        self.no_std
    }

    pub fn rustc_version(&self) -> (r: Version)
        ensures
            r == self.spec_version(),
    {
        self.rustc_version
    }

    pub fn rustc_channel(&self) -> (r: Channel)
        ensures
            r == self.spec_channel(),
    {
        self.rustc_channel
    }

    pub fn no_std(&self) -> (r: bool)
        ensures
            r == self.spec_no_std(),
    {
        self.no_std
    }

    pub fn target(&self) -> (r: &Option<String>)
        ensures
            *r == self.spec_target(),
    {
        &self.target
    }

    pub fn out_dir(&self) -> (r: &String)
        ensures
            *r == self.spec_out_dir(),
    {
        &self.out_dir
    }
    /// The enabled feature names, in the order they were enabled.
    pub closed spec fn feature_views(self) -> Seq<Seq<char>> {
        self.features@.map_values(|f: String| f@)
    }

    /// The recorded probe outcomes, keyed by exact snippet text.
    pub closed spec fn cache_map(self) -> Map<Seq<char>, bool> {
        spec_cache_map(self.cache@)
    }

    /// Well-formed: one outcome per snippet text, one entry per feature.
    /// Constructors establish it and every method keeps it; the fields it
    /// guards are private, so nothing else can touch them.
    pub closed spec fn wf(self) -> bool {
        &&& forall|i: int, j: int|
            0 <= i < j < self.cache@.len() ==> self.cache@[i].0@ != self.cache@[j].0@
        &&& forall|i: int, j: int|
            0 <= i < j < self.features@.len() ==> self.features@[i]@ != self.features@[j]@
    }

    /// The parts fixed at construction agree between two states.
    pub open spec fn same_config(self, other: AutoCfg) -> bool {
        &&& self.spec_out_dir() == other.spec_out_dir()
        &&& self.spec_version() == other.spec_version()
        &&& self.spec_channel() == other.spec_channel()
        &&& self.spec_target() == other.spec_target()
        &&& self.spec_no_std() == other.spec_no_std()
    }

    /// A feature name is currently enabled.
    pub open spec fn spec_has_feature(self, f: Seq<char>) -> bool {
        exists|i: int| 0 <= i < self.feature_views().len() && self.feature_views()[i] == f
    }

    /// An engine for an inspected toolchain, with an empty cache, no
    /// features enabled, and the full standard root assumed.
    pub fn new(report: &ToolchainReport, out_dir: String, target: Option<String>) -> (r: AutoCfg)
        ensures
            r.spec_version() == report.version,
            r.spec_channel() == report.channel,
            r.spec_out_dir() == out_dir,
            r.spec_target() == target,
            r.spec_no_std() == false,
            r.feature_views() == Seq::<Seq<char>>::empty(),
            r.cache_map() == Map::<Seq<char>, bool>::empty(),
            r.wf(),
    {
        let r = AutoCfg {
            out_dir,
            rustc_version: report.version,
            rustc_channel: report.channel,
            target,
            no_std: false,
            features: Vec::new(),
            cache: Vec::new(),
        };
        proof {
            assert(r.feature_views() =~= Seq::<Seq<char>>::empty());
        }
        r
    }

    /// Record the startup standard-root detection: when the full standard
    /// root is not reachable, every later snippet assumes the minimal
    /// runtime.  Part of construction; the mode is fixed afterwards.
    pub fn record_std_detection(&mut self, std_present: bool)
        ensures
            final(self).spec_no_std() == !std_present,
            final(self).spec_out_dir() == old(self).spec_out_dir(),
            final(self).spec_version() == old(self).spec_version(),
            final(self).spec_channel() == old(self).spec_channel(),
            final(self).spec_target() == old(self).spec_target(),
            final(self).feature_views() == old(self).feature_views(),
            final(self).cache_map() == old(self).cache_map(),
            final(self).wf() == old(self).wf(),
    {
        self.no_std = !std_present;
    }

    /// Version facade: the discovered toolchain is at least major.minor.
    /// A pure comparison; no compiler invocation is involved.
    pub fn probe_rustc_version(&self, major: usize, minor: usize) -> (r: bool)
        ensures
            r == self.spec_version().spec_at_least(major, minor),
    {
        self.rustc_version.at_least(major, minor)
    }

    /// Channel facade: the discovered channel is at least the required one.
    /// A pure comparison; no compiler invocation is involved.
    pub fn probe_rustc_channel(&self, channel: Channel) -> (r: bool)
        ensures
            r == self.spec_channel().spec_at_least(channel),
    {
        self.rustc_channel.at_least(&channel)
    }

    /// The given path placed under the root namespace the toolchain offers:
    /// the minimal runtime's root in no-std mode, the full standard root
    /// otherwise.
    pub fn core_std(&self, path: &str) -> (r: String)
        ensures
            r@ == (if self.spec_no_std() {
                "core"@
            } else {
                "std"@
            }) + "::"@ + path@,
    {
        let mut out = if self.no_std {
            String::from_str("core")
        } else {
            String::from_str("std")
        };
        out.append("::");
        out.append(path);
        out
    }

    /// The standard root probes as reachable exactly when the engine is not
    /// in minimal-runtime mode.
    pub fn assert_std(&self, probe_result: bool)
        requires
            probe_result == !self.spec_no_std(),
    {
        assert(probe_result == !self.no_std);
    }

    /// A version-gated probe answers true exactly when the toolchain is at
    /// least the given version.
    pub fn assert_min(&self, major: usize, minor: usize, probe_result: bool)
        requires
            probe_result == self.spec_version().spec_at_least(major, minor),
    {
        assert(probe_result == self.rustc_version.spec_at_least(major, minor));
    }

    /// On its own channel, a channel-conditional probe answers true.
    pub fn assert_on_channel(&self, channel: Channel, probe_result: bool)
        requires
            self.spec_channel() == channel ==> probe_result,
    {
        if self.rustc_channel == channel {
            assert(probe_result);
        }
    }

    /// A feature name is currently enabled.
    pub fn has_feature(&self, name: &str) -> (r: bool)
        requires
            self.wf(),
        ensures
            r == self.spec_has_feature(name@),
    {
        let wanted = String::from_str(name);
        let mut i: usize = 0;
        while i < self.features.len()
            invariant
                i <= self.features@.len(),
                wanted@ == name@,
                forall|k: int| 0 <= k < i ==> self.features@[k]@ != name@,
            decreases self.features@.len() - i,
        {
            if self.features[i] == wanted {
                proof {
                    assert(self.feature_views()[i as int] == name@);
                }
                return true;
            }
            i += 1;
        }
        proof {
            assert(forall|k: int|
                0 <= k < self.feature_views().len() ==> self.feature_views()[k]
                    == self.features@[k]@);
        }
        false
    }

    /// Enable an unstable feature for every subsequent probe snippet.
    /// Enabling an already enabled feature changes nothing.
    pub fn set_feature(&mut self, name: &str)
        requires
            old(self).wf(),
        ensures
            final(self).wf(),
            final(self).same_config(*old(self)),
            final(self).cache_map() == old(self).cache_map(),
            old(self).spec_has_feature(name@) ==> final(self).feature_views()
                == old(self).feature_views(),
            !old(self).spec_has_feature(name@) ==> final(self).feature_views()
                == old(self).feature_views().push(name@),
    {
        if !self.has_feature(name) {
            self.features.push(String::from_str(name));
            proof {
                assert(self.feature_views() =~= old(self).feature_views().push(name@));
                assert forall|a: int, b: int|
                    0 <= a < b < self.features@.len() implies self.features@[a]@
                    != self.features@[b]@ by {
                    if b == self.features@.len() - 1 {
                        assert(self.features@[b]@ == name@);
                        assert(old(self).feature_views()[a] == old(self).features@[a]@);
                        assert(old(self).feature_views()[a] != name@);
                    } else {
                        assert(self.features@[a] == old(self).features@[a]);
                        assert(self.features@[b] == old(self).features@[b]);
                    }
                }
            }
        }
    }

    /// Disable an unstable feature again.  Disabling one that is not
    /// enabled changes nothing; otherwise exactly its entry leaves the set.
    pub fn unset_feature(&mut self, name: &str)
        requires
            old(self).wf(),
        ensures
            final(self).wf(),
            final(self).same_config(*old(self)),
            final(self).cache_map() == old(self).cache_map(),
            !old(self).spec_has_feature(name@) ==> final(self).feature_views()
                == old(self).feature_views(),
            old(self).spec_has_feature(name@) ==> (exists|j: int|
                0 <= j < old(self).feature_views().len() && old(self).feature_views()[j] == name@
                    && final(self).feature_views() == old(self).feature_views().remove(j)),
    {
        let wanted = String::from_str(name);
        let mut i: usize = 0;
        while i < self.features.len()
            invariant
                *self == *old(self),
                old(self).wf(),
                i <= self.features@.len(),
                wanted@ == name@,
                forall|k: int| 0 <= k < i ==> self.features@[k]@ != name@,
            decreases self.features@.len() - i,
        {
            if self.features[i] == wanted {
                let ghost pre = self.features@;
                proof {
                    assert(old(self).feature_views()[i as int] == name@);
                }
                self.features.remove(i);
                proof {
                    assert(self.features@ =~= pre.remove(i as int));
                    assert(self.feature_views() =~= old(self).feature_views().remove(i as int));
                    pre.remove_ensures(i as int);
                    assert forall|a: int, b: int|
                        0 <= a < b < self.features@.len() implies self.features@[a]@
                        != self.features@[b]@ by {
                        assert(pre.remove(i as int)[a] == (if a < i {
                            pre[a]
                        } else {
                            pre[a + 1]
                        }));
                        assert(pre.remove(i as int)[b] == (if b < i {
                            pre[b]
                        } else {
                            pre[b + 1]
                        }));
                    }
                }
                return ;
            }
            i += 1;
        }
    }

    /// Synthesize the exact snippet text for a probe, which is also its
    /// cache key: feature directives, the minimal-runtime line when that
    /// mode is active, then the kind's body embedding the payload.
    pub fn build_snippet(&self, kind: ProbeKind, payload: &str) -> (r: String)
        ensures
            r@ == spec_snippet(kind, payload@, self.feature_views(), self.spec_no_std()),
    {
        let mut out = String::new();
        let mut i: usize = 0;
        while i < self.features.len()
            invariant
                i <= self.features@.len(),
                out@ == spec_feature_header(self.feature_views().take(i as int)),
            decreases self.features@.len() - i,
        {
            out.append("#![feature(");
            out.append(self.features[i].as_str());
            out.append(")]\n");
            i += 1;
            proof {
                let fv = self.feature_views();
                assert(fv.take(i as int).drop_last() =~= fv.take(i as int - 1));
                assert(fv.take(i as int).last() == fv[i as int - 1]);
                assert(out@ =~= spec_feature_header(fv.take(i as int - 1)) + spec_feature_line(
                    fv[i as int - 1],
                ));
            }
        }
        proof {
            assert(self.feature_views().take(self.features@.len() as int) =~= self.feature_views());
        }
        if self.no_std {
            out.append("#![no_std]\n");
        }
        match kind {
            ProbeKind::Path => {
                out.append("pub use ");
                out.append(payload);
                out.append(";\n");
            },
            ProbeKind::TraitBound => {
                out.append("pub trait Probe: ");
                out.append(payload);
                out.append(" {}\n");
            },
            ProbeKind::Type => {
                out.append("pub fn probe(_it: ");
                out.append(payload);
                out.append(") {}\n");
            },
            ProbeKind::Expression => {
                out.append("fn main() { let _ = ");
                out.append(payload);
                out.append("; }\n");
            },
            ProbeKind::Constant => {
                out.append("pub const PROBE: () = ((), ");
                out.append(payload);
                out.append(").0;\n");
            },
            ProbeKind::SysrootCrate => {
                out.append("extern crate ");
                out.append(payload);
                out.append(" as probe_root;\n");
            },
        }
        proof {
            assert(out@ =~= spec_snippet(kind, payload@, self.feature_views(), self.no_std));
        }
        out
    }

    /// The outcome recorded for a snippet text, if any.
    pub fn cached_outcome(&self, snippet: &String) -> (r: Option<bool>)
        requires
            self.wf(),
        ensures
            match r {
                Some(b) => self.cache_map().contains_key(snippet@) && b
                    == self.cache_map().index(snippet@),
                None => !self.cache_map().contains_key(snippet@),
            },
    {
        let mut i: usize = 0;
        while i < self.cache.len()
            invariant
                self.wf(),
                i <= self.cache@.len(),
                forall|k: int| 0 <= k < i ==> self.cache@[k].0@ != snippet@,
            decreases self.cache@.len() - i,
        {
            if self.cache[i].0 == *snippet {
                proof {
                    lemma_cache_map_entry(self.cache@, snippet@);
                }
                return Some(self.cache[i].1);
            }
            i += 1;
        }
        proof {
            lemma_cache_map_entry(self.cache@, snippet@);
        }
        None
    }

    /// Step one of a probe: synthesize the snippet and consult the cache.
    /// A hit carries the recorded boolean and owes no compilation; a miss
    /// carries the exact snippet text to compile.
    pub fn begin_probe(&self, kind: ProbeKind, payload: &str) -> (r: ProbeStep)
        requires
            self.wf(),
        ensures
            ({
                let snip = spec_snippet(kind, payload@, self.feature_views(), self.spec_no_std());
                match r {
                    ProbeStep::Cached(b) => self.cache_map().contains_key(snip) && b
                        == self.cache_map()[snip],
                    ProbeStep::Compile(text) => text@ == snip && !self.cache_map().contains_key(
                        snip,
                    ),
                }
            }),
    {
        let snippet = self.build_snippet(kind, payload);
        match self.cached_outcome(&snippet) {
            Some(b) => ProbeStep::Cached(b),
            None => ProbeStep::Compile(snippet),
        }
    }

    /// Step two, after a cache miss was compiled: the exit status alone
    /// decides.  Success means the construct is supported; any failure,
    /// internal compiler faults included, means it is not — never an
    /// error.  The outcome is recorded under the snippet's exact text.
    pub fn complete_probe(&mut self, snippet: String, compile_ok: bool) -> (r: bool)
        requires
            old(self).wf(),
            !old(self).cache_map().contains_key(snippet@),
        ensures
            r == compile_ok,
            final(self).wf(),
            final(self).cache_map() == old(self).cache_map().insert(snippet@, compile_ok),
            final(self).same_config(*old(self)),
            final(self).feature_views() == old(self).feature_views(),
    {
        proof {
            lemma_cache_map_entry(old(self).cache@, snippet@);
        }
        self.cache.push((snippet, compile_ok));
        proof {
            assert(self.cache@.drop_last() =~= old(self).cache@);
        }
        compile_ok
    }
}

/// Probing is idempotent: completing a probe leaves exactly its outcome in
/// the cache under its snippet text, so with unchanged feature state and
/// mode a repeated probe of the same construct is a cache hit carrying the
/// same boolean — by `begin_probe`'s contract, no second compilation is
/// owed.
pub proof fn lemma_probe_idempotent(
    pre: AutoCfg,
    post: AutoCfg,
    kind: ProbeKind,
    payload: Seq<char>,
    outcome: bool,
)
    requires
        post.cache_map() == pre.cache_map().insert(
            spec_snippet(kind, payload, pre.feature_views(), pre.spec_no_std()),
            outcome,
        ),
        post.feature_views() == pre.feature_views(),
        post.spec_no_std() == pre.spec_no_std(),
    ensures
        post.cache_map().contains_key(
            spec_snippet(kind, payload, post.feature_views(), post.spec_no_std()),
        ),
        post.cache_map()[spec_snippet(kind, payload, post.feature_views(), post.spec_no_std())]
            == outcome,
{
}

/// Once recorded, a snippet's outcome never changes for the lifetime of
/// the engine: completing any later probe — necessarily of a snippet the
/// cache misses — leaves every existing entry exactly as it was.
pub proof fn lemma_cache_outcome_stable(
    pre: AutoCfg,
    post: AutoCfg,
    snippet: Seq<char>,
    outcome: bool,
    k: Seq<char>,
)
    requires
        !pre.cache_map().contains_key(snippet),
        post.cache_map() == pre.cache_map().insert(snippet, outcome),
        pre.cache_map().contains_key(k),
    ensures
        post.cache_map().contains_key(k),
        post.cache_map()[k] == pre.cache_map()[k],
{
}

/// Distinct feature states are distinct cache keys: a snippet synthesized
/// with one feature more is never the same text, so an outcome cached while
/// a feature was enabled cannot answer a probe made after disabling it.
pub proof fn lemma_feature_state_changes_key(
    kind: ProbeKind,
    payload: Seq<char>,
    fs: Seq<Seq<char>>,
    f: Seq<char>,
    no_std: bool,
)
    ensures
        spec_snippet(kind, payload, fs.push(f), no_std) != spec_snippet(kind, payload, fs, no_std),
{
    reveal_strlit("#![feature(");
    assert(fs.push(f).drop_last() =~= fs);
    assert(fs.push(f).last() == f);
    assert(spec_feature_header(fs.push(f)).len() == spec_feature_header(fs).len()
        + spec_feature_line(f).len());
    assert(spec_feature_line(f).len() >= 11);
    assert(spec_snippet(kind, payload, fs.push(f), no_std).len() > spec_snippet(
        kind,
        payload,
        fs,
        no_std,
    ).len());
}

} // verus!
