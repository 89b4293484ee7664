//! Toolchain capability probing.
//!
//! A build step can ask an installed compiler toolchain which language and
//! library constructs it actually supports, by compiling minimal synthetic
//! snippets and observing success or failure.  This crate holds the decision
//! logic: the version and release-channel models, the scratch-directory
//! resolution, snippet synthesis, the probe cache, and the feature-flag set.
//! Spawning the compiler itself is left to the caller, which feeds each
//! invocation's exit status back into the engine.

pub mod artifact;
pub mod channel;
pub mod dirs;
pub mod engine;
pub mod inspect;
pub mod text;
pub mod version;

pub use channel::Channel;
pub use dirs::dir_contains_target;
pub use dirs::resolve_scratch_dir;
pub use engine::AutoCfg;
pub use engine::ProbeKind;
pub use engine::ProbeStep;
pub use inspect::inspect_version_output;
pub use inspect::ToolchainReport;
pub use version::ParseError;
pub use version::Version;
