//! A library for reading and updating the semantic version stored in a
//! package manifest: a `major.minor.patch[.tag]` version value, and a
//! formatting-preserving edit of the `package.version` field of a TOML
//! manifest.

pub mod cmd;
pub mod digits;
pub mod manifest;
pub mod version;

pub use cmd::Cmd;
pub use cmd::Command;
pub use cmd::RunError;
pub use cmd::RunOutcome;
pub use manifest::ManifestError;

pub use version::Version;
pub use version::VersionField;
pub use version::VersionParseError;
