//! The resolved user intent and the executor: from manifest text and a
//! command to the outcome of one run.

use crate::manifest::manifest_has_package;
use crate::manifest::manifest_has_version_key;
use crate::manifest::manifest_ok;
use crate::manifest::manifest_package_is_table;
use crate::manifest::manifest_version;
use crate::manifest::manifest_with_version;
use crate::manifest::plain_toml_text;
use crate::manifest::read_manifest_version;
use crate::manifest::token_replaced;
use crate::manifest::write_manifest_version;
use crate::manifest::ManifestError;
use crate::version::field_at_limit;
use crate::version::spec_bump;
use crate::version::spec_format;
use crate::version::spec_parse;
use crate::version::Version;
use crate::version::VersionField;
use crate::version::VersionParseError;
use crate::version::VersionView;
use vstd::prelude::*;
use vstd::string::StringExecFns;

verus! {

/// The resolved user intent: report the version, set it outright, or bump
/// one component.
#[derive(Debug)]
pub enum Command {
    Get,
    SetTo(Version),
    Bump(VersionField),
}

/// Why a run failed.
#[derive(PartialEq, Eq, Debug)]
pub enum RunError {
    /// The manifest could not be read or has the wrong shape.
    Manifest(ManifestError),
    /// The manifest's version string does not parse.
    Version(VersionParseError),
    /// Bumping would carry the component past the largest representable
    /// value.
    Overflow(VersionField),
}

/// What one run of the tool decided, for the caller to print and, for
/// `Updated`, to write back.
#[derive(PartialEq, Eq, Debug)]
pub enum RunOutcome {
    /// The current version, rendered; nothing is written.
    Current(String),
    /// The computed version equals the current one, rendered; nothing is
    /// written.
    NoChange(String),
    /// The manifest text rewritten with the new version, and both versions
    /// rendered.
    Updated { text: String, old: String, new: String },
    /// The run failed; nothing is written.
    Failed(RunError),
}

/// A command together with the path of the manifest it operates on.
pub struct Cmd {
    pub cmd: Command,
    pub toml_path: String,
}

/// The error that [`run_post`] demands when the version cannot be read:
/// exactly the classification of the manifest's shape.
pub open spec fn manifest_err_post(text: Seq<char>, e: ManifestError) -> bool {
    &&& ((e matches ManifestError::Parse(m)) <==> !manifest_ok(text))
    &&& (e == ManifestError::MissingSection <==> manifest_ok(text) && !manifest_has_package(text))
    &&& (e == ManifestError::NotATable <==> manifest_has_package(text)
        && !manifest_package_is_table(text))
    &&& (e == ManifestError::MissingField <==> manifest_package_is_table(text)
        && !manifest_has_version_key(text))
    &&& (e == ManifestError::NotAString <==> manifest_has_version_key(text) && manifest_version(
        text,
    ) is None)
}

/// The outcome owed once the old version is known and a new one is computed:
/// a no-change notice when they are equal, otherwise the rewritten text,
/// with every byte outside the version token kept.
pub open spec fn change_post(
    text: Seq<char>,
    oldv: VersionView,
    newv: VersionView,
    r: RunOutcome,
) -> bool {
    if newv == oldv {
        r matches RunOutcome::NoChange(s) && s@ == spec_format(oldv)
    } else {
        r matches RunOutcome::Updated { text: t, old, new } && old@ == spec_format(oldv) && new@
            == spec_format(newv) && t@ == manifest_with_version(text, spec_format(newv)) && (
        plain_toml_text(spec_format(newv)) ==> token_replaced(text, t@, spec_format(newv)))
    }
}

/// The outcome owed for each command once the old version is parsed.
pub open spec fn command_post(
    cmd: Command,
    text: Seq<char>,
    oldv: VersionView,
    r: RunOutcome,
) -> bool {
    match cmd {
        Command::Get => r matches RunOutcome::Current(s) && s@ == spec_format(oldv),
        Command::SetTo(v) => change_post(text, oldv, v@, r),
        Command::Bump(f) => if field_at_limit(oldv, f) {
            r == RunOutcome::Failed(RunError::Overflow(f))
        } else {
            change_post(text, oldv, spec_bump(oldv, f), r)
        },
    }
}

/// The full contract of one run over manifest text: which error comes on
/// which manifest, and which outcome on which command.
pub open spec fn run_post(cmd: Command, text: Seq<char>, r: RunOutcome) -> bool {
    match manifest_version(text) {
        None => r matches RunOutcome::Failed(e) && e matches RunError::Manifest(me)
            && manifest_err_post(text, me),
        Some(vs) => match spec_parse(vs) {
            Err(pe) => r == RunOutcome::Failed(RunError::Version(pe)),
            Ok(oldv) => command_post(cmd, text, oldv, r),
        },
    }
}

/// Setting the version to the value the manifest already holds never
/// rewrites the manifest: the run ends in a no-change notice.
pub proof fn lemma_noop_set_never_writes(v: Version, text: Seq<char>, r: RunOutcome)
    requires
        run_post(Command::SetTo(v), text, r),
        manifest_version(text) matches Some(vs) && spec_parse(vs) == Ok::<
            VersionView,
            VersionParseError,
        >(v@),
    ensures
        r matches RunOutcome::NoChange(s) && s@ == spec_format(v@),
{
}

/// A run that rewrites the manifest changes nothing but the one version
/// token: some split of the old text around that token carries over to the
/// new text around the quoted new version.
pub proof fn lemma_update_touches_only_the_version(cmd: Command, text: Seq<char>, r: RunOutcome)
    requires
        run_post(cmd, text, r),
        r matches RunOutcome::Updated { text: t, old, new } && plain_toml_text(new@),
    ensures
        r matches RunOutcome::Updated { text: t, old, new } ==> token_replaced(text, t@, new@),
{
}

/// The description of a run failure; `path` names the manifest read.
pub open spec fn spec_run_error_message(e: RunError, path: Seq<char>) -> Seq<char> {
    match e {
        RunError::Manifest(me) => crate::manifest::spec_manifest_error_message(me, path),
        RunError::Version(pe) => "the crate version field is invalid: "@
            + crate::version::spec_parse_error_message(pe),
        RunError::Overflow(f) => "the `"@ + crate::version::spec_field_name(f)
            + "` field is already at its largest value"@,
    }
}

/// The line a run reports for its outcome; `path` names the manifest read.
pub open spec fn spec_outcome_message(o: RunOutcome, path: Seq<char>) -> Seq<char> {
    match o {
        RunOutcome::Current(s) => s@,
        RunOutcome::NoChange(s) => "the new version is the same as the old one ("@ + s@
            + "); no action taken"@,
        RunOutcome::Updated { text, old, new } => "updated version: "@ + old@ + " -> "@ + new@,
        RunOutcome::Failed(e) => spec_run_error_message(e, path),
    }
}

impl RunError {
    /// The failure as reported to the user.
    pub fn message(&self, path: &str) -> (r: String)
        ensures
            r@ == spec_run_error_message(*self, path@),
    {
        match self {
            RunError::Manifest(me) => me.message(path),
            RunError::Version(pe) => {
                let mut out = "the crate version field is invalid: ".to_owned();
                out.append(pe.message().as_str());
                out
            },
            RunError::Overflow(f) => {
                let mut out = "the `".to_owned();
                out.append(f.name());
                out.append("` field is already at its largest value");
                out
            },
        }
    }
}

impl RunOutcome {
    /// The line to report for this outcome.
    pub fn message(&self, path: &str) -> (r: String)
        ensures
            r@ == spec_outcome_message(*self, path@),
    {
        match self {
            RunOutcome::Current(s) => s.clone(),
            RunOutcome::NoChange(s) => {
                let mut out = "the new version is the same as the old one (".to_owned();
                out.append(s.as_str());
                out.append("); no action taken");
                out
            },
            RunOutcome::Updated { text: _, old, new } => {
                let mut out = "updated version: ".to_owned();
                out.append(old.as_str());
                out.append(" -> ");
                out.append(new.as_str());
                out
            },
            RunOutcome::Failed(e) => e.message(path),
        }
    }
}

impl Cmd {
    /// Runs the command against manifest text: reads `package.version`,
    /// computes the new version, and reports what to print and what, if
    /// anything, to write back.
    pub fn run_on_text(&self, text: &str) -> (r: RunOutcome)
        ensures
            run_post(self.cmd, text@, r),
    {
        let vs = match read_manifest_version(text) {
            Ok(s) => s,
            Err(e) => {
                return RunOutcome::Failed(RunError::Manifest(e));
            },
        };
        let old = match Version::parse(vs.as_str()) {
            Ok(v) => v,
            Err(e) => {
                return RunOutcome::Failed(RunError::Version(e));
            },
        };
        let new_version = match &self.cmd {
            Command::Get => {
                return RunOutcome::Current(old.format());
            },
            Command::SetTo(v) => v.clone(),
            Command::Bump(f) => {
                if old.at_limit(*f) {
                    return RunOutcome::Failed(RunError::Overflow(*f));
                }
                let mut nv = old.clone();
                match f {
                    VersionField::Major => nv.bump_major(),
                    VersionField::Minor => nv.bump_minor(),
                    VersionField::Patch => nv.bump_patch(),
                }
                proof {
                    assert(nv@ == spec_bump(old@, *f));
                }
                nv
            },
        };
        if new_version == old {
            return RunOutcome::NoChange(old.format());
        }
        let rendered = new_version.format();
        let out = write_manifest_version(text, rendered.as_str());
        RunOutcome::Updated { text: out, old: old.format(), new: rendered }
    }
}

} // verus!
