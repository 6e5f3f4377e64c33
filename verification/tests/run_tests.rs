use cargo_ver::Cmd;
use cargo_ver::Command;
use cargo_ver::ManifestError;
use cargo_ver::RunError;
use cargo_ver::RunOutcome;
use cargo_ver::Version;
use cargo_ver::VersionField;
use cargo_ver::VersionParseError;

fn cmd(c: Command) -> Cmd {
    Cmd {
        cmd: c,
        toml_path: String::from("Cargo.toml"),
    }
}

#[test]
fn end_to_end_bump_minor() {
    let text = "[package]\nversion = \"0.4.1\"\n";
    let out = cmd(Command::Bump(VersionField::Minor)).run_on_text(text);
    match out {
        RunOutcome::Updated { ref text, ref old, ref new } => {
            assert_eq!(text, "[package]\nversion = \"0.5.0\"\n");
            assert_eq!(old, "0.4.1");
            assert_eq!(new, "0.5.0");
        }
        ref other => panic!("unexpected outcome: {:?}", other),
    }
    assert_eq!(out.message("Cargo.toml"), "updated version: 0.4.1 -> 0.5.0");
}

#[test]
fn formatting_around_the_version_is_preserved() {
    let text = "# top comment\n\n[package]   # section comment\nname = \"demo\"\nversion   =   \"1.2.3\"   # keep me\nauthors = []\n\n[dependencies]\nfoo = { version = \"9.9.9\" }\n";
    let out = cmd(Command::Bump(VersionField::Patch)).run_on_text(text);
    match out {
        RunOutcome::Updated { text: ref new_text, .. } => {
            assert_eq!(*new_text, text.replace("\"1.2.3\"", "\"1.2.4\""));
        }
        ref other => panic!("unexpected outcome: {:?}", other),
    }
}

#[test]
fn single_quoted_version_is_read() {
    let text = "[package]\nversion = '1.2.3'\n";
    let out = cmd(Command::Get).run_on_text(text);
    assert_eq!(out, RunOutcome::Current(String::from("1.2.3")));
}

#[test]
fn get_reports_the_current_version() {
    let text = "[package]\nname = \"demo\"\nversion = \"3.1.4\"\n";
    let out = cmd(Command::Get).run_on_text(text);
    assert_eq!(out, RunOutcome::Current(String::from("3.1.4")));
    assert_eq!(out.message("Cargo.toml"), "3.1.4");
}

#[test]
fn setting_the_identical_version_changes_nothing() {
    let text = "[package]\nversion = \"1.2.3\"\n";
    let same = Version::parse("1.2.3").unwrap();
    let out = cmd(Command::SetTo(same)).run_on_text(text);
    assert_eq!(out, RunOutcome::NoChange(String::from("1.2.3")));
    assert_eq!(
        out.message("Cargo.toml"),
        "the new version is the same as the old one (1.2.3); no action taken"
    );
}

#[test]
fn setting_a_new_version_rewrites_the_field() {
    let text = "[package]\nversion = \"1.2.3\"\n";
    let v = Version::parse("2.0.0.beta").unwrap();
    let out = cmd(Command::SetTo(v)).run_on_text(text);
    match out {
        RunOutcome::Updated { ref text, ref old, ref new } => {
            assert_eq!(text, "[package]\nversion = \"2.0.0beta\"\n");
            assert_eq!(old, "1.2.3");
            assert_eq!(new, "2.0.0beta");
        }
        ref other => panic!("unexpected outcome: {:?}", other),
    }
}

#[test]
fn malformed_version_names_the_missing_field() {
    let text = "[package]\nversion = \"1.2\"\n";
    let out = cmd(Command::Bump(VersionField::Patch)).run_on_text(text);
    assert_eq!(
        out,
        RunOutcome::Failed(RunError::Version(VersionParseError::MissingField(
            VersionField::Patch
        )))
    );
    assert_eq!(
        out.message("Cargo.toml"),
        "the crate version field is invalid: the `patch` field is missing"
    );
}

#[test]
fn missing_package_section_is_reported_with_the_path() {
    let text = "[dependencies]\nfoo = \"1\"\n";
    let out = cmd(Command::Get).run_on_text(text);
    assert_eq!(
        out,
        RunOutcome::Failed(RunError::Manifest(ManifestError::MissingSection))
    );
    assert_eq!(
        out.message("/tmp/Cargo.toml"),
        "the manifest at /tmp/Cargo.toml does not contain a [package] section"
    );
}

#[test]
fn package_must_be_a_table() {
    let text = "package = 3\n";
    let out = cmd(Command::Get).run_on_text(text);
    assert_eq!(
        out,
        RunOutcome::Failed(RunError::Manifest(ManifestError::NotATable))
    );
    assert_eq!(
        out.message("here/Cargo.toml"),
        "unrecognized manifest at here/Cargo.toml: the `package` must be a table"
    );
}

#[test]
fn version_key_must_exist() {
    let text = "[package]\nname = \"demo\"\n";
    let out = cmd(Command::Get).run_on_text(text);
    assert_eq!(
        out,
        RunOutcome::Failed(RunError::Manifest(ManifestError::MissingField))
    );
    assert_eq!(
        out.message("Cargo.toml"),
        "the crate manifest is missing the version field"
    );
}

#[test]
fn version_must_be_a_string() {
    let text = "[package]\nversion = 1\n";
    let out = cmd(Command::Get).run_on_text(text);
    assert_eq!(
        out,
        RunOutcome::Failed(RunError::Manifest(ManifestError::NotAString))
    );
    assert_eq!(
        out.message("Cargo.toml"),
        "the crate manifest's `[package].version` field must be a string"
    );
}

#[test]
fn invalid_toml_reports_the_parser_message() {
    let text = "[package\nversion = \"1.2.3\"\n";
    let out = cmd(Command::Get).run_on_text(text);
    match out {
        RunOutcome::Failed(RunError::Manifest(ManifestError::Parse(ref m))) => {
            assert!(!m.is_empty());
        }
        ref other => panic!("unexpected outcome: {:?}", other),
    }
}

#[test]
fn get_renders_the_parsed_version() {
    let text = "[package]\nversion = \"01.2.3\"\n";
    let out = cmd(Command::Get).run_on_text(text);
    assert_eq!(out, RunOutcome::Current(String::from("1.2.3")));
}

#[test]
fn bump_at_the_limit_fails() {
    let text = "[package]\nversion = \"4294967295.0.0\"\n";
    let out = cmd(Command::Bump(VersionField::Major)).run_on_text(text);
    assert_eq!(out, RunOutcome::Failed(RunError::Overflow(VersionField::Major)));
    assert_eq!(
        out.message("Cargo.toml"),
        "the `major` field is already at its largest value"
    );
}
