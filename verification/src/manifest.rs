//! Reading and rewriting the `package.version` field of TOML manifest text.
//!
//! The TOML parsing itself is done by the `toml_edit` crate behind the two
//! trusted functions at the bottom of this file; everything the rest of the
//! library proves about manifest text is stated over the named results
//! declared here.

use vstd::prelude::*;
use vstd::string::StringExecFns;

verus! {

/// Whether `t` is a syntactically valid TOML document.
pub uninterp spec fn manifest_ok(t: Seq<char>) -> bool;

/// Whether `t` is valid TOML with a top-level key named `package`.
pub uninterp spec fn manifest_has_package(t: Seq<char>) -> bool;

/// Whether `t` has a top-level `package` key whose item is a table.
pub uninterp spec fn manifest_package_is_table(t: Seq<char>) -> bool;

/// Whether the `package` table of `t` has a key named `version`.
pub uninterp spec fn manifest_has_version_key(t: Seq<char>) -> bool;

/// The string content of `package.version` in `t`, if `t` is valid TOML
/// whose `package` table holds `version` as a string value.
pub uninterp spec fn manifest_version(t: Seq<char>) -> Option<Seq<char>>;

/// The raw source token of the `package.version` value in `t` (the quotes
/// and the characters between them, exactly as they stand in `t`).
pub uninterp spec fn manifest_version_token(t: Seq<char>) -> Seq<char>;

/// The text of `t` with the `package.version` value replaced by the string
/// `v`, every other byte kept.
pub uninterp spec fn manifest_with_version(t: Seq<char>, v: Seq<char>) -> Seq<char>;

/// The TOML basic-string token carrying `s` when no character of `s` needs
/// escaping.
pub open spec fn quoted_token(s: Seq<char>) -> Seq<char> {
    seq!['"'] + s + seq!['"']
}

/// Characters that a TOML basic string carries verbatim: not a quote, not a
/// backslash, not a control character.
pub open spec fn plain_toml_char(c: char) -> bool {
    c as int >= 0x20 && c as int != 0x7f && c != '"' && c != '\\'
}

/// Whether every character of `s` is carried verbatim in a TOML basic
/// string.
pub open spec fn plain_toml_text(s: Seq<char>) -> bool {
    forall|i: int| 0 <= i < s.len() ==> #[trigger] plain_toml_char(s[i])
}

/// `out` is `t` with its version token replaced by the basic-string token of
/// `v`: every byte before and after that one token is kept.
pub open spec fn token_replaced(t: Seq<char>, out: Seq<char>, v: Seq<char>) -> bool {
    exists|pre: Seq<char>, suf: Seq<char>|
        t == pre + manifest_version_token(t) + suf && out == pre + quoted_token(v) + suf
}

/// Why the version could not be read from manifest text.
#[derive(PartialEq, Eq, Debug)]
pub enum ManifestError {
    /// The text is not valid TOML; carries the parser's message.
    Parse(String),
    /// There is no top-level `package` key.
    MissingSection,
    /// `package` is not a table.
    NotATable,
    /// The `package` table has no `version` key.
    MissingField,
    /// `package.version` is not a string value.
    NotAString,
}

/// The description of a manifest failure; `path` names the manifest read.
pub open spec fn spec_manifest_error_message(e: ManifestError, path: Seq<char>) -> Seq<char> {
    match e {
        ManifestError::Parse(m) => m@,
        ManifestError::MissingSection => "the manifest at "@ + path
            + " does not contain a [package] section"@,
        ManifestError::NotATable => "unrecognized manifest at "@ + path
            + ": the `package` must be a table"@,
        ManifestError::MissingField => "the crate manifest is missing the version field"@,
        ManifestError::NotAString => "the crate manifest's `[package].version` field must be a string"@,
    }
}

impl ManifestError {
    /// The failure as reported to the user.
    pub fn message(&self, path: &str) -> (r: String)
        ensures
            r@ == spec_manifest_error_message(*self, path@),
    {
        match self {
            ManifestError::Parse(m) => m.clone(),
            ManifestError::MissingSection => {
                let mut out = "the manifest at ".to_owned();
                out.append(path);
                out.append(" does not contain a [package] section");
                out
            },
            ManifestError::NotATable => {
                let mut out = "unrecognized manifest at ".to_owned();
                out.append(path);
                out.append(": the `package` must be a table");
                out
            },
            ManifestError::MissingField => "the crate manifest is missing the version field"
                .to_owned(),
            ManifestError::NotAString => {
                "the crate manifest's `[package].version` field must be a string".to_owned()
            },
        }
    }
}

/// Reads the `package.version` string out of manifest text.
///
/// Trusted: relies on `toml_edit::Document::parse` for TOML validity, on
/// `toml_edit::Table::get` (reached through the document's root table) for
/// key lookup, on `toml_edit::Item::as_table` and `toml_edit::Item::as_str`
/// for the shape tests, and on `toml_edit::TomlError`'s `Display` for the
/// parse message. The outcome classification matches the named results
/// above, which these toml_edit functions define.
#[verifier::external_body]
pub fn read_manifest_version(text: &str) -> (r: Result<String, ManifestError>)
    ensures
        (r matches Ok(s) <==> manifest_version(text@) is Some),
        (r matches Ok(s) ==> manifest_version(text@) == Some(s@)),
        (r matches Err(e) ==> ((e matches ManifestError::Parse(m)) <==> !manifest_ok(text@))),
        (r matches Err(e) ==> (e == ManifestError::MissingSection <==> manifest_ok(text@)
            && !manifest_has_package(text@))),
        (r matches Err(e) ==> (e == ManifestError::NotATable <==> manifest_has_package(text@)
            && !manifest_package_is_table(text@))),
        (r matches Err(e) ==> (e == ManifestError::MissingField <==> manifest_package_is_table(
            text@,
        ) && !manifest_has_version_key(text@))),
        (r matches Err(e) ==> (e == ManifestError::NotAString <==> manifest_has_version_key(
            text@,
        ) && manifest_version(text@) is None)),
        (r matches Ok(s) ==> manifest_has_version_key(text@) && manifest_package_is_table(text@)
            && manifest_has_package(text@) && manifest_ok(text@)),
{
    let doc = match toml_edit::Document::parse(text) {
        Ok(d) => d,
        Err(e) => return Err(ManifestError::Parse(e.to_string())),
    };
    let pkg = match doc.get("package") { Some(i) => i, None => return Err(ManifestError::MissingSection) };
    let table = match pkg.as_table() { Some(t) => t, None => return Err(ManifestError::NotATable) };
    let item = match table.get("version") { Some(i) => i, None => return Err(ManifestError::MissingField) };
    match item.as_str() { Some(s) => Ok(s.to_owned()), None => Err(ManifestError::NotAString) }
}

/// Rewrites the `package.version` value of `text` to the string `new`,
/// keeping every byte outside that one value token unchanged.
///
/// Trusted: relies on `toml_edit`'s format-preserving model. The document is
/// parsed with `DocumentMut::from_str`, the value is reached as in
/// `read_manifest_version` (mutably), the new `toml_edit::Value` takes over
/// the old value's `Decor` (its surrounding whitespace and comment bytes),
/// and `DocumentMut`'s `Display` re-emits all untouched nodes from their
/// original source bytes. `toml_writer` renders a string without quotes,
/// backslashes or control characters as a plain basic string, which gives
/// the quoted-token clause.
#[verifier::external_body]
pub fn write_manifest_version(text: &str, new: &str) -> (r: String)
    requires
        manifest_version(text@) is Some,
    ensures
        r@ == manifest_with_version(text@, new@),
        manifest_version(r@) == Some(new@),
        plain_toml_text(new@) ==> token_replaced(text@, r@, new@),
        plain_toml_text(new@) ==> r@.len() + manifest_version_token(text@).len() == text@.len()
            + quoted_token(new@).len(),
{
    let mut doc = text.parse::<toml_edit::DocumentMut>().unwrap();
    let pkg = doc.as_table_mut().get_mut("package").unwrap();
    let item = pkg.as_table_mut().unwrap().get_mut("version").unwrap();
    let decor = item.as_value().unwrap().decor().clone();
    let mut value = toml_edit::Value::from(new.to_string());
    *value.decor_mut() = decor;
    *item = toml_edit::Item::Value(value);
    doc.to_string()
}

} // verus!
