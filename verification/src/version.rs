//! The version value: a `major.minor.patch` triple with an optional opaque
//! trailing tag, its grammar, its rendering, and the bump operations.

use crate::digits::all_digits;
use crate::digits::dec_digits;
use crate::digits::dec_value;
use crate::digits::is_digit_char;
use crate::digits::lemma_dec_digits_are_digits;
use crate::digits::lemma_dec_value_of_dec_digits;
use crate::digits::parse_u32_field;
use crate::digits::parse_u32_range;
use crate::digits::push_u32_digits;
use vstd::prelude::*;
use vstd::string::StrSliceExecFns;
use vstd::string::StringExecFns;

verus! {

/// Which numeric component of a version a bump targets.
#[derive(Clone, Copy, PartialEq, Eq, Structural, Debug)]
pub enum VersionField {
    Major,
    Minor,
    Patch,
}

/// Why a version string failed to parse: the named component was absent, or
/// was not a non-negative integer.
#[derive(Clone, Copy, PartialEq, Eq, Structural, Debug)]
pub enum VersionParseError {
    MissingField(VersionField),
    InvalidInteger(VersionField),
}

/// The mathematical value of a [`Version`].
pub ghost struct VersionView {
    pub major: nat,
    pub minor: nat,
    pub patch: nat,
    pub tag: Option<Seq<char>>,
}

/// A semantic version: `major.minor.patch`, optionally followed by an opaque
/// tag (the fourth dot-separated part of the input, kept verbatim and never
/// interpreted).
#[derive(Debug)]
pub struct Version {
    major: u32,
    minor: u32,
    patch: u32,
    tag: Option<String>,
}

impl View for Version {
    type V = VersionView;

    closed spec fn view(&self) -> VersionView {
        VersionView {
            major: self.major as nat,
            minor: self.minor as nat,
            patch: self.patch as nat,
            tag: match self.tag {
                Some(t) => Some(t@),
                None => None,
            },
        }
    }
}

/// Splits off the text before the first `'.'`, and the remainder after that
/// dot, if there is one.
pub open spec fn split_first(s: Seq<char>) -> (Seq<char>, Option<Seq<char>>)
    decreases s.len(),
{
    if s.len() == 0 {
        (s, None)
    } else if s[0] == '.' {
        (Seq::empty(), Some(s.drop_first()))
    } else {
        let r = split_first(s.drop_first());
        (seq![s[0]] + r.0, r.1)
    }
}

/// The version grammar: at most four parts split on `'.'`; the first three
/// must be non-negative integers, the fourth, if present, is the tag.
pub open spec fn spec_parse(s: Seq<char>) -> Result<VersionView, VersionParseError> {
    let p0 = split_first(s);
    match parse_u32_field(p0.0) {
        None => Err(VersionParseError::InvalidInteger(VersionField::Major)),
        Some(major) => match p0.1 {
            None => Err(VersionParseError::MissingField(VersionField::Minor)),
            Some(s1) => {
                let p1 = split_first(s1);
                match parse_u32_field(p1.0) {
                    None => Err(VersionParseError::InvalidInteger(VersionField::Minor)),
                    Some(minor) => match p1.1 {
                        None => Err(VersionParseError::MissingField(VersionField::Patch)),
                        Some(s2) => {
                            let p2 = split_first(s2);
                            match parse_u32_field(p2.0) {
                                None => Err(
                                    VersionParseError::InvalidInteger(VersionField::Patch),
                                ),
                                Some(patch) => Ok(
                                    VersionView {
                                        major: major as nat,
                                        minor: minor as nat,
                                        patch: patch as nat,
                                        tag: p2.1,
                                    },
                                ),
                            }
                        },
                    },
                }
            },
        },
    }
}

/// The rendering of a version: the three numbers dot-separated, the tag, if
/// any, appended verbatim with no separator of its own.
pub open spec fn spec_format(v: VersionView) -> Seq<char> {
    dec_digits(v.major) + seq!['.'] + dec_digits(v.minor) + seq!['.'] + dec_digits(v.patch)
        + match v.tag {
        Some(t) => t,
        None => Seq::empty(),
    }
}

/// A dot-free text splits into itself and no remainder.
proof fn lemma_split_first_no_dot(s: Seq<char>)
    requires
        forall|i: int| 0 <= i < s.len() ==> s[i] != '.',
    ensures
        split_first(s) == (s, None::<Seq<char>>),
    decreases s.len(),
{
    if s.len() > 0 {
        lemma_split_first_no_dot(s.drop_first());
        assert(seq![s[0]] + s.drop_first() =~= s);
    }
}

/// Splitting text whose first dot stands after the dot-free `a`.
proof fn lemma_split_first_at(a: Seq<char>, b: Seq<char>)
    requires
        forall|i: int| 0 <= i < a.len() ==> a[i] != '.',
    ensures
        split_first(a + seq!['.'] + b) == (a, Some(b)),
    decreases a.len(),
{
    let s = a + seq!['.'] + b;
    if a.len() == 0 {
        assert(s[0] == '.');
        assert(s.drop_first() =~= b);
        assert(split_first(s).0 =~= a);
    } else {
        assert(s[0] == a[0]);
        lemma_split_first_at(a.drop_first(), b);
        assert(s.drop_first() =~= a.drop_first() + seq!['.'] + b);
        assert(seq![s[0]] + a.drop_first() =~= a);
    }
}

/// Splitting, stated over the index of the first dot.
proof fn lemma_split_first_index(s: Seq<char>, i: int)
    requires
        0 <= i < s.len(),
        s[i] == '.',
        forall|j: int| 0 <= j < i ==> s[j] != '.',
    ensures
        split_first(s) == (s.subrange(0, i), Some(s.subrange(i + 1, s.len() as int))),
{
    let a = s.subrange(0, i);
    let b = s.subrange(i + 1, s.len() as int);
    assert(s =~= a + seq!['.'] + b);
    lemma_split_first_at(a, b);
}

/// The index of the first `'.'` at or after `from`, if any.
fn find_dot(s: &str, from: usize) -> (r: Option<usize>)
    requires
        from <= s@.len(),
    ensures
        match r {
            Some(i) => from <= i < s@.len() && s@[i as int] == '.' && forall|j: int|
                from <= j < i ==> s@[j] != '.',
            None => forall|j: int| from <= j < s@.len() ==> s@[j] != '.',
        },
{
    let n = s.unicode_len();
    let mut i = from;
    while i < n
        invariant
            from <= i <= n == s@.len(),
            forall|j: int| from <= j < i ==> s@[j] != '.',
        decreases n - i,
    {
        if s.get_char(i) == '.' {
            return Some(i);
        }
        i = i + 1;
    }
    None
}

impl Version {
    /// Reads a version from its textual form, naming the component at fault
    /// on failure.
    #[verifier::rlimit(60)]
    pub fn parse(s: &str) -> (r: Result<Version, VersionParseError>)
        ensures
            match spec_parse(s@) {
                Ok(v) => r matches Ok(ver) && ver@ == v,
                Err(e) => r matches Err(e2) && e2 == e,
            },
    {
        let n = s.unicode_len();
        let d0 = find_dot(s, 0);
        let m_end = match d0 {
            Some(i) => i,
            None => n,
        };
        proof {
            match d0 {
                Some(i) => lemma_split_first_index(s@, i as int),
                None => lemma_split_first_no_dot(s@),
            }
            assert(s@.subrange(0, n as int) =~= s@);
        }
        let major = match parse_u32_range(s, 0, m_end) {
            Some(v) => v,
            None => {
                return Err(VersionParseError::InvalidInteger(VersionField::Major));
            },
        };
        let s1_start = match d0 {
            Some(i) => i + 1,
            None => {
                return Err(VersionParseError::MissingField(VersionField::Minor));
            },
        };
        let ghost s1 = s@.subrange(s1_start as int, n as int);
        let d1 = find_dot(s, s1_start);
        let mi_end = match d1 {
            Some(i) => i,
            None => n,
        };
        proof {
            match d1 {
                Some(i) => {
                    assert(s1[i - s1_start] == '.');
                    assert forall|j: int| 0 <= j < i - s1_start implies s1[j] != '.' by {
                        assert(s1[j] == s@[s1_start + j]);
                    }
                    lemma_split_first_index(s1, i - s1_start);
                    assert(s1.subrange(0, i - s1_start) =~= s@.subrange(
                        s1_start as int,
                        i as int,
                    ));
                    assert(s1.subrange(i - s1_start + 1, s1.len() as int) =~= s@.subrange(
                        i + 1,
                        n as int,
                    ));
                },
                None => {
                    assert forall|j: int| 0 <= j < s1.len() implies s1[j] != '.' by {
                        assert(s1[j] == s@[s1_start + j]);
                    }
                    lemma_split_first_no_dot(s1);
                    assert(s1.subrange(0, s1.len() as int) =~= s1);
                },
            }
            assert(s1 =~= s@.subrange(s1_start as int, n as int));
        }
        let minor = match parse_u32_range(s, s1_start, mi_end) {
            Some(v) => v,
            None => {
                proof {
                    assert(s@.subrange(s1_start as int, mi_end as int) =~= split_first(s1).0);
                }
                return Err(VersionParseError::InvalidInteger(VersionField::Minor));
            },
        };
        proof {
            assert(s@.subrange(s1_start as int, mi_end as int) =~= split_first(s1).0);
        }
        let s2_start = match d1 {
            Some(i) => i + 1,
            None => {
                return Err(VersionParseError::MissingField(VersionField::Patch));
            },
        };
        let ghost s2 = s@.subrange(s2_start as int, n as int);
        let d2 = find_dot(s, s2_start);
        let p_end = match d2 {
            Some(i) => i,
            None => n,
        };
        proof {
            match d2 {
                Some(i) => {
                    assert(s2[i - s2_start] == '.');
                    assert forall|j: int| 0 <= j < i - s2_start implies s2[j] != '.' by {
                        assert(s2[j] == s@[s2_start + j]);
                    }
                    lemma_split_first_index(s2, i - s2_start);
                    assert(s2.subrange(0, i - s2_start) =~= s@.subrange(
                        s2_start as int,
                        i as int,
                    ));
                    assert(s2.subrange(i - s2_start + 1, s2.len() as int) =~= s@.subrange(
                        i + 1,
                        n as int,
                    ));
                },
                None => {
                    assert forall|j: int| 0 <= j < s2.len() implies s2[j] != '.' by {
                        assert(s2[j] == s@[s2_start + j]);
                    }
                    lemma_split_first_no_dot(s2);
                    assert(s2.subrange(0, s2.len() as int) =~= s2);
                },
            }
        }
        let patch = match parse_u32_range(s, s2_start, p_end) {
            Some(v) => v,
            None => {
                proof {
                    assert(s@.subrange(s2_start as int, p_end as int) =~= split_first(s2).0);
                }
                return Err(VersionParseError::InvalidInteger(VersionField::Patch));
            },
        };
        proof {
            assert(s@.subrange(s2_start as int, p_end as int) =~= split_first(s2).0);
        }
        let tag = match d2 {
            Some(i) => {
                let t = s.substring_char(i + 1, n);
                Some(t.to_owned())
            },
            None => None,
        };
        Ok(Version { major, minor, patch, tag })
    }

    /// Renders the version as text.
    pub fn format(&self) -> (r: String)
        ensures
            r@ == spec_format(self@),
    {
        let mut out = String::new();
        push_u32_digits(self.major, &mut out);
        let dot = ".";
        proof {
            reveal_strlit(".");
            assert(dot@ =~= seq!['.']);
        }
        out.append(dot);
        push_u32_digits(self.minor, &mut out);
        out.append(dot);
        push_u32_digits(self.patch, &mut out);
        match &self.tag {
            Some(t) => out.append(t.as_str()),
            None => (),
        }
        proof {
            assert(out@ =~= spec_format(self@));
        }
        out
    }

    /// Raises the major component, resetting minor and patch to zero.
    pub fn bump_major(&mut self)
        requires
            old(self)@.major < u32::MAX,
        ensures
            final(self)@.major == old(self)@.major + 1,
            final(self)@.minor == 0,
            final(self)@.patch == 0,
            final(self)@.tag == old(self)@.tag,
    {
        self.major = self.major + 1;
        self.minor = 0;
        self.patch = 0;
    }

    /// Raises the minor component, resetting patch to zero.
    pub fn bump_minor(&mut self)
        requires
            old(self)@.minor < u32::MAX,
        ensures
            final(self)@.major == old(self)@.major,
            final(self)@.minor == old(self)@.minor + 1,
            final(self)@.patch == 0,
            final(self)@.tag == old(self)@.tag,
    {
        self.minor = self.minor + 1;
        self.patch = 0;
    }

    /// Raises the patch component, leaving everything else unchanged.
    pub fn bump_patch(&mut self)
        requires
            old(self)@.patch < u32::MAX,
        ensures
            final(self)@.major == old(self)@.major,
            final(self)@.minor == old(self)@.minor,
            final(self)@.patch == old(self)@.patch + 1,
            final(self)@.tag == old(self)@.tag,
    {
        self.patch = self.patch + 1;
    }

    /// Whether the component a bump would raise is already at the largest
    /// representable value.
    pub fn at_limit(&self, field: VersionField) -> (r: bool)
        ensures
            r == field_at_limit(self@, field),
    {
        match field {
            VersionField::Major => self.major == u32::MAX,
            VersionField::Minor => self.minor == u32::MAX,
            VersionField::Patch => self.patch == u32::MAX,
        }
    }
}

/// Whether the component that bumping `field` raises is at `u32::MAX`.
pub open spec fn field_at_limit(v: VersionView, field: VersionField) -> bool {
    match field {
        VersionField::Major => v.major >= u32::MAX,
        VersionField::Minor => v.minor >= u32::MAX,
        VersionField::Patch => v.patch >= u32::MAX,
    }
}

/// The value after bumping `field`: that component raised by one, the
/// lower-order numeric components reset to zero, the tag kept.
pub open spec fn spec_bump(v: VersionView, field: VersionField) -> VersionView {
    match field {
        VersionField::Major => VersionView {
            major: v.major + 1,
            minor: 0,
            patch: 0,
            tag: v.tag,
        },
        VersionField::Minor => VersionView {
            major: v.major,
            minor: v.minor + 1,
            patch: 0,
            tag: v.tag,
        },
        VersionField::Patch => VersionView {
            major: v.major,
            minor: v.minor,
            patch: v.patch + 1,
            tag: v.tag,
        },
    }
}

impl Clone for Version {
    /// A clone carries the same value.
    fn clone(&self) -> (r: Self)
        ensures
            r@ == self@,
    {
        Version {
            major: self.major,
            minor: self.minor,
            patch: self.patch,
            tag: match &self.tag {
                Some(t) => Some(t.clone()),
                None => None,
            },
        }
    }
}

impl PartialEq for Version {
    /// Structural equality: all four fields, the tag compared verbatim.
    fn eq(&self, other: &Version) -> (r: bool) {
        let tags_eq = match (&self.tag, &other.tag) {
            (None, None) => true,
            (Some(a), Some(b)) => *a == *b,
            _ => false,
        };
        proof {
            assert(tags_eq == (self@.tag == other@.tag));
        }
        self.major == other.major && self.minor == other.minor && self.patch == other.patch
            && tags_eq
    }
}

impl vstd::std_specs::cmp::PartialEqSpecImpl for Version {
    open spec fn obeys_eq_spec() -> bool {
        true
    }

    open spec fn eq_spec(&self, other: &Version) -> bool {
        self@ == other@
    }
}

impl Eq for Version {

}

/// Whether `a` is `b` up to ASCII case: equal outright, or an ASCII capital
/// whose lower-case form is `b`.
pub open spec fn ascii_lower_eq(a: char, b: char) -> bool {
    a == b || ('A' as int <= a as int && a as int <= 'Z' as int && a as int + 32 == b as int)
}

/// Whether `s` spells the lower-case word `alias`, ASCII case ignored.
pub open spec fn matches_ci(s: Seq<char>, alias: Seq<char>) -> bool {
    s.len() == alias.len() && forall|i: int|
        0 <= i < s.len() ==> #[trigger] ascii_lower_eq(s[i], alias[i])
}

/// Two lower-case words that differ at some position are not both spelled
/// by one text, even with ASCII case ignored.
proof fn lemma_ci_excludes(s: Seq<char>, a: Seq<char>, b: Seq<char>, i: int)
    requires
        matches_ci(s, a),
        a.len() == b.len(),
        0 <= i < a.len(),
        a[i] != b[i],
        'a' as int <= a[i] as int <= 'z' as int,
        'a' as int <= b[i] as int <= 'z' as int,
    ensures
        !matches_ci(s, b),
{
    if matches_ci(s, b) {
        assert(ascii_lower_eq(s[i], a[i]));
        assert(ascii_lower_eq(s[i], b[i]));
    }
}

/// Whether `s` spells the lower-case word `alias`, ASCII case ignored.
fn eq_ignore_ascii_case(s: &str, alias: &str) -> (r: bool)
    ensures
        r == matches_ci(s@, alias@),
{
    let n = s.unicode_len();
    if n != alias.unicode_len() {
        return false;
    }
    let mut i: usize = 0;
    while i < n
        invariant
            0 <= i <= n,
            n == s@.len() == alias@.len(),
            forall|j: int| 0 <= j < i ==> #[trigger] ascii_lower_eq(s@[j], alias@[j]),
        decreases n - i,
    {
        let a = s.get_char(i);
        let b = alias.get_char(i);
        let au = a as u32;
        let bu = b as u32;
        if !(a == b || (65 <= au && au <= 90 && au + 32 == bu)) {
            proof {
                assert(!ascii_lower_eq(s@[i as int], alias@[i as int]));
            }
            return false;
        }
        i = i + 1;
    }
    true
}

impl VersionField {
    /// Resolves a bump-field argument against the alias sets
    /// {patch, pat, p}, {minor, min} and {major, maj}, ASCII case ignored;
    /// anything else is rejected.
    pub fn from_alias(s: &str) -> (r: Option<VersionField>)
        ensures
            (r == Some(VersionField::Patch) <==> matches_ci(s@, "patch"@) || matches_ci(
                s@,
                "pat"@,
            ) || matches_ci(s@, "p"@)),
            (r == Some(VersionField::Minor) <==> matches_ci(s@, "minor"@) || matches_ci(
                s@,
                "min"@,
            )),
            (r == Some(VersionField::Major) <==> matches_ci(s@, "major"@) || matches_ci(
                s@,
                "maj"@,
            )),
    {
        proof {
            reveal_strlit("patch");
            reveal_strlit("pat");
            reveal_strlit("p");
            reveal_strlit("minor");
            reveal_strlit("min");
            reveal_strlit("major");
            reveal_strlit("maj");
        }
        if eq_ignore_ascii_case(s, "patch") || eq_ignore_ascii_case(s, "pat")
            || eq_ignore_ascii_case(s, "p") {
            proof {
                if matches_ci(s@, "patch"@) {
                    lemma_ci_excludes(s@, "patch"@, "minor"@, 0);
                    lemma_ci_excludes(s@, "patch"@, "major"@, 0);
                }
                if matches_ci(s@, "pat"@) {
                    lemma_ci_excludes(s@, "pat"@, "min"@, 0);
                    lemma_ci_excludes(s@, "pat"@, "maj"@, 0);
                }
            }
            Some(VersionField::Patch)
        } else if eq_ignore_ascii_case(s, "minor") || eq_ignore_ascii_case(s, "min") {
            proof {
                if matches_ci(s@, "minor"@) {
                    lemma_ci_excludes(s@, "minor"@, "major"@, 1);
                }
                if matches_ci(s@, "min"@) {
                    lemma_ci_excludes(s@, "min"@, "maj"@, 1);
                }
            }
            Some(VersionField::Minor)
        } else if eq_ignore_ascii_case(s, "major") || eq_ignore_ascii_case(s, "maj") {
            Some(VersionField::Major)
        } else {
            None
        }
    }
}

/// The name of a version component, as it appears in messages.
pub open spec fn spec_field_name(f: VersionField) -> Seq<char> {
    match f {
        VersionField::Major => "major"@,
        VersionField::Minor => "minor"@,
        VersionField::Patch => "patch"@,
    }
}

impl VersionField {
    /// The component's name as written in messages.
    pub fn name(&self) -> (r: &'static str)
        ensures
            r@ == spec_field_name(*self),
    {
        match self {
            VersionField::Major => "major",
            VersionField::Minor => "minor",
            VersionField::Patch => "patch",
        }
    }
}

/// The description of a version parse failure, naming the field at fault.
pub open spec fn spec_parse_error_message(e: VersionParseError) -> Seq<char> {
    match e {
        VersionParseError::MissingField(f) => "the `"@ + spec_field_name(f)
            + "` field is missing"@,
        VersionParseError::InvalidInteger(f) => "the `"@ + spec_field_name(f)
            + "` field must be a non-negative integer"@,
    }
}

impl VersionParseError {
    /// The failure as reported to the user.
    pub fn message(&self) -> (r: String)
        ensures
            r@ == spec_parse_error_message(*self),
    {
        let mut out = "the `".to_owned();
        match self {
            VersionParseError::MissingField(f) => {
                out.append(f.name());
                out.append("` field is missing");
            },
            VersionParseError::InvalidInteger(f) => {
                out.append(f.name());
                out.append("` field must be a non-negative integer");
            },
        }
        out
    }
}

/// A version carrying an empty tag renders exactly as the same version with
/// no tag at all, so parsing the rendering loses the empty tag: the one
/// input shape that does not round-trip.
pub proof fn lemma_empty_tag_formats_invisibly(v: VersionView)
    requires
        v.tag == Some(Seq::<char>::empty()),
    ensures
        spec_format(v) == spec_format(
            (VersionView { major: v.major, minor: v.minor, patch: v.patch, tag: None }),
        ),
{
    assert(spec_format(v) =~= spec_format(
        (VersionView { major: v.major, minor: v.minor, patch: v.patch, tag: None }),
    ));
}

/// Round trip: parsing the rendering of an untagged version yields the same
/// value. (A tagged version does not round-trip: the tag is parsed as a
/// fourth dot-separated part but rendered with no separator.)
pub proof fn lemma_format_parse_round_trip(v: VersionView)
    requires
        v.tag is None,
        v.major <= u32::MAX,
        v.minor <= u32::MAX,
        v.patch <= u32::MAX,
    ensures
        spec_parse(spec_format(v)) == Ok::<VersionView, VersionParseError>(v),
{
    let a = dec_digits(v.major);
    let b = dec_digits(v.minor);
    let c = dec_digits(v.patch);
    lemma_dec_digits_are_digits(v.major);
    lemma_dec_digits_are_digits(v.minor);
    lemma_dec_digits_are_digits(v.patch);
    lemma_dec_value_of_dec_digits(v.major);
    lemma_dec_value_of_dec_digits(v.minor);
    lemma_dec_value_of_dec_digits(v.patch);
    let s = spec_format(v);
    assert(s =~= a + seq!['.'] + (b + seq!['.'] + c));
    assert forall|i: int| 0 <= i < a.len() implies a[i] != '.' by {
        assert(is_digit_char(a[i]));
    }
    assert forall|i: int| 0 <= i < b.len() implies b[i] != '.' by {
        assert(is_digit_char(b[i]));
    }
    assert forall|i: int| 0 <= i < c.len() implies c[i] != '.' by {
        assert(is_digit_char(c[i]));
    }
    lemma_split_first_at(a, b + seq!['.'] + c);
    lemma_split_first_at(b, c);
    lemma_split_first_no_dot(c);
    assert(is_digit_char(a[0]) && a[0] != '+');
    assert(is_digit_char(b[0]) && b[0] != '+');
    assert(is_digit_char(c[0]) && c[0] != '+');
    assert(parse_u32_field(a) == Some(v.major as u32));
    assert(parse_u32_field(b) == Some(v.minor as u32));
    assert(parse_u32_field(c) == Some(v.patch as u32));
}

} // verus!
