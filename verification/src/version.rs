//! Semantic versions of gql releases.
//!
//! Parsing and comparing pre-release and build identifiers are done by the
//! `semver` crate; this module holds what a version is made of, how it is
//! written back out, and how whole versions compare.

use vstd::prelude::*;
use crate::precedence::{
    build_order, int_order, lemma_build_order, lemma_prerelease_order, prerelease_order, then_order,
    comparison_laws,
};
use crate::text::is_ascii_digit;
use crate::written::{law_version_text_injective, well_formed_model};

verus! {

/// The parts of a version: major, minor, patch, pre-release text and build
/// metadata text (the last two empty when absent).
pub type VersionModel = (u64, u64, u64, Seq<char>, Seq<char>);

/// The characters `semver` allows inside a pre-release or build identifier.
pub open spec fn is_identifier_char(c: char) -> bool {
    is_ascii_digit(c) || ('A' <= c && c <= 'Z') || ('a' <= c && c <= 'z') || c == '-'
}

/// Empty, or non-empty identifiers of identifier characters separated by dots.
pub open spec fn dotted_identifiers(s: Seq<char>) -> bool {
    s.len() == 0 || {
        &&& forall|i: int| 0 <= i < s.len() ==> is_identifier_char(#[trigger] s[i]) || s[i] == '.'
        &&& s[0] != '.'
        &&& s.last() != '.'
        &&& forall|i: int| 0 <= i < s.len() - 1 && #[trigger] s[i] == '.' ==> s[i + 1] != '.'
    }
}

/// Some identifier of `s` is a number of two or more digits that starts with `0`.
pub open spec fn has_leading_zero_number(s: Seq<char>) -> bool {
    exists|i: int, j: int|
        #![trigger s[i], s[j]]
        0 <= i < j < s.len() && (i == 0 || s[i - 1] == '.') && s[i] == '0' && (j + 1 == s.len()
            || s[j + 1] == '.') && forall|k: int| i <= k <= j ==> is_ascii_digit(#[trigger] s[k])
}

/// Text that `semver` accepts as a pre-release.
pub open spec fn prerelease_syntax(s: Seq<char>) -> bool {
    dotted_identifiers(s) && !has_leading_zero_number(s)
}

/// Text that `semver` accepts as build metadata.
pub open spec fn build_syntax(s: Seq<char>) -> bool {
    dotted_identifiers(s)
}

/// What `semver::Version::parse` makes of a text, as its parts.
pub uninterp spec fn semver_parse(text: Seq<char>) -> Option<VersionModel>;

/// Calls `semver::Version::parse` and takes the version apart.
///
/// Claims that the result is the named parse of the text, that the
/// pre-release and build texts it yields have the syntax that `semver`'s
/// parser enforces on them, and that a text the parser accepts is exactly
/// how `semver::Version`'s `Display` writes the result (numbers without
/// leading zeros, `-pre` and `+build` only when present, nothing else), and
/// that a text it refuses is the written form of no version with well-formed
/// pre-release and build texts.
#[verifier::external_body]
fn semver_parse_parts(text: &str) -> (parts: Option<(u64, u64, u64, String, String)>)
    ensures
        match parts {
            Some(p) => semver_parse(text@) == Some((p.0, p.1, p.2, p.3@, p.4@))
                && prerelease_syntax(p.3@) && build_syntax(p.4@) && text@ == version_text(
                (p.0, p.1, p.2, p.3@, p.4@),
            ),
            None => semver_parse(text@) is None && forall|m: VersionModel|
                well_formed_model(m) ==> text@ != #[trigger] version_text(m),
        },
{
    match semver::Version::parse(text) {
        Ok(v) => Some((v.major, v.minor, v.patch, v.pre.as_str().to_string(), v.build.as_str().to_string())),
        Err(_) => None,
    }
}

/// Orders two pre-release texts with `semver::Prerelease`'s `Ord`.
///
/// Claims the result is `prerelease_order`, the order that `semver`
/// documents and implements, and that it is 0 exactly on equal texts.
#[verifier::external_body]
fn order_prereleases(a: &str, b: &str) -> (r: i8)
    requires
        prerelease_syntax(a@),
        prerelease_syntax(b@),
    ensures
        r == prerelease_order(a@, b@),
        (r == 0) == (a@ == b@),
{
    let a = semver::Prerelease::new(a).unwrap();
    let b = semver::Prerelease::new(b).unwrap();
    match a.cmp(&b) {
        std::cmp::Ordering::Less => -1,
        std::cmp::Ordering::Equal => 0,
        std::cmp::Ordering::Greater => 1,
    }
}

/// Orders two build metadata texts with `semver::BuildMetadata`'s `Ord`.
///
/// Claims the result is `build_order`, the order that `semver` documents
/// and implements, and that it is 0 exactly on equal texts.
#[verifier::external_body]
fn order_build_metadata(a: &str, b: &str) -> (r: i8)
    requires
        build_syntax(a@),
        build_syntax(b@),
    ensures
        r == build_order(a@, b@),
        (r == 0) == (a@ == b@),
{
    let a = semver::BuildMetadata::new(a).unwrap();
    let b = semver::BuildMetadata::new(b).unwrap();
    match a.cmp(&b) {
        std::cmp::Ordering::Less => -1,
        std::cmp::Ordering::Equal => 0,
        std::cmp::Ordering::Greater => 1,
    }
}

/// The order of `semver::Version` (its derived `Ord`): major, minor and
/// patch numerically, then the pre-release, then the build metadata.
pub open spec fn version_order(a: VersionModel, b: VersionModel) -> int {
    then_order(
        int_order(a.0 as int, b.0 as int),
        then_order(
            int_order(a.1 as int, b.1 as int),
            then_order(
                int_order(a.2 as int, b.2 as int),
                then_order(prerelease_order(a.3, b.3), build_order(a.4, b.4)),
            ),
        ),
    )
}

/// The order of versions is a total preorder: each comparison is -1, 0 or
/// 1, swapping the two versions negates it, and it is transitive.
pub proof fn law_version_order(a: VersionModel, b: VersionModel, c: VersionModel)
    ensures
        comparison_laws(
            version_order(a, b),
            version_order(b, a),
            version_order(b, c),
            version_order(c, b),
            version_order(a, c),
            version_order(c, a),
        ),
{
    lemma_prerelease_order(a.3, b.3, c.3);
    lemma_build_order(a.4, b.4, c.4);
    crate::precedence::lemma_int_order(a.0 as int, b.0 as int, c.0 as int);
    crate::precedence::lemma_int_order(a.1 as int, b.1 as int, c.1 as int);
    crate::precedence::lemma_int_order(a.2 as int, b.2 as int, c.2 as int);
    let p = (prerelease_order(a.3, b.3), prerelease_order(b.3, a.3), prerelease_order(b.3, c.3),
        prerelease_order(c.3, b.3), prerelease_order(a.3, c.3), prerelease_order(c.3, a.3));
    let q = (build_order(a.4, b.4), build_order(b.4, a.4), build_order(b.4, c.4),
        build_order(c.4, b.4), build_order(a.4, c.4), build_order(c.4, a.4));
    crate::precedence::lemma_then_order(p.0, p.1, p.2, p.3, p.4, p.5, q.0, q.1, q.2, q.3, q.4, q.5);
    let r = (then_order(p.0, q.0), then_order(p.1, q.1), then_order(p.2, q.2), then_order(p.3, q.3),
        then_order(p.4, q.4), then_order(p.5, q.5));
    let n2 = (int_order(a.2 as int, b.2 as int), int_order(b.2 as int, a.2 as int), int_order(
        b.2 as int,
        c.2 as int,
    ), int_order(c.2 as int, b.2 as int), int_order(a.2 as int, c.2 as int), int_order(
        c.2 as int,
        a.2 as int,
    ));
    crate::precedence::lemma_then_order(n2.0, n2.1, n2.2, n2.3, n2.4, n2.5, r.0, r.1, r.2, r.3, r.4, r.5);
    let s = (then_order(n2.0, r.0), then_order(n2.1, r.1), then_order(n2.2, r.2), then_order(n2.3, r.3),
        then_order(n2.4, r.4), then_order(n2.5, r.5));
    let n1 = (int_order(a.1 as int, b.1 as int), int_order(b.1 as int, a.1 as int), int_order(
        b.1 as int,
        c.1 as int,
    ), int_order(c.1 as int, b.1 as int), int_order(a.1 as int, c.1 as int), int_order(
        c.1 as int,
        a.1 as int,
    ));
    crate::precedence::lemma_then_order(n1.0, n1.1, n1.2, n1.3, n1.4, n1.5, s.0, s.1, s.2, s.3, s.4, s.5);
    let t = (then_order(n1.0, s.0), then_order(n1.1, s.1), then_order(n1.2, s.2), then_order(n1.3, s.3),
        then_order(n1.4, s.4), then_order(n1.5, s.5));
    let n0 = (int_order(a.0 as int, b.0 as int), int_order(b.0 as int, a.0 as int), int_order(
        b.0 as int,
        c.0 as int,
    ), int_order(c.0 as int, b.0 as int), int_order(a.0 as int, c.0 as int), int_order(
        c.0 as int,
        a.0 as int,
    ));
    crate::precedence::lemma_then_order(n0.0, n0.1, n0.2, n0.3, n0.4, n0.5, t.0, t.1, t.2, t.3, t.4, t.5);
}

/// How versions are ranked: by major number, then minor, then patch, each
/// as an integer and whatever the parts after it; among equal numbers a
/// pre-release is below its release and two pre-releases are ranked by the
/// pre-release order whatever their build metadata, which decides only
/// between versions equal in everything else.
pub proof fn law_version_ranking(a: VersionModel, b: VersionModel)
    ensures
        a.0 < b.0 ==> version_order(a, b) == -1 && version_order(b, a) == 1,
        a.0 == b.0 && a.1 < b.1 ==> version_order(a, b) == -1 && version_order(b, a) == 1,
        a.0 == b.0 && a.1 == b.1 && a.2 < b.2 ==> version_order(a, b) == -1 && version_order(b, a)
            == 1,
        a.0 == b.0 && a.1 == b.1 && a.2 == b.2 && a.3.len() > 0 && b.3.len() == 0 ==> version_order(
            a,
            b,
        ) == -1 && version_order(b, a) == 1,
        a.0 == b.0 && a.1 == b.1 && a.2 == b.2 && a.3 != b.3 ==> version_order(a, b)
            == prerelease_order(a.3, b.3) && version_order(a, b) != 0,
        a.0 == b.0 && a.1 == b.1 && a.2 == b.2 && a.3 == b.3 ==> version_order(a, b) == build_order(
            a.4,
            b.4,
        ),
        version_order(a, b) == 0 <==> (a.0 == b.0 && a.1 == b.1 && a.2 == b.2 && prerelease_order(
            a.3,
            b.3,
        ) == 0 && build_order(a.4, b.4) == 0),
{
    law_version_order(a, b, b);
    crate::precedence::lemma_prerelease_order_distinct(a.3, b.3);
}

/// The ten decimal digits.
pub open spec fn decimal_digits() -> Seq<char> {
    "0123456789"@
}

/// The decimal writing of `n`, without leading zeros.
pub open spec fn decimal(n: nat) -> Seq<char>
    decreases n,
{
    if n < 10 {
        seq![decimal_digits()[n as int]]
    } else {
        decimal(n / 10) + seq![decimal_digits()[(n % 10) as int]]
    }
}

/// Decimal writings are made of digits only.
pub proof fn lemma_decimal_digits_only(n: nat)
    ensures
        forall|i: int| 0 <= i < decimal(n).len() ==> is_ascii_digit(#[trigger] decimal(n)[i]),
    decreases n,
{
    reveal_strlit("0123456789");
    if n >= 10 {
        lemma_decimal_digits_only(n / 10);
        assert forall|i: int| 0 <= i < decimal(n).len() implies is_ascii_digit(
            #[trigger] decimal(n)[i],
        ) by {
            if i < decimal(n / 10).len() {
                assert(decimal(n)[i] == decimal(n / 10)[i]);
            }
        }
    }
}

/// `n` written in decimal, as `u64`'s `Display` writes it.
pub fn decimal_text(n: u64) -> (text: String)
    ensures
        text@ == decimal(n as nat),
    decreases n,
{
    let digits = "0123456789";
    proof {
        reveal_strlit("0123456789");
    }
    let d: usize = (n % 10) as usize;
    let last = digits.substring_char(d, d + 1);
    assert(last@ =~= seq![decimal_digits()[d as int]]);
    if n < 10 {
        String::from_str(last)
    } else {
        let mut text = decimal_text(n / 10);
        text.append(last);
        text
    }
}

/// How `semver::Version`'s `Display` writes a version:
/// `major.minor.patch`, then `-pre` and `+build` when they are not empty.
pub open spec fn version_text(v: VersionModel) -> Seq<char> {
    decimal(v.0 as nat) + seq!['.'] + decimal(v.1 as nat) + seq!['.'] + decimal(v.2 as nat) + (if v.3.len()
        > 0 {
        seq!['-'] + v.3
    } else {
        Seq::empty()
    }) + (if v.4.len() > 0 {
        seq!['+'] + v.4
    } else {
        Seq::empty()
    })
}

/// A semantic version, held as its parts.
#[derive(Debug)]
pub struct Version {
    major: u64,
    minor: u64,
    patch: u64,
    pre: String,
    build: String,
}

impl View for Version {
    type V = VersionModel;

    closed spec fn view(&self) -> VersionModel {
        (self.major, self.minor, self.patch, self.pre@, self.build@)
    }
}

impl Version {
    /// The pre-release and build texts are ones `semver` accepts, and the
    /// written text of the version parses back to it.
    #[verifier::type_invariant]
    closed spec fn well_formed(self) -> bool {
        &&& prerelease_syntax(self.pre@)
        &&& build_syntax(self.build@)
        &&& semver_parse(version_text(self@)) == Some(self@)
    }

    /// Parses a version with `semver`; `None` where it refuses the text.
    /// Parses a version with `semver`: the text is accepted exactly when it
    /// is the written form of a version, and then gives that version.
    pub fn parse(text: &str) -> (v: Option<Version>)
        ensures
            match v {
                Some(v) => semver_parse(text@) == Some(v@) && text@ == version_text(v@)
                    && well_formed_model(v@),
                None => semver_parse(text@) is None,
            },
            v is Some <==> exists|m: VersionModel| well_formed_model(m) && #[trigger] version_text(m)
                == text@,
            forall|m: VersionModel|
                well_formed_model(m) && #[trigger] version_text(m) == text@ ==> v is Some
                    && v->Some_0@ == m,
    {
        match semver_parse_parts(text) {
            Some(p) => {
                let v = Version { major: p.0, minor: p.1, patch: p.2, pre: p.3, build: p.4 };
                assert forall|m: VersionModel|
                    well_formed_model(m) && #[trigger] version_text(m) == text@ implies v@ == m by {
                    law_version_text_injective(v@, m);
                }
                Some(v)
            },
            None => None,
        }
    }

    pub fn major(&self) -> (n: u64)
        ensures
            n == self@.0,
    {
        self.major
    }

    pub fn minor(&self) -> (n: u64)
        ensures
            n == self@.1,
    {
        self.minor
    }

    pub fn patch(&self) -> (n: u64)
        ensures
            n == self@.2,
    {
        self.patch
    }

    pub fn pre(&self) -> (text: &str)
        ensures
            text@ == self@.3,
    {
        self.pre.as_str()
    }

    pub fn build(&self) -> (text: &str)
        ensures
            text@ == self@.4,
    {
        self.build.as_str()
    }

    /// An equal copy.
    pub fn duplicate(&self) -> (copy: Version)
        ensures
            copy@ == self@,
    {
        proof {
            use_type_invariant(self);
        }
        Version {
            major: self.major,
            minor: self.minor,
            patch: self.patch,
            pre: self.pre.clone(),
            build: self.build.clone(),
        }
    }

    /// Whether the two versions are equal, as `semver::Version`'s `==` says.
    pub fn same_as(&self, other: &Version) -> (same: bool)
        ensures
            same == (self@ == other@),
    {
        self.major == other.major && self.minor == other.minor && self.patch == other.patch
            && self.pre == other.pre && self.build == other.build
    }

    /// -1, 0 or 1 as this version is below, equal to or above `other`.
    pub fn compare(&self, other: &Version) -> (r: i8)
        ensures
            r == version_order(self@, other@),
            version_order(other@, self@) == -r,
            -1 <= r <= 1,
            (r == 0) == (self@ == other@),
    {
        proof {
            use_type_invariant(self);
            use_type_invariant(other);
        }
        proof {
            law_version_order(self@, other@, other@);
        }
        if self.major != other.major {
            if self.major < other.major { -1 } else { 1 }
        } else if self.minor != other.minor {
            if self.minor < other.minor { -1 } else { 1 }
        } else if self.patch != other.patch {
            if self.patch < other.patch { -1 } else { 1 }
        } else {
            let pre = order_prereleases(self.pre.as_str(), other.pre.as_str());
            if pre != 0 {
                pre
            } else {
                order_build_metadata(self.build.as_str(), other.build.as_str())
            }
        }
    }

    /// Whether this version is below `other`, as `semver::Version`'s `<` says.
    pub fn is_older_than(&self, other: &Version) -> (older: bool)
        ensures
            older == (version_order(self@, other@) < 0),
    {
        self.compare(other) < 0
    }

    /// The version as `semver::Version`'s `Display` writes it.
    pub fn to_string(&self) -> (text: String)
        ensures
            text@ == version_text(self@),
            semver_parse(text@) == Some(self@),
    {
        proof {
            use_type_invariant(self);
        }
        let mut text = decimal_text(self.major);
        let dot = ".";
        proof {
            reveal_strlit(".");
            reveal_strlit("-");
            reveal_strlit("+");
        }
        text.append(dot);
        let minor = decimal_text(self.minor);
        text.append(minor.as_str());
        text.append(dot);
        let patch = decimal_text(self.patch);
        text.append(patch.as_str());
        if self.pre.unicode_len() > 0 {
            text.append("-");
            text.append(self.pre.as_str());
        }
        if self.build.unicode_len() > 0 {
            text.append("+");
            text.append(self.build.as_str());
        }
        text
    }
}

} // verus!
