//! Turning right-hand-side text into a version literal: wildcard detection
//! is the crate's own logic; the literal grammar itself is an outside
//! collaborator's, reached through one trusted wrapper.

use vstd::prelude::*;
use vstd::string::StrSliceExecFns;

use crate::specifier::SpecifierError;
use crate::version::{LocalSegment, PreRelease, Version, VersionView, view_wf};

verus! {

/// What the version-literal grammar yields on a given text: `None` where the
/// text is not a valid literal. The outcome depends on the text alone.
pub uninterp spec fn parsed_version(s: Seq<char>) -> Option<VersionView>;

/// Relies on `pep440::Version::parse`: deterministic in its input, it
/// accepts exactly the PEP 440 literal grammar, whose release segment is
/// never empty and whose local text segments are never empty.
#[verifier::external_body]
fn parse_literal(s: &str) -> (r: Option<Version>)
    ensures
        match r {
            Some(v) => parsed_version(s@) == Some(v@) && view_wf(v@),
            None => parsed_version(s@) is None,
        },
{
    pep440::Version::parse(s).map(|v| Version {
        epoch: v.epoch,
        release: v.release,
        pre: v.pre.map(|p| match p {
            pep440::PreRelease::A(n) => PreRelease::Alpha(n),
            pep440::PreRelease::B(n) => PreRelease::Beta(n),
            pep440::PreRelease::RC(n) => PreRelease::ReleaseCandidate(n),
        }),
        post: v.post, dev: v.dev,
        local: v.local.into_iter().map(|l| match l {
            pep440::LocalVersion::NumericComponent(n) => LocalSegment::Number(n),
            pep440::LocalVersion::StringComponent(t) => LocalSegment::Text(t.into_bytes()),
        }).collect(),
    })
}

/// Whether the text ends in the two-character wildcard suffix `.*`.
pub open spec fn has_wildcard(s: Seq<char>) -> bool {
    s.len() >= 2 && s[s.len() - 2] == '.' && s[s.len() - 1] == '*'
}

/// The text with the wildcard suffix removed, where it carries one.
pub open spec fn wildcard_stem(s: Seq<char>) -> Seq<char> {
    if has_wildcard(s) {
        s.subrange(0, s.len() - 2)
    } else {
        s
    }
}

fn split_wildcard<'a>(input: &'a str) -> (r: (&'a str, bool))
    ensures
        r.1 == has_wildcard(input@),
        r.0@ == wildcard_stem(input@),
{
    let n = input.unicode_len();
    if n >= 2 {
        let c1 = input.get_char(n - 2);
        let c2 = input.get_char(n - 1);
        if c1 == '.' && c2 == '*' {
            let stem = input.substring_char(0, n - 2);
            return (stem, true);
        }
    }
    (input, false)
}

/// Splits a right-hand side into its literal stem and a wildcard flag, and
/// parses the stem. Fails exactly where the grammar rejects the stem.
pub fn parse_version_wildcard(input: &str) -> (r: Result<(Version, bool), SpecifierError>)
    ensures
        match r {
            Ok(p) => {
                &&& parsed_version(wildcard_stem(input@)) == Some(p.0@)
                &&& view_wf(p.0@)
                &&& p.1 == has_wildcard(input@)
            },
            Err(e) => {
                &&& parsed_version(wildcard_stem(input@)) is None
                &&& e == SpecifierError::ParseError
            },
        },
{
    let (stem, wildcard) = split_wildcard(input);
    match parse_literal(stem) {
        Some(v) => Ok((v, wildcard)),
        None => Err(SpecifierError::ParseError),
    }
}

} // verus!
