//! Pattern matching on text, done by the `regex` crate.

use vstd::prelude::*;

verus! {

/// The error with which the `regex` crate refuses a pattern.
#[verifier::external_type_specification]
#[verifier::external_body]
pub struct ExRegexError(regex::Error);

/// The pattern matcher refused the pattern.
#[derive(Clone, Copy, Debug, PartialEq, Eq, Structural)]
pub struct PatternRejected;

/// What a search for `pattern` in `text` finds: nothing, or the leftmost
/// match as its capture groups. Group 0 is the whole match, the others follow
/// in the order of their opening parentheses, and a group that took no part in
/// the match is `None`.
pub uninterp spec fn spec_captures(pattern: Seq<char>, text: Seq<char>) -> Option<
    Seq<Option<Seq<char>>>,
>;

/// Whether the pattern matcher accepts `pattern` on a target whose pointers
/// have `pointer_bits` bits.
///
/// The matcher refuses a pattern with a syntax error, and also a sound pattern
/// whose compiled states take more than ten mebibytes. It counts those bytes
/// with the size that a state has in memory, which follows the pointer width
/// of the target, so the same pattern can compile on one target and be refused
/// on another. The pattern alone does not decide; the pattern and the pointer
/// width do.
pub uninterp spec fn spec_compiles(pattern: Seq<char>, pointer_bits: nat) -> bool;

/// Compiles `pattern` with `regex::Regex::new` and searches `text` with
/// `regex::Regex::captures`.
///
/// Trusted: the pattern compiles exactly where `spec_compiles` says so for the
/// pointer width of this target, and the groups that then come back are those
/// of `spec_captures`. Neither name is defined: nothing is claimed of which
/// patterns compile, nor of what a pattern finds.
#[verifier::external_body]
fn captures(pattern: &str, text: &str) -> (r: Result<Option<Vec<Option<String>>>, regex::Error>)
    ensures
        r is Ok <==> spec_compiles(pattern@, usize::BITS as nat),
        r matches Ok(found) ==> found.deep_view() == spec_captures(pattern@, text@),
{
    let re = regex::Regex::new(pattern)?;
    Ok(
        re.captures(text).map(
            |caps| caps.iter().map(|group| group.map(|m| m.as_str().to_string())).collect(),
        ),
    )
}

/// Searches `text` for `pattern` and gives the capture groups of the leftmost
/// match, if there is a match. Fails exactly where the pattern matcher refuses
/// the pattern.
pub fn search(pattern: &str, text: &str) -> (r: Result<
    Option<Vec<Option<String>>>,
    PatternRejected,
>)
    ensures
        r is Ok <==> spec_compiles(pattern@, usize::BITS as nat),
        r matches Ok(found) ==> found.deep_view() == spec_captures(pattern@, text@),
{
    found_or_rejected(captures(pattern, text))
}

/// What a search gives for each outcome of the pattern matcher: the groups
/// that the matcher found, as they are, or `PatternRejected` in place of the
/// matcher's own error.
pub fn found_or_rejected(outcome: Result<Option<Vec<Option<String>>>, regex::Error>) -> (r: Result<
    Option<Vec<Option<String>>>,
    PatternRejected,
>)
    ensures
        outcome matches Ok(found) ==> r == Ok::<Option<Vec<Option<String>>>, PatternRejected>(
            found,
        ),
        outcome is Err ==> r == Err::<Option<Vec<Option<String>>>, PatternRejected>(
            PatternRejected,
        ),
{
    match outcome {
        Ok(found) => Ok(found),
        Err(_) => Err(PatternRejected),
    }
}

} // verus!
