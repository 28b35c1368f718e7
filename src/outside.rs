//! The regular-expression engine and the path call that the annotator relies on.

use vstd::prelude::*;

verus! {

#[verifier::external_type_specification]
#[verifier::external_body]
pub struct ExRegexSet(regex::RegexSet);

#[verifier::external_type_specification]
#[verifier::external_body]
pub struct ExRegexError(regex::Error);

/// The patterns a compiled set was built from, in the order given.
pub uninterp spec fn set_patterns(s: regex::RegexSet) -> Seq<Seq<char>>;

/// Whether the regular expression `pattern` matches somewhere in `haystack`.
pub uninterp spec fn pattern_matches(pattern: Seq<char>, haystack: Seq<char>) -> bool;

/// Whether `patterns` all parse and compile together within `size_limit` bytes.
pub uninterp spec fn set_compiles(patterns: Seq<Seq<char>>, size_limit: nat) -> bool;

/// The characters that carry meaning in a regular expression.
pub open spec fn is_meta(c: char) -> bool {
    c == '\\' || c == '.' || c == '+' || c == '*' || c == '?' || c == '(' || c == ')' || c == '|'
        || c == '[' || c == ']' || c == '{' || c == '}' || c == '^' || c == '$' || c == '#'
        || c == '&' || c == '-' || c == '~'
}

/// `s` with a backslash put in front of every meta character.
pub open spec fn escaped(s: Seq<char>) -> Seq<char>
    decreases s.len(),
{
    if s.len() == 0 {
        Seq::empty()
    } else {
        let c = s.last();
        let tail = if is_meta(c) {
            seq!['\\', c]
        } else {
            seq![c]
        };
        escaped(s.drop_last()) + tail
    }
}

/// `needle` occurs as a contiguous run of characters in `haystack`.
pub open spec fn contains(haystack: Seq<char>, needle: Seq<char>) -> bool {
    exists|i: int|
        0 <= i && i + needle.len() <= haystack.len() && #[trigger] haystack.subrange(
            i,
            i + needle.len(),
        ) == needle
}

/// Some pattern of `ps` matches somewhere in `line`.
pub open spec fn any_matches(ps: Seq<Seq<char>>, line: Seq<char>) -> bool {
    exists|i: int| 0 <= i < ps.len() && #[trigger] pattern_matches(ps[i], line)
}

/// The views of a vector of strings.
pub open spec fn views(v: Seq<String>) -> Seq<Seq<char>> {
    v.map_values(|s: String| s@)
}

/// Relies on `regex::escape`: backslashes every meta character, and the result,
/// used as a pattern, matches exactly the haystacks that contain `s`.
#[verifier::external_body]
pub(crate) fn escape_literal(s: &str) -> (r: String)
    ensures
        r@ == escaped(s@),
        forall|t: Seq<char>| #[trigger] pattern_matches(r@, t) == contains(t, s@),
{
    regex::escape(s)
}

/// Relies on `RegexSetBuilder::new`, `size_limit` and `build`: the set is
/// built from `patterns`, in order, or an error says why it could not be.
#[verifier::external_body]
pub(crate) fn compile_set(patterns: &Vec<String>, size_limit: usize) -> (r: Result<
    regex::RegexSet,
    regex::Error,
>)
    ensures
        r.is_ok() == set_compiles(views(patterns@), size_limit as nat),
        r is Ok ==> set_patterns(r->Ok_0) == views(patterns@),
{
    regex::RegexSetBuilder::new(patterns).size_limit(size_limit).build()
}

/// Relies on `RegexSet::is_match`: true exactly when one of the set's patterns
/// matches somewhere in `line`.
#[verifier::external_body]
pub(crate) fn set_is_match(set: &regex::RegexSet, line: &str) -> (r: bool)
    ensures
        r == any_matches(set_patterns(*set), line@),
{
    set.is_match(line)
}

/// The path `p` ends with a dot and then `ext`.
pub open spec fn ends_with_extension(p: Seq<char>, ext: Seq<char>) -> bool {
    p.len() > ext.len() && p.subrange(p.len() - ext.len() - 1, p.len() as int) == seq!['.'] + ext
}

/// The path that `PathBuf::set_extension` makes of `p` with the extension
/// `ext`, or none when `p` has no file name.
pub uninterp spec fn extension_set(p: Seq<char>, ext: Seq<char>) -> Option<Seq<char>>;

/// A plain file name: not empty, with no separator, drive colon or dot.
pub open spec fn plain_name(p: Seq<char>) -> bool {
    &&& p.len() > 0
    &&& !p.contains('/')
    &&& !p.contains('\\')
    &&& !p.contains(':')
    &&& !p.contains('.')
}

/// Relies on `PathBuf::set_extension`: it fails on a path without a file name,
/// such as the empty one, and otherwise adds or replaces the extension; a
/// plain file name gets a dot and the extension appended.
#[verifier::external_body]
pub(crate) fn with_extension(p: &str, ext: &str) -> (r: Option<String>)
    requires
        ext@.len() > 0,
        !ext@.contains('/'),
        !ext@.contains('\\'),
        !ext@.contains('.'),
    ensures
        r is Some == extension_set(p@, ext@) is Some,
        r is Some ==> r->Some_0@ == extension_set(p@, ext@)->Some_0,
        p@.len() == 0 ==> r is None,
        plain_name(p@) ==> r is Some && r->Some_0@ == p@ + seq!['.'] + ext@,
        r is Some ==> ends_with_extension(r->Some_0@, ext@),
{
    let mut path = std::path::PathBuf::from(p);
    match path.set_extension(ext) {
        true => Some(path.to_string_lossy().into_owned()),
        false => None,
    }
}

} // verus!
