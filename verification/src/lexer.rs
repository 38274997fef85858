//! The three kinds of token the grammar is made of: names, runs of blanks
//! and fixed marks. Recognising them is left to `nom`.

use vstd::prelude::*;

verus! {

/// An ASCII letter.
pub open spec fn is_alpha(c: char) -> bool {
    ('a' <= c && c <= 'z') || ('A' <= c && c <= 'Z')
}

/// A space or a tab.
pub open spec fn is_blank(c: char) -> bool {
    c == ' ' || c == '\t'
}

/// Recognises a name at the start of `input`: the longest run of ASCII
/// letters, which must not be empty.
///
/// Calls `nom::character::complete::alpha1` on a `&str`, for which `nom`
/// counts as a letter what `char::is_ascii_alphabetic` accepts. On success
/// that parser splits the input in two, the letters it took and what
/// follows them; it takes every leading letter, so what follows is empty or
/// starts with something else. It fails exactly when the input is empty or
/// starts with something that is no ASCII letter; the error's content is
/// dropped.
#[verifier::external_body]
pub(crate) fn alpha1<'a>(input: &'a str) -> (r: Option<(&'a str, &'a str)>)
    ensures
        match r {
            Some((rest, word)) => {
                &&& word@ + rest@ == input@
                &&& word@.len() > 0
                &&& forall|i: int| 0 <= i < word@.len() ==> is_alpha(#[trigger] word@[i])
                &&& rest@.len() > 0 ==> !is_alpha(rest@[0])
            },
            None => input@.len() == 0 || !is_alpha(input@[0]),
        },
{
    nom::character::complete::alpha1::<&str, nom::error::Error<&str>>(input).ok()
}

/// Recognises a run of blanks at the start of `input`: the longest run of
/// spaces and tabs, which must not be empty.
///
/// Calls `nom::character::complete::space1` on a `&str`. On success that
/// parser splits the input in two, the blanks it took and what follows
/// them; it takes every leading blank. It fails exactly when the input is
/// empty or starts with something that is neither a space nor a tab; the
/// error's content is dropped.
#[verifier::external_body]
pub(crate) fn space1<'a>(input: &'a str) -> (r: Option<(&'a str, &'a str)>)
    ensures
        match r {
            Some((rest, gap)) => {
                &&& gap@ + rest@ == input@
                &&& gap@.len() > 0
                &&& forall|i: int| 0 <= i < gap@.len() ==> is_blank(#[trigger] gap@[i])
                &&& rest@.len() > 0 ==> !is_blank(rest@[0])
            },
            None => input@.len() == 0 || !is_blank(input@[0]),
        },
{
    nom::character::complete::space1::<&str, nom::error::Error<&str>>(input).ok()
}

/// Recognises the fixed text `mark` at the start of `input` and returns what
/// follows it.
///
/// Calls the parser that `nom::bytes::complete::tag` builds for `mark` on a
/// `&str`. That parser succeeds exactly when the input starts with `mark`,
/// and then splits the input right after it; the error's content is dropped.
/// It compares the two texts byte by byte, which for UTF-8 comes to the same
/// as comparing them character by character.
#[verifier::external_body]
pub(crate) fn tag<'a>(mark: &str, input: &'a str) -> (r: Option<&'a str>)
    ensures
        match r {
            Some(rest) => mark@.is_prefix_of(input@) && rest@ == input@.skip(mark@.len() as int),
            None => !mark@.is_prefix_of(input@),
        },
{
    nom::bytes::complete::tag::<&str, &str, nom::error::Error<&str>>(mark)(input)
        .ok()
        .map(|found| found.0)
}

} // verus!
