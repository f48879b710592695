use crate::text::views;
use vstd::prelude::*;

verus! {

#[verifier::external_type_specification]
#[verifier::external_body]
pub struct ExParseError(shell_words::ParseError);

/// What shell_words::split gives for a command line: its words, or none
/// when a quote is left open.
pub uninterp spec fn shell_split_of(s: Seq<char>) -> Option<Seq<Seq<char>>>;

/// What shell_words::join gives for a list of words.
pub uninterp spec fn shell_joined_of(words: Seq<Seq<char>>) -> Seq<char>;

/// Relies on shell_words::split: the words of a command line as a POSIX
/// shell splits them, or an error when a quote is left open.
#[verifier::external_body]
pub(crate) fn shell_split(s: &str) -> (r: Result<Vec<String>, shell_words::ParseError>)
    ensures
        match r {
            Ok(w) => shell_split_of(s@) == Some(views(w@)),
            Err(_) => shell_split_of(s@) is None,
        },
{
    shell_words::split(s)
}

/// Relies on shell_words::join: the words, each quoted for a POSIX shell
/// where it needs it, separated by spaces.
#[verifier::external_body]
pub(crate) fn shell_join(words: &Vec<String>) -> (r: String)
    ensures
        r@ == shell_joined_of(views(words@)),
{
    shell_words::join(words)
}

} // verus!
