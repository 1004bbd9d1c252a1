//! Command lines: their words, and the line that words make.
use crate::text::texts;
use vstd::prelude::*;

verus! {

/// The words that `shell_words::split` makes of a command line, or the message of its
/// error.
pub uninterp spec fn shell_words_of(line: Seq<char>) -> Result<Seq<Seq<char>>, Seq<char>>;

/// The command line that `shell_words::join` makes of words.
pub uninterp spec fn shell_line_of(words: Seq<Seq<char>>) -> Seq<char>;

/// `shell_words::split`: the words of a command line by the rules of a POSIX shell. It
/// fails on a quote that is not closed.
#[verifier::external_body]
pub(crate) fn split_line(line: &str) -> (result: Result<Vec<String>, String>)
    ensures
        match result {
            Ok(words) => shell_words_of(line@) == Ok::<Seq<Seq<char>>, Seq<char>>(texts(words@)),
            Err(message) => shell_words_of(line@) == Err::<Seq<Seq<char>>, Seq<char>>(message@),
        },
{
    shell_words::split(line).map_err(|err| err.to_string())
}

/// `shell_words::join`: a command line with each word quoted where it has to be.
/// Splitting the line gives the words back.
#[verifier::external_body]
pub(crate) fn join_words(words: &Vec<String>) -> (line: String)
    ensures
        line@ == shell_line_of(texts(words@)),
        match shell_words_of(line@) {
            Ok(split) => split == texts(words@),
            Err(_) => false,
        },
{
    shell_words::join(words)
}

/// The command line that stands for an argument list: its words are the arguments.
pub fn command_line(argv: &Vec<String>) -> (line: String)
    ensures
        line@ == shell_line_of(texts(argv@)),
        match shell_words_of(line@) {
            Ok(words) => words == texts(argv@),
            Err(_) => false,
        },
{
    join_words(argv)
}

}
