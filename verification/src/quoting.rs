//! Words and shell commands.

use vstd::prelude::*;

use crate::text::{decimal, texts};

verus! {

/// The error of quoting words for a shell.
#[verifier::external_type_specification]
#[verifier::external_body]
pub struct ExQuoteError(shlex::QuoteError);

/// The command that `shlex::try_join` makes of words.
pub uninterp spec fn shell_command(words: Seq<Seq<char>>) -> Seq<char>;

/// The words that `shlex::split` finds in a command, where its quotes are closed.
pub uninterp spec fn shell_words(command: Seq<char>) -> Option<Seq<Seq<char>>>;

/// A word that no command can hold: the shell knows no NUL.
pub open spec fn has_nul(word: Seq<char>) -> bool {
    word.contains('\0')
}

/// Some word holds a NUL.
pub open spec fn any_nul(words: Seq<Seq<char>>) -> bool {
    exists|i: int| 0 <= i < words.len() && has_nul(#[trigger] words[i])
}

/// A number holds no zero character.
pub proof fn lemma_decimal_has_no_nul(n: nat)
    ensures
        !has_nul(decimal(n)),
    decreases n,
{
    let digits = decimal(n);
    if n >= 10 {
        lemma_decimal_has_no_nul(n / 10);
    }
    assert forall|i: int| 0 <= i < digits.len() implies digits[i] != '\0' by {
        if n >= 10 && i < digits.len() - 1 {
            assert(decimal(n / 10)[i] == digits[i]);
            assert(!has_nul(decimal(n / 10)));
        }
    }
}

/// A shell finds in the command of the words exactly the words: nothing in them is taken for
/// a separator, a quote or another command.
pub open spec fn reads_back(words: Seq<Seq<char>>) -> bool {
    shell_words(shell_command(words)) == Some(words)
}

/// `shlex::try_join` quotes each word where needed and puts one space between them. It fails
/// exactly where a word holds a NUL; otherwise the command is `shell_command` of the words,
/// holds no NUL itself, and `shlex::split` finds the words in it again.
#[verifier::external_body]
fn try_join(words: &Vec<String>) -> (r: Result<String, shlex::QuoteError>)
    ensures
        r is Err <==> any_nul(texts(words@)),
        r matches Ok(command) ==> command@ == shell_command(texts(words@)),
        r matches Ok(command) ==> !has_nul(command@),
        r matches Ok(command) ==> shell_words(command@) == Some(texts(words@)),
{
    shlex::try_join(words.iter().map(String::as_str))
}

/// `shlex::split` finds the words of a command, or none where a quote stays open or a
/// backslash ends it.
#[verifier::external_body]
fn split_words(command: &str) -> (r: Option<Vec<String>>)
    ensures
        r is Some <==> shell_words(command@) is Some,
        r matches Some(words) ==> shell_words(command@) == Some(texts(words@)),
{
    shlex::split(command)
}

/// Why words cannot be quoted.
#[derive(Clone, Copy, Debug, Eq, PartialEq, Structural)]
pub enum QuotingError {
    /// A word holds a NUL.
    Nul,
}

/// The command in which a shell finds the words again. There is none exactly where a word
/// holds a NUL.
pub fn join(words: &Vec<String>) -> (r: Result<String, QuotingError>)
    ensures
        r is Err <==> any_nul(texts(words@)),
        r matches Ok(command) ==> command@ == shell_command(texts(words@)) && !has_nul(command@)
            && reads_back(texts(words@)),
{
    match try_join(words) {
        Ok(command) => Ok(command),
        Err(_error) => Err(QuotingError::Nul),
    }
}

/// The words of a command, where its quotes are closed.
pub fn split(command: &str) -> (r: Option<Vec<String>>)
    ensures
        r is Some <==> shell_words(command@) is Some,
        r matches Some(words) ==> shell_words(command@) == Some(texts(words@)),
{
    split_words(command)
}

} // verus!
