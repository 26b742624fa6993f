use vstd::prelude::*;
use crate::words::{join_spaced, lemma_words_of_push, nonempty_words, words_of};

verus! {

/// Why a line could not be turned into commands.
#[derive(Clone, Copy, Debug, PartialEq, Eq, Structural)]
pub enum ParseError {
    /// A quote was left open, or the line ended in a lone backslash.
    UnterminatedQuote,
    /// A redirection operator was the last word of its command.
    MissingRedirectionTarget,
    /// A `|` had no command on one of its sides.
    PipelineTooShort,
}

/// The words of a line under POSIX shell quoting, as shlex splits them;
/// `None` for a line that it rejects.
pub uninterp spec fn shell_words(s: Seq<char>) -> Option<Seq<Seq<char>>>;

/// Characters that end or start something in shell word syntax.
pub open spec fn is_shell_special(c: char) -> bool {
    c == ' ' || c == '\t' || c == '\n' || c == '"' || c == '\'' || c == '\\'
}

/// A word that reads as itself: not empty, not the start of a comment, no
/// blank, quote or backslash in it.
pub open spec fn is_plain_word(w: Seq<char>) -> bool {
    &&& w.len() > 0
    &&& w[0] != '#'
    &&& forall|i: int| 0 <= i < w.len() ==> !is_shell_special(#[trigger] w[i])
}

pub open spec fn all_plain(ws: Seq<Seq<char>>) -> bool {
    forall|i: int| 0 <= i < ws.len() ==> is_plain_word(#[trigger] ws[i])
}

/// The words that a split gave, if it succeeded.
pub open spec fn split_view(r: Option<Vec<String>>) -> Option<Seq<Seq<char>>> {
    match r {
        Some(v) => Some(words_of(v@)),
        None => None,
    }
}

/// Relies on shlex::split, which splits a line into words as a POSIX shell
/// does (blanks separate words, quotes and backslashes group and escape, `#`
/// at the start of a word opens a comment) and gives `None` on an open quote
/// or a trailing backslash. Plain words separated by single spaces come back
/// unchanged, one word each.
#[verifier::external_body]
fn shlex_split(s: &str) -> (r: Option<Vec<String>>)
    ensures
        split_view(r) == shell_words(s@),
        forall|ws: Seq<Seq<char>>|
            #![trigger join_spaced(ws)]
            all_plain(ws) && s@ == join_spaced(ws) ==> split_view(r) == Some(ws),
{
    shlex::split(s)
}

/// Drops the empty words, keeping the order of the others.
pub fn drop_empty_words(words: Vec<String>) -> (r: Vec<String>)
    ensures
        words_of(r@) == nonempty_words(words_of(words@)),
{
    let mut out: Vec<String> = Vec::new();
    let mut i: usize = 0;
    while i < words.len()
        invariant
            i <= words.len(),
            words_of(out@) == nonempty_words(words_of(words@.subrange(0, i as int))),
        decreases words.len() - i,
    {
        let ghost before = words@.subrange(0, i as int);
        proof {
            assert(words@.subrange(0, i + 1) == before.push(words@[i as int]));
            lemma_words_of_push(before, words@[i as int]);
            assert(words_of(before.push(words@[i as int])).drop_last() == words_of(before));
            lemma_words_of_push(out@, words@[i as int]);
        }
        if words[i].as_str().unicode_len() > 0 {
            out.push(words[i].clone());
        }
        i += 1;
    }
    proof {
        assert(words@.subrange(0, words@.len() as int) == words@);
    }
    out
}

pub proof fn lemma_nonempty_words_of_plain(ws: Seq<Seq<char>>)
    requires
        all_plain(ws),
    ensures
        nonempty_words(ws) == ws,
    decreases ws.len(),
{
    if ws.len() > 0 {
        assert(is_plain_word(ws[ws.len() - 1]));
        lemma_nonempty_words_of_plain(ws.drop_last());
    }
}

/// Splits a line into words. Blanks (space, tab, newline) separate words;
/// quoted runs are grouped into their word without the quotes; a backslash
/// escapes the next character; a `#` at the start of a word begins a comment
/// that runs to the end of the line. A word that comes out empty (a bare `''`
/// or `""`) is dropped.
///
/// Re-joining plain words with single spaces and splitting again gives them
/// back: on a line whose words are all plain, `tokenize` after `join_words`
/// after `tokenize` is `tokenize`.
pub fn tokenize(line: &str) -> (r: Result<Vec<String>, ParseError>)
    ensures
        match r {
            Ok(v) => shell_words(line@) matches Some(ws) && words_of(v@) == nonempty_words(ws),
            Err(e) => e == ParseError::UnterminatedQuote && shell_words(line@) is None,
        },
        forall|ws: Seq<Seq<char>>|
            #![trigger join_spaced(ws)]
            all_plain(ws) && line@ == join_spaced(ws) ==> (r matches Ok(v) && words_of(v@) == ws),
{
    match shlex_split(line) {
        Some(words) => {
            let r = drop_empty_words(words);
            proof {
                assert forall|ws: Seq<Seq<char>>|
                    #![trigger join_spaced(ws)]
                    all_plain(ws) && line@ == join_spaced(ws) implies words_of(r@) == ws by {
                    lemma_nonempty_words_of_plain(ws);
                }
            }
            Ok(r)
        },
        None => Err(ParseError::UnterminatedQuote),
    }
}

} // verus!
