use vstd::prelude::*;
use crate::pipeline::{is_full_pipeline, segments_of, split};
use crate::redirect::{extract, extract_spec, redirections_of, Extraction, OutStream, WriteMode};
use crate::tokenize::{shell_words, tokenize, ParseError};
use crate::words::{nonempty_words, trim, trimmed, words_of};

verus! {

/// One command: its name, and its arguments with the redirections taken out.
#[derive(Clone, Debug, PartialEq, Eq)]
pub struct ParsedCommand {
    pub name: String,
    pub parts: Extraction,
}

/// A line of input, ready to run.
#[derive(Clone, Debug, PartialEq, Eq)]
pub enum Line {
    /// Nothing to run (blank, or only a comment).
    Empty,
    /// A single command.
    Single(ParsedCommand),
    /// The texts of the commands of a pipeline, left to right.
    Pipeline(Vec<String>),
}

/// The abstract value of a parsed command: name, redirections, arguments.
pub open spec fn parsed_of(c: ParsedCommand) -> (
    Seq<char>,
    Seq<(OutStream, WriteMode, Seq<char>)>,
    Seq<Seq<char>>,
) {
    (c.name@, redirections_of(c.parts.redirections@), words_of(c.parts.args@))
}

/// What the text of one command parses to: `Ok(None)` when it has no words;
/// else its first word is the name and the others go through redirection
/// extraction.
pub open spec fn command_spec(s: Seq<char>) -> Result<
    Option<(Seq<char>, Seq<(OutStream, WriteMode, Seq<char>)>, Seq<Seq<char>>)>,
    ParseError,
> {
    match shell_words(s) {
        None => Err(ParseError::UnterminatedQuote),
        Some(ws) => {
            let t = nonempty_words(ws);
            if t.len() == 0 {
                Ok(None)
            } else {
                match extract_spec(t.drop_first()) {
                    None => Err(ParseError::MissingRedirectionTarget),
                    Some((rs, args)) => Ok(Some((t[0], rs, args))),
                }
            }
        },
    }
}

/// Whether `s` holds a `|`.
pub open spec fn has_bar(s: Seq<char>) -> bool {
    exists|i: int| 0 <= i < s.len() && s[i] == '|'
}

/// Parses the text of one command (see `command_spec`).
pub fn parse_command(segment: &str) -> (r: Result<Option<ParsedCommand>, ParseError>)
    ensures
        match r {
            Ok(Some(c)) => command_spec(segment@) == Ok::<_, ParseError>(Some(parsed_of(c))),
            Ok(None) => command_spec(segment@) == Ok::<_, ParseError>(None::<
                (Seq<char>, Seq<(OutStream, WriteMode, Seq<char>)>, Seq<Seq<char>>),
            >),
            Err(e) => command_spec(segment@) == Err::<
                Option<(Seq<char>, Seq<(OutStream, WriteMode, Seq<char>)>, Seq<Seq<char>>)>,
                ParseError,
            >(e),
        },
{
    let mut words = match tokenize(segment) {
        Ok(w) => w,
        Err(e) => return Err(e),
    };
    if words.len() == 0 {
        return Ok(None);
    }
    let ghost all = words@;
    let name = words.remove(0);
    proof {
        assert(words_of(words@) =~= words_of(all).drop_first());
    }
    match extract(&words) {
        Ok(parts) => Ok(Some(ParsedCommand { name, parts })),
        Err(e) => Err(e),
    }
}

/// Parses the text of one stage of a pipeline: as `parse_command`, but a
/// stage without any word is a `|` with nothing on one side.
pub fn parse_stage(segment: &str) -> (r: Result<ParsedCommand, ParseError>)
    ensures
        match r {
            Ok(c) => command_spec(segment@) == Ok::<_, ParseError>(Some(parsed_of(c))),
            Err(e) => command_spec(segment@) == Err::<
                Option<(Seq<char>, Seq<(OutStream, WriteMode, Seq<char>)>, Seq<Seq<char>>)>,
                ParseError,
            >(e) || (e == ParseError::PipelineTooShort && command_spec(segment@) == Ok::<
                _,
                ParseError,
            >(None::<(Seq<char>, Seq<(OutStream, WriteMode, Seq<char>)>, Seq<Seq<char>>)>)),
        },
{
    match parse_command(segment) {
        Ok(Some(c)) => Ok(c),
        Ok(None) => Err(ParseError::PipelineTooShort),
        Err(e) => Err(e),
    }
}

/// Whether the line holds a `|`.
pub fn contains_bar(line: &str) -> (r: bool)
    ensures
        r == has_bar(line@),
{
    let n = line.unicode_len();
    let mut i: usize = 0;
    while i < n
        invariant
            n == line@.len(),
            i <= n,
            forall|j: int| 0 <= j < i ==> line@[j] != '|',
        decreases n - i,
    {
        if line.get_char(i) == '|' {
            return true;
        }
        i += 1;
    }
    false
}

/// Parses a line of input. A line with a `|` is a pipeline, split into the
/// texts of its commands (which are parsed one by one as they run); any other
/// line is one command, parsed after trimming.
pub fn parse_line(line: &str) -> (r: Result<Line, ParseError>)
    ensures
        has_bar(line@) ==> match r {
            Ok(Line::Pipeline(v)) => words_of(v@) == segments_of(line@) && is_full_pipeline(
                segments_of(line@),
            ),
            Err(e) => e == ParseError::PipelineTooShort && !is_full_pipeline(segments_of(line@)),
            _ => false,
        },
        !has_bar(line@) ==> match r {
            Ok(Line::Empty) => command_spec(trimmed(line@)) is Ok && command_spec(
                trimmed(line@),
            )->Ok_0 is None,
            Ok(Line::Single(c)) => command_spec(trimmed(line@)) == Ok::<_, ParseError>(
                Some(parsed_of(c)),
            ),
            Err(e) => command_spec(trimmed(line@)) == Err::<
                Option<(Seq<char>, Seq<(OutStream, WriteMode, Seq<char>)>, Seq<Seq<char>>)>,
                ParseError,
            >(e),
            Ok(Line::Pipeline(_)) => false,
        },
{
    if contains_bar(line) {
        match split(line) {
            Ok(v) => Ok(Line::Pipeline(v)),
            Err(e) => Err(e),
        }
    } else {
        let t = trim(line);
        match parse_command(t.as_str()) {
            Ok(Some(c)) => Ok(Line::Single(c)),
            Ok(None) => Ok(Line::Empty),
            Err(e) => Err(e),
        }
    }
}

} // verus!
