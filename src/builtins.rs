use vstd::prelude::*;
use crate::command::{builtin_name, resolution_of, BuiltinKind, ResolvedCommand};
use crate::pipeline::PipelineError;
use crate::tokenize::ParseError;
use crate::words::{join_spaced, join_words, words_of};

verus! {

/// The character of a decimal digit.
pub open spec fn digit_char(d: nat) -> char {
    if d == 0 {
        '0'
    } else if d == 1 {
        '1'
    } else if d == 2 {
        '2'
    } else if d == 3 {
        '3'
    } else if d == 4 {
        '4'
    } else if d == 5 {
        '5'
    } else if d == 6 {
        '6'
    } else if d == 7 {
        '7'
    } else if d == 8 {
        '8'
    } else {
        '9'
    }
}

/// `n` written in decimal, without leading zeros.
pub open spec fn decimal_spec(n: nat) -> Seq<char>
    decreases n,
{
    if n < 10 {
        seq![digit_char(n)]
    } else {
        decimal_spec(n / 10).push(digit_char(n % 10))
    }
}

fn digit_str(d: usize) -> (r: &'static str)
    requires
        d < 10,
    ensures
        r@ == seq![digit_char(d as nat)],
{
    proof {
        reveal_strlit("0");
        reveal_strlit("1");
        reveal_strlit("2");
        reveal_strlit("3");
        reveal_strlit("4");
        reveal_strlit("5");
        reveal_strlit("6");
        reveal_strlit("7");
        reveal_strlit("8");
        reveal_strlit("9");
    }
    if d == 0 {
        "0"
    } else if d == 1 {
        "1"
    } else if d == 2 {
        "2"
    } else if d == 3 {
        "3"
    } else if d == 4 {
        "4"
    } else if d == 5 {
        "5"
    } else if d == 6 {
        "6"
    } else if d == 7 {
        "7"
    } else if d == 8 {
        "8"
    } else {
        "9"
    }
}

/// `n` in decimal.
pub fn decimal(n: usize) -> (r: String)
    ensures
        r@ == decimal_spec(n as nat),
    decreases n,
{
    if n < 10 {
        String::from_str(digit_str(n))
    } else {
        let mut s = decimal(n / 10);
        s.append(digit_str(n % 10));
        s
    }
}

/// What `echo` writes: its arguments joined by single spaces, and a newline.
pub fn echo_output(args: &Vec<String>) -> (r: String)
    ensures
        r@ == join_spaced(words_of(args@)) + "\n"@,
{
    let mut s = join_words(args);
    s.append("\n");
    s
}

/// What `type name` writes, given what `name` resolved to.
pub open spec fn type_report_spec(name: Seq<char>, resolved: (Option<BuiltinKind>, Option<Seq<char>>)) -> Seq<
    char,
> {
    match resolved {
        (Some(_), _) => name + " is a shell builtin\n"@,
        (None, Some(path)) => name + " is "@ + path + "\n"@,
        (None, None) => name + ": not found\n"@,
    }
}

/// What `type name` writes: that it is a built-in, where the program is, or
/// that it is not found.
pub fn type_report(name: &str, resolved: &ResolvedCommand) -> (r: String)
    ensures
        r@ == type_report_spec(name@, resolution_of(*resolved)),
{
    let mut s = String::from_str(name);
    match resolved {
        ResolvedCommand::Builtin(_) => {
            s.append(" is a shell builtin\n");
        },
        ResolvedCommand::External(path) => {
            s.append(" is ");
            s.append(path.as_str());
            s.append("\n");
        },
        ResolvedCommand::NotFound => {
            s.append(": not found\n");
        },
    }
    s
}

/// What a text built-in writes: `echo` its arguments, `pwd` the current
/// directory `cwd`, `type` the report on its first argument (nothing without
/// one), given `probe`, what that argument resolved to. The other built-ins
/// write no text: `None`.
pub open spec fn builtin_output_spec(
    kind: BuiltinKind,
    args: Seq<Seq<char>>,
    cwd: Seq<char>,
    probe: (Option<BuiltinKind>, Option<Seq<char>>),
) -> Option<Seq<char>> {
    match kind {
        BuiltinKind::Echo => Some(join_spaced(args) + "\n"@),
        BuiltinKind::Pwd => Some(cwd + "\n"@),
        BuiltinKind::Type => Some(
            if args.len() == 0 {
                Seq::empty()
            } else {
                type_report_spec(args[0], probe)
            },
        ),
        _ => None,
    }
}

/// The text that a text built-in writes; `None` for `cd`, `history` and
/// `exit` (see `builtin_output_spec`).
pub fn builtin_output(kind: BuiltinKind, args: &Vec<String>, cwd: &str, probe: &ResolvedCommand) -> (r:
    Option<String>)
    ensures
        match r {
            Some(t) => builtin_output_spec(kind, words_of(args@), cwd@, resolution_of(*probe))
                == Some(t@),
            None => builtin_output_spec(kind, words_of(args@), cwd@, resolution_of(*probe)) is None,
        },
{
    match kind {
        BuiltinKind::Echo => Some(echo_output(args)),
        BuiltinKind::Pwd => {
            let mut s = String::from_str(cwd);
            s.append("\n");
            Some(s)
        },
        BuiltinKind::Type => {
            if args.len() == 0 {
                Some(String::new())
            } else {
                Some(type_report(args[0].as_str(), probe))
            }
        },
        _ => None,
    }
}

/// The line reported for a command name that resolves to nothing.
pub fn not_found_message(name: &str) -> (r: String)
    ensures
        r@ == name@ + ": command not found"@,
{
    let mut s = String::from_str(name);
    s.append(": command not found");
    s
}

impl ParseError {
    /// A one-line description of the error.
    pub fn message(&self) -> (r: &'static str)
        ensures
            r@ == (match *self {
                ParseError::UnterminatedQuote => "unterminated quote"@,
                ParseError::MissingRedirectionTarget => "missing redirection target"@,
                ParseError::PipelineTooShort => "pipeline needs a command on each side of |"@,
            }),
    {
        match self {
            ParseError::UnterminatedQuote => "unterminated quote",
            ParseError::MissingRedirectionTarget => "missing redirection target",
            ParseError::PipelineTooShort => "pipeline needs a command on each side of |",
        }
    }
}

impl PipelineError {
    /// A one-line description of the error.
    pub fn message(&self) -> (r: String)
        ensures
            r@ == (match *self {
                PipelineError::DisallowedBuiltin(k) => builtin_name(k)
                    + " cannot be used in pipelines"@,
                PipelineError::NotFound(name) => name@ + ": command not found"@,
                PipelineError::Parse(e) => match e {
                    ParseError::UnterminatedQuote => "unterminated quote"@,
                    ParseError::MissingRedirectionTarget => "missing redirection target"@,
                    ParseError::PipelineTooShort => "pipeline needs a command on each side of |"@,
                },
                PipelineError::SpawnFailed(i) => "could not start stage "@ + decimal_spec(
                    i as nat,
                ),
                PipelineError::OpenFailed(i) => "could not open a redirection target of stage "@
                    + decimal_spec(i as nat),
            }),
    {
        match self {
            PipelineError::DisallowedBuiltin(k) => {
                let mut s = String::from_str(k.name());
                s.append(" cannot be used in pipelines");
                s
            },
            PipelineError::NotFound(name) => not_found_message(name.as_str()),
            PipelineError::Parse(e) => String::from_str(e.message()),
            PipelineError::SpawnFailed(i) => {
                let mut s = String::from_str("could not start stage ");
                let d = decimal(*i);
                s.append(d.as_str());
                s
            },
            PipelineError::OpenFailed(i) => {
                let mut s = String::from_str("could not open a redirection target of stage ");
                let d = decimal(*i);
                s.append(d.as_str());
                s
            },
        }
    }
}

/// Why `cd` could not work out where to go.
#[derive(Clone, Copy, Debug, PartialEq, Eq, Structural)]
pub enum CdError {
    /// The path starts with `~` but the home directory is unknown.
    NoHome,
}

/// `rel` taken relative to `base`: `rel` itself when it is absolute, `base`
/// when `rel` is empty, else the two with one `/` between.
pub open spec fn join_path_spec(base: Seq<char>, rel: Seq<char>) -> Seq<char> {
    if rel.len() > 0 && rel[0] == '/' {
        rel
    } else if rel.len() == 0 {
        base
    } else if base.len() > 0 && base.last() == '/' {
        base + rel
    } else {
        base + seq!['/'] + rel
    }
}

/// `p` without the slashes it starts with.
pub open spec fn strip_slashes(p: Seq<char>) -> Seq<char>
    decreases p.len(),
{
    if p.len() > 0 && p[0] == '/' {
        strip_slashes(p.drop_first())
    } else {
        p
    }
}

/// Whether a path starts at the home directory: `~` alone, or `~/...`.
pub open spec fn is_home_relative(p: Seq<char>) -> bool {
    p.len() > 0 && p[0] == '~' && (p.len() == 1 || p[1] == '/')
}

/// Where `cd arg` goes from `cwd`: a leading `~` stands for `home`, and a
/// relative path is taken from `cwd`. No argument means `~`.
pub open spec fn cd_target_spec(arg: Seq<char>, home: Option<Seq<char>>, cwd: Seq<char>) -> Result<
    Seq<char>,
    CdError,
> {
    if is_home_relative(arg) {
        match home {
            None => Err(CdError::NoHome),
            Some(h) => Ok(join_path_spec(cwd, join_path_spec(h, strip_slashes(arg.drop_first())))),
        }
    } else {
        Ok(join_path_spec(cwd, arg))
    }
}

/// `rel` taken relative to `base` (see `join_path_spec`).
pub fn join_path(base: &str, rel: &str) -> (r: String)
    ensures
        r@ == join_path_spec(base@, rel@),
{
    proof {
        reveal_strlit("/");
    }
    let nr = rel.unicode_len();
    let nb = base.unicode_len();
    if nr > 0 && rel.get_char(0) == '/' {
        String::from_str(rel)
    } else if nr == 0 {
        String::from_str(base)
    } else if nb > 0 && base.get_char(nb - 1) == '/' {
        let mut s = String::from_str(base);
        s.append(rel);
        s
    } else {
        let mut s = String::from_str(base);
        s.append("/");
        s.append(rel);
        s
    }
}

/// Where `cd` goes, given its argument (if any), the home directory (if
/// known) and the current directory.
pub fn cd_target(arg: Option<&str>, home: Option<&str>, cwd: &str) -> (r: Result<String, CdError>)
    ensures
        match r {
            Ok(t) => cd_target_spec(
                match arg {
                    Some(a) => a@,
                    None => seq!['~'],
                },
                match home {
                    Some(h) => Some(h@),
                    None => None,
                },
                cwd@,
            ) == Ok::<Seq<char>, CdError>(t@),
            Err(e) => cd_target_spec(
                match arg {
                    Some(a) => a@,
                    None => seq!['~'],
                },
                match home {
                    Some(h) => Some(h@),
                    None => None,
                },
                cwd@,
            ) == Err::<Seq<char>, CdError>(e),
        },
{
    proof {
        reveal_strlit("~");
    }
    let a: &str = match arg {
        Some(a) => a,
        None => "~",
    };
    let n = a.unicode_len();
    if n > 0 && a.get_char(0) == '~' && (n == 1 || a.get_char(1) == '/') {
        match home {
            None => Err(CdError::NoHome),
            Some(h) => {
                let mut k: usize = 1;
                while k < n && a.get_char(k) == '/'
                    invariant
                        1 <= k <= n == a@.len(),
                        strip_slashes(a@.drop_first()) == strip_slashes(a@.subrange(k as int, n as int)),
                    decreases n - k,
                {
                    assert(a@.subrange(k as int, n as int).drop_first() =~= a@.subrange(k + 1, n as int));
                    k += 1;
                }
                assert(a@.drop_first() =~= a@.subrange(1, n as int));
                assert(strip_slashes(a@.subrange(k as int, n as int)) == a@.subrange(k as int, n as int));
                let rest = a.substring_char(k, n);
                let expanded = join_path(h, rest);
                Ok(join_path(cwd, expanded.as_str()))
            },
        }
    } else {
        Ok(join_path(cwd, a))
    }
}

/// The line reported when `cd` cannot enter `target`.
pub fn cd_failure_message(target: &str) -> (r: String)
    ensures
        r@ == "cd: "@ + target@ + ": No such file or directory"@,
{
    let mut s = String::from_str("cd: ");
    s.append(target);
    s.append(": No such file or directory");
    s
}

} // verus!
