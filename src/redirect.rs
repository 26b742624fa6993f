use vstd::prelude::*;
use crate::tokenize::ParseError;
use crate::words::{lemma_words_of_push, words_of};

verus! {

/// An output stream of a command that may be sent to a file.
#[derive(Clone, Copy, Debug, PartialEq, Eq, Structural)]
pub enum OutStream {
    Stdout,
    Stderr,
}

/// How a redirection target is opened; both create a missing file.
#[derive(Clone, Copy, Debug, PartialEq, Eq, Structural)]
pub enum WriteMode {
    /// `>`, `1>`, `2>`: the file is emptied first.
    Truncate,
    /// `>>`, `1>>`, `2>>`: what the file holds is kept and written after.
    Append,
}

/// One redirection operator with its target path.
#[derive(Clone, Debug, PartialEq, Eq)]
pub struct Redirection {
    pub stream: OutStream,
    pub mode: WriteMode,
    pub target: String,
}

/// A command's arguments with its redirections taken out, both in the order
/// in which they stood.
#[derive(Clone, Debug, PartialEq, Eq)]
pub struct Extraction {
    pub redirections: Vec<Redirection>,
    pub args: Vec<String>,
}

/// The abstract value of a redirection.
pub open spec fn redirection_of(r: Redirection) -> (OutStream, WriteMode, Seq<char>) {
    (r.stream, r.mode, r.target@)
}

pub open spec fn redirections_of(rs: Seq<Redirection>) -> Seq<(OutStream, WriteMode, Seq<char>)> {
    rs.map_values(|r: Redirection| redirection_of(r))
}

/// The stream and mode that a word names, if it is a redirection operator.
pub open spec fn operator_of(w: Seq<char>) -> Option<(OutStream, WriteMode)> {
    if w == seq!['>'] || w == seq!['1', '>'] {
        Some((OutStream::Stdout, WriteMode::Truncate))
    } else if w == seq!['>', '>'] || w == seq!['1', '>', '>'] {
        Some((OutStream::Stdout, WriteMode::Append))
    } else if w == seq!['2', '>'] {
        Some((OutStream::Stderr, WriteMode::Truncate))
    } else if w == seq!['2', '>', '>'] {
        Some((OutStream::Stderr, WriteMode::Append))
    } else {
        None
    }
}

/// Redirections and remaining arguments of a word sequence, read left to
/// right: an operator takes the word after it as its target; `None` when an
/// operator is the last word.
pub open spec fn extract_spec(ws: Seq<Seq<char>>) -> Option<
    (Seq<(OutStream, WriteMode, Seq<char>)>, Seq<Seq<char>>),
>
    decreases ws.len(),
{
    if ws.len() == 0 {
        Some((Seq::empty(), Seq::empty()))
    } else {
        match operator_of(ws[0]) {
            Some((stream, mode)) => {
                if ws.len() < 2 {
                    None
                } else {
                    match extract_spec(ws.subrange(2, ws.len() as int)) {
                        Some((rs, args)) => Some((seq![(stream, mode, ws[1])] + rs, args)),
                        None => None,
                    }
                }
            },
            None => {
                match extract_spec(ws.drop_first()) {
                    Some((rs, args)) => Some((rs, seq![ws[0]] + args)),
                    None => None,
                }
            },
        }
    }
}

/// `rest` with a known prefix of redirections and arguments put in front.
pub open spec fn prefixed(
    rs: Seq<(OutStream, WriteMode, Seq<char>)>,
    args: Seq<Seq<char>>,
    rest: Option<(Seq<(OutStream, WriteMode, Seq<char>)>, Seq<Seq<char>>)>,
) -> Option<(Seq<(OutStream, WriteMode, Seq<char>)>, Seq<Seq<char>>)> {
    match rest {
        Some((rs2, args2)) => Some((rs + rs2, args + args2)),
        None => None,
    }
}

/// Which operator a word is, if any.
pub fn operator(word: &str) -> (r: Option<(OutStream, WriteMode)>)
    ensures
        r == operator_of(word@),
{
    let n = word.unicode_len();
    if n == 0 || n > 3 {
        return None;
    }
    let c0 = word.get_char(0);
    if n == 1 {
        if c0 == '>' {
            assert(word@ =~= seq!['>']);
            return Some((OutStream::Stdout, WriteMode::Truncate));
        }
        return None;
    }
    let c1 = word.get_char(1);
    if n == 2 {
        if c1 != '>' {
            return None;
        }
        if c0 == '>' || c0 == '1' {
            assert(c0 == '>' ==> word@ =~= seq!['>', '>']);
            assert(c0 == '1' ==> word@ =~= seq!['1', '>']);
            return Some(
                if c0 == '>' {
                    (OutStream::Stdout, WriteMode::Append)
                } else {
                    (OutStream::Stdout, WriteMode::Truncate)
                },
            );
        }
        if c0 == '2' {
            assert(word@ =~= seq!['2', '>']);
            return Some((OutStream::Stderr, WriteMode::Truncate));
        }
        return None;
    }
    let c2 = word.get_char(2);
    if c1 != '>' || c2 != '>' {
        return None;
    }
    if c0 == '1' {
        assert(word@ =~= seq!['1', '>', '>']);
        Some((OutStream::Stdout, WriteMode::Append))
    } else if c0 == '2' {
        assert(word@ =~= seq!['2', '>', '>']);
        Some((OutStream::Stderr, WriteMode::Append))
    } else {
        None
    }
}

/// The redirection that decides where `stream` goes: the last one for it.
pub open spec fn last_for(rs: Seq<(OutStream, WriteMode, Seq<char>)>, stream: OutStream) -> Option<
    (WriteMode, Seq<char>),
>
    decreases rs.len(),
{
    if rs.len() == 0 {
        None
    } else if rs.last().0 == stream {
        Some((rs.last().1, rs.last().2))
    } else {
        last_for(rs.drop_last(), stream)
    }
}

impl Extraction {
    /// Where `stream` is sent: the last redirection for it, or `None` when it
    /// keeps its usual destination. Earlier ones for the same stream are
    /// still opened (and so created) but receive nothing.
    pub fn target(&self, stream: OutStream) -> (r: Option<&Redirection>)
        ensures
            match r {
                Some(t) => last_for(redirections_of(self.redirections@), stream) == Some(
                    (t.mode, t.target@),
                ),
                None => last_for(redirections_of(self.redirections@), stream) is None,
            },
    {
        let mut i = self.redirections.len();
        assert(self.redirections@.subrange(0, i as int) =~= self.redirections@);
        while i > 0
            invariant
                i <= self.redirections.len(),
                last_for(redirections_of(self.redirections@), stream) == last_for(
                    redirections_of(self.redirections@.subrange(0, i as int)),
                    stream,
                ),
            decreases i,
        {
            let ghost pre = self.redirections@.subrange(0, i as int);
            proof {
                assert(redirections_of(pre).drop_last() =~= redirections_of(
                    self.redirections@.subrange(0, i - 1),
                ));
            }
            if self.redirections[i - 1].stream == stream {
                return Some(&self.redirections[i - 1]);
            }
            i -= 1;
        }
        None
    }
}

proof fn lemma_redirections_of_push(rs: Seq<Redirection>, r: Redirection)
    ensures
        redirections_of(rs.push(r)) == redirections_of(rs).push(redirection_of(r)),
{
    assert(redirections_of(rs.push(r)) =~= redirections_of(rs).push(redirection_of(r)));
}

/// Takes the redirection operators (`>`, `1>`, `>>`, `1>>`, `2>`, `2>>`) and
/// their targets out of a command's arguments. Everything else stays, in its
/// order. Fails with `MissingRedirectionTarget` exactly when an operator has
/// no word after it.
pub fn extract(words: &Vec<String>) -> (r: Result<Extraction, ParseError>)
    ensures
        match r {
            Ok(e) => extract_spec(words_of(words@)) == Some(
                (redirections_of(e.redirections@), words_of(e.args@)),
            ),
            Err(err) => err == ParseError::MissingRedirectionTarget && extract_spec(
                words_of(words@),
            ) is None,
        },
{
    let ghost all = words_of(words@);
    let n = words.len();
    let mut redirections: Vec<Redirection> = Vec::new();
    let mut args: Vec<String> = Vec::new();
    let mut i: usize = 0;
    proof {
        assert(all.subrange(0, n as int) =~= all);
        match extract_spec(all) {
            Some((rs2, a2)) => {
                assert(redirections_of(redirections@) + rs2 =~= rs2);
                assert(words_of(args@) + a2 =~= a2);
            },
            None => {},
        }
    }
    while i < n
        invariant
            n == words.len(),
            all == words_of(words@),
            i <= n,
            extract_spec(all) == prefixed(
                redirections_of(redirections@),
                words_of(args@),
                extract_spec(all.subrange(i as int, n as int)),
            ),
        decreases n - i,
    {
        let ghost rest = all.subrange(i as int, n as int);
        assert(rest[0] == words@[i as int]@);
        match operator(words[i].as_str()) {
            Some((stream, mode)) => {
                if i + 1 >= n {
                    return Err(ParseError::MissingRedirectionTarget);
                }
                proof {
                    assert(rest.subrange(2, rest.len() as int) =~= all.subrange(i + 2, n as int));
                    lemma_redirections_of_push(
                        redirections@,
                        Redirection { stream, mode, target: words@[i + 1] },
                    );
                    assert(rest[1] == words@[i + 1]@);
                }
                let red = Redirection { stream, mode, target: words[i + 1].clone() };
                redirections.push(red);
                proof {
                    let rs0 = redirections_of(redirections@.drop_last());
                    assert(rs0 + (seq![(stream, mode, words@[i + 1]@)] + Seq::empty()) =~= rs0.push(
                        (stream, mode, words@[i + 1]@),
                    ));
                    match extract_spec(all.subrange(i + 2, n as int)) {
                        Some((rs2, a2)) => {
                            assert(rs0 + (seq![(stream, mode, words@[i + 1]@)] + rs2) =~= rs0.push(
                                (stream, mode, words@[i + 1]@),
                            ) + rs2);
                        },
                        None => {},
                    }
                }
                i += 2;
            },
            None => {
                proof {
                    assert(rest.drop_first() =~= all.subrange(i + 1, n as int));
                    lemma_words_of_push(args@, words@[i as int]);
                    match extract_spec(all.subrange(i + 1, n as int)) {
                        Some((rs2, a2)) => {
                            assert(words_of(args@) + (seq![words@[i as int]@] + a2) =~= words_of(
                                args@,
                            ).push(words@[i as int]@) + a2);
                        },
                        None => {},
                    }
                }
                args.push(words[i].clone());
                i += 1;
            },
        }
    }
    proof {
        assert(all.subrange(n as int, n as int) =~= Seq::<Seq<char>>::empty());
        assert(redirections_of(redirections@) + Seq::empty() =~= redirections_of(redirections@));
        assert(words_of(args@) + Seq::empty() =~= words_of(args@));
    }
    Ok(Extraction { redirections, args })
}

} // verus!
