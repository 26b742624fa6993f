use vstd::prelude::*;
use crate::builtins::{decimal, decimal_spec};
use crate::words::{same_text, words_of};

verus! {

/// What `history` was asked to do: merge a file into the history (`-r
/// path`), list the last `num` entries, or (neither) list them all. When both
/// are given, the file wins.
#[derive(Clone, Debug, PartialEq, Eq)]
pub struct HistoryInfo {
    pub read: Option<String>,
    pub num: Option<usize>,
}

/// Why the arguments of `history` were refused.
#[derive(Clone, Copy, Debug, PartialEq, Eq, Structural)]
pub enum HistoryArgError {
    /// `-r` came without a path after it.
    MissingPath,
    /// An argument was neither `-r` nor a count.
    NotANumber,
}

pub open spec fn is_digit(c: char) -> bool {
    '0' <= c && c <= '9'
}

/// The value of a run of decimal digits.
pub open spec fn digits_value(s: Seq<char>) -> nat
    decreases s.len(),
{
    if s.len() == 0 {
        0
    } else {
        digits_value(s.drop_last()) * 10 + ((s.last() as u32 - '0' as u32) as nat)
    }
}

/// `s` without the `+` it may start with.
pub open spec fn unsigned_part(s: Seq<char>) -> Seq<char> {
    if s.len() > 0 && s[0] == '+' {
        s.drop_first()
    } else {
        s
    }
}

/// A count as `usize` reads it: an optional `+`, then at least one digit,
/// with a value that fits.
pub open spec fn count_spec(s: Seq<char>) -> Option<nat> {
    let d = unsigned_part(s);
    if d.len() > 0 && (forall|i: int| 0 <= i < d.len() ==> is_digit(#[trigger] d[i]))
        && digits_value(d) <= usize::MAX {
        Some(digits_value(d))
    } else {
        None
    }
}

proof fn lemma_digits_value_grows(s: Seq<char>, k: int)
    requires
        0 <= k <= s.len(),
        forall|i: int| 0 <= i < s.len() ==> is_digit(#[trigger] s[i]),
    ensures
        digits_value(s.subrange(0, k)) <= digits_value(s),
    decreases s.len() - k,
{
    if k < s.len() {
        lemma_digits_value_grows(s, k + 1);
        assert(s.subrange(0, k + 1).drop_last() =~= s.subrange(0, k));
    } else {
        assert(s.subrange(0, k) =~= s);
    }
}

/// Reads a count (see `count_spec`).
pub fn parse_count(s: &str) -> (r: Option<usize>)
    ensures
        match r {
            Some(n) => count_spec(s@) == Some(n as nat),
            None => count_spec(s@) is None,
        },
{
    let n = s.unicode_len();
    let start: usize = if n > 0 && s.get_char(0) == '+' {
        1
    } else {
        0
    };
    let ghost d = s@.subrange(start as int, n as int);
    assert(start == 1 ==> d =~= s@.drop_first());
    assert(start == 0 ==> d =~= s@);
    assert(d == unsigned_part(s@));
    if start == n {
        return None;
    }
    let mut i = start;
    let mut value: usize = 0;
    while i < n
        invariant
            start <= i <= n == s@.len(),
            d == s@.subrange(start as int, n as int),
            d == unsigned_part(s@),
            forall|j: int| 0 <= j < i - start ==> is_digit(#[trigger] d[j]),
            value as nat == digits_value(d.subrange(0, i - start)),
        decreases n - i,
    {
        let c = s.get_char(i);
        if !('0' <= c && c <= '9') {
            assert(!is_digit(d[i - start]));
            assert(!(forall|j: int| 0 <= j < d.len() ==> is_digit(#[trigger] d[j])));
            assert(count_spec(s@) is None);
            return None;
        }
        let v = (c as u32 - '0' as u32) as usize;
        assert(d.subrange(0, i + 1 - start).drop_last() =~= d.subrange(0, i - start));
        if value > (usize::MAX - v) / 10 {
            proof {
                assert(digits_value(d.subrange(0, i + 1 - start)) > usize::MAX) by (nonlinear_arith)
                    requires
                        value > (usize::MAX - v) / 10,
                        digits_value(d.subrange(0, i + 1 - start)) == value * 10 + v,
                ;
                if forall|j: int| 0 <= j < d.len() ==> is_digit(#[trigger] d[j]) {
                    lemma_digits_value_grows(d, i + 1 - start);
                    assert(digits_value(d) > usize::MAX);
                }
                assert(count_spec(s@) is None);
            }
            return None;
        }
        assert(value * 10 + v <= usize::MAX) by (nonlinear_arith)
            requires
                value <= (usize::MAX - v) / 10,
                v <= 9,
        ;
        value = value * 10 + v;
        i += 1;
    }
    assert(d.subrange(0, n - start) =~= d);
    Some(value)
}

/// The request made by the arguments `ws` of `history`, read left to right
/// from what earlier ones asked (`read`, `num`); a later one of the same kind
/// replaces an earlier one.
pub open spec fn history_from(ws: Seq<Seq<char>>, read: Option<Seq<char>>, num: Option<nat>) -> Result<
    (Option<Seq<char>>, Option<nat>),
    HistoryArgError,
>
    decreases ws.len(),
{
    if ws.len() == 0 {
        Ok((read, num))
    } else if ws[0] == "-r"@ {
        if ws.len() < 2 {
            Err(HistoryArgError::MissingPath)
        } else {
            history_from(ws.subrange(2, ws.len() as int), Some(ws[1]), num)
        }
    } else {
        match count_spec(ws[0]) {
            Some(n) => history_from(ws.drop_first(), read, Some(n)),
            None => Err(HistoryArgError::NotANumber),
        }
    }
}

pub open spec fn info_of(h: HistoryInfo) -> (Option<Seq<char>>, Option<nat>) {
    (
        match h.read {
            Some(p) => Some(p@),
            None => None,
        },
        match h.num {
            Some(n) => Some(n as nat),
            None => None,
        },
    )
}

impl HistoryInfo {
    /// Reads the arguments of `history` (see `history_from`).
    pub fn new(args: &Vec<String>) -> (r: Result<HistoryInfo, HistoryArgError>)
        ensures
            match r {
                Ok(h) => history_from(words_of(args@), None, None) == Ok::<
                    _,
                    HistoryArgError,
                >(info_of(h)),
                Err(e) => history_from(words_of(args@), None, None) == Err::<
                    (Option<Seq<char>>, Option<nat>),
                    HistoryArgError,
                >(e),
            },
    {
        let ghost all = words_of(args@);
        let n = args.len();
        let mut h = HistoryInfo { read: None, num: None };
        let mut i: usize = 0;
        assert(all.subrange(0, n as int) =~= all);
        while i < n
            invariant
                n == args.len(),
                all == words_of(args@),
                i <= n,
                history_from(all, None, None) == history_from(
                    all.subrange(i as int, n as int),
                    info_of(h).0,
                    info_of(h).1,
                ),
            decreases n - i,
        {
            let ghost rest = all.subrange(i as int, n as int);
            assert(rest[0] == args@[i as int]@);
            if same_text(args[i].as_str(), "-r") {
                if i + 1 >= n {
                    return Err(HistoryArgError::MissingPath);
                }
                assert(rest.subrange(2, rest.len() as int) =~= all.subrange(i + 2, n as int));
                assert(rest[1] == args@[i + 1]@);
                h.read = Some(args[i + 1].clone());
                i += 2;
            } else {
                match parse_count(args[i].as_str()) {
                    Some(c) => {
                        assert(rest.drop_first() =~= all.subrange(i + 1, n as int));
                        h.num = Some(c);
                        i += 1;
                    },
                    None => return Err(HistoryArgError::NotANumber),
                }
            }
        }
        assert(all.subrange(n as int, n as int) =~= Seq::<Seq<char>>::empty());
        Ok(h)
    }
}

/// One line of a history listing: the indent, the entry's number (counted
/// from one), two spaces, the entry.
pub open spec fn history_line(indent: Seq<char>, number: nat, entry: Seq<char>) -> Seq<char> {
    indent + decimal_spec(number) + "  "@ + entry
}

/// The first entry that a listing shows: all of them, or the last `n`.
pub open spec fn listing_start(len: nat, last: Option<nat>) -> nat {
    match last {
        Some(n) => if n >= len {
            0
        } else {
            (len - n) as nat
        },
        None => 0,
    }
}

/// The lines that `history` prints: every entry indented by four spaces, or
/// the last `n` indented by two, each with its number.
pub open spec fn history_listing(entries: Seq<Seq<char>>, last: Option<nat>) -> Seq<Seq<char>> {
    let start = listing_start(entries.len(), last);
    let indent = if last is Some {
        "  "@
    } else {
        "    "@
    };
    Seq::new(
        (entries.len() - start) as nat,
        |i: int| history_line(indent, (start + i + 1) as nat, entries[start + i]),
    )
}

/// The lines that `history` prints for these entries (see `history_listing`).
pub fn history_lines(entries: &Vec<String>, last: Option<usize>) -> (r: Vec<String>)
    ensures
        words_of(r@) == history_listing(
            words_of(entries@),
            match last {
                Some(n) => Some(n as nat),
                None => None,
            },
        ),
{
    let ghost last_nat = match last {
        Some(n) => Some(n as nat),
        None => None::<nat>,
    };
    let len = entries.len();
    let start: usize = match last {
        Some(n) => if n >= len {
            0
        } else {
            len - n
        },
        None => 0,
    };
    let indent: &str = if last.is_some() {
        "  "
    } else {
        "    "
    };
    let ghost want = history_listing(words_of(entries@), last_nat);
    let mut out: Vec<String> = Vec::new();
    let mut i = start;
    while i < len
        invariant
            start <= i <= len == entries.len(),
            start == listing_start(len as nat, last_nat),
            indent@ == (if last_nat is Some {
                "  "@
            } else {
                "    "@
            }),
            want == history_listing(words_of(entries@), last_nat),
            want.len() == len - start,
            out@.len() == i - start,
            forall|j: int| 0 <= j < i - start ==> (#[trigger] out@[j])@ == want[j],
        decreases len - i,
    {
        let mut line = String::from_str(indent);
        let number = decimal(i + 1);
        line.append(number.as_str());
        line.append("  ");
        line.append(entries[i].as_str());
        assert(line@ == want[i - start]);
        out.push(line);
        i += 1;
    }
    assert(words_of(out@) =~= want);
    out
}

} // verus!
