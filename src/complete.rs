use vstd::prelude::*;
use crate::words::{lemma_words_of_push, same_text, words_of};

verus! {

broadcast use vstd::seq_lib::to_multiset_insert, vstd::seq_lib::to_multiset_build;

/// Text order: character by character, a prefix first (the order of `str`,
/// since UTF-8 keeps the order of code points).
pub open spec fn text_le(a: Seq<char>, b: Seq<char>) -> bool
    decreases a.len(),
{
    if a.len() == 0 {
        true
    } else if b.len() == 0 {
        false
    } else if a[0] != b[0] {
        a[0] < b[0]
    } else {
        text_le(a.drop_first(), b.drop_first())
    }
}

pub proof fn lemma_text_le_total(a: Seq<char>, b: Seq<char>)
    ensures
        text_le(a, b) || text_le(b, a),
    decreases a.len(),
{
    if a.len() > 0 && b.len() > 0 && a[0] == b[0] {
        lemma_text_le_total(a.drop_first(), b.drop_first());
    }
}

pub proof fn lemma_text_le_trans(a: Seq<char>, b: Seq<char>, c: Seq<char>)
    requires
        text_le(a, b),
        text_le(b, c),
    ensures
        text_le(a, c),
    decreases a.len(),
{
    if a.len() > 0 && b.len() > 0 && c.len() > 0 && a[0] == b[0] && b[0] == c[0] {
        lemma_text_le_trans(a.drop_first(), b.drop_first(), c.drop_first());
    }
}

pub open spec fn is_sorted_texts(s: Seq<Seq<char>>) -> bool {
    forall|i: int, j: int| 0 <= i < j < s.len() ==> text_le(#[trigger] s[i], #[trigger] s[j])
}

/// Whether `p` is a prefix of `s`.
pub open spec fn has_prefix(s: Seq<char>, p: Seq<char>) -> bool {
    p.len() <= s.len() && s.subrange(0, p.len() as int) == p
}

/// The names of `names` that start with `p`, in order.
pub open spec fn keep_prefixed(names: Seq<Seq<char>>, p: Seq<char>) -> Seq<Seq<char>>
    decreases names.len(),
{
    if names.len() == 0 {
        names
    } else if has_prefix(names.last(), p) {
        keep_prefixed(names.drop_last(), p).push(names.last())
    } else {
        keep_prefixed(names.drop_last(), p)
    }
}

/// How many of `names` start with `p`.
pub open spec fn count_prefixed(names: Seq<Seq<char>>, p: Seq<char>) -> nat {
    keep_prefixed(names, p).len()
}

/// The command names offered for completion: the built-ins `echo`, `exit`
/// and `history`, then the programs found on the search path.
pub open spec fn completion_names(programs: Seq<Seq<char>>) -> Seq<Seq<char>> {
    seq!["echo"@, "exit"@, "history"@] + programs
}

/// The command names that a finished completion is counted against: `echo`
/// and `exit`, then the programs found on the search path.
pub open spec fn settle_names(programs: Seq<Seq<char>>) -> Seq<Seq<char>> {
    seq!["echo"@, "exit"@] + programs
}

/// Whether `p` is a prefix of `s`.
pub fn starts_with(s: &str, p: &str) -> (r: bool)
    ensures
        r == has_prefix(s@, p@),
{
    let n = p.unicode_len();
    if n > s.unicode_len() {
        return false;
    }
    let mut i: usize = 0;
    while i < n
        invariant
            n == p@.len() <= s@.len(),
            i <= n,
            forall|j: int| 0 <= j < i ==> s@[j] == p@[j],
        decreases n - i,
    {
        if s.get_char(i) != p.get_char(i) {
            assert(s@.subrange(0, n as int)[i as int] != p@[i as int]);
            return false;
        }
        i += 1;
    }
    assert(s@.subrange(0, n as int) =~= p@);
    true
}

/// Whether `a` comes before `b`, or equals it, in text order.
pub fn text_le_exec(a: &str, b: &str) -> (r: bool)
    ensures
        r == text_le(a@, b@),
{
    let na = a.unicode_len();
    let nb = b.unicode_len();
    let mut i: usize = 0;
    assert(a@.subrange(0, na as int) =~= a@);
    assert(b@.subrange(0, nb as int) =~= b@);
    while i < na && i < nb && a.get_char(i) == b.get_char(i)
        invariant
            na == a@.len(),
            nb == b@.len(),
            i <= na,
            i <= nb,
            text_le(a@, b@) == text_le(a@.subrange(i as int, na as int), b@.subrange(i as int, nb as int)),
        decreases na - i,
    {
        assert(a@.subrange(i as int, na as int).drop_first() =~= a@.subrange(i + 1, na as int));
        assert(b@.subrange(i as int, nb as int).drop_first() =~= b@.subrange(i + 1, nb as int));
        i += 1;
    }
    if i == na {
        true
    } else if i == nb {
        false
    } else {
        a.get_char(i) < b.get_char(i)
    }
}

/// Puts `x` into the sorted `out`, after the names that do not come after it.
fn insert_sorted(out: &mut Vec<String>, x: String)
    requires
        is_sorted_texts(words_of(old(out)@)),
    ensures
        is_sorted_texts(words_of(final(out)@)),
        words_of(final(out)@).to_multiset() == words_of(old(out)@).to_multiset().insert(x@),
{
    let ghost before = words_of(out@);
    let mut k: usize = 0;
    while k < out.len() && text_le_exec(out[k].as_str(), x.as_str())
        invariant
            k <= out.len(),
            words_of(out@) == before,
            forall|i: int| 0 <= i < k ==> text_le(#[trigger] before[i], x@),
        decreases out.len() - k,
    {
        k += 1;
    }
    let ghost xv = x@;
    out.insert(k, x);
    proof {
        assert(words_of(out@) =~= before.insert(k as int, xv));
        let after = words_of(out@);
        if k < before.len() {
            lemma_text_le_total(before[k as int], xv);
        }
        assert forall|i: int, j: int| 0 <= i < j < after.len() implies text_le(
            #[trigger] after[i],
            #[trigger] after[j],
        ) by {
            if j < k {
            } else if j == k {
            } else if i == k {
                if j - 1 > k {
                    lemma_text_le_trans(xv, before[k as int], before[j - 1]);
                }
            } else if i < k {
                assert(after[i] == before[i]);
                assert(after[j] == before[j - 1]);
            } else {
                assert(after[i] == before[i - 1]);
                assert(after[j] == before[j - 1]);
            }
        }
    }
}

/// The command names that complete `prefix` (the text before the cursor),
/// in text order.
pub fn command_completions(programs: &Vec<String>, prefix: &str) -> (r: Vec<String>)
    ensures
        is_sorted_texts(words_of(r@)),
        words_of(r@).to_multiset() == keep_prefixed(completion_names(words_of(programs@)), prefix@).to_multiset(),
{
    let mut names: Vec<String> = Vec::new();
    names.push(String::from_str("echo"));
    names.push(String::from_str("exit"));
    names.push(String::from_str("history"));
    let mut i: usize = 0;
    while i < programs.len()
        invariant
            i <= programs.len(),
            words_of(names@) == seq!["echo"@, "exit"@, "history"@] + words_of(programs@.subrange(0, i as int)),
        decreases programs.len() - i,
    {
        proof {
            lemma_words_of_push(names@, programs@[i as int]);
            assert(programs@.subrange(0, i + 1) =~= programs@.subrange(0, i as int).push(programs@[i as int]));
            lemma_words_of_push(programs@.subrange(0, i as int), programs@[i as int]);
        }
        names.push(programs[i].clone());
        i += 1;
    }
    proof {
        assert(programs@.subrange(0, programs@.len() as int) =~= programs@);
    }
    let ghost all = words_of(names@);
    let mut out: Vec<String> = Vec::new();
    let mut j: usize = 0;
    proof {
        assert(words_of(out@) =~= Seq::<Seq<char>>::empty());
        assert(all.subrange(0, 0) =~= Seq::<Seq<char>>::empty());
    }
    while j < names.len()
        invariant
            j <= names.len(),
            all == words_of(names@),
            is_sorted_texts(words_of(out@)),
            words_of(out@).to_multiset() == keep_prefixed(all.subrange(0, j as int), prefix@).to_multiset(),
        decreases names.len() - j,
    {
        proof {
            assert(all.subrange(0, j + 1).drop_last() =~= all.subrange(0, j as int));
        }
        if starts_with(names[j].as_str(), prefix) {
            insert_sorted(&mut out, names[j].clone());
        }
        j += 1;
    }
    proof {
        assert(all.subrange(0, names@.len() as int) =~= all);
    }
    out
}

/// What replaces the word being completed once `elected` was chosen: it is
/// followed by a space when it is `echo` or `exit`, or when exactly one of
/// the names of `settle_names` starts with it.
pub fn completion_text(programs: &Vec<String>, elected: &str) -> (r: String)
    ensures
        r@ == (if elected@ == "echo"@ || elected@ == "exit"@ || count_prefixed(
            settle_names(words_of(programs@)),
            elected@,
        ) == 1 {
            elected@ + " "@
        } else {
            elected@
        }),
{
    let mut names: Vec<String> = Vec::new();
    names.push(String::from_str("echo"));
    names.push(String::from_str("exit"));
    let mut i: usize = 0;
    while i < programs.len()
        invariant
            i <= programs.len(),
            words_of(names@) == seq!["echo"@, "exit"@] + words_of(programs@.subrange(0, i as int)),
        decreases programs.len() - i,
    {
        proof {
            lemma_words_of_push(names@, programs@[i as int]);
            assert(programs@.subrange(0, i + 1) =~= programs@.subrange(0, i as int).push(programs@[i as int]));
            lemma_words_of_push(programs@.subrange(0, i as int), programs@[i as int]);
        }
        names.push(programs[i].clone());
        i += 1;
    }
    proof {
        assert(programs@.subrange(0, programs@.len() as int) =~= programs@);
    }
    let ghost all = words_of(names@);
    let mut count: usize = 0;
    let mut j: usize = 0;
    while j < names.len()
        invariant
            j <= names.len(),
            all == words_of(names@),
            count as nat == count_prefixed(all.subrange(0, j as int), elected@),
            count <= j,
        decreases names.len() - j,
    {
        proof {
            assert(all.subrange(0, j + 1).drop_last() =~= all.subrange(0, j as int));
        }
        if starts_with(names[j].as_str(), elected) {
            count += 1;
        }
        j += 1;
    }
    proof {
        assert(all.subrange(0, names@.len() as int) =~= all);
    }
    let mut s = String::from_str(elected);
    if same_text(elected, "echo") || same_text(elected, "exit") || count == 1 {
        s.append(" ");
    }
    s
}

} // verus!
