//! The DDL script format: which statements a script holds.
//!
//! A script is text in which `;` ends a statement. Within a statement, blank
//! lines and lines that begin with `--` are left out.

use crate::text::{
    chars_of, is_whitespace, lemma_trim, push_range, string_of, texts, trim, trim_range,
};
use vstd::prelude::*;

verus! {

/// The character that ends a statement of a DDL script.
pub const TERMINATOR: char = ';';

/// The index of the first `c` in `s`, or `s.len()` where `s` holds none.
pub open spec fn first_index_of(s: Seq<char>, c: char) -> int
    decreases s.len(),
{
    if s.len() == 0 || s[0] == c {
        0
    } else {
        1 + first_index_of(s.drop_first(), c)
    }
}

/// `first_index_of` is the least index that holds `c`.
pub proof fn lemma_first_index_of(s: Seq<char>, c: char)
    ensures
        0 <= first_index_of(s, c) <= s.len(),
        first_index_of(s, c) < s.len() ==> s[first_index_of(s, c)] == c,
        forall|j: int| 0 <= j < first_index_of(s, c) ==> s[j] != c,
    decreases s.len(),
{
    if s.len() == 0 || s[0] == c {
    } else {
        lemma_first_index_of(s.drop_first(), c);
        assert forall|j: int| 0 <= j < first_index_of(s, c) implies s[j] != c by {
            if j > 0 {
                assert(s[j] == s.drop_first()[j - 1]);
            }
        }
    }
}

/// The pieces of `s` between occurrences of `sep`, in order: one more piece
/// than `s` holds separators, so a script that ends in a separator ends in an
/// empty piece.
pub open spec fn split(s: Seq<char>, sep: char) -> Seq<Seq<char>>
    decreases s.len(),
{
    let i = first_index_of(s, sep);
    if 0 <= i < s.len() {
        seq![s.take(i)] + split(s.skip(i + 1), sep)
    } else {
        seq![s]
    }
}

/// `line` without one trailing carriage return.
pub open spec fn strip_carriage_return(line: Seq<char>) -> Seq<char> {
    if line.len() > 0 && line.last() == '\r' {
        line.drop_last()
    } else {
        line
    }
}

/// The lines of `s`. A line ends at a line feed, or at a carriage return
/// directly followed by one; neither belongs to the line. What follows the
/// last line feed is a line too, unless it is empty.
pub open spec fn lines(s: Seq<char>) -> Seq<Seq<char>>
    decreases s.len(),
{
    let i = first_index_of(s, '\n');
    if s.len() == 0 {
        Seq::empty()
    } else if 0 <= i < s.len() {
        seq![strip_carriage_return(s.take(i))] + lines(s.skip(i + 1))
    } else {
        seq![s]
    }
}

/// Whether a line of a statement is left out: it is blank, or a comment, which
/// begins with `--` after its leading whitespace.
pub open spec fn is_skipped_line(line: Seq<char>) -> bool {
    let t = trim(line);
    t.len() == 0 || (t.len() >= 2 && t[0] == '-' && t[1] == '-')
}

/// The lines of `ls`, each but the last followed by a line feed.
pub open spec fn join_lines(ls: Seq<Seq<char>>) -> Seq<char>
    decreases ls.len(),
{
    if ls.len() == 0 {
        Seq::empty()
    } else if ls.len() == 1 {
        ls[0]
    } else {
        join_lines(ls.drop_last()) + seq!['\n'] + ls.last()
    }
}

/// The test that a kept line passes.
pub open spec fn is_kept_line() -> spec_fn(Seq<char>) -> bool {
    |line: Seq<char>| !is_skipped_line(line)
}

/// The lines of a candidate statement that are kept.
pub open spec fn kept_lines(candidate: Seq<char>) -> Seq<Seq<char>> {
    lines(candidate).filter(is_kept_line())
}

/// A candidate statement once its blank and comment lines are left out and
/// the whitespace around what remains is trimmed.
pub open spec fn clean_statement(candidate: Seq<char>) -> Seq<char> {
    trim(join_lines(kept_lines(candidate)))
}

/// The statements that initialization executes for `script`, in order: the
/// cleaned candidates between terminators, but for those that come out empty.
pub open spec fn statements(script: Seq<char>) -> Seq<Seq<char>> {
    split(script, TERMINATOR).map_values(cleaning()).filter(is_nonempty())
}

/// `clean_statement` as a function value.
pub open spec fn cleaning() -> spec_fn(Seq<char>) -> Seq<char> {
    |candidate: Seq<char>| clean_statement(candidate)
}

/// The test that an executed statement passes.
pub open spec fn is_nonempty() -> spec_fn(Seq<char>) -> bool {
    |statement: Seq<char>| statement.len() > 0
}

/// Every statement of a script holds something, and neither begins nor ends
/// with whitespace.
pub proof fn lemma_statements_are_trimmed(script: Seq<char>, i: int)
    requires
        0 <= i < statements(script).len(),
    ensures
        statements(script)[i].len() > 0,
        !is_whitespace(statements(script)[i][0]),
        !is_whitespace(statements(script)[i].last()),
{
    let cleaned = split(script, TERMINATOR).map_values(cleaning());
    let statement = statements(script)[i];
    cleaned.lemma_filter_pred(is_nonempty(), i);
    assert(cleaned.filter(is_nonempty()).contains(statement));
    cleaned.lemma_filter_contains_rev(is_nonempty(), statement);
    let j = choose|j: int| 0 <= j < cleaned.len() && cleaned[j] == statement;
    lemma_trim(join_lines(kept_lines(split(script, TERMINATOR)[j])));
}

/// `s` alone if `keep` holds, else nothing.
spec fn one_if(keep: bool, s: Seq<char>) -> Seq<Seq<char>> {
    if keep {
        seq![s]
    } else {
        Seq::empty()
    }
}

/// The kept lines of a candidate are its first line, if kept, and the kept
/// lines of what follows the first line break.
proof fn lemma_kept_lines_unfold(s: Seq<char>)
    requires
        s.len() > 0,
    ensures
        ({
            let i = first_index_of(s, '\n');
            if i < s.len() {
                let line = strip_carriage_return(s.take(i));
                kept_lines(s) == one_if(!is_skipped_line(line), line) + kept_lines(s.skip(i + 1))
            } else {
                kept_lines(s) == one_if(!is_skipped_line(s), s)
            }
        }),
{
    lemma_first_index_of(s, '\n');
    let i = first_index_of(s, '\n');
    if i < s.len() {
        let line = strip_carriage_return(s.take(i));
        lines(s.skip(i + 1)).lemma_filter_prepend(line, is_kept_line());
    } else {
        Seq::<Seq<char>>::empty().lemma_filter_prepend(s, is_kept_line());
        assert(seq![s] + Seq::<Seq<char>>::empty() =~= seq![s]);
        assert(Seq::<Seq<char>>::empty().filter(is_kept_line()) =~= Seq::empty()) by {
            reveal(Seq::filter);
        }
    }
}

/// The statements of a script are its first candidate, cleaned and if not
/// empty, and the statements of what follows the first terminator.
proof fn lemma_statements_unfold(s: Seq<char>)
    ensures
        ({
            let i = first_index_of(s, TERMINATOR);
            if i < s.len() {
                let first = clean_statement(s.take(i));
                statements(s) == one_if(first.len() > 0, first) + statements(s.skip(i + 1))
            } else {
                statements(s) == one_if(clean_statement(s).len() > 0, clean_statement(s))
            }
        }),
{
    lemma_first_index_of(s, TERMINATOR);
    let i = first_index_of(s, TERMINATOR);
    if i < s.len() {
        let rest = split(s.skip(i + 1), TERMINATOR);
        let first = clean_statement(s.take(i));
        assert((seq![s.take(i)] + rest).map_values(cleaning()) =~= seq![first] + rest.map_values(
            cleaning(),
        ));
        rest.map_values(cleaning()).lemma_filter_prepend(first, is_nonempty());
    } else {
        let first = clean_statement(s);
        assert(seq![s].map_values(cleaning()) =~= seq![first] + Seq::<Seq<char>>::empty());
        Seq::<Seq<char>>::empty().lemma_filter_prepend(first, is_nonempty());
        assert(Seq::<Seq<char>>::empty().filter(is_nonempty()) =~= Seq::empty()) by {
            reveal(Seq::filter);
        }
    }
}

/// The index of the first `c` in `chars[from..to]`, or `to` where it holds none.
fn find_char(chars: &Vec<char>, from: usize, to: usize, c: char) -> (i: usize)
    requires
        from <= to <= chars.len(),
    ensures
        from <= i <= to,
        i - from == first_index_of(chars@.subrange(from as int, to as int), c),
{
    let mut i: usize = from;
    while i < to && chars[i] != c
        invariant
            from <= i <= to <= chars.len(),
            first_index_of(chars@.subrange(from as int, to as int), c) == (i - from)
                + first_index_of(chars@.subrange(i as int, to as int), c),
        decreases to - i,
    {
        assert(chars@.subrange(i as int, to as int).drop_first() == chars@.subrange(
            i + 1,
            to as int,
        ));
        i += 1;
    }
    i
}

/// The first line of `chars[pos..to]`: where it ends, where the next line
/// begins, and whether it is left out.
#[verifier::rlimit(50)]
fn first_line(chars: &Vec<char>, pos: usize, to: usize) -> (r: (usize, usize, bool))
    requires
        pos < to <= chars.len(),
    ensures
        pos <= r.0 <= to,
        pos < r.1 <= to,
        r.2 == is_skipped_line(chars@.subrange(pos as int, r.0 as int)),
        kept_lines(chars@.subrange(pos as int, to as int)) == one_if(
            !r.2,
            chars@.subrange(pos as int, r.0 as int),
        ) + kept_lines(chars@.subrange(r.1 as int, to as int)),
{
    let ghost rest = chars@.subrange(pos as int, to as int);
    let line_feed = find_char(chars, pos, to, '\n');
    let end = if line_feed < to && line_feed > pos && chars[line_feed - 1] == '\r' {
        line_feed - 1
    } else {
        line_feed
    };
    let next = if line_feed < to {
        line_feed + 1
    } else {
        to
    };
    let (a, b) = trim_range(chars, pos, end);
    let skipped = a == b || (b - a >= 2 && chars[a] == '-' && chars[a + 1] == '-');
    proof {
        let line = chars@.subrange(pos as int, end as int);
        lemma_kept_lines_unfold(rest);
        assert(rest.take(line_feed - pos) == chars@.subrange(pos as int, line_feed as int));
        if line_feed < to {
            assert(rest.skip(line_feed - pos + 1) == chars@.subrange(next as int, to as int));
            assert(line == strip_carriage_return(rest.take(line_feed - pos)));
        } else {
            assert(line == rest);
            assert(kept_lines(chars@.subrange(next as int, to as int)) == Seq::<
                Seq<char>,
            >::empty()) by {
                reveal(Seq::filter);
            }
            assert(one_if(!skipped, line) + Seq::<Seq<char>>::empty() == one_if(!skipped, line));
        }
        assert(trim(line) == chars@.subrange(a as int, b as int));
    }
    (end, next, skipped)
}

/// The candidate statement `chars[from..to]`, cleaned.
#[verifier::rlimit(50)]
fn clean_candidate(chars: &Vec<char>, from: usize, to: usize) -> (out: String)
    requires
        from <= to <= chars.len(),
    ensures
        out@ == clean_statement(chars@.subrange(from as int, to as int)),
{
    let ghost candidate = chars@.subrange(from as int, to as int);
    let ghost mut kept: Seq<Seq<char>> = Seq::empty();
    let mut joined: Vec<char> = Vec::new();
    let mut any: bool = false;
    let mut pos: usize = from;
    proof {
        assert(kept + kept_lines(candidate) == kept_lines(candidate));
    }
    while pos < to
        invariant
            from <= pos <= to <= chars.len(),
            kept_lines(candidate) == kept + kept_lines(chars@.subrange(pos as int, to as int)),
            joined@ == join_lines(kept),
            any == (kept.len() > 0),
        decreases to - pos,
    {
        let (end, next, skipped) = first_line(chars, pos, to);
        let ghost line = chars@.subrange(pos as int, end as int);
        let ghost after = kept_lines(chars@.subrange(next as int, to as int));
        if !skipped {
            if any {
                joined.push('\n');
            }
            push_range(&mut joined, chars, pos, end);
            any = true;
            proof {
                assert(kept.push(line).drop_last() == kept);
                assert(kept + (seq![line] + after) == kept.push(line) + after);
                kept = kept.push(line);
            }
        } else {
            assert(kept + (Seq::<Seq<char>>::empty() + after) == kept + after);
        }
        pos = next;
    }
    proof {
        assert(kept_lines(chars@.subrange(to as int, to as int)) == Seq::<Seq<char>>::empty()) by {
            reveal(Seq::filter);
        }
        assert(kept + Seq::<Seq<char>>::empty() == kept);
        assert(joined@.subrange(0, joined@.len() as int) == joined@);
    }
    let (a, b) = trim_range(&joined, 0, joined.len());
    string_of(&joined, a, b)
}

/// The statements to execute for `script`, in the order of the script.
#[verifier::rlimit(50)]
pub fn schema_statements(script: &str) -> (out: Vec<String>)
    ensures
        texts(out@) == statements(script@),
{
    let chars = chars_of(script);
    let mut out: Vec<String> = Vec::new();
    let mut pos: usize = 0;
    let mut done: bool = false;
    proof {
        assert(chars@.subrange(0, chars.len() as int) == chars@);
        assert(texts(out@) + statements(chars@) == statements(chars@));
    }
    while !done
        invariant
            pos <= chars.len(),
            chars@ == script@,
            !done ==> statements(script@) == texts(out@) + statements(
                chars@.subrange(pos as int, chars.len() as int),
            ),
            done ==> statements(script@) == texts(out@),
        decreases chars.len() - pos + (if done { 0int } else { 1int }),
    {
        let ghost rest = chars@.subrange(pos as int, chars.len() as int);
        let ghost before = texts(out@);
        let end = find_char(&chars, pos, chars.len(), TERMINATOR);
        let statement = clean_candidate(&chars, pos, end);
        proof {
            lemma_statements_unfold(rest);
            assert(rest.take(end - pos) == chars@.subrange(pos as int, end as int));
            if end < chars.len() {
                assert(rest.skip(end - pos + 1) == chars@.subrange(end + 1, chars.len() as int));
            } else {
                assert(rest == chars@.subrange(pos as int, end as int));
            }
        }
        if !statement.as_str().is_empty() {
            let ghost text = statement@;
            out.push(statement);
            proof {
                assert(texts(out@) == before.push(text));
                if end < chars.len() {
                    assert(before + (seq![text] + statements(
                        chars@.subrange(end + 1, chars.len() as int),
                    )) == before.push(text) + statements(
                        chars@.subrange(end + 1, chars.len() as int),
                    ));
                } else {
                    assert(before + seq![text] == before.push(text));
                }
            }
        } else {
            proof {
                if end < chars.len() {
                    assert(before + (Seq::<Seq<char>>::empty() + statements(
                        chars@.subrange(end + 1, chars.len() as int),
                    )) == before + statements(chars@.subrange(end + 1, chars.len() as int)));
                } else {
                    assert(before + Seq::<Seq<char>>::empty() == before);
                }
            }
        }
        if end < chars.len() {
            pos = end + 1;
        } else {
            done = true;
        }
    }
    out
}

} // verus!
