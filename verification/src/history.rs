//! The history of entered lines: each line is stored with its final line
//! break brought to a single line feed.

use crate::text::{chars_of, string_of};
use vstd::prelude::*;

verus! {

/// A carriage return or a line feed.
pub open spec fn is_break(c: char) -> bool {
    c == '\r' || c == '\n'
}

/// A line break starts at index `i`: a carriage return or line feed that
/// does not follow a carriage return.
pub open spec fn break_starts_at(s: Seq<char>, i: int) -> bool {
    &&& 0 <= i < s.len()
    &&& is_break(s[i])
    &&& (i == 0 || s[i - 1] != '\r')
}

/// The greatest index below `n` at which a line break starts, or `-1` where
/// there is none.
pub open spec fn last_break(s: Seq<char>, n: int) -> int
    decreases n,
{
    if n <= 0 {
        -1
    } else if break_starts_at(s, n - 1) {
        n - 1
    } else {
        last_break(s, n - 1)
    }
}

/// The form in which a line is stored. A line that ends in a line break is
/// cut where its last line break starts and gets one line feed in its
/// place; any other line is stored as it is.
pub open spec fn stored_form(line: Seq<char>) -> Seq<char> {
    let i = last_break(line, line.len() as int);
    if line.len() > 0 && is_break(line.last()) && i >= 0 {
        line.take(i).push('\n')
    } else {
        line
    }
}

/// The history after `line` was entered: the stored form of the line is
/// added at the end, unless it is empty.
pub open spec fn history_with(history: Seq<Seq<char>>, line: Seq<char>) -> Seq<Seq<char>> {
    if stored_form(line).len() > 0 {
        history.push(stored_form(line))
    } else {
        history
    }
}

/// Where the last line break starts: at a carriage return or line feed that
/// follows no carriage return, with none starting after it.
pub proof fn lemma_last_break(s: Seq<char>, n: int)
    requires
        0 <= n <= s.len(),
    ensures
        -1 <= last_break(s, n) < n,
        last_break(s, n) >= 0 ==> break_starts_at(s, last_break(s, n)),
        forall|j: int| last_break(s, n) < j < n ==> !break_starts_at(s, j),
        forall|j: int|
            0 <= last_break(s, n) < j < n && is_break(#[trigger] s[j]) ==> s[j - 1] == '\r',
        n > 0 && is_break(s[n - 1]) ==> last_break(s, n) >= 0,
    decreases n,
{
    if n > 0 {
        lemma_last_break(s, n - 1);
        if !break_starts_at(s, n - 1) && is_break(s[n - 1]) {
            assert(s[n - 2] == '\r');
            assert(is_break(s[n - 2]));
        }
    }
}

/// A line that ends in a line break is stored with a line feed at its end.
/// Before that line feed stands the part of the line in front of its last
/// line break, and what was cut off is that line break: one carriage return
/// or line feed, or carriage returns with one more of the two at their end.
pub proof fn lemma_stored_form(line: Seq<char>)
    requires
        line.len() > 0,
        is_break(line.last()),
    ensures
        stored_form(line).len() > 0,
        stored_form(line).last() == '\n',
        stored_form(line).drop_last() == line.take(stored_form(line).len() - 1),
        forall|j: int| stored_form(line).len() - 1 <= j < line.len() ==> is_break(line[j]),
        forall|j: int| stored_form(line).len() - 1 <= j < line.len() - 1 ==> line[j] == '\r',
{
    let n = line.len() as int;
    lemma_last_break(line, n);
    let i = last_break(line, n);
    assert(line.take(i).push('\n').drop_last() =~= line.take(i));
    assert forall|j: int| i <= j < n - 1 implies line[j] == '\r' by {
        lemma_run_of_returns(line, i, j);
    }
}

/// Between the start of the last line break and the end of a line that ends
/// in a line break, every character but the last is a carriage return.
proof fn lemma_run_of_returns(line: Seq<char>, i: int, j: int)
    requires
        line.len() > 0,
        is_break(line.last()),
        i == last_break(line, line.len() as int),
        i <= j < line.len() - 1,
    ensures
        line[j] == '\r',
    decreases line.len() - j,
{
    lemma_last_break(line, line.len() as int);
    if j + 1 < line.len() - 1 {
        lemma_run_of_returns(line, i, j + 1);
        assert(is_break(line[j + 1]));
    } else {
        assert(is_break(line[j + 1]));
    }
}

/// Adds `line` to the history, in its stored form, unless that is empty.
pub fn push_history(history: &mut Vec<String>, line: String)
    ensures
        final(history).deep_view() == history_with(old(history).deep_view(), line@),
{
    let chars = chars_of(line.as_str());
    let n = chars.len();
    let mut index: Option<usize> = None;
    let mut i: usize = 0;
    while i < n
        invariant
            i <= n == chars.len(),
            chars@ == line@,
            match index {
                Some(k) => k as int == last_break(chars@, i as int),
                None => last_break(chars@, i as int) == -1,
            },
        decreases n - i,
    {
        let c = chars[i];
        if (c == '\r' || c == '\n') && (i == 0 || chars[i - 1] != '\r') {
            index = Some(i);
        }
        i += 1;
    }
    let ghost before = history.deep_view();
    proof {
        lemma_last_break(chars@, n as int);
    }
    let entry = match index {
        Some(k) => {
            if chars[n - 1] == '\r' || chars[n - 1] == '\n' {
                let mut cut = string_of(&chars, 0, k);
                cut.push('\n');
                assert(chars@.subrange(0, k as int) =~= chars@.take(k as int));
                cut
            } else {
                line
            }
        },
        None => line,
    };
    assert(entry@ == stored_form(line@));
    if entry.as_str().unicode_len() > 0 {
        history.push(entry);
        assert(history.deep_view() =~= before.push(stored_form(line@)));
    }
}

} // verus!
