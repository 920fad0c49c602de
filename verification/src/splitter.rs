//! The line splitter: turns one line of input into the ordered stages of a
//! pipeline.
//!
//! A line is trimmed and cut at every occurrence of the separator `" | "`,
//! scanning from the left. Each fragment is trimmed and cut into tokens at
//! runs of white space; the first token names the command and the others are
//! its arguments. A fragment without any token stands for "no command at this
//! position". Tokens are literal: nothing is quoted, escaped or substituted.

use crate::text::{char_is_space, chars_of, is_space, no_spaces, slice_of, string_of, trim, trim_chars};
use vstd::prelude::*;

verus! {

/// One element of a pipeline: a command name and its arguments, in the order
/// in which they were written.
#[derive(Debug, Clone, PartialEq, Eq)]
pub struct Stage {
    pub command: String,
    pub args: Vec<String>,
}

/// The mathematical value of a [`Stage`].
pub struct StageView {
    pub command: Seq<char>,
    pub args: Seq<Seq<char>>,
}

impl View for Stage {
    type V = StageView;

    open spec fn view(&self) -> StageView {
        StageView { command: self.command@, args: self.args.deep_view() }
    }
}

impl DeepView for Stage {
    type V = StageView;

    open spec fn deep_view(&self) -> StageView {
        self.view()
    }
}

/// The separator between two stages: a pipe with one blank on each side.
pub open spec fn separator() -> Seq<char> {
    seq![' ', '|', ' ']
}

/// A separator starts at index `i` of `s`.
pub open spec fn separator_at(s: Seq<char>, i: int) -> bool {
    &&& 0 <= i
    &&& i + 3 <= s.len()
    &&& s[i] == ' '
    &&& s[i + 1] == '|'
    &&& s[i + 2] == ' '
}

/// The index of the first separator that starts at or after `from`, or the
/// length of `s` where there is none.
pub open spec fn first_separator(s: Seq<char>, from: int) -> int
    decreases s.len() - from,
{
    if from < 0 || from + 3 > s.len() {
        s.len() as int
    } else if separator_at(s, from) {
        from
    } else {
        first_separator(s, from + 1)
    }
}

/// The fragments of `s` from index `from` on: the text up to the first
/// separator, then the fragments of what follows that separator.
pub open spec fn fragments_from(s: Seq<char>, from: int) -> Seq<Seq<char>>
    decreases s.len() - from,
{
    let i = first_separator(s, from);
    if 0 <= from <= i && i + 3 <= s.len() {
        seq![s.subrange(from, i)] + fragments_from(s, i + 3)
    } else {
        seq![s.subrange(from, s.len() as int)]
    }
}

/// The fragments that the separators cut `s` into. Separators are found from
/// the left and do not overlap.
pub open spec fn fragments(s: Seq<char>) -> Seq<Seq<char>> {
    fragments_from(s, 0)
}

/// The index of the first character at or after `from` that is not white
/// space, or the length of `s` where there is none.
pub open spec fn word_start(s: Seq<char>, from: int) -> int
    decreases s.len() - from,
{
    if from < 0 || from >= s.len() {
        s.len() as int
    } else if !is_space(s[from]) {
        from
    } else {
        word_start(s, from + 1)
    }
}

/// The index of the first white-space character at or after `from`, or the
/// length of `s` where there is none.
pub open spec fn word_end(s: Seq<char>, from: int) -> int
    decreases s.len() - from,
{
    if from < 0 || from >= s.len() {
        s.len() as int
    } else if is_space(s[from]) {
        from
    } else {
        word_end(s, from + 1)
    }
}

/// The tokens of `s` from index `from` on.
pub open spec fn tokens_from(s: Seq<char>, from: int) -> Seq<Seq<char>>
    decreases s.len() - from,
{
    let a = word_start(s, from);
    let b = word_end(s, a);
    if 0 <= from <= a < b <= s.len() {
        seq![s.subrange(a, b)] + tokens_from(s, b)
    } else {
        Seq::empty()
    }
}

/// The tokens of `s`: its maximal runs of characters that are not white
/// space, from left to right.
pub open spec fn tokens(s: Seq<char>) -> Seq<Seq<char>> {
    tokens_from(s, 0)
}

/// A token: not empty, and free of white space.
pub open spec fn is_token(t: Seq<char>) -> bool {
    t.len() > 0 && no_spaces(t)
}

/// The stage that a fragment stands for: its first token as the command and
/// the other tokens as arguments, or `None` where it has no token.
pub open spec fn parse_stage(fragment: Seq<char>) -> Option<StageView> {
    let t = tokens(trim(fragment));
    if t.len() == 0 {
        None
    } else {
        Some(StageView { command: t[0], args: t.skip(1) })
    }
}

/// The pipeline that a line stands for: one entry for each fragment of the
/// trimmed line.
pub open spec fn parse_line(line: Seq<char>) -> Seq<Option<StageView>> {
    fragments(trim(line)).map_values(|f: Seq<char>| parse_stage(f))
}

/// The texts `parts`, with `sep` between each two neighbours.
pub open spec fn join(parts: Seq<Seq<char>>, sep: Seq<char>) -> Seq<char>
    decreases parts.len(),
{
    if parts.len() == 0 {
        Seq::empty()
    } else if parts.len() == 1 {
        parts[0]
    } else {
        join(parts.drop_last(), sep) + sep + parts.last()
    }
}

/// The views of the rows of a vector of character vectors.
pub open spec fn rows(v: Seq<Vec<char>>) -> Seq<Seq<char>> {
    Seq::new(v.len(), |i: int| v[i]@)
}

/// Where the first separator is: within bounds, at a separator unless it is
/// the length, and after every index from `from` on that has no separator.
pub proof fn lemma_first_separator(s: Seq<char>, from: int)
    requires
        0 <= from <= s.len(),
    ensures
        from <= first_separator(s, from) <= s.len(),
        first_separator(s, from) < s.len() ==> separator_at(s, first_separator(s, from)),
        forall|j: int| from <= j < first_separator(s, from) ==> !separator_at(s, j),
    decreases s.len() - from,
{
    if from + 3 > s.len() {
    } else if separator_at(s, from) {
    } else {
        lemma_first_separator(s, from + 1);
    }
}

/// Where a word starts: within bounds, at a character that is not white
/// space unless it is the length, and after white space only.
pub proof fn lemma_word_start(s: Seq<char>, from: int)
    requires
        0 <= from <= s.len(),
    ensures
        from <= word_start(s, from) <= s.len(),
        word_start(s, from) < s.len() ==> !is_space(s[word_start(s, from)]),
        forall|j: int| from <= j < word_start(s, from) ==> is_space(#[trigger] s[j]),
    decreases s.len() - from,
{
    if from < s.len() && is_space(s[from]) {
        lemma_word_start(s, from + 1);
    }
}

/// Where a word ends: within bounds, at white space unless it is the length,
/// and after characters that are not white space only.
pub proof fn lemma_word_end(s: Seq<char>, from: int)
    requires
        0 <= from <= s.len(),
    ensures
        from <= word_end(s, from) <= s.len(),
        word_end(s, from) < s.len() ==> is_space(s[word_end(s, from)]),
        forall|j: int| from <= j < word_end(s, from) ==> !is_space(#[trigger] s[j]),
        from < s.len() && !is_space(s[from]) ==> from < word_end(s, from),
    decreases s.len() - from,
{
    if from < s.len() && !is_space(s[from]) {
        lemma_word_end(s, from + 1);
    }
}

/// Unfolds [`tokens_from`] once, at an index within bounds.
pub proof fn lemma_tokens_from_unfold(s: Seq<char>, from: int)
    requires
        0 <= from <= s.len(),
    ensures
        word_start(s, from) == s.len() ==> tokens_from(s, from) == Seq::<Seq<char>>::empty(),
        word_start(s, from) < s.len() ==> tokens_from(s, from) == seq![
            s.subrange(word_start(s, from), word_end(s, word_start(s, from))),
        ] + tokens_from(s, word_end(s, word_start(s, from))),
{
    lemma_word_start(s, from);
    let a = word_start(s, from);
    lemma_word_end(s, a);
}

/// Unfolds [`fragments_from`] once, at an index within bounds.
pub proof fn lemma_fragments_from_unfold(s: Seq<char>, from: int)
    requires
        0 <= from <= s.len(),
    ensures
        first_separator(s, from) == s.len() ==> fragments_from(s, from) == seq![
            s.subrange(from, s.len() as int),
        ],
        first_separator(s, from) < s.len() ==> fragments_from(s, from) == seq![
            s.subrange(from, first_separator(s, from)),
        ] + fragments_from(s, first_separator(s, from) + 3),
{
    lemma_first_separator(s, from);
}

/// Finds the first separator at or after `from`.
pub fn find_separator(v: &Vec<char>, from: usize) -> (i: usize)
    requires
        from <= v.len(),
    ensures
        i == first_separator(v@, from as int),
        from <= i <= v.len(),
        i < v.len() ==> i + 3 <= v.len(),
{
    let n = v.len();
    let mut k: usize = from;
    while n >= 3 && k <= n - 3
        invariant
            from <= k <= n == v.len(),
            first_separator(v@, from as int) == first_separator(v@, k as int),
        decreases n - k,
    {
        if v[k] == ' ' && v[k + 1] == '|' && v[k + 2] == ' ' {
            return k;
        }
        k += 1;
    }
    n
}

/// Cuts `v` at its separators.
pub fn split_chars(v: &Vec<char>) -> (out: Vec<Vec<char>>)
    ensures
        rows(out@) == fragments(v@),
{
    let n = v.len();
    let mut out: Vec<Vec<char>> = Vec::new();
    let mut start: usize = 0;
    loop
        invariant
            start <= n == v.len(),
            fragments(v@) == rows(out@) + fragments_from(v@, start as int),
        decreases n - start,
    {
        let i = find_separator(v, start);
        let part = slice_of(v, start, i);
        let ghost before = out@;
        out.push(part);
        proof {
            lemma_fragments_from_unfold(v@, start as int);
            assert(rows(out@) =~= rows(before) + seq![v@.subrange(start as int, i as int)]);
        }
        if i == n {
            assert(fragments(v@) =~= rows(out@));
            return out;
        }
        assert(fragments(v@) =~= rows(out@) + fragments_from(v@, i + 3));
        start = i + 3;
    }
}

/// Cuts `v` into its tokens.
pub fn tokens_of(v: &Vec<char>) -> (out: Vec<String>)
    ensures
        out.deep_view() == tokens(v@),
{
    let n = v.len();
    let mut out: Vec<String> = Vec::new();
    let mut i: usize = 0;
    loop
        invariant
            i <= n == v.len(),
            tokens(v@) == out.deep_view() + tokens_from(v@, i as int),
        decreases n - i,
    {
        let ghost from = i;
        while i < n && char_is_space(v[i])
            invariant
                from <= i <= n == v.len(),
                word_start(v@, from as int) == word_start(v@, i as int),
            decreases n - i,
        {
            i += 1;
        }
        proof {
            lemma_tokens_from_unfold(v@, from as int);
        }
        if i == n {
            assert(tokens(v@) =~= out.deep_view());
            return out;
        }
        let a = i;
        while i < n && !char_is_space(v[i])
            invariant
                a <= i <= n == v.len(),
                word_end(v@, a as int) == word_end(v@, i as int),
            decreases n - i,
        {
            i += 1;
        }
        let word = string_of(v, a, i);
        let ghost before = out.deep_view();
        out.push(word);
        proof {
            lemma_word_end(v@, a as int);
            assert(out.deep_view() =~= before + seq![v@.subrange(a as int, i as int)]);
            assert(tokens(v@) =~= out.deep_view() + tokens_from(v@, i as int));
        }
    }
}

/// Reads one fragment of a line as a stage.
pub fn stage_of(fragment: &Vec<char>) -> (stage: Option<Stage>)
    ensures
        stage.deep_view() == parse_stage(fragment@),
{
    let trimmed = trim_chars(fragment);
    let mut words = tokens_of(&trimmed);
    if words.len() == 0 {
        None
    } else {
        let ghost all = words.deep_view();
        let command = words.remove(0);
        assert(words.deep_view() =~= all.skip(1));
        Some(Stage { command, args: words })
    }
}

/// Splits a line into the stages of its pipeline. An entry is `None` where
/// the line has no command at that position.
pub fn split_line(line: &str) -> (stages: Vec<Option<Stage>>)
    ensures
        stages.deep_view() == parse_line(line@),
{
    let chars = chars_of(line);
    let trimmed = trim_chars(&chars);
    let parts = split_chars(&trimmed);
    let mut stages: Vec<Option<Stage>> = Vec::new();
    let mut i: usize = 0;
    while i < parts.len()
        invariant
            i <= parts.len(),
            rows(parts@) == fragments(trim(line@)),
            stages.len() == i,
            forall|j: int| 0 <= j < i ==> (#[trigger] stages@[j]).deep_view() == parse_stage(parts@[j]@),
        decreases parts.len() - i,
    {
        let stage = stage_of(&parts[i]);
        stages.push(stage);
        i += 1;
    }
    proof {
        assert forall|j: int| 0 <= j < stages.len() implies stages.deep_view()[j] == parse_line(
            line@,
        )[j] by {
            assert(rows(parts@)[j] == parts@[j]@);
        }
        assert(stages.deep_view() =~= parse_line(line@));
    }
    stages
}

} // verus!
