//! What holds of the line splitter on every text, stated over its
//! specification and proved.

use crate::splitter::{
    first_separator, fragments, fragments_from, is_token, join, lemma_first_separator,
    lemma_fragments_from_unfold, lemma_tokens_from_unfold, lemma_word_end, lemma_word_start,
    parse_line, parse_stage, separator, separator_at, tokens, tokens_from, word_end, word_start,
    StageView,
};
use crate::text::{all_spaces, is_space, lemma_trim_bounds, trim};
use vstd::prelude::*;

verus! {


/// Every token, from any index on, is a non-empty text without white space.
pub proof fn lemma_tokens_from_are_words(s: Seq<char>, from: int)
    requires
        0 <= from <= s.len(),
    ensures
        forall|i: int|
            0 <= i < tokens_from(s, from).len() ==> is_token(#[trigger] tokens_from(s, from)[i]),
    decreases s.len() - from,
{
    lemma_tokens_from_unfold(s, from);
    lemma_word_start(s, from);
    let a = word_start(s, from);
    if a < s.len() {
        lemma_word_end(s, a);
        let b = word_end(s, a);
        lemma_tokens_from_are_words(s, b);
        let word = s.subrange(a, b);
        assert forall|j: int| 0 <= j < word.len() implies !is_space(#[trigger] word[j]) by {
            assert(word[j] == s[a + j]);
        }
        assert forall|i: int| 0 <= i < tokens_from(s, from).len() implies is_token(
            #[trigger] tokens_from(s, from)[i],
        ) by {
            if i > 0 {
                assert(tokens_from(s, from)[i] == tokens_from(s, b)[i - 1]);
            }
        }
    }
}

/// Every token of a text is a non-empty text without white space.
pub proof fn lemma_tokens_are_words(s: Seq<char>)
    ensures
        forall|i: int| 0 <= i < tokens(s).len() ==> is_token(#[trigger] tokens(s)[i]),
{
    lemma_tokens_from_are_words(s, 0);
}

/// A text has no token exactly when it holds nothing but white space.
pub proof fn lemma_no_tokens_iff_blank(s: Seq<char>)
    ensures
        tokens(s).len() == 0 <==> all_spaces(s),
{
    lemma_tokens_from_unfold(s, 0);
    lemma_word_start(s, 0);
    let a = word_start(s, 0);
    if a < s.len() {
        assert(!is_space(s[a]));
    }
}

/// Joining a first part and the parts that follow it.
pub proof fn lemma_join_first(first: Seq<char>, rest: Seq<Seq<char>>, sep: Seq<char>)
    ensures
        join(seq![first] + rest, sep) == if rest.len() == 0 {
            first
        } else {
            first + sep + join(rest, sep)
        },
    decreases rest.len(),
{
    let all = seq![first] + rest;
    if rest.len() == 0 {
        assert(all[0] == first);
    } else {
        assert(all.drop_last() =~= seq![first] + rest.drop_last());
        assert(all.last() == rest.last());
        lemma_join_first(first, rest.drop_last(), sep);
        if rest.len() == 1 {
            assert(rest[0] == rest.last());
        } else {
            assert(first + sep + join(rest.drop_last(), sep) + sep + rest.last() =~= first + sep
                + (join(rest.drop_last(), sep) + sep + rest.last()));
        }
    }
}

/// There is always at least one fragment.
pub proof fn lemma_fragments_from_nonempty(s: Seq<char>, from: int)
    ensures
        fragments_from(s, from).len() >= 1,
{
}

/// The fragments from an index on, joined by the separator, are the text
/// from that index on.
pub proof fn lemma_fragments_from_join(s: Seq<char>, from: int)
    requires
        0 <= from <= s.len(),
    ensures
        join(fragments_from(s, from), separator()) == s.subrange(from, s.len() as int),
    decreases s.len() - from,
{
    lemma_fragments_from_unfold(s, from);
    lemma_first_separator(s, from);
    let i = first_separator(s, from);
    if i < s.len() {
        let rest = fragments_from(s, i + 3);
        lemma_fragments_from_join(s, i + 3);
        lemma_fragments_from_nonempty(s, i + 3);
        lemma_join_first(s.subrange(from, i), rest, separator());
        assert(s.subrange(i, i + 3) =~= separator());
        assert(s.subrange(from, i) + separator() + s.subrange(i + 3, s.len() as int)
            =~= s.subrange(from, s.len() as int));
    } else {
        assert(fragments_from(s, from)[0] == s.subrange(from, s.len() as int));
    }
}

/// Splitting loses nothing: the fragments of a text, joined by the
/// separator, are the text.
pub proof fn lemma_fragments_join(s: Seq<char>)
    ensures
        join(fragments(s), separator()) == s,
{
    lemma_fragments_from_join(s, 0);
    assert(s.subrange(0, s.len() as int) =~= s);
}

/// A text is its own single fragment exactly when it holds no separator.
pub proof fn lemma_single_fragment(s: Seq<char>)
    ensures
        fragments(s) == seq![s] <==> forall|i: int| !separator_at(s, i),
{
    lemma_fragments_from_unfold(s, 0);
    lemma_first_separator(s, 0);
    let i = first_separator(s, 0);
    if i < s.len() {
        lemma_fragments_from_nonempty(s, i + 3);
        assert(fragments(s).len() >= 2);
        assert(seq![s].len() == 1);
    } else {
        assert(s.subrange(0, s.len() as int) =~= s);
        assert forall|j: int| !separator_at(s, j) by {
            if 0 <= j && j + 3 <= s.len() {
                assert(!separator_at(s, j));
            }
        }
    }
}

/// No fragment holds a separator.
pub proof fn lemma_fragments_from_hold_no_separator(s: Seq<char>, from: int)
    requires
        0 <= from <= s.len(),
    ensures
        forall|k: int, i: int|
            0 <= k < fragments_from(s, from).len() ==> !#[trigger] separator_at(
                fragments_from(s, from)[k],
                i,
            ),
    decreases s.len() - from,
{
    lemma_fragments_from_unfold(s, from);
    lemma_first_separator(s, from);
    let end = first_separator(s, from);
    let head = if end < s.len() {
        s.subrange(from, end)
    } else {
        s.subrange(from, s.len() as int)
    };
    assert forall|i: int| !separator_at(head, i) by {
        if separator_at(head, i) {
            assert(head[i] == s[from + i]);
            assert(head[i + 1] == s[from + i + 1]);
            assert(head[i + 2] == s[from + i + 2]);
            assert(separator_at(s, from + i));
        }
    }
    if end < s.len() {
        lemma_fragments_from_hold_no_separator(s, end + 3);
        assert forall|k: int, i: int| 0 <= k < fragments_from(s, from).len() implies !#[trigger] separator_at(
            fragments_from(s, from)[k],
            i,
        ) by {
            if k > 0 {
                assert(fragments_from(s, from)[k] == fragments_from(s, end + 3)[k - 1]);
            }
        }
    }
}

/// A line of nothing but white space, the empty line among them, is a
/// pipeline of one position without a command.
pub proof fn lemma_blank_line(line: Seq<char>)
    requires
        all_spaces(line),
    ensures
        parse_line(line) == seq![None::<StageView>],
{
    let (a, b) = lemma_trim_bounds(line);
    if a < b {
        assert(is_space(line[a]));
    }
    let t = trim(line);
    assert(t.len() == 0);
    lemma_fragments_from_unfold(t, 0);
    lemma_first_separator(t, 0);
    assert(t.subrange(0, 0) =~= t);
    assert(fragments(t) == seq![t]);
    let (c, d) = lemma_trim_bounds(t);
    lemma_tokens_from_unfold(trim(t), 0);
    lemma_word_start(trim(t), 0);
    assert(parse_stage(t) == None::<StageView>);
    assert(parse_line(line) =~= seq![None::<StageView>]);
}

/// A line that holds a character other than white space has a command at
/// its first position.
pub proof fn lemma_first_stage_is_a_command(line: Seq<char>)
    requires
        !all_spaces(line),
    ensures
        parse_line(line).len() >= 1,
        parse_line(line)[0] is Some,
{
    let (a, b) = lemma_trim_bounds(line);
    if a == b {
        assert forall|i: int| 0 <= i < line.len() implies is_space(#[trigger] line[i]) by {
            assert(line.take(a)[i] == line[i]);
        }
    }
    let t = trim(line);
    assert(t[0] == line[a]);
    lemma_fragments_from_unfold(t, 0);
    lemma_first_separator(t, 0);
    let i = first_separator(t, 0);
    let head = fragments(t)[0];
    assert(head == t.subrange(0, i));
    if i == 0 {
        assert(separator_at(t, 0));
        assert(is_space(' '));
    }
    assert(head[0] == t[0]);
    let (c, d) = lemma_trim_bounds(head);
    if c == d {
        assert(head.take(c)[0] == head[0]);
    }
    assert(trim(head)[0] == head[c]);
    lemma_no_tokens_iff_blank(trim(head));
}

/// Every command name and every argument that a line gives is a token: not
/// empty, and free of white space.
pub proof fn lemma_stages_hold_tokens(line: Seq<char>)
    ensures
        forall|k: int|
            0 <= k < parse_line(line).len() ==> match #[trigger] parse_line(line)[k] {
                Some(stage) => is_token(stage.command) && forall|j: int|
                    0 <= j < stage.args.len() ==> is_token(#[trigger] stage.args[j]),
                None => true,
            },
{
    assert forall|k: int| 0 <= k < parse_line(line).len() implies match #[trigger] parse_line(
        line,
    )[k] {
        Some(stage) => is_token(stage.command) && forall|j: int|
            0 <= j < stage.args.len() ==> is_token(#[trigger] stage.args[j]),
        None => true,
    } by {
        let fragment = fragments(trim(line))[k];
        let t = tokens(trim(fragment));
        lemma_tokens_are_words(trim(fragment));
        if t.len() > 0 {
            assert(is_token(t[0]));
            assert forall|j: int| 0 <= j < t.skip(1).len() implies is_token(
                #[trigger] t.skip(1)[j],
            ) by {
                assert(t.skip(1)[j] == t[j + 1]);
            }
        }
    }
}


/// `word_start` within a part of a text, against `word_start` in the text.
pub proof fn lemma_word_start_in_part(s: Seq<char>, a: int, b: int, i: int)
    requires
        0 <= a <= b <= s.len(),
        0 <= i <= b - a,
    ensures
        word_start(s.subrange(a, b), i) == if word_start(s, a + i) < b {
            word_start(s, a + i) - a
        } else {
            b - a
        },
    decreases b - a - i,
{
    let t = s.subrange(a, b);
    lemma_word_start(s, a + i);
    if i < b - a {
        assert(t[i] == s[a + i]);
        if is_space(t[i]) {
            lemma_word_start_in_part(s, a, b, i + 1);
        }
    }
}

/// `word_end` within a part of a text, against `word_end` in the text.
pub proof fn lemma_word_end_in_part(s: Seq<char>, a: int, b: int, i: int)
    requires
        0 <= a <= b <= s.len(),
        0 <= i <= b - a,
    ensures
        word_end(s.subrange(a, b), i) == if word_end(s, a + i) < b {
            word_end(s, a + i) - a
        } else {
            b - a
        },
    decreases b - a - i,
{
    let t = s.subrange(a, b);
    lemma_word_end(s, a + i);
    if i < b - a {
        assert(t[i] == s[a + i]);
        if !is_space(t[i]) {
            lemma_word_end_in_part(s, a, b, i + 1);
        }
    }
}

/// A part of a text that is followed by white space only has, from any
/// index on, the tokens that the text has from there on.
pub proof fn lemma_tokens_from_in_part(s: Seq<char>, a: int, b: int, i: int)
    requires
        0 <= a <= b <= s.len(),
        0 <= i <= b - a,
        forall|j: int| b <= j < s.len() ==> is_space(#[trigger] s[j]),
    ensures
        tokens_from(s.subrange(a, b), i) == tokens_from(s, a + i),
    decreases b - a - i,
{
    let t = s.subrange(a, b);
    lemma_tokens_from_unfold(t, i);
    lemma_tokens_from_unfold(s, a + i);
    lemma_word_start(s, a + i);
    lemma_word_start_in_part(s, a, b, i);
    let ws = word_start(s, a + i);
    if ws < s.len() {
        assert(!is_space(s[ws]));
        assert(ws < b);
        lemma_word_end(s, ws);
        lemma_word_end_in_part(s, a, b, ws - a);
        let we = word_end(s, ws);
        if we > b {
            assert(!is_space(s[b]));
        }
        assert(t.subrange(ws - a, we - a) =~= s.subrange(ws, we));
        if we < b {
            lemma_tokens_from_in_part(s, a, b, we - a);
        } else {
            lemma_tokens_from_unfold(t, we - a);
            lemma_tokens_from_unfold(s, we);
            lemma_word_start(t, we - a);
            lemma_word_start(s, we);
            if word_start(s, we) < s.len() {
                assert(!is_space(s[word_start(s, we)]));
            }
        }
    }
}

/// Trimming a text leaves its tokens as they are.
pub proof fn lemma_trim_keeps_tokens(s: Seq<char>)
    ensures
        tokens(trim(s)) == tokens(s),
{
    let (a, b) = lemma_trim_bounds(s);
    assert forall|j: int| b <= j < s.len() implies is_space(#[trigger] s[j]) by {
        assert(s.skip(b)[j - b] == s[j]);
    }
    lemma_tokens_from_in_part(s, a, b, 0);
    lemma_tokens_from_unfold(s, 0);
    lemma_tokens_from_unfold(s, a);
    lemma_word_start(s, 0);
    lemma_word_start(s, a);
    let w = word_start(s, 0);
    if w < a {
        assert(s.take(a)[w] == s[w]);
    }
    let v = word_start(s, a);
    if w != v {
        if w < v {
            assert(is_space(s[w]));
        } else {
            assert(is_space(s[v]));
        }
    }
}

/// A part of a text without a separator holds none either.
pub proof fn lemma_part_holds_no_separator(s: Seq<char>, a: int, b: int)
    requires
        0 <= a <= b <= s.len(),
        forall|i: int| !separator_at(s, i),
    ensures
        forall|i: int| !separator_at(s.subrange(a, b), i),
{
    let t = s.subrange(a, b);
    assert forall|i: int| !separator_at(t, i) by {
        if separator_at(t, i) {
            assert(t[i] == s[a + i]);
            assert(t[i + 1] == s[a + i + 1]);
            assert(t[i + 2] == s[a + i + 2]);
            assert(separator_at(s, a + i));
        }
    }
}

/// A line without a separator is a pipeline of one position: the line's
/// first token as the command and its other tokens as the arguments, or no
/// command where the line has no token.
pub proof fn lemma_line_without_separator(line: Seq<char>)
    requires
        forall|i: int| !separator_at(line, i),
    ensures
        parse_line(line) == seq![
            if tokens(line).len() == 0 {
                None
            } else {
                Some(StageView { command: tokens(line)[0], args: tokens(line).skip(1) })
            },
        ],
{
    let (a, b) = lemma_trim_bounds(line);
    let t = trim(line);
    lemma_part_holds_no_separator(line, a, b);
    lemma_single_fragment(t);
    lemma_trim_keeps_tokens(t);
    lemma_trim_keeps_tokens(line);
    assert(parse_line(line) =~= seq![parse_stage(t)]);
}

} // verus!
