//! Looking a command up: cutting a command line into a program name and its
//! argument text, completing the name with the suffix that executables carry
//! on some platforms, and choosing among the directories of the search path.

use crate::text::{chars_of, string_of};
use vstd::prelude::*;

verus! {

/// `s` ends with `suffix`.
pub open spec fn ends_with(s: Seq<char>, suffix: Seq<char>) -> bool {
    s.len() >= suffix.len() && s.skip(s.len() - suffix.len()) == suffix
}

/// The suffix of executables.
pub open spec fn exe_suffix() -> Seq<char> {
    seq!['.', 'e', 'x', 'e']
}

/// The file name to search for: `name` itself, or, where executables need
/// the suffix and `name` lacks it, `name` with the suffix added.
pub open spec fn enhanced(name: Seq<char>, needs_suffix: bool) -> Seq<char> {
    if needs_suffix && !ends_with(name, exe_suffix()) {
        name + exe_suffix()
    } else {
        name
    }
}

/// The index of the first blank of `s` at or after `from`, or the length of
/// `s` where there is none.
pub open spec fn first_blank(s: Seq<char>, from: int) -> int
    decreases s.len() - from,
{
    if from < 0 || from >= s.len() {
        s.len() as int
    } else if s[from] == ' ' {
        from
    } else {
        first_blank(s, from + 1)
    }
}

/// The index of the first `true` in `found` at or after `from`, if there is
/// one.
pub open spec fn first_true(found: Seq<bool>, from: int) -> Option<int>
    decreases found.len() - from,
{
    if from < 0 || from >= found.len() {
        None
    } else if found[from] {
        Some(from)
    } else {
        first_true(found, from + 1)
    }
}

/// Where the first blank is: within bounds, at a blank unless it is the
/// length, and after no blank.
pub proof fn lemma_first_blank(s: Seq<char>, from: int)
    requires
        0 <= from <= s.len(),
    ensures
        from <= first_blank(s, from) <= s.len(),
        first_blank(s, from) < s.len() ==> s[first_blank(s, from)] == ' ',
        forall|j: int| from <= j < first_blank(s, from) ==> s[j] != ' ',
    decreases s.len() - from,
{
    if from < s.len() && s[from] != ' ' {
        lemma_first_blank(s, from + 1);
    }
}

/// The first match wins: the index chosen holds `true` and no index before
/// it does; none is chosen only where no index holds `true`.
pub proof fn lemma_first_true(found: Seq<bool>, from: int)
    requires
        0 <= from <= found.len(),
    ensures
        match first_true(found, from) {
            Some(i) => from <= i < found.len() && found[i] && forall|j: int|
                from <= j < i ==> !found[j],
            None => forall|j: int| from <= j < found.len() ==> !found[j],
        },
    decreases found.len() - from,
{
    if from < found.len() && !found[from] {
        lemma_first_true(found, from + 1);
    }
}

/// Completes a program name with the suffix of executables, where the
/// platform needs the suffix and the name lacks it.
pub fn enhance_exe_name(name: &str, needs_suffix: bool) -> (file: String)
    ensures
        file@ == enhanced(name@, needs_suffix),
{
    let chars = chars_of(name);
    let n = chars.len();
    let suffixed = n >= 4 && chars[n - 4] == '.' && chars[n - 3] == 'e' && chars[n - 2] == 'x' && chars[n
        - 1] == 'e';
    proof {
        if n >= 4 {
            let tail = chars@.skip(n - 4);
            assert(tail.len() == 4);
            assert(tail[0] == chars@[n - 4] && tail[1] == chars@[n - 3] && tail[2] == chars@[n - 2]
                && tail[3] == chars@[n - 1]);
            if suffixed {
                assert(tail =~= exe_suffix());
            }
        }
    }
    let mut file = String::from_str(name);
    if needs_suffix && !suffixed {
        proof {
            reveal_strlit(".exe");
            assert(".exe"@ =~= exe_suffix());
        }
        file.append(".exe");
    }
    file
}

/// Cuts a command line at its first blank: the program name in front of it,
/// and the argument text from the blank on. Without a blank the whole line
/// is the name.
pub fn split_command(command: &str) -> (parts: (String, String))
    ensures
        parts.0@ == command@.take(first_blank(command@, 0)),
        parts.1@ == command@.skip(first_blank(command@, 0)),
{
    let chars = chars_of(command);
    let n = chars.len();
    let mut i: usize = 0;
    while i < n && chars[i] != ' '
        invariant
            i <= n == chars.len(),
            first_blank(chars@, 0) == first_blank(chars@, i as int),
        decreases n - i,
    {
        i += 1;
    }
    let name = string_of(&chars, 0, i);
    let args = string_of(&chars, i, n);
    assert(chars@.subrange(0, i as int) =~= chars@.take(i as int));
    assert(chars@.subrange(i as int, n as int) =~= chars@.skip(i as int));
    (name, args)
}

/// Chooses among the directories of the search path, given for each, in the
/// listed order, whether it holds the file: the first that does.
pub fn find_exe_name(found: &Vec<bool>) -> (choice: Option<usize>)
    ensures
        match choice {
            Some(i) => first_true(found@, 0) == Some(i as int),
            None => first_true(found@, 0) is None,
        },
{
    let mut i: usize = 0;
    while i < found.len()
        invariant
            i <= found.len(),
            first_true(found@, 0) == first_true(found@, i as int),
        decreases found.len() - i,
    {
        if found[i] {
            return Some(i);
        }
        i += 1;
    }
    None
}

} // verus!
