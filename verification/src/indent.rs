//! Indentation level prediction for a freshly opened line.
use vstd::prelude::*;

verus! {

/// Number of leading space characters of a line.
pub open spec fn leading_spaces(s: Seq<char>) -> nat
    decreases s.len(),
{
    if s.len() == 0 || s[0] != ' ' {
        0
    } else {
        1 + leading_spaces(s.drop_first())
    }
}

/// The opening brackets after which the next line is indented one level
/// deeper.
pub open spec fn is_open_bracket(c: char) -> bool {
    c == '(' || c == '{' || c == '['
}

/// Indentation level for the line following `s`, with `w` spaces per level.
pub open spec fn next_indent_spec(s: Seq<char>, w: nat) -> nat
    recommends
        w >= 1,
{
    let base = leading_spaces(s) / w;
    if s.len() > 0 && is_open_bracket(s[s.len() - 1]) {
        base + 1
    } else {
        base
    }
}

proof fn lemma_leading_spaces_prefix(s: Seq<char>, i: int)
    requires
        0 <= i <= s.len(),
        forall|j: int| 0 <= j < i ==> s[j] == ' ',
        i == s.len() || s[i] != ' ',
    ensures
        leading_spaces(s) == i,
    decreases i,
{
    if i == 0 {
    } else {
        assert(s[0] == ' ');
        lemma_leading_spaces_prefix(s.drop_first(), i - 1);
    }
}

/// Indentation level of the line that follows `line`: the current level, one
/// deeper if the line ends with an opening bracket.
pub fn next_indent_level(line: &str, indent_width: usize) -> (r: usize)
    requires
        indent_width >= 1,
        line@.len() < usize::MAX,
    ensures
        r == next_indent_spec(line@, indent_width as nat),
{
    let n = line.unicode_len();
    let mut i: usize = 0;
    while i < n && line.get_char(i) == ' '
        invariant
            0 <= i <= n,
            n == line@.len(),
            forall|j: int| 0 <= j < i ==> line@[j] == ' ',
        decreases n - i,
    {
        i += 1;
    }
    proof {
        lemma_leading_spaces_prefix(line@, i as int);
    }
    let base = i / indent_width;
    if n > 0 {
        let last = line.get_char(n - 1);
        if last == '(' || last == '{' || last == '[' {
            return base + 1;
        }
    }
    base
}

} // verus!
