use vstd::prelude::*;

verus! {

/// A cursor position: zero-based line and zero-based column, the column
/// counted in characters.
#[derive(Clone, Copy, Debug, PartialEq, Eq, Structural)]
pub struct Position {
    pub line: u32,
    pub character: u32,
}

/// The index of the first line break at or after `s`, or the length of `t`
/// when the line runs to the end.
pub open spec fn line_end(t: Seq<char>, s: int) -> int
    decreases t.len() - s,
{
    if s < 0 || s >= t.len() {
        t.len() as int
    } else if t[s] == '\n' {
        s
    } else {
        line_end(t, s + 1)
    }
}

/// The offset at which line `line` starts, if the text has that many lines.
pub open spec fn line_start(t: Seq<char>, line: nat) -> Option<int>
    decreases line,
{
    if line == 0 {
        Some(0)
    } else {
        match line_start(t, (line - 1) as nat) {
            Some(s) => if line_end(t, s) < t.len() {
                Some(line_end(t, s) + 1)
            } else {
                None
            },
            None => None,
        }
    }
}

/// The character offset of a position: the start of its line plus its
/// column, a column past the end of the line standing for the line's end.
/// No offset when the text has fewer lines.
pub open spec fn offset_of(t: Seq<char>, p: Position) -> Option<int> {
    match line_start(t, p.line as nat) {
        Some(s) => Some(
            if s + p.character <= line_end(t, s) {
                s + p.character
            } else {
                line_end(t, s)
            },
        ),
        None => None,
    }
}

proof fn lemma_line_end_bounds(t: Seq<char>, s: int)
    requires
        0 <= s <= t.len(),
    ensures
        s <= line_end(t, s) <= t.len(),
    decreases t.len() - s,
{
    if s < t.len() && t[s] != '\n' {
        lemma_line_end_bounds(t, s + 1);
    }
}

proof fn lemma_no_later_line(t: Seq<char>, a: nat, b: nat)
    requires
        a <= b,
        line_start(t, a) is None,
    ensures
        line_start(t, b) is None,
    decreases b - a,
{
    if a < b {
        lemma_no_later_line(t, a, (b - 1) as nat);
    }
}

/// The index of the first line break at or after `s`, or the length.
fn end_of_line(t: &Vec<char>, s: usize) -> (e: usize)
    requires
        s <= t@.len(),
    ensures
        e == line_end(t@, s as int),
{
    let mut e: usize = s;
    while e < t.len() && t[e] != '\n'
        invariant
            s <= e <= t@.len(),
            line_end(t@, e as int) == line_end(t@, s as int),
        decreases t@.len() - e,
    {
        e = e + 1;
    }
    e
}

/// Converts a position into a character offset of `t`.
pub fn offset(t: &Vec<char>, p: Position) -> (r: Option<usize>)
    ensures
        r matches Some(o) ==> offset_of(t@, p) == Some(o as int) && o <= t@.len(),
        r is None ==> offset_of(t@, p) is None,
{
    let mut s: usize = 0;
    let mut l: u32 = 0;
    while l < p.line
        invariant
            l <= p.line,
            s <= t@.len(),
            line_start(t@, l as nat) == Some(s as int),
        decreases p.line - l,
    {
        let e = end_of_line(t, s);
        if e >= t.len() {
            proof { lemma_no_later_line(t@, (l + 1) as nat, p.line as nat); }
            return None;
        }
        s = e + 1;
        l = l + 1;
    }
    let e = end_of_line(t, s);
    proof { lemma_line_end_bounds(t@, s as int); }
    if (p.character as usize) <= e - s {
        Some(s + p.character as usize)
    } else {
        Some(e)
    }
}

} // verus!
