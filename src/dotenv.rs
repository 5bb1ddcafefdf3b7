//! The dotenv format: one `KEY=VALUE` assignment per line.
//!
//! Each line is trimmed of white space. A line that is then empty, or that
//! starts with `#`, is skipped. Any other line is split at its first `=` into
//! a key and a value, both trimmed again. A line with no `=` is malformed: it
//! assigns nothing, and its line number is reported so that a caller can warn.
use vstd::prelude::*;
use crate::text::{chars_of, string_of, trim, trim_bounds};

verus! {

/// The lines of `s`, split at each `\n`. A final `\n` leaves an empty last
/// line; a `\r` before a `\n` stays on its line, where trimming removes it.
pub open spec fn split_lines(s: Seq<char>) -> Seq<Seq<char>>
    decreases s.len(),
{
    if s.len() == 0 {
        seq![Seq::empty()]
    } else {
        let p = split_lines(s.drop_last());
        if s.last() == '\n' {
            p.push(Seq::empty())
        } else {
            p.update(p.len() - 1, p.last().push(s.last()))
        }
    }
}

/// Position of the first `=` in `s`, or `s.len()` where there is none.
pub open spec fn first_eq(s: Seq<char>) -> int
    decreases s.len(),
{
    if s.len() == 0 || s[0] == '=' {
        0
    } else {
        1 + first_eq(s.drop_first())
    }
}

/// The trimmed line is empty.
pub open spec fn is_blank(line: Seq<char>) -> bool {
    trim(line).len() == 0
}

/// The trimmed line starts with `#`.
pub open spec fn is_comment(line: Seq<char>) -> bool {
    trim(line).len() > 0 && trim(line)[0] == '#'
}

/// Neither blank nor a comment, and without `=`.
pub open spec fn is_malformed(line: Seq<char>) -> bool {
    !is_blank(line) && !is_comment(line) && first_eq(trim(line)) == trim(line).len()
}

/// The key and value that `line` assigns, if any.
pub open spec fn line_assignment(line: Seq<char>) -> Option<(Seq<char>, Seq<char>)> {
    let t = trim(line);
    let i = first_eq(t);
    if is_blank(line) || is_comment(line) || is_malformed(line) {
        None
    } else {
        Some((trim(t.take(i)), trim(t.skip(i + 1))))
    }
}

/// The assignments of `lines`, in order.
pub open spec fn assignments_of_lines(lines: Seq<Seq<char>>) -> Seq<(Seq<char>, Seq<char>)>
    decreases lines.len(),
{
    if lines.len() == 0 {
        Seq::empty()
    } else {
        let p = assignments_of_lines(lines.drop_last());
        match line_assignment(lines.last()) {
            Some(a) => p.push(a),
            None => p,
        }
    }
}

/// The positions, counted from 0, of the malformed lines among `lines`.
pub open spec fn malformed_of_lines(lines: Seq<Seq<char>>) -> Seq<int>
    decreases lines.len(),
{
    if lines.len() == 0 {
        Seq::empty()
    } else {
        let p = malformed_of_lines(lines.drop_last());
        if is_malformed(lines.last()) {
            p.push(lines.len() - 1)
        } else {
            p
        }
    }
}

/// The assignments of a dotenv text, in the order of its lines.
pub open spec fn dotenv_assignments(content: Seq<char>) -> Seq<(Seq<char>, Seq<char>)> {
    assignments_of_lines(split_lines(content))
}

/// The positions, counted from 0, of the malformed lines of a dotenv text.
pub open spec fn dotenv_malformed(content: Seq<char>) -> Seq<int> {
    malformed_of_lines(split_lines(content))
}

/// The positions held in `v`, as integers.
pub open spec fn positions(v: Seq<usize>) -> Seq<int> {
    v.map_values(|n: usize| n as int)
}

/// A key and the value assigned to it.
pub struct Assignment {
    pub key: String,
    pub value: String,
}

impl View for Assignment {
    type V = (Seq<char>, Seq<char>);

    open spec fn view(&self) -> (Seq<char>, Seq<char>) {
        (self.key@, self.value@)
    }
}

/// The views of a sequence of assignments.
pub open spec fn assignment_views(v: Seq<Assignment>) -> Seq<(Seq<char>, Seq<char>)> {
    v.map_values(|a: Assignment| a@)
}

/// What one line of a dotenv text is.
pub enum Line {
    Blank,
    Comment,
    Malformed,
    Assign(Assignment),
}

/// A parsed dotenv text.
pub struct Dotenv {
    /// The assignments, in the order of their lines.
    pub assignments: Vec<Assignment>,
    /// The positions, counted from 0, of the lines without `=`.
    pub malformed: Vec<usize>,
}

/// What `line` is: blank, a comment, malformed, or an assignment.
pub open spec fn line_matches(line: Seq<char>, r: Line) -> bool {
    &&& (r is Blank <==> is_blank(line))
    &&& (r is Comment <==> is_comment(line))
    &&& (r is Malformed <==> is_malformed(line))
    &&& match r {
        Line::Assign(a) => line_assignment(line) == Some(a@),
        _ => line_assignment(line) is None,
    }
}

/// A blank line or a comment assigns nothing: added to any lines, it leaves
/// their assignments and malformed lines as they were.
pub proof fn lemma_blank_and_comment_lines_assign_nothing(lines: Seq<Seq<char>>, line: Seq<char>)
    requires
        is_blank(line) || is_comment(line),
    ensures
        line_assignment(line) is None,
        !is_malformed(line),
        assignments_of_lines(lines.push(line)) == assignments_of_lines(lines),
        malformed_of_lines(lines.push(line)) == malformed_of_lines(lines),
{
    assert(lines.push(line).drop_last() =~= lines);
}

proof fn lemma_split_lines_nonempty(s: Seq<char>)
    ensures
        split_lines(s).len() >= 1,
    decreases s.len(),
{
    if s.len() > 0 {
        lemma_split_lines_nonempty(s.drop_last());
    }
}

/// Classifies the line `v[lo..hi]`.
fn parse_range(v: &Vec<char>, lo: usize, hi: usize) -> (r: Line)
    requires
        lo <= hi <= v@.len(),
    ensures
        line_matches(v@.subrange(lo as int, hi as int), r),
{
    let ghost line = v@.subrange(lo as int, hi as int);
    let (a, b) = trim_bounds(v, lo, hi);
    let ghost t = v@.subrange(a as int, b as int);
    if a == b {
        return Line::Blank;
    }
    if v[a] == '#' {
        return Line::Comment;
    }
    let mut k = a;
    while k < b && v[k] != '='
        invariant
            a <= k <= b <= v@.len(),
            first_eq(t) == (k - a) + first_eq(v@.subrange(k as int, b as int)),
        decreases b - k,
    {
        assert(v@.subrange(k as int, b as int).drop_first() =~= v@.subrange(k + 1, b as int));
        k = k + 1;
    }
    assert(first_eq(t) == k - a);
    if k == b {
        return Line::Malformed;
    }
    let (ka, kb) = trim_bounds(v, a, k);
    let (va, vb) = trim_bounds(v, k + 1, b);
    assert(t.take(k - a) =~= v@.subrange(a as int, k as int));
    assert(t.skip(k - a + 1) =~= v@.subrange(k + 1, b as int));
    Line::Assign(Assignment { key: string_of(v, ka, kb), value: string_of(v, va, vb) })
}

/// Classifies one line of a dotenv text.
pub fn parse_line(line: &str) -> (r: Line)
    ensures
        line_matches(line@, r),
{
    let v = chars_of(line);
    assert(v@.subrange(0, v@.len() as int) =~= line@);
    parse_range(&v, 0, v.len())
}

/// Parses a dotenv text into its assignments and its malformed lines.
pub fn parse_dotenv(content: &str) -> (r: Dotenv)
    ensures
        assignment_views(r.assignments@) == dotenv_assignments(content@),
        positions(r.malformed@) == dotenv_malformed(content@),
{
    let v = chars_of(content);
    let mut assignments: Vec<Assignment> = Vec::new();
    let mut malformed: Vec<usize> = Vec::new();
    let mut start: usize = 0;
    let mut line_idx: usize = 0;
    let mut i: usize = 0;
    proof {
        lemma_split_lines_nonempty(v@.take(0));
    }
    while i < v.len()
        invariant
            start <= i <= v@.len(),
            line_idx <= i,
            split_lines(v@.take(i as int)).len() == line_idx + 1,
            split_lines(v@.take(i as int)).last() == v@.subrange(start as int, i as int),
            assignment_views(assignments@) == assignments_of_lines(
                split_lines(v@.take(i as int)).drop_last(),
            ),
            positions(malformed@) == malformed_of_lines(split_lines(v@.take(i as int)).drop_last()),
        decreases v@.len() - i,
    {
        let ghost lines = split_lines(v@.take(i as int));
        assert(v@.take(i + 1).drop_last() =~= v@.take(i as int));
        proof {
            lemma_split_lines_nonempty(v@.take(i as int));
        }
        if v[i] == '\n' {
            let l = parse_range(&v, start, i);
            match l {
                Line::Assign(a) => {
                    assignments.push(a);
                },
                Line::Malformed => {
                    malformed.push(line_idx);
                },
                _ => {},
            }
            assert(split_lines(v@.take(i + 1)).drop_last() =~= lines);
            assert(assignment_views(assignments@) =~= assignments_of_lines(lines));
            assert(positions(malformed@) =~= malformed_of_lines(lines));
            line_idx = line_idx + 1;
            start = i + 1;
        } else {
            assert(split_lines(v@.take(i + 1)).drop_last() =~= lines.drop_last());
            assert(v@.subrange(start as int, i + 1) =~= v@.subrange(start as int, i as int).push(
                v@[i as int],
            ));
        }
        i = i + 1;
    }
    let ghost lines = split_lines(v@.take(i as int));
    assert(v@.take(i as int) =~= content@);
    let l = parse_range(&v, start, i);
    match l {
        Line::Assign(a) => {
            assignments.push(a);
        },
        Line::Malformed => {
            malformed.push(line_idx);
        },
        _ => {},
    }
    assert(assignment_views(assignments@) =~= assignments_of_lines(lines));
    assert(positions(malformed@) =~= malformed_of_lines(lines));
    Dotenv { assignments, malformed }
}

} // verus!
