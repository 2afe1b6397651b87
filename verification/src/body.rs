//! Class-body extraction by indentation.
//!
//! Given the lines of a file and the index of a class header line, the body is
//! the run of lines that follows the header: blank lines are skipped without
//! ending the block, the first non-blank line fixes the expected indentation,
//! and the block ends (exclusively) at the first non-blank line indented
//! strictly less than that. The result is the sequence of body line indices;
//! blank lines contribute none.

use vstd::prelude::*;

use crate::text::{blank_line, indent_of, skip_white_idx};

verus! {

broadcast use crate::text::lemma_vec_char_deep_view;

/// The first non-blank line at or after `j` (`lines.len()` if there is none).
pub open spec fn first_nonblank(lines: Seq<Seq<char>>, j: int) -> int
    decreases lines.len() - j
        when 0 <= j <= lines.len()
{
    if j < lines.len() && blank_line(lines[j]) {
        first_nonblank(lines, j + 1)
    } else {
        j
    }
}

/// The indices of the body lines from `j` on, for expected indentation `e`.
pub open spec fn body_from(lines: Seq<Seq<char>>, j: int, e: int) -> Seq<int>
    decreases lines.len() - j
        when 0 <= j <= lines.len()
{
    if j >= lines.len() {
        Seq::empty()
    } else if blank_line(lines[j]) {
        body_from(lines, j + 1, e)
    } else if indent_of(lines[j]) < e {
        Seq::empty()
    } else {
        seq![j] + body_from(lines, j + 1, e)
    }
}

/// The indices of the body lines of the class whose header is line `h`.
pub open spec fn class_body_indices(lines: Seq<Seq<char>>, h: int) -> Seq<int> {
    let fb = first_nonblank(lines, h + 1);
    if fb >= lines.len() {
        Seq::empty()
    } else {
        body_from(lines, fb, indent_of(lines[fb]))
    }
}

fn is_blank(line: &Vec<char>) -> (r: bool)
    ensures
        r == blank_line(line@),
{
    skip_white_idx(line, 0) == line.len()
}

/// The body line indices of the class whose header is line `header_idx`.
pub fn extract_class_body(lines: &Vec<Vec<char>>, header_idx: usize) -> (r: Vec<usize>)
    requires
        header_idx < lines@.len(),
    ensures
        r@.map_values(|u: usize| u as int) == class_body_indices(
            lines.deep_view(),
            header_idx as int,
        ),
        forall|k: int| 0 <= k < r@.len() ==> r@[k] < lines@.len(),
{
    let ghost gl = lines.deep_view();
    let n: usize = lines.len();
    let mut j: usize = header_idx + 1;
    while j < n && is_blank(&lines[j])
        invariant
            header_idx + 1 <= j <= n,
            n == gl.len(),
            gl == lines.deep_view(),
            first_nonblank(gl, header_idx + 1 as int) == first_nonblank(gl, j as int),
        decreases n - j,
    {
        assert(gl[j as int] == lines@[j as int].deep_view());
        j = j + 1;
    }
    assert(first_nonblank(gl, j as int) == j);
    let mut r: Vec<usize> = Vec::new();
    if j >= n {
        assert(r@.map_values(|u: usize| u as int) =~= class_body_indices(
            gl,
            header_idx as int,
        ));
        return r;
    }
    let e: usize = skip_white_idx(&lines[j], 0);
    assert(gl[j as int] == lines@[j as int]@);
    assert(e as int == indent_of(gl[j as int]));
    let ghost ge = e as int;
    assert(r@.map_values(|u: usize| u as int) =~= Seq::<int>::empty());
    assert(Seq::<int>::empty() + body_from(gl, j as int, ge) =~= body_from(gl, j as int, ge));
    while j < n
        invariant
            j <= n,
            n == gl.len(),
            gl == lines.deep_view(),
            class_body_indices(gl, header_idx as int) == r@.map_values(|u: usize| u as int)
                + body_from(gl, j as int, ge),
            forall|k: int| 0 <= k < r@.len() ==> r@[k] < n,
        decreases n - j,
    {
        assert(gl[j as int] == lines@[j as int]@);
        if is_blank(&lines[j]) {
            assert(blank_line(gl[j as int]));
            assert(body_from(gl, j as int, ge) == body_from(gl, j + 1 as int, ge));
        } else {
            assert(!blank_line(gl[j as int]));
            let ind: usize = skip_white_idx(&lines[j], 0);
            assert(ind as int == indent_of(gl[j as int]));
            if ind < e {
                assert(body_from(gl, j as int, ge) =~= Seq::<int>::empty());
                assert(r@.map_values(|u: usize| u as int) + Seq::<int>::empty()
                    =~= r@.map_values(|u: usize| u as int));
                return r;
            }
            assert(body_from(gl, j as int, ge) == seq![j as int] + body_from(
                gl,
                j + 1 as int,
                ge,
            ));
            let ghost old_map = r@.map_values(|u: usize| u as int);
            r.push(j);
            assert(r@.map_values(|u: usize| u as int) =~= old_map + seq![j as int]);
            assert(old_map + (seq![j as int] + body_from(gl, j + 1 as int, ge)) =~= (old_map
                + seq![j as int]) + body_from(gl, j + 1 as int, ge));
        }
        j = j + 1;
    }
    assert(body_from(gl, j as int, ge) =~= Seq::<int>::empty());
    assert(r@.map_values(|u: usize| u as int) + Seq::<int>::empty() =~= r@.map_values(
        |u: usize| u as int,
    ));
    r
}

} // verus!
