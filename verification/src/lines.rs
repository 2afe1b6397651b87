//! Splitting file content into lines.
//!
//! A line ends at a line feed; a carriage return immediately before the line
//! feed is not part of the line. Content after the last line feed forms a
//! final line unless it is empty, so a trailing line ending adds no line.

use vstd::prelude::*;

use crate::text::{find_from, lemma_find_from};

verus! {

/// A line-feed-terminated piece with one trailing carriage return removed.
pub open spec fn strip_cr(s: Seq<char>) -> Seq<char> {
    if s.len() > 0 && s[s.len() - 1] == '\r' {
        s.subrange(0, s.len() - 1)
    } else {
        s
    }
}

/// The lines of `content`, in order.
pub open spec fn split_lines_spec(s: Seq<char>) -> Seq<Seq<char>>
    decreases s.len(),
    via split_lines_spec_dec
{
    if s.len() == 0 {
        Seq::empty()
    } else {
        let nl = find_from(s, 0, '\n');
        if nl == s.len() {
            seq![s]
        } else {
            seq![strip_cr(s.subrange(0, nl))] + split_lines_spec(
                s.subrange(nl + 1, s.len() as int),
            )
        }
    }
}

#[via_fn]
proof fn split_lines_spec_dec(s: Seq<char>) {
    if s.len() > 0 {
        lemma_find_from(s, 0, '\n');
    }
}

proof fn lemma_split_lines_step(s: Seq<char>, start: int, i: int)
    requires
        0 <= start <= i < s.len(),
        forall|k: int| start <= k < i ==> s[k] != '\n',
        s[i] == '\n',
    ensures
        split_lines_spec(s.subrange(start, s.len() as int)) == seq![
            strip_cr(s.subrange(start, i)),
        ] + split_lines_spec(s.subrange(i + 1, s.len() as int)),
{
    let rest = s.subrange(start, s.len() as int);
    let nl = find_from(rest, 0, '\n');
    assert forall|k: int| 0 <= k < i - start implies rest[k] != '\n' by {
        assert(rest[k] == s[start + k]);
    }
    lemma_find_from(rest, 0, '\n');
    assert(rest[i - start] == '\n');
    if nl < i - start {
        assert(rest[nl] != '\n');
        assert(false);
    }
    if nl > i - start {
        assert(rest[i - start] != '\n');
        assert(false);
    }
    assert(nl == i - start);
    assert(rest.subrange(0, nl) =~= s.subrange(start, i));
    assert(rest.subrange(nl + 1, rest.len() as int) =~= s.subrange(i + 1, s.len() as int));
}

proof fn lemma_split_lines_last(s: Seq<char>, start: int)
    requires
        0 <= start <= s.len(),
        forall|k: int| start <= k < s.len() ==> s[k] != '\n',
    ensures
        start == s.len() ==> split_lines_spec(s.subrange(start, s.len() as int)) == Seq::<
            Seq<char>,
        >::empty(),
        start < s.len() ==> split_lines_spec(s.subrange(start, s.len() as int)) == seq![
            s.subrange(start, s.len() as int),
        ],
{
    let rest = s.subrange(start, s.len() as int);
    if start == s.len() {
        assert(rest.len() == 0);
    } else {
        assert forall|k: int| 0 <= k < rest.len() implies rest[k] != '\n' by {
            assert(rest[k] == s[start + k]);
        }
        lemma_find_from(rest, 0, '\n');
        assert(find_from(rest, 0, '\n') == rest.len());
    }
}

/// The lines of `content`, each as its own vector of characters.
pub fn split_lines(content: &Vec<char>) -> (r: Vec<Vec<char>>)
    ensures
        r.deep_view() == split_lines_spec(content@),
{
    let s = content;
    let n: usize = s.len();
    let mut r: Vec<Vec<char>> = Vec::new();
    let mut cur: Vec<char> = Vec::new();
    let mut start: usize = 0;
    let mut i: usize = 0;
    assert(s@.subrange(0, n as int) =~= s@);
    assert(r.deep_view() =~= Seq::<Seq<char>>::empty());
    assert(r.deep_view() + split_lines_spec(s@) =~= split_lines_spec(s@));
    while i < n
        invariant
            start <= i <= n,
            n == s@.len(),
            cur@ == s@.subrange(start as int, i as int),
            forall|k: int| start <= k < i ==> s@[k] != '\n',
            split_lines_spec(s@) == r.deep_view() + split_lines_spec(
                s@.subrange(start as int, n as int),
            ),
        decreases n - i,
    {
        let c = s[i];
        if c == '\n' {
            let mut line = cur;
            if line.len() > 0 && line[line.len() - 1] == '\r' {
                line.pop();
                assert(line@ =~= strip_cr(s@.subrange(start as int, i as int)));
            }
            proof {
                lemma_split_lines_step(s@, start as int, i as int);
            }
            let ghost piece = strip_cr(s@.subrange(start as int, i as int));
            let ghost rest = split_lines_spec(s@.subrange(i + 1, n as int));
            let ghost old_r = r.deep_view();
            r.push(line);
            assert(r.deep_view() =~~= old_r + seq![piece]);
            assert(old_r + (seq![piece] + rest) =~= (old_r + seq![piece]) + rest);
            cur = Vec::new();
            start = i + 1;
            assert(cur@ =~= s@.subrange(start as int, start as int));
        } else {
            cur.push(c);
            assert(cur@ =~= s@.subrange(start as int, i + 1 as int));
        }
        i = i + 1;
    }
    proof {
        lemma_split_lines_last(s@, start as int);
    }
    if cur.len() > 0 {
        let ghost old_r = r.deep_view();
        r.push(cur);
        assert(r.deep_view() =~~= old_r + seq![s@.subrange(start as int, n as int)]);
    } else {
        assert(start == n);
        assert(r.deep_view() =~= r.deep_view() + split_lines_spec(
            s@.subrange(start as int, n as int),
        ));
    }
    r
}

} // verus!
