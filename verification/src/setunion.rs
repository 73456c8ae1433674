//! The union of two texts' lines: every line of either text once, in
//! ascending order.

use vstd::prelude::*;
use vstd::seq_lib::seq_to_set_distributes_over_add;
use crate::lines::{join, joined, pieces, split, texts};
use crate::order::{ascending, lemma_listing_lists, lemma_listing_of_ascending,
    lemma_precedes_connected, lemma_precedes_transitive, listing, precedes, str_rank, Rank};

verus! {

/// What the union of two texts is: the lines that the separator cuts out of
/// either text, each once, in ascending order, with the separator between
/// them.
pub open spec fn union_text(left: Seq<char>, right: Seq<char>, sep: Seq<char>) -> Seq<char> {
    joined(listing(pieces(left, sep).to_set().union(pieces(right, sep).to_set())), sep)
}

/// The lines of the union of two texts are those of the one text and those of
/// the other, each once and in ascending order, and it makes no difference
/// which of the two texts comes first.
pub proof fn lemma_union_text_lists_both(left: Seq<char>, right: Seq<char>, sep: Seq<char>)
    ensures
        ({
            let all = listing(pieces(left, sep).to_set().union(pieces(right, sep).to_set()));
            &&& union_text(left, right, sep) == joined(all, sep)
            &&& ascending(all)
            &&& forall|line: Seq<char>|
                all.contains(line) <==> pieces(left, sep).contains(line) || pieces(
                    right,
                    sep,
                ).contains(line)
        }),
        union_text(left, right, sep) == union_text(right, left, sep),
{
    let lines = pieces(left, sep).to_set().union(pieces(right, sep).to_set());
    let all = listing(lines);
    seq_to_set_distributes_over_add(pieces(left, sep), pieces(right, sep));
    lemma_listing_lists(pieces(left, sep) + pieces(right, sep));
    assert forall|line: Seq<char>|
        all.contains(line) <==> pieces(left, sep).contains(line) || pieces(right, sep).contains(
            line,
        ) by {
        assert(all.to_set().contains(line) == lines.contains(line));
    }
    assert(lines =~= pieces(right, sep).to_set().union(pieces(left, sep).to_set()));
}

/// The lines of `lines` from `from` up to `to`, as a set.
pub open spec fn lines_between(lines: Seq<String>, from: int, to: int) -> Set<Seq<char>> {
    texts(lines).subrange(from, to).to_set()
}

/// A range of lines grows by the line at its end.
proof fn lemma_lines_grow(lines: Seq<String>, from: int, to: int)
    requires
        0 <= from <= to < lines.len(),
    ensures
        lines_between(lines, from, to + 1) == lines_between(lines, from, to).insert(lines[to]@),
{
    let all = texts(lines);
    assert(all.subrange(from, to + 1) =~= all.subrange(from, to).push(all[to]));
    all.subrange(from, to).lemma_push_to_set_commute(all[to]);
}

/// A range of lines is made of its two parts.
proof fn lemma_lines_parts(lines: Seq<String>, from: int, mid: int, to: int)
    requires
        0 <= from <= mid <= to <= lines.len(),
    ensures
        lines_between(lines, from, to) == lines_between(lines, from, mid).union(
            lines_between(lines, mid, to),
        ),
{
    let all = texts(lines);
    assert(all.subrange(from, to) =~= all.subrange(from, mid) + all.subrange(mid, to));
    seq_to_set_distributes_over_add(all.subrange(from, mid), all.subrange(mid, to));
}

/// Merges two ascending vectors of lines into the ascending vector of the
/// lines of both.
fn merge(left: &Vec<String>, right: &Vec<String>) -> (out: Vec<String>)
    requires
        ascending(texts(left@)),
        ascending(texts(right@)),
    ensures
        ascending(texts(out@)),
        texts(out@).to_set() == texts(left@).to_set().union(texts(right@).to_set()),
{
    let mut out: Vec<String> = Vec::new();
    let mut i: usize = 0;
    let mut j: usize = 0;
    while i < left.len() || j < right.len()
        invariant
            i <= left.len(),
            j <= right.len(),
            ascending(texts(left@)),
            ascending(texts(right@)),
            ascending(texts(out@)),
            texts(out@).to_set() == lines_between(left@, 0, i as int).union(
                lines_between(right@, 0, j as int),
            ),
            forall|k: int, p: int|
                0 <= k < out.len() && i <= p < left.len() ==> precedes(
                    #[trigger] out@[k]@,
                    #[trigger] left@[p]@,
                ),
            forall|k: int, p: int|
                0 <= k < out.len() && j <= p < right.len() ==> precedes(
                    #[trigger] out@[k]@,
                    #[trigger] right@[p]@,
                ),
        decreases left.len() - i + right.len() - j,
    {
        let ghost done = out@;
        let ghost i0 = i as int;
        let ghost j0 = j as int;
        // How the next line of `left` stands to the next line of `right`; a
        // side that has run out counts as coming after the other.
        let turn = if i == left.len() {
            Rank::After
        } else if j == right.len() {
            Rank::Before
        } else {
            str_rank(left[i].as_str(), right[j].as_str())
        };
        let line = match turn {
            Rank::Before => {
                i = i + 1;
                left[i - 1].clone()
            },
            Rank::Same => {
                i = i + 1;
                j = j + 1;
                left[i - 1].clone()
            },
            Rank::After => {
                j = j + 1;
                right[j - 1].clone()
            },
        };
        proof {
            let l = texts(left@);
            let r = texts(right@);
            // The line follows all that are out already, and it comes
            // before all that is left on either side.
            assert(texts(done.push(line)) =~= texts(done).push(line@));
            assert forall|p: int| i <= p < left.len() implies precedes(
                line@,
                #[trigger] left@[p]@,
            ) by {
                if i0 < i {
                    assert(precedes(l[i0], l[p]));
                } else {
                    lemma_precedes_connected(l[i0], r[j0]);
                    if p > i0 {
                        lemma_precedes_transitive(r[j0], l[i0], l[p]);
                    }
                }
            }
            assert forall|p: int| j <= p < right.len() implies precedes(
                line@,
                #[trigger] right@[p]@,
            ) by {
                if j0 < j {
                    assert(precedes(r[j0], r[p]));
                } else if p > j0 {
                    lemma_precedes_transitive(l[i0], r[j0], r[p]);
                }
            }
            // With it, the lines that are out are those of both sides so far.
            if i0 < i {
                lemma_lines_grow(left@, 0, i0);
            }
            if j0 < j {
                lemma_lines_grow(right@, 0, j0);
            }
            texts(done).lemma_push_to_set_commute(line@);
        }
        out.push(line);
    }
    assert(texts(left@).subrange(0, left.len() as int) =~= texts(left@));
    assert(texts(right@).subrange(0, right.len() as int) =~= texts(right@));
    out
}

/// The lines of `lines` from `from` up to `to`, each once, in ascending
/// order.
fn sort_range(lines: &Vec<String>, from: usize, to: usize) -> (out: Vec<String>)
    requires
        from <= to <= lines.len(),
    ensures
        ascending(texts(out@)),
        texts(out@).to_set() == lines_between(lines@, from as int, to as int),
    decreases to - from,
{
    if to - from <= 1 {
        let mut out: Vec<String> = Vec::new();
        if from < to {
            out.push(lines[from].clone());
        }
        assert(texts(out@) =~= texts(lines@).subrange(from as int, to as int));
        out
    } else {
        let mid = from + (to - from) / 2;
        let front = sort_range(lines, from, mid);
        let back = sort_range(lines, mid, to);
        proof {
            lemma_lines_parts(lines@, from as int, mid as int, to as int);
        }
        merge(&front, &back)
    }
}

/// Every line of `left` or of `right`, each once, in ascending order.
pub fn sorted_union(left: &Vec<String>, right: &Vec<String>) -> (out: Vec<String>)
    ensures
        ascending(texts(out@)),
        texts(out@).to_set() == texts(left@).to_set().union(texts(right@).to_set()),
        texts(out@) == listing(texts(left@).to_set().union(texts(right@).to_set())),
{
    let front = sort_range(left, 0, left.len());
    let back = sort_range(right, 0, right.len());
    let out = merge(&front, &back);
    proof {
        assert(texts(left@).subrange(0, left.len() as int) =~= texts(left@));
        assert(texts(right@).subrange(0, right.len() as int) =~= texts(right@));
        lemma_listing_of_ascending(texts(out@));
    }
    out
}

/// Cuts both texts at the separator and joins, with the same separator,
/// every line of either text, each once, in ascending order.
pub fn set_union(left: &str, right: &str, sep: &str) -> (out: String)
    ensures
        out@ == union_text(left@, right@, sep@),
{
    let left_lines = split(left, sep);
    let right_lines = split(right, sep);
    let all = sorted_union(&left_lines, &right_lines);
    join(&all, sep)
}

} // verus!
