//! The order in which lines are listed: strings are compared character by
//! character, by code point, and a proper prefix comes before its extensions.
//! This is the order of `str` itself.

use vstd::prelude::*;
use vstd::std_specs::iter::IteratorSpec;

verus! {

/// `a` comes strictly before `b`.
pub open spec fn precedes(a: Seq<char>, b: Seq<char>) -> bool
    decreases a.len(),
{
    if b.len() == 0 {
        false
    } else if a.len() == 0 {
        true
    } else if a[0] == b[0] {
        precedes(a.drop_first(), b.drop_first())
    } else {
        (a[0] as int) < (b[0] as int)
    }
}

/// No string comes before itself.
pub proof fn lemma_precedes_irreflexive(a: Seq<char>)
    ensures
        !precedes(a, a),
    decreases a.len(),
{
    if a.len() > 0 {
        lemma_precedes_irreflexive(a.drop_first());
    }
}

/// What comes before something that comes before `c` comes before `c`.
pub proof fn lemma_precedes_transitive(a: Seq<char>, b: Seq<char>, c: Seq<char>)
    requires
        precedes(a, b),
        precedes(b, c),
    ensures
        precedes(a, c),
    decreases a.len(),
{
    if a.len() > 0 && a[0] == b[0] && b[0] == c[0] {
        lemma_precedes_transitive(a.drop_first(), b.drop_first(), c.drop_first());
    }
}

/// Of two different strings one comes before the other.
pub proof fn lemma_precedes_connected(a: Seq<char>, b: Seq<char>)
    ensures
        a == b || precedes(a, b) || precedes(b, a),
    decreases a.len(),
{
    if a.len() > 0 && b.len() > 0 && a[0] == b[0] {
        lemma_precedes_connected(a.drop_first(), b.drop_first());
        if a.drop_first() == b.drop_first() {
            assert(a =~= seq![a[0]] + a.drop_first());
        }
    }
}

/// Two strings never come before each other.
pub proof fn lemma_precedes_asymmetric(a: Seq<char>, b: Seq<char>)
    requires
        precedes(a, b),
    ensures
        !precedes(b, a),
        a != b,
{
    if precedes(b, a) {
        lemma_precedes_transitive(a, b, a);
    }
    lemma_precedes_irreflexive(a);
}

/// How one string stands to another in the order.
#[derive(Clone, Copy, Debug, PartialEq, Eq)]
pub enum Rank {
    /// It comes before the other.
    Before,
    /// The two are the same string.
    Same,
    /// It comes after the other.
    After,
}

/// The rank of `a` against `b`.
pub open spec fn rank(a: Seq<char>, b: Seq<char>) -> Rank {
    if a == b {
        Rank::Same
    } else if precedes(a, b) {
        Rank::Before
    } else {
        Rank::After
    }
}

/// `rank` looks at the first characters and, where they agree, at the rest.
proof fn lemma_rank_unfolds(a: Seq<char>, b: Seq<char>)
    ensures
        a.len() == 0 && b.len() == 0 ==> rank(a, b) == Rank::Same,
        a.len() == 0 && b.len() > 0 ==> rank(a, b) == Rank::Before,
        a.len() > 0 && b.len() == 0 ==> rank(a, b) == Rank::After,
        a.len() > 0 && b.len() > 0 && a[0] == b[0] ==> rank(a, b) == rank(
            a.drop_first(),
            b.drop_first(),
        ),
        a.len() > 0 && b.len() > 0 && a[0] != b[0] ==> rank(a, b) == if (a[0] as int) < (b[0]
            as int) {
            Rank::Before
        } else {
            Rank::After
        },
{
    if a.len() == 0 && b.len() == 0 {
        assert(a =~= b);
    }
    if a.len() > 0 && b.len() > 0 && a[0] == b[0] {
        if a.drop_first() == b.drop_first() {
            assert(a =~= seq![a[0]] + a.drop_first());
            assert(b =~= seq![b[0]] + b.drop_first());
        }
    }
}

/// Compares two strings in one pass over both.
pub fn str_rank(a: &str, b: &str) -> (out: Rank)
    ensures
        out == rank(a@, b@),
{
    let mut left = a.chars();
    let mut right = b.chars();
    loop
        invariant
            left.obeys_prophetic_iter_laws(),
            right.obeys_prophetic_iter_laws(),
            left.decrease() is Some,
            rank(a@, b@) == rank(left.remaining(), right.remaining()),
        decreases left.decrease()->0,
    {
        proof {
            lemma_rank_unfolds(left.remaining(), right.remaining());
        }
        let x = left.next();
        let y = right.next();
        match (x, y) {
            (None, None) => {
                return Rank::Same;
            },
            (None, Some(_)) => {
                return Rank::Before;
            },
            (Some(_), None) => {
                return Rank::After;
            },
            (Some(c), Some(d)) => {
                if c != d {
                    return if c < d {
                        Rank::Before
                    } else {
                        Rank::After
                    };
                }
            },
        }
    }
}

/// Whether `a` comes strictly before `b`.
pub fn str_precedes(a: &str, b: &str) -> (out: bool)
    ensures
        out == precedes(a@, b@),
{
    proof {
        lemma_precedes_irreflexive(a@);
    }
    match str_rank(a, b) {
        Rank::Before => true,
        Rank::Same => false,
        Rank::After => false,
    }
}

/// Each line comes strictly before every later one: the lines are sorted and
/// none occurs twice.
pub open spec fn ascending(lines: Seq<Seq<char>>) -> bool {
    forall|i: int, j: int|
        0 <= i < j < lines.len() ==> precedes(#[trigger] lines[i], #[trigger] lines[j])
}

/// The lines of a set, each once, in ascending order.
pub open spec fn listing(lines: Set<Seq<char>>) -> Seq<Seq<char>> {
    choose|out: Seq<Seq<char>>| ascending(out) && out.to_set() == lines
}

/// The first of an ascending sequence is its least line, and the rest lists
/// the other lines.
proof fn lemma_ascending_rest(lines: Seq<Seq<char>>)
    requires
        ascending(lines),
        lines.len() > 0,
    ensures
        ascending(lines.drop_first()),
        lines.drop_first().to_set() == lines.to_set().remove(lines[0]),
        forall|line: Seq<char>| #[trigger]
            lines.to_set().contains(line) ==> line == lines[0] || precedes(lines[0], line),
{
    let rest = lines.drop_first();
    assert forall|line: Seq<char>|
        rest.to_set().contains(line) == lines.to_set().remove(lines[0]).contains(line) by {
        if rest.to_set().contains(line) {
            lemma_precedes_asymmetric(lines[0], line);
        }
        if lines.to_set().remove(lines[0]).contains(line) {
            let at = choose|at: int| 0 <= at < lines.len() && lines[at] == line;
            assert(rest[at - 1] == line);
        }
    }
}

/// A set of lines has at most one ascending sequence that lists it.
pub proof fn lemma_ascending_unique(x: Seq<Seq<char>>, y: Seq<Seq<char>>)
    requires
        ascending(x),
        ascending(y),
        x.to_set() == y.to_set(),
    ensures
        x == y,
    decreases x.len(),
{
    if x.len() == 0 || y.len() == 0 {
        if x.len() > 0 {
            assert(x.to_set().contains(x[0]));
        }
        if y.len() > 0 {
            assert(y.to_set().contains(y[0]));
        }
    } else {
        lemma_ascending_rest(x);
        lemma_ascending_rest(y);
        assert(x.to_set().contains(x[0]));
        assert(y.to_set().contains(y[0]));
        assert(x[0] == y[0]) by {
            if x[0] != y[0] {
                lemma_precedes_asymmetric(x[0], y[0]);
            }
        }
        lemma_ascending_unique(x.drop_first(), y.drop_first());
        assert(x =~= seq![x[0]] + x.drop_first());
    }
}

/// A sequence with one line in front holds that line and those of the
/// sequence.
proof fn lemma_front_to_set(first: Seq<char>, rest: Seq<Seq<char>>)
    ensures
        (seq![first] + rest).to_set() == rest.to_set().insert(first),
{
    let all = seq![first] + rest;
    assert forall|line: Seq<char>|
        all.to_set().contains(line) == rest.to_set().insert(first).contains(line) by {
        if all.to_set().contains(line) {
            let at = choose|at: int| 0 <= at < all.len() && all[at] == line;
            if at > 0 {
                assert(rest[at - 1] == line);
            }
        }
        if line == first {
            assert(all[0] == line);
        } else if rest.to_set().contains(line) {
            let at = choose|at: int| 0 <= at < rest.len() && rest[at] == line;
            assert(all[at + 1] == line);
        }
    }
    assert(all.to_set() =~= rest.to_set().insert(first));
}

/// An ascending sequence can take one line more: the result lists the lines
/// that it had and that one.
proof fn place(sorted: Seq<Seq<char>>, line: Seq<char>) -> (out: Seq<Seq<char>>)
    requires
        ascending(sorted),
    ensures
        ascending(out),
        out.to_set() == sorted.to_set().insert(line),
    decreases sorted.len(),
{
    if sorted.len() == 0 {
        lemma_front_to_set(line, sorted);
        seq![line] + sorted
    } else if line == sorted[0] {
        assert(sorted.to_set().contains(line));
        assert(sorted.to_set() =~= sorted.to_set().insert(line));
        sorted
    } else {
        lemma_ascending_rest(sorted);
        let placed = place(sorted.drop_first(), line);
        // The line goes in front, or the first line stays in front of the
        // rest with the line placed in it.
        let (first, rest) = if precedes(line, sorted[0]) {
            (line, sorted)
        } else {
            (sorted[0], placed)
        };
        let out = seq![first] + rest;
        assert forall|other: Seq<char>| #[trigger] rest.to_set().contains(other) implies precedes(
            first,
            other,
        ) by {
            if precedes(line, sorted[0]) {
                if other != sorted[0] {
                    lemma_precedes_transitive(line, sorted[0], other);
                }
            } else {
                lemma_precedes_connected(line, sorted[0]);
            }
        }
        assert forall|i: int, j: int| 0 <= i < j < out.len() implies precedes(
            #[trigger] out[i],
            #[trigger] out[j],
        ) by {
            assert(rest.to_set().contains(rest[j - 1]));
            if i > 0 {
                assert(precedes(rest[i - 1], rest[j - 1]));
            }
        }
        lemma_front_to_set(first, rest);
        assert(sorted.to_set().contains(sorted[0]));
        assert(out.to_set() =~= sorted.to_set().insert(line));
        out
    }
}

/// The lines of a sequence can be put in ascending order, each once.
proof fn arrange(lines: Seq<Seq<char>>) -> (out: Seq<Seq<char>>)
    ensures
        ascending(out),
        out.to_set() == lines.to_set(),
    decreases lines.len(),
{
    if lines.len() == 0 {
        lines
    } else {
        let before = arrange(lines.drop_last());
        let out = place(before, lines.last());
        assert(lines =~= lines.drop_last().push(lines.last()));
        out
    }
}

/// The listing of the lines of a sequence is ascending and holds just
/// those lines.
pub proof fn lemma_listing_lists(lines: Seq<Seq<char>>)
    ensures
        ascending(listing(lines.to_set())),
        listing(lines.to_set()).to_set() == lines.to_set(),
{
    let found = arrange(lines);
}

/// An ascending sequence is the listing of the set of its lines.
pub proof fn lemma_listing_of_ascending(lines: Seq<Seq<char>>)
    requires
        ascending(lines),
    ensures
        listing(lines.to_set()) == lines,
{
    lemma_ascending_unique(listing(lines.to_set()), lines);
}

} // verus!
