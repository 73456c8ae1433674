//! Cutting a text into lines at a separator, and putting lines together
//! again with the separator between them.

use vstd::prelude::*;
use vstd::std_specs::iter::IteratorSpec;
use vstd::string::StringExecFns;

verus! {

/// The lines of a vector, each as its sequence of characters.
pub open spec fn texts(lines: Seq<String>) -> Seq<Seq<char>> {
    lines.map_values(|line: String| line@)
}

/// The separator stands in the text at position `at`.
pub open spec fn occurs_at(text: Seq<char>, sep: Seq<char>, at: int) -> bool {
    0 <= at && at + sep.len() <= text.len() && text.subrange(at, at + sep.len()) == sep
}

/// The separator stands at `at` and nowhere before.
pub open spec fn occurs_first_at(text: Seq<char>, sep: Seq<char>, at: int) -> bool {
    occurs_at(text, sep, at) && forall|before: int|
        0 <= before < at ==> !occurs_at(text, sep, before)
}

/// The pieces into which a separator cuts a text.
///
/// A separator that is not empty cuts at its first occurrence, and then cuts
/// what follows that occurrence in the same way: occurrences are taken from
/// the left and do not overlap, and a text of `k` of them has `k + 1`
/// pieces, some of them empty where two occurrences touch or one stands at
/// an end. The empty separator cuts before and after every character, so
/// each character is a piece of its own between one empty piece in front and
/// one at the back.
pub open spec fn pieces(text: Seq<char>, sep: Seq<char>) -> Seq<Seq<char>>
    decreases text.len(),
{
    if sep.len() == 0 {
        seq![Seq::<char>::empty()] + Seq::new(text.len(), |i: int| seq![text[i]])
            + seq![Seq::<char>::empty()]
    } else if exists|at: int| occurs_first_at(text, sep, at) {
        let at = choose|at: int| occurs_first_at(text, sep, at);
        seq![text.subrange(0, at)] + pieces(text.subrange(at + sep.len(), text.len() as int), sep)
    } else {
        seq![text]
    }
}

/// The lines with the separator between each two neighbours.
pub open spec fn joined(lines: Seq<Seq<char>>, sep: Seq<char>) -> Seq<char>
    decreases lines.len(),
{
    if lines.len() == 0 {
        Seq::empty()
    } else if lines.len() == 1 {
        lines[0]
    } else {
        joined(lines.drop_last(), sep) + sep + lines.last()
    }
}

/// Where the separator first stands at `at`, the first piece ends there and
/// the others are the pieces of what follows the separator.
proof fn lemma_pieces_cut(text: Seq<char>, sep: Seq<char>, at: int)
    requires
        sep.len() > 0,
        occurs_first_at(text, sep, at),
    ensures
        pieces(text, sep) == seq![text.subrange(0, at)] + pieces(
            text.subrange(at + sep.len(), text.len() as int),
            sep,
        ),
{
    // No other place is the first: of two places the earlier one rules out
    // the later.
    let found = choose|at: int| occurs_first_at(text, sep, at);
    assert(found == at) by {
        assert(occurs_at(text, sep, found) && occurs_at(text, sep, at));
    }
}

/// An occurrence in the text from `start` on is an occurrence in the text.
proof fn lemma_occurs_in_rest(text: Seq<char>, sep: Seq<char>, start: int, at: int)
    requires
        0 <= start <= at,
        start <= text.len(),
    ensures
        occurs_at(text.subrange(start, text.len() as int), sep, at - start) == occurs_at(
            text,
            sep,
            at,
        ),
{
    let rest = text.subrange(start, text.len() as int);
    if at + sep.len() <= text.len() {
        assert(rest.subrange(at - start, at - start + sep.len()) =~= text.subrange(
            at,
            at + sep.len(),
        ));
    }
}

/// Joining one line more puts the separator in front of it, unless it is the
/// first.
proof fn lemma_joined_step(lines: Seq<Seq<char>>, sep: Seq<char>, upto: int)
    requires
        0 <= upto < lines.len(),
    ensures
        joined(lines.subrange(0, upto + 1), sep) == if upto == 0 {
            lines[0]
        } else {
            joined(lines.subrange(0, upto), sep) + sep + lines[upto]
        },
{
    let head = lines.subrange(0, upto + 1);
    assert(head.drop_last() =~= lines.subrange(0, upto));
}

/// Joining a line in front of others puts the separator after it.
proof fn lemma_joined_front(first: Seq<char>, others: Seq<Seq<char>>, sep: Seq<char>)
    requires
        others.len() > 0,
    ensures
        joined(seq![first] + others, sep) == first + sep + joined(others, sep),
    decreases others.len(),
{
    let all = seq![first] + others;
    if others.len() == 1 {
        assert(joined(all.drop_last(), sep) == first);
    } else {
        assert(all.drop_last() =~= seq![first] + others.drop_last());
        lemma_joined_front(first, others.drop_last(), sep);
    }
}

/// Joined without a separator, the characters of a text, one to a line, give
/// the text as far as they go.
proof fn lemma_joined_characters(text: Seq<char>, upto: int)
    requires
        0 <= upto <= text.len(),
    ensures
        joined(
            seq![Seq::<char>::empty()] + Seq::new(upto as nat, |i: int| seq![text[i]]),
            Seq::empty(),
        ) == text.subrange(0, upto),
    decreases upto,
{
    let lines = seq![Seq::<char>::empty()] + Seq::new(upto as nat, |i: int| seq![text[i]]);
    if upto > 0 {
        lemma_joined_characters(text, upto - 1);
        assert(lines.drop_last() =~= seq![Seq::<char>::empty()] + Seq::new(
            (upto - 1) as nat,
            |i: int| seq![text[i]],
        ));
    }
}

/// Joining the pieces of a text with the separator that cut them gives the
/// text back.
pub proof fn lemma_join_undoes_split(text: Seq<char>, sep: Seq<char>)
    ensures
        pieces(text, sep).len() > 0,
        joined(pieces(text, sep), sep) == text,
    decreases text.len(),
{
    if sep.len() == 0 {
        let front = seq![Seq::<char>::empty()] + Seq::new(text.len(), |i: int| seq![text[i]]);
        let all = front + seq![Seq::<char>::empty()];
        assert(sep =~= Seq::<char>::empty());
        lemma_joined_characters(text, text.len() as int);
        assert(all.drop_last() =~= front);
    } else if exists|at: int| occurs_first_at(text, sep, at) {
        let at = choose|at: int| occurs_first_at(text, sep, at);
        let rest = text.subrange(at + sep.len(), text.len() as int);
        lemma_join_undoes_split(rest, sep);
        lemma_joined_front(text.subrange(0, at), pieces(rest, sep), sep);
    }
}

/// The characters of a text.
fn chars_of(text: &str) -> (out: Vec<char>)
    ensures
        out@ == text@,
{
    let mut out: Vec<char> = Vec::new();
    let mut rest = text.chars();
    loop
        invariant
            rest.obeys_prophetic_iter_laws(),
            rest.decrease() is Some,
            out@ + rest.remaining() == text@,
        decreases rest.decrease()->0,
    {
        match rest.next() {
            Some(c) => {
                out.push(c);
            },
            None => {
                return out;
            },
        }
    }
}

/// `String::push`: the string grows by the one character, at its end.
#[verifier::external_body]
fn push_char(text: &mut String, c: char)
    ensures
        final(text)@ == old(text)@.push(c),
{
    text.push(c)
}

/// The string of the characters from `from` up to `to`.
fn string_of(chars: &Vec<char>, from: usize, to: usize) -> (out: String)
    requires
        from <= to <= chars.len(),
    ensures
        out@ == chars@.subrange(from as int, to as int),
{
    let mut out = String::new();
    let mut at: usize = from;
    while at < to
        invariant
            from <= at <= to <= chars.len(),
            out@ == chars@.subrange(from as int, at as int),
        decreases to - at,
    {
        push_char(&mut out, chars[at]);
        at = at + 1;
    }
    out
}

/// Whether the separator stands in the text at `at`.
fn stands_at(chars: &Vec<char>, sep: &Vec<char>, at: usize) -> (out: bool)
    requires
        at + sep.len() <= chars.len(),
    ensures
        out == occurs_at(chars@, sep@, at as int),
{
    let mut k: usize = 0;
    while k < sep.len()
        invariant
            k <= sep.len(),
            at + sep.len() <= chars.len(),
            forall|i: int| 0 <= i < k ==> chars@[at + i] == sep@[i],
        decreases sep.len() - k,
    {
        if chars[at + k] != sep[k] {
            return false;
        }
        k = k + 1;
    }
    assert(chars@.subrange(at as int, at + sep.len()) =~= sep@);
    true
}

/// Cuts a text into its pieces at every occurrence of the separator.
pub fn split(text: &str, sep: &str) -> (out: Vec<String>)
    ensures
        texts(out@) == pieces(text@, sep@),
{
    let chars = chars_of(text);
    let mark = chars_of(sep);
    let n = chars.len();
    let m = mark.len();
    let mut out: Vec<String> = Vec::new();
    if m == 0 {
        out.push(String::new());
        let mut i: usize = 0;
        while i < n
            invariant
                i <= n,
                n == chars.len(),
                chars@ == text@,
                texts(out@) == seq![Seq::<char>::empty()] + Seq::new(
                    i as nat,
                    |k: int| seq![text@[k]],
                ),
            decreases n - i,
        {
            let piece = string_of(&chars, i, i + 1);
            let ghost before = out@;
            out.push(piece);
            i = i + 1;
            assert(texts(out@) =~= seq![Seq::<char>::empty()] + Seq::new(
                i as nat,
                |k: int| seq![text@[k]],
            )) by {
                assert(piece@ =~= seq![text@[i - 1]]);
                assert(texts(out@) =~= texts(before).push(piece@));
            }
        }
        out.push(String::new());
        return out;
    }
    let mut start: usize = 0;
    let mut at: usize = 0;
    assert(texts(out@) + pieces(chars@.subrange(0, n as int), sep@) =~= pieces(text@, sep@)) by {
        assert(chars@.subrange(0, n as int) =~= text@);
    }
    while m <= n - at
        invariant
            start <= at <= n,
            n == chars.len(),
            m == mark.len(),
            m > 0,
            chars@ == text@,
            mark@ == sep@,
            pieces(text@, sep@) == texts(out@) + pieces(
                chars@.subrange(start as int, n as int),
                sep@,
            ),
            forall|k: int| start <= k < at ==> !occurs_at(chars@, sep@, k),
        decreases n - at,
    {
        let ghost rest = chars@.subrange(start as int, n as int);
        if stands_at(&chars, &mark, at) {
            let piece = string_of(&chars, start, at);
            proof {
                // In what is left the separator stands here first, so a
                // piece ends here and the next begins behind the separator.
                assert forall|before: int| 0 <= before < at - start implies !occurs_at(
                    rest,
                    sep@,
                    before,
                ) by {
                    lemma_occurs_in_rest(chars@, sep@, start as int, start + before);
                }
                lemma_occurs_in_rest(chars@, sep@, start as int, at as int);
                lemma_pieces_cut(rest, sep@, at - start);
                assert(rest.subrange(0, at - start) =~= piece@);
                assert(rest.subrange(at - start + m, rest.len() as int) =~= chars@.subrange(
                    at + m,
                    n as int,
                ));
            }
            out.push(piece);
            at = at + m;
            start = at;
        } else {
            at = at + 1;
        }
    }
    // The separator does not stand in what is left, which is the last piece.
    let piece = string_of(&chars, start, n);
    proof {
        let rest = chars@.subrange(start as int, n as int);
        assert forall|k: int| !occurs_at(rest, sep@, k) by {
            if 0 <= k {
                lemma_occurs_in_rest(chars@, sep@, start as int, start + k);
            }
        }
        assert(pieces(rest, sep@) == seq![rest]);
    }
    out.push(piece);
    out
}

/// `itertools::join` over the lines: the first line, then for each further
/// line the separator and the line; the empty string where there is no line.
/// Before it writes, it reserves as many bytes as the separator has, times the
/// number of lines after the first: that product has to be a size that a
/// string can have.
#[verifier::external_body]
fn join_reserving(lines: &Vec<String>, sep: &str) -> (out: String)
    requires
        lines.len() > 0 ==> (lines.len() - 1) * sep.len() <= isize::MAX,
    ensures
        out@ == joined(texts(lines@), sep@),
{
    itertools::join(lines, sep)
}

/// Whether `count` times `width` bytes is a size that a string can have.
pub fn room_exists(count: usize, width: usize) -> (out: bool)
    ensures
        out == (count * width <= isize::MAX),
{
    if width == 0 {
        true
    } else {
        let most = (isize::MAX as usize) / width;
        assert(count <= most <==> count * width <= isize::MAX) by (nonlinear_arith)
            requires
                width > 0,
                most == isize::MAX as int / width as int,
        ;
        count <= most
    }
}

/// Puts the lines together with the separator between each two neighbours,
/// appending one after the other and reserving nothing beforehand.
pub fn join_stepwise(lines: &Vec<String>, sep: &str) -> (out: String)
    ensures
        out@ == joined(texts(lines@), sep@),
{
    let mut out = String::new();
    let mut i: usize = 0;
    while i < lines.len()
        invariant
            i <= lines.len(),
            out@ == joined(texts(lines@).subrange(0, i as int), sep@),
        decreases lines.len() - i,
    {
        proof {
            lemma_joined_step(texts(lines@), sep@, i as int);
        }
        if i > 0 {
            out.append(sep);
        }
        out.append(lines[i].as_str());
        i = i + 1;
    }
    assert(texts(lines@).subrange(0, lines.len() as int) =~= texts(lines@));
    out
}

/// Puts the lines together with the separator between each two neighbours.
pub fn join(lines: &Vec<String>, sep: &str) -> (out: String)
    ensures
        out@ == joined(texts(lines@), sep@),
{
    if lines.len() == 0 || room_exists(lines.len() - 1, sep.len()) {
        join_reserving(lines, sep)
    } else {
        // No string has room for that many separators, so there is nothing
        // to reserve: the lines are appended until the allocator gives up.
        join_stepwise(lines, sep)
    }
}

} // verus!
