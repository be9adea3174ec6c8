//! The lines of a text, and those that hold a search term.

use vstd::prelude::*;

use crate::text::{chars_of, lemma_split_on_nonempty, split_at_char, split_on, views_of};

verus! {

/// A piece of text without the carriage return that ends it, if any.
pub open spec fn strip_cr(p: Seq<char>) -> Seq<char> {
    if p.len() > 0 && p.last() == '\r' {
        p.drop_last()
    } else {
        p
    }
}

/// The lines of a text: cut at each "\n" (with a "\r" just before it also
/// removed); a final line ending is optional and adds no empty line.
pub open spec fn lines_in(s: Seq<char>) -> Seq<Seq<char>> {
    let pieces = split_on(s, '\n');
    let ended = pieces.drop_last().map_values(|p: Seq<char>| strip_cr(p));
    if pieces.last().len() == 0 {
        ended
    } else {
        ended.push(pieces.last())
    }
}

/// `term` occurs in `line` as a run of consecutive characters.
pub open spec fn contains_text(line: Seq<char>, term: Seq<char>) -> bool {
    exists|i: int| 0 <= i && i + term.len() <= line.len() && #[trigger] line.subrange(i, i + term.len()) == term
}

/// Cuts `contents` into lines.
pub fn lines_of<'a>(contents: &'a str) -> (r: Vec<&'a str>)
    ensures
        views_of(r@) == lines_in(contents@),
{
    let pieces = split_at_char(contents, '\n');
    let ghost p = views_of(pieces@);
    proof {
        lemma_split_on_nonempty(contents@, '\n');
    }
    let count = pieces.len();
    let mut lines: Vec<&'a str> = Vec::new();
    let mut i: usize = 0;
    while i + 1 < count
        invariant
            p == views_of(pieces@),
            p == split_on(contents@, '\n'),
            count == pieces@.len(),
            count >= 1,
            i + 1 <= count,
            views_of(lines@) == p.drop_last().subrange(0, i as int).map_values(
                |q: Seq<char>| strip_cr(q),
            ),
        decreases count - i,
    {
        let piece = pieces[i];
        assert(piece@ == p[i as int]);
        let n = piece.unicode_len();
        let line = if n > 0 && piece.get_char(n - 1) == '\r' {
            piece.substring_char(0, n - 1)
        } else {
            piece
        };
        assert(line@ =~= strip_cr(piece@));
        let ghost before = lines@;
        lines.push(line);
        assert(views_of(lines@) =~= views_of(before).push(line@));
        assert(views_of(lines@) =~= p.drop_last().subrange(0, i + 1).map_values(
            |q: Seq<char>| strip_cr(q),
        ));
        i = i + 1;
    }
    assert(p.drop_last().subrange(0, i as int) =~= p.drop_last());
    let last = pieces[count - 1];
    assert(last@ == p.last());
    if last.unicode_len() > 0 {
        let ghost before = lines@;
        lines.push(last);
        assert(views_of(lines@) =~= views_of(before).push(last@));
    }
    lines
}

/// Whether `term` occurs in `line`.
pub fn contains_term(line: &str, term: &str) -> (r: bool)
    ensures
        r == contains_text(line@, term@),
{
    let l = chars_of(line);
    let t = chars_of(term);
    let ln = l.len();
    let tn = t.len();
    if tn > ln {
        return false;
    }
    let mut i: usize = 0;
    while i <= ln - tn
        invariant
            ln == l@.len(),
            tn == t@.len(),
            l@ == line@,
            t@ == term@,
            t@.len() <= l@.len(),
            i <= l@.len() - t@.len() + 1,
            forall|k: int| 0 <= k < i ==> #[trigger] l@.subrange(k, k + t@.len()) != t@,
        decreases l@.len() - t@.len() + 1 - i,
    {
        let mut j: usize = 0;
        while j < tn && l[i + j] == t[j]
            invariant
                ln == l@.len(),
                tn == t@.len(),
                l@ == line@,
                t@ == term@,
                i + t@.len() <= l@.len(),
                j <= t@.len(),
                forall|k: int| 0 <= k < j ==> l@[i + k] == t@[k],
            decreases t@.len() - j,
        {
            j = j + 1;
        }
        if j == tn {
            assert(l@.subrange(i as int, i + t@.len()) =~= t@);
            return true;
        }
        assert(l@.subrange(i as int, i + t@.len())[j as int] != t@[j as int]);
        i = i + 1;
    }
    proof {
        assert forall|k: int| 0 <= k && k + t@.len() <= l@.len() implies #[trigger] l@.subrange(k, k + t@.len()) != t@ by {
            assert(k < i);
        }
    }
    false
}

/// The lines that hold `term`, in their order.
pub fn matching_lines<'a>(lines: &Vec<&'a str>, term: &str) -> (r: Vec<&'a str>)
    ensures
        views_of(r@) == views_of(lines@).filter(|l: Seq<char>| contains_text(l, term@)),
{
    let ghost v = views_of(lines@);
    let mut matching: Vec<&'a str> = Vec::new();
    let mut i: usize = 0;
    while i < lines.len()
        invariant
            v == views_of(lines@),
            i <= lines@.len(),
            views_of(matching@) == v.subrange(0, i as int).filter(|l: Seq<char>| contains_text(l, term@)),
        decreases lines@.len() - i,
    {
        let line = lines[i];
        proof {
            let pre = v.subrange(0, i + 1);
            assert(pre.drop_last() =~= v.subrange(0, i as int));
            assert(pre.last() == line@);
            reveal(Seq::filter);
        }
        if contains_term(line, term) {
            let ghost before = matching@;
            matching.push(line);
            assert(views_of(matching@) =~= views_of(before).push(line@));
        }
        i = i + 1;
    }
    assert(v.subrange(0, i as int) =~= v);
    matching
}

} // verus!
