//! Replacing one stretch of a file by another.

use vstd::prelude::*;

use crate::text;

verus! {

/// How often `p` stands in `s`, taken from the left without overlap. The empty
/// text stands before every character and at the end.
pub open spec fn hits(s: Seq<char>, p: Seq<char>) -> nat {
    if p.len() == 0 {
        s.len() + 1
    } else {
        text::occurrences(s, p)
    }
}

/// `s` with the first occurrence of `p` replaced by `q`.
pub open spec fn first_replaced(s: Seq<char>, p: Seq<char>, q: Seq<char>) -> Seq<char> {
    match text::first_at(s, p, 0) {
        Some(i) => s.take(i) + q + s.skip(i + p.len()),
        None => s,
    }
}

/// How many line feeds `s` holds.
pub open spec fn line_feeds(s: Seq<char>) -> nat
    decreases s.len(),
{
    if s.len() == 0 {
        0
    } else {
        line_feeds(s.drop_last()) + (if s.last() == '\n' {
            1nat
        } else {
            0nat
        })
    }
}

/// How many lines `s` makes when it is split at its line feeds.
pub open spec fn line_count(s: Seq<char>) -> nat {
    line_feeds(s) + 1
}

/// The line on which the first occurrence of `q` in `s` starts.
pub open spec fn line_of(s: Seq<char>, q: Seq<char>) -> nat {
    match text::first_at(s, q, 0) {
        Some(i) => line_count(s.take(i)),
        None => line_count(s),
    }
}

/// Splitting at line feeds gives one piece more than there are line feeds.
pub proof fn law_line_count(s: Seq<char>)
    ensures
        text::split(s, '\n').len() == line_count(s),
    decreases s.len(),
{
    if s.len() > 0 {
        law_line_count(s.drop_last());
    }
}

/// How often `p` stands in `s`.
pub fn count_hits(s: &str, p: &str) -> (n: u128)
    ensures
        n == hits(s@, p@),
{
    if p.is_empty() {
        let v = text::chars(s);
        v.len() as u128 + 1
    } else {
        text::count(s, p) as u128
    }
}

/// `s` with the first occurrence of `p` replaced by `q`.
pub fn replace_first(s: &str, p: &str, q: &str) -> (r: String)
    ensures
        r@ == first_replaced(s@, p@, q@),
{
    let v = text::chars(s);
    let w = text::chars(p);
    proof {
        text::lemma_first_at(s@, p@, 0);
    }
    match text::find_from(&v, &w, 0) {
        Some(i) => {
            assert(text::at(s@, p@, i as int));
            let end: usize = v.len();
            let after: usize = i + w.len();
            let mut r = text::string_of(&v, 0, i);
            assert(r@ =~= s@.take(i as int));
            r.push_str(q);
            let rest = text::string_of(&v, after, end);
            assert(rest@ =~= s@.skip(i + p@.len()));
            r.push_str(&rest);
            r
        },
        None => s.to_owned(),
    }
}

/// How many lines `s` makes when it is split at its line feeds.
pub fn count_lines(s: &str) -> (n: u64)
    ensures
        n == line_count(s@),
{
    let parts = text::split_char(s, '\n');
    proof {
        law_line_count(s@);
        assert(text::texts(parts@).len() == parts@.len());
    }
    parts.len() as u64
}

/// The line on which the first occurrence of `q` in `s` starts.
pub fn find_line(s: &str, q: &str) -> (n: u64)
    ensures
        n == line_of(s@, q@),
{
    let v = text::chars(s);
    let w = text::chars(q);
    proof {
        text::lemma_first_at(s@, q@, 0);
    }
    match text::find_from(&v, &w, 0) {
        Some(i) => {
            assert(text::at(s@, q@, i as int));
            let prefix = text::string_of(&v, 0, i);
            assert(prefix@ =~= s@.take(i as int));
            count_lines(&prefix)
        },
        None => count_lines(s),
    }
}

/// A text that stands in a file once is replaced by the same whether its first
/// occurrence is replaced or all of them are.
pub proof fn law_single_hit(s: Seq<char>, p: Seq<char>, q: Seq<char>)
    requires
        p.len() > 0,
        hits(s, p) == 1,
    ensures
        text::replaced(s, p, q) == first_replaced(s, p, q),
{
    text::lemma_first_at(s, p, 0);
    let i = text::first_at(s, p, 0)->0;
    let rest = s.skip(i + p.len());
    assert(text::occurrences(rest, p) == 0);
    text::lemma_first_at(rest, p, 0);
    assert(text::first_at(rest, p, 0) is None);
    assert(text::replaced(rest, p, q) == rest);
}

/// An edit leaves what stands before and after the replaced text as it was, and
/// puts the new text in between.
pub proof fn law_edit_is_local(s: Seq<char>, p: Seq<char>, q: Seq<char>)
    requires
        text::has(s, p),
    ensures
        ({
            let i = text::first_at(s, p, 0)->0;
            let r = first_replaced(s, p, q);
            &&& 0 <= i <= s.len() - p.len()
            &&& r.take(i) == s.take(i)
            &&& text::at(r, q, i)
            &&& r.skip(i + q.len()) == s.skip(i + p.len())
        }),
{
    text::lemma_has_first(s, p);
    text::lemma_first_at(s, p, 0);
    let i = text::first_at(s, p, 0)->0;
    let r = first_replaced(s, p, q);
    assert(r.take(i) =~= s.take(i));
    assert(r.subrange(i, i + q.len()) =~= q);
    assert(r.skip(i + q.len()) =~= s.skip(i + p.len()));
}

/// The line feeds of two texts in a row.
pub proof fn lemma_line_feeds_add(a: Seq<char>, b: Seq<char>)
    ensures
        line_feeds(a + b) == line_feeds(a) + line_feeds(b),
    decreases b.len(),
{
    if b.len() == 0 {
        assert(a + b =~= a);
    } else {
        assert((a + b).drop_last() =~= a + b.drop_last());
        lemma_line_feeds_add(a, b.drop_last());
    }
}

/// A text has one line more than it has line feeds.
pub proof fn law_lines_are_counted(s: Seq<char>)
    ensures
        line_count(s) == 1 + s.filter(|c: char| c == '\n').len(),
    decreases s.len(),
{
    reveal(Seq::filter);
    if s.len() > 0 {
        law_lines_are_counted(s.drop_last());
    }
}

/// A text that stands in another, with no other one of its kind before it or
/// behind it, is hit once.
pub proof fn law_one_hit(a: Seq<char>, p: Seq<char>, b: Seq<char>)
    requires
        p.len() > 0,
        forall|i: int|
            0 <= i < a.len() && i + p.len() <= (a + p + b).len() ==> #[trigger] (a + p
                + b).subrange(i, i + p.len()) != p,
        forall|i: int|
            0 <= i && i + p.len() <= b.len() ==> #[trigger] b.subrange(i, i + p.len()) != p,
    ensures
        hits(a + p + b, p) == 1,
        text::first_at(a + p + b, p, 0) == Some(a.len() as int),
        forall|q: Seq<char>| #[trigger] first_replaced(a + p + b, p, q) == a + q + b,
{
    let s = a + p + b;
    assert(s.subrange(a.len() as int, (a.len() + p.len()) as int) =~= p);
    assert(text::at(s, p, a.len() as int));
    text::lemma_first_at(s, p, 0);
    let f = text::first_at(s, p, 0)->0;
    if f < a.len() {
        assert(s.subrange(f, f + p.len()) == p);
    }
    assert(f == a.len());
    let rest = s.skip(f + p.len());
    assert(rest =~= b);
    text::lemma_first_at(b, p, 0);
    if text::first_at(b, p, 0) is Some {
        let g = text::first_at(b, p, 0)->0;
        assert(b.subrange(g, g + p.len()) == p);
    }
    assert(text::occurrences(b, p) == 0);
    assert forall|q: Seq<char>| #[trigger] first_replaced(s, p, q) == a + q + b by {
        assert(s.take(f) =~= a);
    }
}

/// A text that stands in another nowhere is not hit, and one that stands in it
/// at two places that do not overlap is hit more than once.
pub proof fn law_hits(a: Seq<char>, p: Seq<char>, b: Seq<char>, c: Seq<char>, s: Seq<char>)
    requires
        p.len() > 0,
    ensures
        hits(a + p + b + p + c, p) > 1,
        hits(s, p) == 0 <==> (forall|i: int|
            0 <= i && i + p.len() <= s.len() ==> #[trigger] s.subrange(i, i + p.len()) != p),
{
    let t = a + p + b + p + c;
    let i = a.len() as int;
    let j = (a.len() + p.len() + b.len()) as int;
    assert(t.subrange(i, i + p.len()) =~= p);
    assert(t.subrange(j, j + p.len()) =~= p);
    assert(text::at(t, p, i) && text::at(t, p, j));
    text::lemma_first_at(t, p, 0);
    let f = text::first_at(t, p, 0)->0;
    assert(f <= i);
    let rest = t.skip(f + p.len());
    let k = j - f - p.len();
    assert(rest.subrange(k, k + p.len()) =~= p);
    assert(text::at(rest, p, k));
    text::lemma_first_at(rest, p, 0);
    assert(text::occurrences(rest, p) >= 1);
    text::lemma_first_at(s, p, 0);
    if text::first_at(s, p, 0) is None {
        assert forall|x: int| 0 <= x && x + p.len() <= s.len() implies #[trigger] s.subrange(
            x,
            x + p.len(),
        ) != p by {
            assert(!text::at(s, p, x));
        }
    } else {
        let x = text::first_at(s, p, 0)->0;
        assert(s.subrange(x, x + p.len()) == p);
    }
}

} // verus!
