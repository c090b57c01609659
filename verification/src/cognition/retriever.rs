//! Which snippets fit into a prompt.

use vstd::prelude::*;

verus! {

/// A snippet that may go into a prompt. A greater rank is better.
#[derive(Debug)]
pub struct Candidate {
    pub key: String,
    pub text: String,
    pub rank: i64,
    pub tokens: usize,
}

/// Some candidates, best first, with one more behind all that are as good.
pub open spec fn placed(v: Seq<Candidate>, c: Candidate) -> Seq<Candidate>
    decreases v.len(),
{
    if v.len() == 0 {
        seq![c]
    } else if v.last().rank < c.rank {
        placed(v.drop_last(), c).push(v.last())
    } else {
        v.push(c)
    }
}

/// Some candidates, best first; those that are as good as each other keep
/// their order.
pub open spec fn ranked(v: Seq<Candidate>) -> Seq<Candidate>
    decreases v.len(),
{
    if v.len() == 0 {
        Seq::empty()
    } else {
        placed(ranked(v.drop_last()), v.last())
    }
}

/// How many tokens some candidates take.
pub open spec fn total(v: Seq<Candidate>) -> nat
    decreases v.len(),
{
    if v.len() == 0 {
        0
    } else {
        total(v.drop_last()) + v.last().tokens as nat
    }
}

/// The candidates that fit, taken one by one; one that does not fit is passed
/// over.
pub open spec fn picked(v: Seq<Candidate>, max: nat) -> Seq<Candidate>
    decreases v.len(),
{
    if v.len() == 0 {
        Seq::empty()
    } else {
        let before = picked(v.drop_last(), max);
        if total(before) + v.last().tokens > max {
            before
        } else {
            before.push(v.last())
        }
    }
}

proof fn lemma_placed_push(v: Seq<Candidate>, w: Seq<Candidate>, c: Candidate)
    requires
        forall|i: int| 0 <= i < w.len() ==> (#[trigger] w[i]).rank < c.rank,
    ensures
        placed(v + w, c) == placed(v, c) + w,
    decreases w.len(),
{
    if w.len() > 0 {
        let rest = w.drop_last();
        assert((v + w).drop_last() =~= v + rest);
        assert((v + w).last() == w.last());
        assert(w[w.len() - 1].rank < c.rank);
        lemma_placed_push(v, rest, c);
        assert(placed(v, c) + w =~= (placed(v, c) + rest).push(w.last()));
    } else {
        assert(v + w =~= v);
        assert(placed(v, c) + w =~= placed(v, c));
    }
}

fn place(v: &mut Vec<Candidate>, c: Candidate)
    ensures
        final(v)@ == placed(old(v)@, c),
{
    let ghost start = v@;
    let mut i: usize = v.len();
    while i > 0 && v[i - 1].rank < c.rank
        invariant
            i <= v.len(),
            v@ == start,
            forall|k: int| i <= k < v@.len() ==> (#[trigger] v@[k]).rank < c.rank,
        decreases i,
    {
        i = i - 1;
    }
    proof {
        let a = start.take(i as int);
        let b = start.skip(i as int);
        assert(start =~= a + b);
        lemma_placed_push(a, b, c);
        assert(placed(a, c) == a.push(c)) by {
            if a.len() > 0 {
                assert(a.last() == start[i - 1]);
            } else {
                assert(a.push(c) =~= seq![c]);
            }
        }
        assert(start.insert(i as int, c) =~= a.push(c) + b);
    }
    v.insert(i, c);
}

/// The same candidates, the last one first.
fn turned(v: Vec<Candidate>) -> (r: Vec<Candidate>)
    ensures
        r@ == v@.reverse(),
{
    let ghost all = v@;
    let mut rest = v;
    let mut r: Vec<Candidate> = Vec::new();
    assert(r@ =~= all.skip(all.len() as int).reverse());
    assert(rest@ =~= all.take(all.len() as int));
    while rest.len() > 0
        invariant
            rest@ == all.take(rest@.len() as int),
            rest@.len() <= all.len(),
            r@ == all.skip(rest@.len() as int).reverse(),
        decreases rest.len(),
    {
        let ghost n = rest@.len() as int;
        match rest.pop() {
            Some(c) => {
                r.push(c);
                proof {
                    assert(rest@ =~= all.take(n - 1));
                    assert(all.skip(n - 1).reverse() =~= all.skip(n).reverse().push(all[n - 1]));
                }
            },
            None => {},
        }
    }
    assert(all.skip(0) =~= all);
    r
}

fn rank_all(candidates: Vec<Candidate>) -> (r: Vec<Candidate>)
    ensures
        r@ == ranked(candidates@),
{
    let ghost all = candidates@;
    let mut todo = turned(candidates);
    let mut r: Vec<Candidate> = Vec::new();
    assert(all.skip(0) =~= all);
    assert(all.take(0) =~= Seq::<Candidate>::empty());
    let ghost mut done: int = 0;
    while todo.len() > 0
        invariant
            0 <= done <= all.len(),
            todo@ == all.skip(done).reverse(),
            r@ == ranked(all.take(done)),
        decreases todo.len(),
    {
        match todo.pop() {
            Some(c) => {
                proof {
                    assert(all.skip(done).reverse().last() == all[done]);
                    assert(todo@ =~= all.skip(done + 1).reverse());
                    assert(all.take(done + 1).drop_last() =~= all.take(done));
                    done = done + 1;
                }
                place(&mut r, c);
            },
            None => {},
        }
    }
    assert(all.take(done) =~= all);
    r
}

/// The best candidates that fit into so many tokens together, best first.
pub fn pick_within_budget(candidates: Vec<Candidate>, max_tokens: usize) -> (r: Vec<Candidate>)
    ensures
        r@ == picked(ranked(candidates@), max_tokens as nat),
{
    let ranked_all = rank_all(candidates);
    let ghost all = ranked_all@;
    let mut todo = turned(ranked_all);
    let mut r: Vec<Candidate> = Vec::new();
    let mut used: usize = 0;
    let ghost mut done: int = 0;
    assert(all.skip(0) =~= all);
    assert(all.take(0) =~= Seq::<Candidate>::empty());
    while todo.len() > 0
        invariant
            0 <= done <= all.len(),
            todo@ == all.skip(done).reverse(),
            used <= max_tokens,
            used == total(r@),
            r@ == picked(all.take(done), max_tokens as nat),
        decreases todo.len(),
    {
        match todo.pop() {
            Some(c) => {
                proof {
                    assert(all.skip(done).reverse().last() == all[done]);
                    assert(todo@ =~= all.skip(done + 1).reverse());
                    assert(all.take(done + 1).drop_last() =~= all.take(done));
                    done = done + 1;
                }
                if c.tokens <= max_tokens - used {
                    used = used + c.tokens;
                    let ghost before = r@;
                    r.push(c);
                    assert(r@.drop_last() =~= before);
                }
            },
            None => {},
        }
    }
    assert(all.take(done) =~= all);
    r
}

/// What is picked never takes more tokens than there are.
pub proof fn law_pick_is_bounded(v: Seq<Candidate>, max: nat)
    ensures
        total(picked(v, max)) <= max,
    decreases v.len(),
{
    if v.len() > 0 {
        law_pick_is_bounded(v.drop_last(), max);
        let before = picked(v.drop_last(), max);
        assert(before.push(v.last()).drop_last() =~= before);
    }
}

/// Whether no candidate stands behind a worse one.
pub open spec fn best_first(v: Seq<Candidate>) -> bool {
    forall|i: int, j: int|
        0 <= i < j < v.len() ==> (#[trigger] v[i]).rank >= (#[trigger] v[j]).rank
}

proof fn lemma_placed_is_ordered(v: Seq<Candidate>, c: Candidate)
    requires
        best_first(v),
    ensures
        best_first(placed(v, c)),
        placed(v, c).to_multiset() == v.to_multiset().insert(c),
        forall|i: int|
            0 <= i < placed(v, c).len() ==> (#[trigger] placed(v, c)[i]).rank >= c.rank || (
            v.len() > 0 && placed(v, c)[i].rank >= v.last().rank),
    decreases v.len(),
{
    broadcast use vstd::seq_lib::group_to_multiset_ensures;

    if v.len() == 0 {
        assert(seq![c] =~= v.push(c));
    } else if v.last().rank < c.rank {
        let rest = v.drop_last();
        lemma_placed_is_ordered(rest, c);
        let p = placed(rest, c);
        assert forall|i: int| 0 <= i < p.len() implies (#[trigger] p[i]).rank >= v.last().rank by {
            if rest.len() > 0 {
                assert(rest.last() == v[v.len() - 2]);
                assert(v[v.len() - 2].rank >= v[v.len() - 1].rank);
            }
        }
        assert(v =~= rest.push(v.last()));
        assert(p.push(v.last()).to_multiset() =~= v.to_multiset().insert(c));
    } else {
        assert forall|i: int| 0 <= i < v.len() implies (#[trigger] v[i]).rank >= c.rank by {
            if i < v.len() - 1 {
                assert(v[i].rank >= v[v.len() - 1].rank);
            }
        }
    }
}

/// Ranking puts no candidate behind a worse one, and loses and adds none.
pub proof fn law_ranking(v: Seq<Candidate>)
    ensures
        best_first(ranked(v)),
        ranked(v).to_multiset() == v.to_multiset(),
    decreases v.len(),
{
    broadcast use vstd::seq_lib::group_to_multiset_ensures;

    if v.len() > 0 {
        law_ranking(v.drop_last());
        lemma_placed_is_ordered(ranked(v.drop_last()), v.last());
        assert(v =~= v.drop_last().push(v.last()));
    }
}

/// Candidates that stand best first already keep their order.
pub proof fn law_ranking_keeps_order(v: Seq<Candidate>)
    requires
        best_first(v),
    ensures
        ranked(v) == v,
    decreases v.len(),
{
    if v.len() > 0 {
        let d = v.drop_last();
        assert(forall|i: int| 0 <= i < d.len() ==> d[i] == v[i]);
        law_ranking_keeps_order(d);
        if d.len() > 0 {
            assert(d.last() == v[v.len() - 2]);
            assert(v[v.len() - 2].rank >= v[v.len() - 1].rank);
        } else {
            assert(seq![v.last()] =~= v);
        }
        assert(d.push(v.last()) =~= v);
    }
}

/// Where all candidates fit together, all are picked; a candidate is passed over
/// only where it does not fit behind those that were picked before it.
pub proof fn law_pick_takes_what_fits(v: Seq<Candidate>, max: nat, c: Candidate)
    ensures
        total(v) <= max ==> picked(v, max) == v,
        total(picked(v, max)) + c.tokens <= max ==> picked(v.push(c), max) == picked(v, max).push(c),
        total(picked(v, max)) + c.tokens > max ==> picked(v.push(c), max) == picked(v, max),
    decreases v.len(),
{
    assert(v.push(c).drop_last() =~= v);
    if v.len() > 0 {
        law_pick_takes_what_fits(v.drop_last(), max, c);
        assert(v.drop_last().push(v.last()) =~= v);
    } else {
        assert(picked(v, max) =~= v);
    }
}

} // verus!
