//! How two models agree on the assertions of a contract.

use vstd::prelude::*;

use crate::features;
use crate::json;
use crate::json::Json;
use crate::outside;
use crate::text;

verus! {

/// A contract tracks no more assertions than this.
pub const MAX_ASSERTIONS: usize = 24;

/// The models look at the assertions this often at most.
pub const MAX_ROUNDS: u32 = 3;

// ---------------------------------------------------------------------------
// Saying the same
// ---------------------------------------------------------------------------

/// Whether a character is punctuation in ASCII.
pub open spec fn is_punctuation(c: char) -> bool {
    ||| '!' <= c <= '/'
    ||| ':' <= c <= '@'
    ||| '[' <= c <= '`'
    ||| '{' <= c <= '~'
}

/// What a text says, read from its start: the letters and numbers in lower
/// case, with one blank for what separates them. The flag says whether a blank
/// would be superfluous.
pub open spec fn essence_scan(s: Seq<char>) -> (Seq<char>, bool)
    decreases s.len(),
{
    if s.len() == 0 {
        (Seq::empty(), true)
    } else {
        let (out, spaced) = essence_scan(s.drop_last());
        let c = s.last();
        if outside::letter_or_number(c) {
            (out + outside::char_lowered(c), false)
        } else if (text::white(c) || is_punctuation(c)) && !spaced {
            (out.push(' '), true)
        } else {
            (out, spaced)
        }
    }
}

/// What a text says, regardless of case, punctuation and blanks.
pub open spec fn essence(s: Seq<char>) -> Seq<char> {
    text::trimmed(essence_scan(s).0)
}

/// What a text says, regardless of case, punctuation and blanks. Symbols beyond
/// ASCII that are neither letters nor numbers are dropped.
pub fn normalize_for_dedup(s: &str) -> (r: String)
    ensures
        r@ == essence(s@),
{
    let v = text::chars(s);
    let mut out: String = String::new();
    let mut spaced = true;
    let mut i: usize = 0;
    assert(v@.take(0) =~= Seq::<char>::empty());
    assert(out@ =~= Seq::<char>::empty());
    while i < v.len()
        invariant
            i <= v.len(),
            v@ == s@,
            (out@, spaced) == essence_scan(v@.take(i as int)),
        decreases v.len() - i,
    {
        assert(v@.take(i + 1).drop_last() =~= v@.take(i as int));
        let c = v[i];
        if outside::is_alphanumeric(c) {
            let l = outside::char_to_lowercase(c);
            out.push_str(&l);
            spaced = false;
        } else if text::is_white(c) || ('!' <= c && c <= '/') || (':' <= c && c <= '@') || ('[' <= c
            && c <= '`') || ('{' <= c && c <= '~') {
            if !spaced {
                out.push(' ');
                spaced = true;
            }
        }
        i = i + 1;
    }
    assert(v@.take(i as int) =~= s@);
    text::trim(&out)
}

/// Whether a text consists of runs of small letters and digits with single
/// blanks between them; a blank may stand at the end.
pub open spec fn is_spaced(s: Seq<char>) -> bool {
    &&& forall|i: int|
        0 <= i < s.len() ==> {
            let c = #[trigger] s[i];
            ('a' <= c && c <= 'z') || text::is_digit(c) || c == ' '
        }
    &&& s.len() > 0 ==> s[0] != ' '
    &&& forall|i: int| 0 < i < s.len() && #[trigger] s[i] == ' ' ==> s[i - 1] != ' '
}

/// Whether a text consists of runs of small letters and digits with single
/// blanks between them and none at either end.
pub open spec fn is_plain(s: Seq<char>) -> bool {
    is_spaced(s) && (s.len() > 0 ==> s.last() != ' ')
}

proof fn lemma_scan_spaced(s: Seq<char>)
    requires
        text::all_ascii(s),
    ensures
        is_spaced(essence_scan(s).0),
        essence_scan(s).1 == (essence_scan(s).0.len() == 0 || essence_scan(s).0.last() == ' '),
    decreases s.len(),
{
    if s.len() > 0 {
        let before = s.drop_last();
        assert forall|i: int| 0 <= i < before.len() implies text::is_ascii(#[trigger] before[i]) by {
            assert(before[i] == s[i]);
        }
        lemma_scan_spaced(before);
        let (out, spaced) = essence_scan(before);
        let next = essence_scan(s).0;
        assert(text::is_ascii(s[s.len() - 1]));
        if outside::letter_or_number(s.last()) {
            let c = text::ascii_lower_char(s.last());
            assert(next =~= out.push(c));
        }
        assert forall|i: int| 0 < i < next.len() && #[trigger] next[i] == ' ' implies next[i - 1]
            != ' ' by {
            if i < out.len() {
                assert(out[i] == next[i]);
                assert(out[i - 1] == next[i - 1]);
            } else {
                assert(out.last() == next[i - 1]);
            }
        }
        assert forall|i: int| 0 <= i < next.len() implies {
            let c = #[trigger] next[i];
            ('a' <= c && c <= 'z') || text::is_digit(c) || c == ' '
        } by {
            if i < out.len() {
                assert(out[i] == next[i]);
            }
        }
        if out.len() > 0 {
            assert(next[0] == out[0]);
        }
    }
}

proof fn lemma_trimmed_spaced(s: Seq<char>)
    requires
        is_spaced(s),
    ensures
        is_plain(text::trimmed(s)),
        is_plain(s) ==> text::trimmed(s) == s,
{
    if s.len() > 0 {
        assert(!text::white(s[0]));
        assert(text::trimmed_start(s) == s);
        let c = s[s.len() - 1];
        assert(text::white(c) == (c == ' '));
        if c == ' ' {
            let t = s.drop_last();
            assert(t.len() > 0);
            let d = t[t.len() - 1];
            assert(d == s[s.len() - 2]);
            assert(!text::white(d));
            assert(text::trimmed_end(t) == t);
            assert(text::trimmed(s) == t);
            assert(is_spaced(t)) by {
                assert forall|i: int| 0 <= i < t.len() implies {
                    let c = #[trigger] t[i];
                    ('a' <= c && c <= 'z') || text::is_digit(c) || c == ' '
                } by {
                    assert(t[i] == s[i]);
                }
                assert forall|i: int| 0 < i < t.len() && #[trigger] t[i] == ' ' implies t[i - 1]
                    != ' ' by {
                    assert(t[i] == s[i] && t[i - 1] == s[i - 1]);
                }
            }
        } else {
            assert(text::trimmed_end(s) == s);
        }
    }
}

proof fn lemma_scan_keeps(s: Seq<char>)
    requires
        is_spaced(s),
    ensures
        essence_scan(s) == (s, s.len() == 0 || s.last() == ' '),
    decreases s.len(),
{
    if s.len() == 0 {
        assert(essence_scan(s).0 =~= s);
    } else {
        let before = s.drop_last();
        assert forall|i: int| 0 <= i < before.len() implies {
            let c = #[trigger] before[i];
            ('a' <= c && c <= 'z') || text::is_digit(c) || c == ' '
        } by {
            assert(before[i] == s[i]);
        }
        assert forall|i: int| 0 < i < before.len() && #[trigger] before[i] == ' ' implies before[i
            - 1] != ' ' by {
            assert(before[i] == s[i] && before[i - 1] == s[i - 1]);
        }
        lemma_scan_keeps(before);
        let c = s[s.len() - 1];
        assert(s.last() == c);
        if c == ' ' {
            assert(before.len() > 0);
            assert(before.last() == s[s.len() - 2]);
            assert(!outside::letter_or_number(c));
            assert(essence_scan(s).0 =~= s);
        } else {
            assert(outside::char_lowered(c) =~= seq![c]);
            assert(essence_scan(s).0 =~= s);
        }
    }
}

proof fn lemma_scan_upper(s: Seq<char>)
    requires
        text::all_ascii(s),
    ensures
        essence_scan(text::ascii_upper(s)) == essence_scan(s),
    decreases s.len(),
{
    if s.len() > 0 {
        let before = s.drop_last();
        let u = text::ascii_upper(s);
        assert forall|i: int| 0 <= i < before.len() implies text::is_ascii(#[trigger] before[i]) by {
            assert(before[i] == s[i]);
        }
        lemma_scan_upper(before);
        assert(u.drop_last() =~= text::ascii_upper(before));
        let c = s[s.len() - 1];
        let d = u[u.len() - 1];
        assert(text::is_ascii(c));
        assert(d == text::ascii_upper_char(c));
        assert(outside::letter_or_number(d) == outside::letter_or_number(c));
        assert(outside::char_lowered(d) =~= outside::char_lowered(c));
        assert(text::white(d) == text::white(c));
        assert(is_punctuation(d) == is_punctuation(c));
    } else {
        assert(text::ascii_upper(s) =~= s);
    }
}

/// What an ASCII text says is written in small letters and digits with single
/// blanks between them. It says the same itself, and the case of the letters
/// makes no difference.
pub proof fn law_essence_is_plain(s: Seq<char>)
    requires
        text::all_ascii(s),
    ensures
        is_plain(essence(s)),
        essence(essence(s)) == essence(s),
        essence(text::ascii_upper(s)) == essence(s),
{
    lemma_scan_spaced(s);
    lemma_trimmed_spaced(essence_scan(s).0);
    lemma_scan_keeps(essence(s));
    lemma_trimmed_spaced(essence(s));
    lemma_scan_upper(s);
}

// ---------------------------------------------------------------------------
// Merging
// ---------------------------------------------------------------------------

/// An identifier with a number behind it.
pub open spec fn suffixed(id: Seq<char>, n: nat) -> Seq<char> {
    id + "_"@ + text::decimal(n)
}

pub open spec fn ids(v: Seq<(Seq<char>, Seq<char>)>) -> Seq<Seq<char>> {
    v.map_values(|p: (Seq<char>, Seq<char>)| p.0)
}

pub open spec fn essences(v: Seq<(Seq<char>, Seq<char>)>) -> Seq<Seq<char>> {
    v.map_values(|p: (Seq<char>, Seq<char>)| essence(p.1))
}

/// Whether `n` is the first number from two on with which `id` is not taken.
pub open spec fn is_first_free(taken: Seq<Seq<char>>, id: Seq<char>, n: nat) -> bool {
    &&& n >= 2
    &&& !taken.contains(suffixed(id, n))
    &&& forall|m: nat| 2 <= m < n ==> taken.contains(#[trigger] suffixed(id, m))
}

/// An identifier that is not taken yet: `id` itself, or `id` with the first
/// number from two on that makes it one.
pub open spec fn fresh_id(taken: Seq<Seq<char>>, id: Seq<char>) -> Seq<char> {
    if taken.contains(id) {
        suffixed(id, choose|n: nat| is_first_free(taken, id, n))
    } else {
        id
    }
}

/// Some assertions with one more: it is left out when one says the same, and
/// gets another identifier when its own is taken.
pub open spec fn with_assertion(
    v: Seq<(Seq<char>, Seq<char>)>,
    a: (Seq<char>, Seq<char>),
) -> Seq<(Seq<char>, Seq<char>)> {
    let key = essence(a.1);
    if key.len() > 0 && essences(v).contains(key) {
        v
    } else {
        v.push((fresh_id(ids(v), a.0), a.1))
    }
}

/// Some assertions, put together one by one.
pub open spec fn gathered(v: Seq<(Seq<char>, Seq<char>)>) -> Seq<(Seq<char>, Seq<char>)>
    decreases v.len(),
{
    if v.len() == 0 {
        Seq::empty()
    } else {
        with_assertion(gathered(v.drop_last()), v.last())
    }
}

/// Two lists of assertions as one.
pub open spec fn merged(
    a: Seq<(Seq<char>, Seq<char>)>,
    b: Seq<(Seq<char>, Seq<char>)>,
) -> Seq<(Seq<char>, Seq<char>)> {
    gathered(a + b)
}

proof fn lemma_suffixed_injective(id: Seq<char>, m: nat, n: nat)
    requires
        suffixed(id, m) == suffixed(id, n),
    ensures
        m == n,
{
    let head = id + "_"@;
    assert(suffixed(id, m).skip(head.len() as int) =~= text::decimal(m));
    assert(suffixed(id, n).skip(head.len() as int) =~= text::decimal(n));
    text::law_decimal(m);
    text::law_decimal(n);
}

/// Among the first numbers, at most as many are taken as there are identifiers.
proof fn lemma_taken_bound(taken: Seq<Seq<char>>, id: Seq<char>, n: nat)
    requires
        n >= 2,
        forall|m: nat| 2 <= m < n ==> taken.contains(#[trigger] suffixed(id, m)),
    ensures
        n - 2 <= taken.len(),
{
    let used = Seq::new((n - 2) as nat, |i: int| suffixed(id, (i + 2) as nat));
    assert(used.no_duplicates()) by {
        assert forall|i: int, j: int| 0 <= i < used.len() && 0 <= j < used.len() && i != j implies
            used[i] != used[j] by {
            if used[i] == used[j] {
                lemma_suffixed_injective(id, (i + 2) as nat, (j + 2) as nat);
            }
        }
    }
    used.unique_seq_to_set();
    assert(used.to_set().subset_of(taken.to_set())) by {
        assert forall|x: Seq<char>| used.to_set().contains(x) implies taken.to_set().contains(
            x,
        ) by {
            let i = choose|i: int| 0 <= i < used.len() && used[i] == x;
            assert(x == suffixed(id, (i + 2) as nat));
            assert(taken.contains(x));
        }
    }
    vstd::seq_lib::seq_to_set_is_finite(taken);
    vstd::set_lib::lemma_len_subset(used.to_set(), taken.to_set());
    taken.lemma_cardinality_of_set();
}

proof fn lemma_first_free_unique(taken: Seq<Seq<char>>, id: Seq<char>, m: nat, n: nat)
    requires
        is_first_free(taken, id, m),
        is_first_free(taken, id, n),
    ensures
        m == n,
{
}

/// A first free number exists.
proof fn lemma_first_free_from(taken: Seq<Seq<char>>, id: Seq<char>, n: nat)
    requires
        n >= 2,
        forall|m: nat| 2 <= m < n ==> taken.contains(#[trigger] suffixed(id, m)),
    ensures
        exists|k: nat| is_first_free(taken, id, k),
    decreases taken.len() + 3 - n,
{
    lemma_taken_bound(taken, id, n);
    if taken.contains(suffixed(id, n)) {
        assert forall|m: nat| 2 <= m < n + 1 implies taken.contains(#[trigger] suffixed(id, m)) by {
            if m == n {
            }
        }
        lemma_taken_bound(taken, id, n + 1);
        lemma_first_free_from(taken, id, n + 1);
    } else {
        assert(is_first_free(taken, id, n));
    }
}

/// An identifier that is not taken yet.
fn free_id(taken: &Vec<String>, id: &str) -> (r: String)
    ensures
        r@ == fresh_id(text::texts(taken@), id@),
{
    let ghost all = text::texts(taken@);
    if !text::is_among(id, taken) {
        return id.to_owned();
    }
    let mut n: u128 = 2;
    let mut candidate = text::cat3(id, "_", &text::wide_number(n));
    while text::is_among(&candidate, taken)
        invariant
            2 <= n,
            all == text::texts(taken@),
            all.len() == taken.len(),
            candidate@ == suffixed(id@, n as nat),
            forall|m: nat| 2 <= m < n ==> all.contains(#[trigger] suffixed(id@, m)),
        ensures
            is_first_free(all, id@, n as nat),
            candidate@ == suffixed(id@, n as nat),
        decreases taken.len() + 3 - n,
    {
        proof {
            assert forall|m: nat| 2 <= m < n + 1 implies all.contains(
                #[trigger] suffixed(id@, m),
            ) by {
                if m == n {
                }
            }
            lemma_taken_bound(all, id@, (n + 1) as nat);
        }
        n = n + 1;
        candidate = text::cat3(id, "_", &text::wide_number(n));
    }
    proof {
        let k = choose|k: nat| is_first_free(all, id@, k);
        lemma_first_free_unique(all, id@, k, n as nat);
    }
    candidate
}

/// What is put together, with what is already known of it.
struct Gathering {
    assertions: Vec<(String, String)>,
    ids: Vec<String>,
    essences: Vec<String>,
}

impl Gathering {
    spec fn wf(self) -> bool {
        &&& text::texts(self.ids@) == ids(text::pairs(self.assertions@))
        &&& text::texts(self.essences@) == essences(text::pairs(self.assertions@))
    }

    fn take_in(&mut self, a: &(String, String))
        requires
            old(self).wf(),
        ensures
            final(self).wf(),
            text::pairs(final(self).assertions@) == with_assertion(
                text::pairs(old(self).assertions@),
                (a.0@, a.1@),
            ),
    {
        let key = normalize_for_dedup(&a.1);
        if !key.as_str().is_empty() && text::is_among(&key, &self.essences) {
            return;
        }
        let id = free_id(&self.ids, &a.0);
        let copy = id.clone();
        let said = a.1.clone();
        let ghost before = text::pairs(self.assertions@);
        proof {
            text::lemma_texts_push(self.ids@, copy);
            text::lemma_texts_push(self.essences@, key);
        }
        self.ids.push(copy);
        self.essences.push(key);
        self.assertions.push((id, said));
        proof {
            let after = text::pairs(self.assertions@);
            assert(after =~= before.push((id@, said@)));
            assert(ids(after) =~= ids(before).push(id@));
            assert(essences(after) =~= essences(before).push(essence(said@)));
        }
    }
}

/// Two lists of assertions as one: what is said twice is kept once, and no two
/// have the same identifier.
pub fn merge_assertions(a: Vec<(String, String)>, b: Vec<(String, String)>) -> (r: Vec<
    (String, String),
>)
    ensures
        text::pairs(r@) == merged(text::pairs(a@), text::pairs(b@)),
{
    let ghost all = text::pairs(a@) + text::pairs(b@);
    let mut g = Gathering { assertions: Vec::new(), ids: Vec::new(), essences: Vec::new() };
    let mut i: usize = 0;
    proof {
        assert(text::texts(g.ids@) =~= ids(text::pairs(g.assertions@)));
        assert(text::texts(g.essences@) =~= essences(text::pairs(g.assertions@)));
        assert(text::pairs(g.assertions@) =~= gathered(all.take(0)));
    }
    while i < a.len()
        invariant
            i <= a.len(),
            g.wf(),
            all == text::pairs(a@) + text::pairs(b@),
            text::pairs(g.assertions@) == gathered(all.take(i as int)),
        decreases a.len() - i,
    {
        assert(all.take(i + 1).drop_last() =~= all.take(i as int));
        assert(all.take(i + 1).last() == (a@[i as int].0@, a@[i as int].1@));
        g.take_in(&a[i]);
        i = i + 1;
    }
    let mut k: usize = 0;
    while k < b.len()
        invariant
            k <= b.len(),
            g.wf(),
            all == text::pairs(a@) + text::pairs(b@),
            text::pairs(g.assertions@) == gathered(all.take(a.len() + k)),
        decreases b.len() - k,
    {
        assert(all.take(a.len() + k + 1).drop_last() =~= all.take(a.len() + k));
        assert(all.take(a.len() + k + 1).last() == (b@[k as int].0@, b@[k as int].1@));
        g.take_in(&b[k]);
        k = k + 1;
    }
    assert(all.take(a.len() + k) =~= all);
    g.assertions
}

/// Whether no identifier occurs twice.
pub open spec fn distinct_ids(v: Seq<(Seq<char>, Seq<char>)>) -> bool {
    forall|i: int, j: int| 0 <= i < j < v.len() ==> (#[trigger] v[i]).0 != (#[trigger] v[j]).0
}

proof fn lemma_fresh(taken: Seq<Seq<char>>, id: Seq<char>)
    ensures
        !taken.contains(fresh_id(taken, id)),
{
    if taken.contains(id) {
        lemma_first_free_from(taken, id, 2);
    }
}

/// Assertions that are put together have distinct identifiers.
pub proof fn law_identifiers_are_distinct(v: Seq<(Seq<char>, Seq<char>)>)
    ensures
        distinct_ids(gathered(v)),
    decreases v.len(),
{
    if v.len() > 0 {
        law_identifiers_are_distinct(v.drop_last());
        let before = gathered(v.drop_last());
        lemma_fresh(ids(before), v.last().0);
        assert forall|i: int| 0 <= i < before.len() implies (#[trigger] before[i]).0 != fresh_id(
            ids(before),
            v.last().0,
        ) by {
            assert(ids(before)[i] == before[i].0);
        }
    }
}

/// Whether no two assertions say the same.
pub open spec fn distinct_essences(v: Seq<(Seq<char>, Seq<char>)>) -> bool {
    forall|i: int, j: int|
        0 <= i < j < v.len() ==> essence((#[trigger] v[j]).1).len() == 0 || essence(
            (#[trigger] v[i]).1,
        ) != essence(v[j].1)
}

/// Assertions that are put together say nothing twice.
pub proof fn law_nothing_is_said_twice(v: Seq<(Seq<char>, Seq<char>)>)
    ensures
        distinct_essences(gathered(v)),
    decreases v.len(),
{
    if v.len() > 0 {
        law_nothing_is_said_twice(v.drop_last());
        let before = gathered(v.drop_last());
        assert forall|i: int| 0 <= i < before.len() && essence((#[trigger] before[i]).1) == essence(
            v.last().1,
        ) implies essences(before).contains(essence(v.last().1)) by {
            assert(essences(before)[i] == essence(before[i].1));
        }
    }
}

/// Whether an assertion that says the same as `s` is among others.
pub open spec fn is_said(v: Seq<(Seq<char>, Seq<char>)>, s: Seq<char>) -> bool {
    exists|i: int| 0 <= i < v.len() && essence((#[trigger] v[i]).1) == essence(s)
}

/// Nothing that was said is lost when assertions are put together.
pub proof fn law_nothing_is_lost(v: Seq<(Seq<char>, Seq<char>)>, k: int)
    requires
        0 <= k < v.len(),
    ensures
        is_said(gathered(v), v[k].1),
    decreases v.len(),
{
    let before = gathered(v.drop_last());
    let after = gathered(v);
    if k < v.len() - 1 {
        law_nothing_is_lost(v.drop_last(), k);
        let i = choose|i: int|
            0 <= i < before.len() && essence((#[trigger] before[i]).1) == essence(v[k].1);
        assert(after[i] == before[i]);
    } else {
        let key = essence(v.last().1);
        if key.len() > 0 && essences(before).contains(key) {
            let i = choose|i: int| 0 <= i < essences(before).len() && essences(before)[i] == key;
            assert(essence(after[i].1) == key);
        } else {
            assert(after[before.len() as int].1 == v.last().1);
        }
    }
}

/// Assertions with distinct identifiers that say different things are put
/// together as they are.
pub proof fn law_merge_of_distinct(v: Seq<(Seq<char>, Seq<char>)>)
    requires
        distinct_ids(v),
        distinct_essences(v),
    ensures
        gathered(v) == v,
    decreases v.len(),
{
    if v.len() > 0 {
        let rest = v.drop_last();
        assert forall|i: int, j: int| 0 <= i < j < rest.len() implies (#[trigger] rest[i]).0
            != (#[trigger] rest[j]).0 by {
            assert(rest[i] == v[i] && rest[j] == v[j]);
        }
        assert forall|i: int, j: int| 0 <= i < j < rest.len() implies essence(
            (#[trigger] rest[j]).1,
        ).len() == 0 || essence((#[trigger] rest[i]).1) != essence(rest[j].1) by {
            assert(rest[i] == v[i] && rest[j] == v[j]);
        }
        law_merge_of_distinct(rest);
        let key = essence(v.last().1);
        if essences(rest).contains(key) && key.len() > 0 {
            let i = choose|i: int| 0 <= i < essences(rest).len() && essences(rest)[i] == key;
            assert(essence(v[i].1) == essence(v[v.len() - 1].1));
        }
        if ids(rest).contains(v.last().0) {
            let i = choose|i: int| 0 <= i < ids(rest).len() && ids(rest)[i] == v.last().0;
            assert(v[i].0 == v[v.len() - 1].0);
        }
        assert(v =~= rest.push(v.last()));
    }
}

// ---------------------------------------------------------------------------
// Reading assertions
// ---------------------------------------------------------------------------

/// The assertion that a value holds, if it holds one.
pub open spec fn assertion_in(j: json::JsonText) -> Option<(Seq<char>, Seq<char>)> {
    match (j.member_text("id"@), j.member_text("text"@)) {
        (Some(id), Some(said)) => if text::trimmed(id).len() == 0 || text::utf8_len(
            text::trimmed(said),
        ) < 5 {
            None
        } else {
            Some((text::trimmed(id), text::trimmed(said)))
        },
        _ => None,
    }
}

pub open spec fn assertions_in(v: Seq<json::JsonText>) -> Seq<(Seq<char>, Seq<char>)>
    decreases v.len(),
{
    if v.len() == 0 {
        Seq::empty()
    } else {
        match assertion_in(v.last()) {
            Some(a) => assertions_in(v.drop_last()).push(a),
            None => assertions_in(v.drop_last()),
        }
    }
}

fn assertion_of(j: &Json) -> (r: Option<(String, String)>)
    ensures
        match r {
            Some(p) => assertion_in(j@) == Some((p.0@, p.1@)),
            None => assertion_in(j@) is None,
        },
{
    match j.get_str("id") {
        Some(id) => match j.get_str("text") {
            Some(said) => {
                let a = text::trim(&id);
                let b = text::trim(&said);
                if a.as_str().is_empty() || text::byte_len(&b) < 5 {
                    None
                } else {
                    Some((a, b))
                }
            },
            None => None,
        },
        None => None,
    }
}

/// The assertions that some values hold; a value that holds none is passed over.
pub fn parse_assertion_array_from_value(v: &Vec<Json>) -> (r: Vec<(String, String)>)
    ensures
        text::pairs(r@) == assertions_in(json::values(v@)),
{
    let ghost all = json::values(v@);
    let mut r: Vec<(String, String)> = Vec::new();
    let mut i: usize = 0;
    assert(text::pairs(r@) =~= assertions_in(all.take(0)));
    while i < v.len()
        invariant
            i <= v.len(),
            all == json::values(v@),
            text::pairs(r@) == assertions_in(all.take(i as int)),
        decreases v.len() - i,
    {
        assert(all.take(i + 1).drop_last() =~= all.take(i as int));
        assert(all.take(i + 1).last() == v@[i as int]@);
        match assertion_of(&v[i]) {
            Some(p) => {
                let ghost before = text::pairs(r@);
                r.push(p);
                assert(text::pairs(r@) =~= before.push((p.0@, p.1@)));
            },
            None => {},
        }
        i = i + 1;
    }
    assert(all.take(i as int) =~= all);
    r
}

/// The assertions in a value, when it is an array that holds any.
pub open spec fn assertion_list(j: Option<json::JsonText>) -> Option<Seq<(Seq<char>, Seq<char>)>> {
    match j {
        Some(j) => match j.items() {
            Some(v) => if assertions_in(v).len() > 0 {
                Some(assertions_in(v))
            } else {
                None
            },
            None => None,
        },
        None => None,
    }
}

pub open spec fn opt_pairs(o: Option<Vec<(String, String)>>) -> Option<
    Seq<(Seq<char>, Seq<char>)>,
> {
    match o {
        Some(v) => Some(text::pairs(v@)),
        None => None,
    }
}

/// The assertions in a value, when it is an array that holds any.
pub fn assertion_list_of(j: &Option<Json>) -> (r: Option<Vec<(String, String)>>)
    ensures
        opt_pairs(r) == assertion_list(json::opt_value(*j)),
{
    match j {
        Some(j) => match j.as_array() {
            Some(v) => {
                let found = parse_assertion_array_from_value(v);
                assert(text::pairs(found@).len() == found@.len());
                if found.len() == 0 {
                    None
                } else {
                    Some(found)
                }
            },
            None => None,
        },
        None => None,
    }
}

/// The assertions that an answer holds, if any.
pub fn parse_assertion_array(raw: &str) -> (r: Option<Vec<(String, String)>>)
    ensures
        opt_pairs(r) == assertion_list(outside::json_value(features::unfenced(raw@))),
{
    let j = features::parse_fenced(raw);
    assertion_list_of(&j)
}

// ---------------------------------------------------------------------------
// Asking
// ---------------------------------------------------------------------------

/// What a model is asked for to get assertions of its own.
pub open spec fn proposal_prompt_text(title: Seq<char>, brief: Seq<char>) -> Seq<char> {
    "You are reviewing a coding task. Generate a list of testable assertions (acceptance criteria) that can be verified by running commands or inspecting files. Each assertion must be specific and concrete.\n\nFor every constraint in the brief, write an assertion that verifies the constraint directly — not a proxy. If the brief constrains the *content* of a modification (what something becomes, what range/set it must come from, what shape it must have), the assertion must check the modification itself, not just the existence or integrity of related files. A file-unchanged or compile-succeeded check does not verify a content constraint.\n\nTitle: "@
        + title + "\nBrief: "@ + brief
        + "\n\nReturn ONLY a JSON array, no markdown or explanation:\n[{\"id\":\"A1\",\"text\":\"<specific verifiable statement>\"},...]"@
}

/// What a model is asked for to get assertions of its own.
pub fn proposal_prompt(title: &str, brief: &str) -> (r: String)
    ensures
        r@ == proposal_prompt_text(title@, brief@),
{
    text::cat5(
        "You are reviewing a coding task. Generate a list of testable assertions (acceptance criteria) that can be verified by running commands or inspecting files. Each assertion must be specific and concrete.\n\nFor every constraint in the brief, write an assertion that verifies the constraint directly — not a proxy. If the brief constrains the *content* of a modification (what something becomes, what range/set it must come from, what shape it must have), the assertion must check the modification itself, not just the existence or integrity of related files. A file-unchanged or compile-succeeded check does not verify a content constraint.\n\nTitle: ",
        title,
        "\nBrief: ",
        brief,
        "\n\nReturn ONLY a JSON array, no markdown or explanation:\n[{\"id\":\"A1\",\"text\":\"<specific verifiable statement>\"},...]",
    )
}

/// Assertions as a JSON array.
pub open spec fn assertions_json(v: Seq<(Seq<char>, Seq<char>)>) -> Seq<char> {
    "["@ + text::join(
        v.map_values(
            |p: (Seq<char>, Seq<char>)|
                "{\"id\":"@ + outside::json_quoted(p.0) + ",\"text\":"@ + outside::json_quoted(p.1)
                    + "}"@,
        ),
        ","@,
    ) + "]"@
}

/// Assertions as a JSON array.
pub fn write_assertions(v: &Vec<(String, String)>) -> (r: String)
    ensures
        r@ == assertions_json(text::pairs(v@)),
{
    let ghost all = text::pairs(v@).map_values(
        |p: (Seq<char>, Seq<char>)|
            "{\"id\":"@ + outside::json_quoted(p.0) + ",\"text\":"@ + outside::json_quoted(p.1)
                + "}"@,
    );
    let mut parts: Vec<String> = Vec::new();
    let mut i: usize = 0;
    assert(text::texts(parts@) =~= all.take(0));
    while i < v.len()
        invariant
            i <= v.len(),
            all == text::pairs(v@).map_values(
                |p: (Seq<char>, Seq<char>)|
                    "{\"id\":"@ + outside::json_quoted(p.0) + ",\"text\":"@ + outside::json_quoted(
                        p.1,
                    ) + "}"@,
            ),
            text::texts(parts@) == all.take(i as int),
        decreases v.len() - i,
    {
        let a = outside::json_quote(&v[i].0);
        let b = outside::json_quote(&v[i].1);
        let part = text::cat5("{\"id\":", &a, ",\"text\":", &b, "}");
        proof {
            assert(text::pairs(v@)[i as int] == (v@[i as int].0@, v@[i as int].1@));
            assert(part@ == all[i as int]);
            text::lemma_texts_push(parts@, part);
            assert(all.take(i + 1) =~= all.take(i as int).push(all[i as int]));
        }
        parts.push(part);
        i = i + 1;
    }
    assert(all.take(i as int) =~= all);
    let body = text::join_with(&parts, ",");
    text::cat3("[", &body, "]")
}

/// What a model is asked for to get its view of assertions.
pub open spec fn review_prompt_text(brief: Seq<char>, list: Seq<char>) -> Seq<char> {
    "Review these contract assertions for a coding task. If they fully and correctly cover what needs to be done, return {\"accept\":true}. If any are missing, wrong, or too broad to verify, return the full revised list as {\"accept\":false,\"revised\":[{\"id\":\"A1\",\"text\":\"...\"},...]}\nBreak broad assertions into specific verifiable ones. Remove duplicates.\n\nFor every constraint in the brief, check that an assertion verifies the constraint directly. A proxy check (file unchanged, compile succeeded, output exists) is not enough when the brief restricts the *content* of a modification — that requires an assertion that examines the modification itself. If a constraint is unverified, add or rewrite an assertion to cover it.\n\nBrief: "@
        + brief + "\n\nAssertions:\n"@ + list + "\n\nReturn ONLY JSON."@
}

/// What a model is asked for to get its view of assertions.
pub fn review_prompt(brief: &str, v: &Vec<(String, String)>) -> (r: String)
    ensures
        r@ == review_prompt_text(brief@, assertions_json(text::pairs(v@))),
{
    let list = write_assertions(v);
    text::cat5(
        "Review these contract assertions for a coding task. If they fully and correctly cover what needs to be done, return {\"accept\":true}. If any are missing, wrong, or too broad to verify, return the full revised list as {\"accept\":false,\"revised\":[{\"id\":\"A1\",\"text\":\"...\"},...]}\nBreak broad assertions into specific verifiable ones. Remove duplicates.\n\nFor every constraint in the brief, check that an assertion verifies the constraint directly. A proxy check (file unchanged, compile succeeded, output exists) is not enough when the brief restricts the *content* of a modification — that requires an assertion that examines the modification itself. If a constraint is unverified, add or rewrite an assertion to cover it.\n\nBrief: ",
        brief,
        "\n\nAssertions:\n",
        &list,
        "\n\nReturn ONLY JSON.",
    )
}

/// What a model makes of the assertions that it was shown.
#[derive(Debug)]
pub enum Review {
    /// It said nothing that can be read.
    Failed,
    /// It accepts them.
    Accept,
    /// It wants these in their place.
    Revise(Vec<(String, String)>),
}

pub ghost enum ReviewText {
    Failed,
    Accept,
    Revise(Seq<(Seq<char>, Seq<char>)>),
}

impl View for Review {
    type V = ReviewText;

    open spec fn view(&self) -> ReviewText {
        match self {
            Review::Failed => ReviewText::Failed,
            Review::Accept => ReviewText::Accept,
            Review::Revise(v) => ReviewText::Revise(text::pairs(v@)),
        }
    }
}

/// What a model makes of assertions: it objects only by a plain no that comes
/// with others.
pub open spec fn review_in(j: Option<json::JsonText>) -> ReviewText {
    match j {
        Some(j) => if j.member_boolean("accept"@) == Some(false) {
            match j.member_items("revised"@) {
                Some(v) => if assertions_in(v).len() > 0 {
                    ReviewText::Revise(assertions_in(v))
                } else {
                    ReviewText::Accept
                },
                None => ReviewText::Accept,
            }
        } else {
            ReviewText::Accept
        },
        None => ReviewText::Failed,
    }
}

/// What a model makes of assertions, by the value that it answered with.
pub fn review_of(j: &Option<Json>) -> (r: Review)
    ensures
        r@ == review_in(json::opt_value(*j)),
{
    match j {
        Some(j) => match j.get_bool("accept") {
            Some(false) => match j.get_array("revised") {
                Some(v) => {
                    let found = parse_assertion_array_from_value(v);
                    assert(text::pairs(found@).len() == found@.len());
                    if found.len() == 0 {
                        Review::Accept
                    } else {
                        Review::Revise(found)
                    }
                },
                None => Review::Accept,
            },
            _ => Review::Accept,
        },
        None => Review::Failed,
    }
}

/// What a model makes of assertions, by its answer, if one came.
pub fn review_assertions(answer: &Option<String>) -> (r: Review)
    ensures
        r@ == match *answer {
            Some(a) => review_in(outside::json_value(features::unfenced(a@))),
            None => ReviewText::Failed,
        },
{
    match answer {
        Some(a) => {
            let j = features::parse_fenced(a);
            review_of(&j)
        },
        None => Review::Failed,
    }
}

// ---------------------------------------------------------------------------
// Agreeing
// ---------------------------------------------------------------------------

/// Where two models stand.
#[derive(Debug)]
pub struct Negotiation {
    /// What the first model proposed by itself.
    pub main: Vec<(String, String)>,
    pub current: Vec<(String, String)>,
    pub round: u32,
}

/// What comes next between two models.
#[derive(Debug)]
pub enum NegotiationStep {
    /// Both are to look at the assertions.
    Review(Negotiation),
    /// These are the assertions; the flag says whether two models had a say.
    Settled(Vec<(String, String)>, bool),
}

fn copy_pairs(v: &Vec<(String, String)>) -> (r: Vec<(String, String)>)
    ensures
        text::pairs(r@) == text::pairs(v@),
{
    let mut r: Vec<(String, String)> = Vec::new();
    let mut i: usize = 0;
    while i < v.len()
        invariant
            i <= v.len(),
            r@.len() == i,
            forall|k: int| 0 <= k < i ==> (#[trigger] r@[k]).0@ == v@[k].0@ && r@[k].1@ == v@[k].1@,
        decreases v.len() - i,
    {
        r.push((v[i].0.clone(), v[i].1.clone()));
        i = i + 1;
    }
    assert(text::pairs(r@) =~= text::pairs(v@));
    r
}

/// The assertions of the first model and what it is to come to: without
/// assertions of a second model, they stand.
pub fn begin(main: Vec<(String, String)>, second: Option<Vec<(String, String)>>) -> (r:
    NegotiationStep)
    ensures
        match second {
            Some(s) => if s@.len() > 0 {
                r matches NegotiationStep::Review(n) && n.round == 0 && text::pairs(n.main@)
                    == text::pairs(main@) && text::pairs(n.current@) == merged(
                    text::pairs(main@),
                    text::pairs(s@),
                )
            } else {
                r matches NegotiationStep::Settled(v, both) && !both && v@ == main@
            },
            None => r matches NegotiationStep::Settled(v, both) && !both && v@ == main@,
        },
{
    match second {
        Some(s) => if s.len() > 0 {
            let own = copy_pairs(&main);
            NegotiationStep::Review(
                Negotiation { main: own, current: merge_assertions(main, s), round: 0 },
            )
        } else {
            NegotiationStep::Settled(main, false)
        },
        None => NegotiationStep::Settled(main, false),
    }
}

/// The assertions after both models have looked at them.
pub open spec fn reconciled(
    current: Seq<(Seq<char>, Seq<char>)>,
    main: ReviewText,
    second: ReviewText,
) -> Seq<(Seq<char>, Seq<char>)> {
    match (main, second) {
        (ReviewText::Revise(a), ReviewText::Revise(b)) => merged(a, b),
        (ReviewText::Revise(a), _) => a,
        (_, ReviewText::Revise(b)) => b,
        _ => current,
    }
}

/// The first assertions, as many as a contract tracks.
pub fn limit_assertions(v: Vec<(String, String)>) -> (r: Vec<(String, String)>)
    ensures
        text::pairs(r@) == text::leading(text::pairs(v@), MAX_ASSERTIONS as int),
{
    let mut r = v;
    let ghost all = text::pairs(r@);
    assert(all.len() == r@.len());
    if r.len() > MAX_ASSERTIONS {
        r.truncate(MAX_ASSERTIONS);
        assert(text::pairs(r@) =~= all.take(MAX_ASSERTIONS as int));
    }
    r
}

/// What comes next when both models have looked at the assertions. Where one
/// of them failed, what the first model proposed by itself stands.
pub fn settle_round(n: Negotiation, main: Review, second: Review) -> (r: NegotiationStep)
    requires
        n.round < MAX_ROUNDS,
    ensures
        ({
            let next = reconciled(text::pairs(n.current@), main@, second@);
            if main is Failed || second is Failed {
                r matches NegotiationStep::Settled(v, both) && !both && v@ == n.main@
            } else if (main is Accept && second is Accept) || n.round + 1 == MAX_ROUNDS {
                r matches NegotiationStep::Settled(v, both) && both && text::pairs(v@)
                    == text::leading(next, MAX_ASSERTIONS as int)
            } else {
                r matches NegotiationStep::Review(m) && m.round == n.round + 1 && m.main@
                    == n.main@ && text::pairs(m.current@) == next
            }
        }),
{
    let round = n.round + 1;
    match (main, second) {
        (Review::Failed, _) => NegotiationStep::Settled(n.main, false),
        (_, Review::Failed) => NegotiationStep::Settled(n.main, false),
        (Review::Accept, Review::Accept) => NegotiationStep::Settled(
            limit_assertions(n.current),
            true,
        ),
        (Review::Revise(a), Review::Revise(b)) => {
            next_round(n.main, merge_assertions(a, b), round)
        },
        (Review::Revise(a), Review::Accept) => next_round(n.main, a, round),
        (Review::Accept, Review::Revise(b)) => next_round(n.main, b, round),
    }
}

fn next_round(
    main: Vec<(String, String)>,
    current: Vec<(String, String)>,
    round: u32,
) -> (r: NegotiationStep)
    ensures
        if round == MAX_ROUNDS {
            r matches NegotiationStep::Settled(v, both) && both && text::pairs(v@)
                == text::leading(text::pairs(current@), MAX_ASSERTIONS as int)
        } else {
            r matches NegotiationStep::Review(m) && m.round == round && m.main@ == main@
                && text::pairs(m.current@) == text::pairs(current@)
        },
{
    if round == MAX_ROUNDS {
        NegotiationStep::Settled(limit_assertions(current), true)
    } else {
        NegotiationStep::Review(Negotiation { main, current, round })
    }
}

/// An assertion is read with its identifier and what it says, without the white
/// space around them; one without an identifier, or that says next to nothing,
/// is passed over.
pub proof fn law_assertions_are_read(
    v: Seq<json::JsonText>,
    j: json::JsonText,
    id: Seq<char>,
    said: Seq<char>,
)
    ensures
        assertions_in(Seq::empty()).len() == 0,
        j.member_text("id"@) == Some(id) && j.member_text("text"@) == Some(said) && text::trimmed(
            id,
        ).len() > 0 && text::utf8_len(text::trimmed(said)) >= 5 ==> assertions_in(v.push(j))
            == assertions_in(v).push((text::trimmed(id), text::trimmed(said))),
        j.member_text("id"@) is None || j.member_text("text"@) is None ==> assertions_in(v.push(j))
            == assertions_in(v),
        j.member_text("id"@) == Some(id) && text::trimmed(id).len() == 0 ==> assertions_in(v.push(j))
            == assertions_in(v),
        j.member_text("text"@) == Some(said) && text::utf8_len(text::trimmed(said)) < 5
            ==> assertions_in(v.push(j)) == assertions_in(v),
{
    assert(v.push(j).drop_last() =~= v);
}

/// Letters and numbers count, in lower case; what separates them counts as one
/// blank.
pub proof fn law_essence_of_one_more(s: Seq<char>, c: char)
    ensures
        essence_scan(Seq::empty()).0.len() == 0,
        outside::letter_or_number(c) ==> essence_scan(s.push(c)).0 == essence_scan(s).0
            + outside::char_lowered(c) && !essence_scan(s.push(c)).1,
        !outside::letter_or_number(c) && (text::white(c) || is_punctuation(c)) && !essence_scan(s).1
            ==> essence_scan(s.push(c)).0 == essence_scan(s).0.push(' ') && essence_scan(
            s.push(c),
        ).1,
        !outside::letter_or_number(c) && essence_scan(s).1 ==> essence_scan(s.push(c))
            == essence_scan(s),
        is_punctuation('.') && is_punctuation('!') && is_punctuation('-') && is_punctuation('_')
            && is_punctuation('`') && is_punctuation('(') && is_punctuation(':') && is_punctuation('~'),
        !is_punctuation('a') && !is_punctuation('Z') && !is_punctuation('0') && !is_punctuation(' '),
{
    assert(s.push(c).drop_last() =~= s);
}

/// A review that accepts, or that revises nothing, accepts; one that revises
/// gives the assertions that it names; without an answer it failed.
pub proof fn law_reviews(j: json::JsonText, v: Seq<json::JsonText>)
    ensures
        review_in(None) is Failed,
        j.member_boolean("accept"@) == Some(true) ==> review_in(Some(j)) is Accept,
        j.member_boolean("accept"@) is None ==> review_in(Some(j)) is Accept,
        j.member_boolean("accept"@) == Some(false) && j.member_items("revised"@) == Some(v)
            && assertions_in(v).len() > 0 ==> review_in(Some(j)) == ReviewText::Revise(
            assertions_in(v),
        ),
        j.member_boolean("accept"@) == Some(false) && j.member_items("revised"@) is None
            ==> review_in(Some(j)) is Accept,
{
}

/// What two models agreed on stands at the end of a round: the list as it is
/// where both accept it, the revision where one revises it, and both together
/// where both do.
pub proof fn law_rounds(
    current: Seq<(Seq<char>, Seq<char>)>,
    a: Seq<(Seq<char>, Seq<char>)>,
    b: Seq<(Seq<char>, Seq<char>)>,
    i: int,
)
    ensures
        reconciled(current, ReviewText::Accept, ReviewText::Accept) == current,
        reconciled(current, ReviewText::Revise(a), ReviewText::Accept) == a,
        reconciled(current, ReviewText::Accept, ReviewText::Revise(b)) == b,
        0 <= i < a.len() ==> is_said(
            reconciled(current, ReviewText::Revise(a), ReviewText::Revise(b)),
            a[i].1,
        ),
        0 <= i < b.len() ==> is_said(
            reconciled(current, ReviewText::Revise(a), ReviewText::Revise(b)),
            b[i].1,
        ),
{
    let all = a + b;
    if 0 <= i < a.len() {
        assert(all[i] == a[i]);
        law_nothing_is_lost(all, i);
    }
    if 0 <= i < b.len() {
        assert(all[a.len() + i] == b[i]);
        law_nothing_is_lost(all, a.len() + i);
    }
}

/// A negotiation needs a second list. It goes on while one of the two revises
/// and rounds are left; where a review fails, the first list stands as it was.
pub proof fn law_negotiation(
    main: Vec<(String, String)>,
    second: Option<Vec<(String, String)>>,
    first: NegotiationStep,
    n: Negotiation,
    x: Review,
    y: Review,
    r: NegotiationStep,
)
    requires
        n.round < MAX_ROUNDS,
        call_ensures(begin, (main, second), first),
        call_ensures(settle_round, (n, x, y), r),
    ensures
        second is None ==> (first matches NegotiationStep::Settled(v, both) && !both && v@ == main@),
        second matches Some(s) ==> (s@.len() > 0 ==> first is Review),
        x is Failed || y is Failed ==> (r matches NegotiationStep::Settled(v, both) && !both && v@
            == n.main@),
        x is Accept && y is Accept && n.current@.len() <= 24 ==> (
        r matches NegotiationStep::Settled(v, both) && both && text::pairs(v@) == text::pairs(
            n.current@,
        )),
        !(x is Failed) && !(y is Failed) && (x is Revise || y is Revise) && n.round + 1 < 3 ==> (
        r matches NegotiationStep::Review(m) && m.round == n.round + 1),
        !(x is Failed) && !(y is Failed) && n.round + 1 == 3 ==> (
        r matches NegotiationStep::Settled(v, both) && both && v@.len() <= 24),
{
    assert(text::pairs(n.current@).len() == n.current@.len());
    match r {
        NegotiationStep::Settled(v, both) => {
            assert(text::pairs(v@).len() == v@.len());
        },
        _ => {},
    }
}

/// An identifier that is free is kept; one that is taken gets a number behind
/// it, and is then free.
pub proof fn law_fresh_identifiers(v: Seq<(Seq<char>, Seq<char>)>, a: (Seq<char>, Seq<char>))
    ensures
        !ids(v).contains(a.0) ==> fresh_id(ids(v), a.0) == a.0,
        essence(a.1).len() > 0 && essences(v).contains(essence(a.1)) ==> with_assertion(v, a) == v,
        !essences(v).contains(essence(a.1)) ==> with_assertion(v, a).len() == v.len() + 1
            && with_assertion(v, a).last().1 == a.1 && with_assertion(v, a).drop_last() == v,
        !essences(v).contains(essence(a.1)) && !ids(v).contains(a.0) ==> with_assertion(v, a)
            == v.push(a),
        suffixed(a.0, 2) == a.0 + "_"@ + text::decimal(2),
{
    if !essences(v).contains(essence(a.1)) {
        assert(with_assertion(v, a).drop_last() =~= v);
    }
}

/// The prompts name the task, and the assertions that are looked at.
pub proof fn law_prompts_name_the_task(title: Seq<char>, brief: Seq<char>, list: Seq<char>)
    ensures
        text::has(proposal_prompt_text(title, brief), title + "\nBrief: "@ + brief),
        text::has(review_prompt_text(brief, list), brief + "\n\nAssertions:\n"@ + list),
{
    let p = proposal_prompt_text(title, brief);
    let x = title + "\nBrief: "@ + brief;
    let a = "You are reviewing a coding task. Generate a list of testable assertions (acceptance criteria) that can be verified by running commands or inspecting files. Each assertion must be specific and concrete.\n\nFor every constraint in the brief, write an assertion that verifies the constraint directly — not a proxy. If the brief constrains the *content* of a modification (what something becomes, what range/set it must come from, what shape it must have), the assertion must check the modification itself, not just the existence or integrity of related files. A file-unchanged or compile-succeeded check does not verify a content constraint.\n\nTitle: "@;
    let b = p.skip((a + x).len() as int);
    assert(p =~= a + x + b);
    text::law_affixes(x, a, b);
    let q = review_prompt_text(brief, list);
    let y = brief + "\n\nAssertions:\n"@ + list;
    let c = q.take(q.len() - y.len() - "\n\nReturn ONLY JSON."@.len());
    assert(q =~= c + y + "\n\nReturn ONLY JSON."@);
    text::law_affixes(y, c, "\n\nReturn ONLY JSON."@);
}

/// Assertions are written with their identifiers and what they say.
pub proof fn law_assertions_are_written(v: Seq<(Seq<char>, Seq<char>)>, i: int)
    requires
        0 <= i < v.len(),
    ensures
        text::has(
            assertions_json(v),
            "{\"id\":"@ + outside::json_quoted(v[i].0) + ",\"text\":"@ + outside::json_quoted(v[i].1)
                + "}"@,
        ),
{
    let parts = v.map_values(
        |p: (Seq<char>, Seq<char>)|
            "{\"id\":"@ + outside::json_quoted(p.0) + ",\"text\":"@ + outside::json_quoted(p.1)
                + "}"@,
    );
    text::lemma_joined_part(parts, ","@, i);
    text::lemma_has_within(assertions_json(v), "["@, text::join(parts, ","@), "]"@, parts[i]);
}

} // verus!
