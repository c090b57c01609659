//! Contracts: the assertions that define when a task is done.

use vstd::prelude::*;

use crate::text;

verus! {

#[derive(Debug, Clone, Copy, PartialEq, Eq, Structural)]
pub enum AssertionState {
    Pending,
    Passed,
    Failed,
    Skipped,
}

/// A command that was run to check an assertion.
#[derive(Debug)]
pub struct Check {
    pub command: String,
    pub exit_code: i64,
    pub observation: String,
}

#[derive(Debug)]
pub struct Assertion {
    pub id: String,
    pub text: String,
    pub state: AssertionState,
    pub evidence: Option<String>,
    pub last_check: Option<Check>,
}

#[derive(Debug)]
pub struct Contract {
    pub id: String,
    pub title: String,
    pub brief: String,
    /// The contract has not been closed.
    pub active: bool,
    pub assertions: Vec<Assertion>,
}

pub ghost struct CheckText {
    pub command: Seq<char>,
    pub exit_code: i64,
    pub observation: Seq<char>,
}

pub ghost struct AssertionText {
    pub id: Seq<char>,
    pub text: Seq<char>,
    pub state: AssertionState,
    pub evidence: Option<Seq<char>>,
    pub last_check: Option<CheckText>,
}

pub ghost struct ContractText {
    pub id: Seq<char>,
    pub title: Seq<char>,
    pub brief: Seq<char>,
    pub active: bool,
    pub assertions: Seq<AssertionText>,
}

impl View for Check {
    type V = CheckText;

    open spec fn view(&self) -> CheckText {
        CheckText {
            command: self.command@,
            exit_code: self.exit_code,
            observation: self.observation@,
        }
    }
}

impl View for Assertion {
    type V = AssertionText;

    open spec fn view(&self) -> AssertionText {
        AssertionText {
            id: self.id@,
            text: self.text@,
            state: self.state,
            evidence: text::opt_text(self.evidence),
            last_check: match self.last_check {
                Some(c) => Some(c@),
                None => None,
            },
        }
    }
}

pub open spec fn assertion_texts(v: Seq<Assertion>) -> Seq<AssertionText> {
    v.map_values(|a: Assertion| a@)
}

impl View for Contract {
    type V = ContractText;

    open spec fn view(&self) -> ContractText {
        ContractText {
            id: self.id@,
            title: self.title@,
            brief: self.brief@,
            active: self.active,
            assertions: assertion_texts(self.assertions@),
        }
    }
}

/// How many assertions are in a state.
pub open spec fn count_in(v: Seq<AssertionText>, s: AssertionState) -> nat
    decreases v.len(),
{
    if v.len() == 0 {
        0
    } else {
        count_in(v.drop_last(), s) + (if v.last().state == s {
            1nat
        } else {
            0nat
        })
    }
}

/// How a contract's assertions are spread over their states.
#[derive(Debug, Clone, Copy, PartialEq, Eq, Structural)]
pub struct Counts {
    pub total: usize,
    pub passed: usize,
    pub failed: usize,
    pub pending: usize,
    pub skipped: usize,
}

pub open spec fn counts_are(n: Counts, v: Seq<AssertionText>) -> bool {
    &&& n.total == v.len()
    &&& n.passed == count_in(v, AssertionState::Passed)
    &&& n.failed == count_in(v, AssertionState::Failed)
    &&& n.pending == count_in(v, AssertionState::Pending)
    &&& n.skipped == count_in(v, AssertionState::Skipped)
}

/// Every assertion is in exactly one state.
pub proof fn law_counts_add_up(v: Seq<AssertionText>)
    ensures
        count_in(v, AssertionState::Passed) + count_in(v, AssertionState::Failed) + count_in(
            v,
            AssertionState::Pending,
        ) + count_in(v, AssertionState::Skipped) == v.len(),
    decreases v.len(),
{
    if v.len() > 0 {
        law_counts_add_up(v.drop_last());
    }
}

impl Contract {
    /// How the assertions are spread over their states.
    pub fn counts(&self) -> (n: Counts)
        ensures
            counts_are(n, self@.assertions),
    {
        let ghost all = self@.assertions;
        let mut n = Counts { total: 0, passed: 0, failed: 0, pending: 0, skipped: 0 };
        let mut i: usize = 0;
        assert(all.take(0) =~= Seq::<AssertionText>::empty());
        while i < self.assertions.len()
            invariant
                i <= self.assertions.len(),
                all == assertion_texts(self.assertions@),
                counts_are(n, all.take(i as int)),
                n.passed <= i,
                n.failed <= i,
                n.pending <= i,
                n.skipped <= i,
            decreases self.assertions.len() - i,
        {
            assert(all.take(i + 1).drop_last() =~= all.take(i as int));
            assert(all.take(i + 1).last() == self.assertions@[i as int]@);
            n.total = n.total + 1;
            match self.assertions[i].state {
                AssertionState::Pending => {
                    n.pending = n.pending + 1;
                },
                AssertionState::Passed => {
                    n.passed = n.passed + 1;
                },
                AssertionState::Failed => {
                    n.failed = n.failed + 1;
                },
                AssertionState::Skipped => {
                    n.skipped = n.skipped + 1;
                },
            }
            i = i + 1;
        }
        assert(all.take(i as int) =~= all);
        n
    }
}

// ---------------------------------------------------------------------------
// The demand to finish
// ---------------------------------------------------------------------------

pub open spec fn all_passed(v: Seq<AssertionText>) -> bool {
    &&& count_in(v, AssertionState::Pending) == 0
    &&& count_in(v, AssertionState::Failed) == 0
    &&& count_in(v, AssertionState::Passed) == v.len()
}

/// Something is left to verify.
pub open spec fn is_unverified(v: Seq<AssertionText>) -> bool {
    count_in(v, AssertionState::Pending) > 0 || count_in(v, AssertionState::Failed) > 0
}

/// The turn may not end yet: something is left to verify, or everything passed
/// and the contract is still to be closed.
pub open spec fn needs_work(c: ContractText) -> bool {
    is_unverified(c.assertions) || (all_passed(c.assertions) && c.active)
}

/// What is known of a failed assertion.
pub open spec fn failure_block(a: AssertionText) -> Seq<char> {
    let head = "  `"@ + a.id + "` — "@ + a.text;
    let with_evidence = match a.evidence {
        Some(e) => head + "\n    last evidence: "@ + e,
        None => head,
    };
    match a.last_check {
        Some(k) => with_evidence + "\n    last command:  "@ + k.command + "\n    exit_code:     "@
            + text::decimal_int(k.exit_code as int) + "\n    observation:   "@ + k.observation,
        None => with_evidence,
    }
}

/// The blocks of the failed assertions, in order.
pub open spec fn failure_blocks(v: Seq<AssertionText>) -> Seq<Seq<char>>
    decreases v.len(),
{
    if v.len() == 0 {
        Seq::empty()
    } else {
        let before = failure_blocks(v.drop_last());
        if v.last().state == AssertionState::Failed {
            before.push(failure_block(v.last()))
        } else {
            before
        }
    }
}

/// The ids of the assertions in a state, in order.
pub open spec fn ids_in(v: Seq<AssertionText>, s: AssertionState) -> Seq<Seq<char>>
    decreases v.len(),
{
    if v.len() == 0 {
        Seq::empty()
    } else {
        let before = ids_in(v.drop_last(), s);
        if v.last().state == s {
            before.push(v.last().id)
        } else {
            before
        }
    }
}

pub const OPEN_HEAD: &'static str =
    "[SYSTEM] The turn cannot end yet — the contract is not closed.\n\n";

pub const CLOSE_NOW: &'static str =
    "Every assertion is `passed`. \
     Call `close_contract` `completed` RIGHT NOW to finish the task. \
     Do not run any more commands or write any more text — \
     just call `close_contract` `completed`.";

pub const FAILED_HEAD: &'static str =
    "FAILED assertion(s) — diagnose each failure below and fix it \
     before the contract can close:\n\n";

pub const FAILED_TAIL: &'static str =
    "\n\n\
     For each: re-examine what you produced, understand exactly why \
     the check failed (look at the observation above), make the \
     necessary edits or re-runs, then call `mark_assertion` again \
     with state=passed. Do NOT call `close_contract` until every \
     assertion is `passed`.\n\n";

pub const PENDING_MIDDLE: &'static str =
    " pending assertion(s). Verify ONE now — start with \
     `";

pub const PENDING_TAIL: &'static str =
    "`. Run a check command, call `mark_assertion` with the id, \
     state (passed/failed), the command you ran, exit_code, and \
     actual observation. If it PASSES: stop, the next turn handles \
     the rest. If it FAILS: keep working right now — fix the issue \
     and re-mark before stopping.\n\n";

pub const PENDING_END: &'static str =
    "Once every assertion is `passed`, call `close_contract` `completed`. \
     Keep working until they all pass.";

/// What the model is told when it tries to end the turn with an open contract.
/// Failed assertions come before unverified ones.
pub open spec fn open_contract_text(c: ContractText) -> Seq<char> {
    let pending = ids_in(c.assertions, AssertionState::Pending);
    let failed = failure_blocks(c.assertions);
    OPEN_HEAD@ + (if all_passed(c.assertions) && c.active {
        CLOSE_NOW@
    } else if failed.len() > 0 {
        FAILED_HEAD@ + text::join(failed, "\n\n"@) + FAILED_TAIL@
    } else if pending.len() > 0 {
        "You have "@ + text::decimal(pending.len()) + PENDING_MIDDLE@ + pending[0] + PENDING_TAIL@
            + PENDING_END@
    } else {
        ""@
    })
}

proof fn lemma_ids_len(v: Seq<AssertionText>, s: AssertionState)
    ensures
        ids_in(v, s).len() == count_in(v, s),
    decreases v.len(),
{
    if v.len() > 0 {
        lemma_ids_len(v.drop_last(), s);
    }
}

proof fn lemma_blocks_len(v: Seq<AssertionText>)
    ensures
        failure_blocks(v).len() == count_in(v, AssertionState::Failed),
    decreases v.len(),
{
    if v.len() > 0 {
        lemma_blocks_len(v.drop_last());
    }
}

fn block_of(a: &Assertion) -> (r: String)
    ensures
        r@ == failure_block(a@),
{
    let mut s: String = "  `".to_owned();
    s.push_str(&a.id);
    s.push_str("` — ");
    s.push_str(&a.text);
    match &a.evidence {
        Some(e) => {
            s.push_str("\n    last evidence: ");
            s.push_str(e);
        },
        None => {},
    }
    match &a.last_check {
        Some(k) => {
            s.push_str("\n    last command:  ");
            s.push_str(&k.command);
            s.push_str("\n    exit_code:     ");
            s.push_str(&text::signed_number(k.exit_code));
            s.push_str("\n    observation:   ");
            s.push_str(&k.observation);
        },
        None => {},
    }
    s
}

impl Contract {
    fn failed_blocks(&self) -> (r: Vec<String>)
        ensures
            text::texts(r@) == failure_blocks(self@.assertions),
    {
        let ghost all = self@.assertions;
        let mut r: Vec<String> = Vec::new();
        let mut i: usize = 0;
        assert(text::texts(r@) =~= failure_blocks(all.take(0)));
        while i < self.assertions.len()
            invariant
                i <= self.assertions.len(),
                all == assertion_texts(self.assertions@),
                text::texts(r@) == failure_blocks(all.take(i as int)),
            decreases self.assertions.len() - i,
        {
            assert(all.take(i + 1).drop_last() =~= all.take(i as int));
            assert(all.take(i + 1).last() == self.assertions@[i as int]@);
            if self.assertions[i].state == AssertionState::Failed {
                let b = block_of(&self.assertions[i]);
                proof {
                    text::lemma_texts_push(r@, b);
                }
                r.push(b);
            }
            i = i + 1;
        }
        assert(all.take(i as int) =~= all);
        r
    }

    /// The ids of the assertions in a state, in order.
    pub fn ids(&self, s: AssertionState) -> (r: Vec<String>)
        ensures
            text::texts(r@) == ids_in(self@.assertions, s),
    {
        let ghost all = self@.assertions;
        let mut r: Vec<String> = Vec::new();
        let mut i: usize = 0;
        assert(text::texts(r@) =~= ids_in(all.take(0), s));
        while i < self.assertions.len()
            invariant
                i <= self.assertions.len(),
                all == assertion_texts(self.assertions@),
                text::texts(r@) == ids_in(all.take(i as int), s),
            decreases self.assertions.len() - i,
        {
            assert(all.take(i + 1).drop_last() =~= all.take(i as int));
            assert(all.take(i + 1).last() == self.assertions@[i as int]@);
            if self.assertions[i].state == s {
                let b = self.assertions[i].id.clone();
                proof {
                    text::lemma_texts_push(r@, b);
                }
                r.push(b);
            }
            i = i + 1;
        }
        assert(all.take(i as int) =~= all);
        r
    }

    /// Whether the turn may not end yet.
    pub fn needs_more_work(&self) -> (r: bool)
        ensures
            r == needs_work(self@),
    {
        let n = self.counts();
        let done = n.pending == 0 && n.failed == 0 && n.passed == n.total;
        n.pending > 0 || n.failed > 0 || (done && self.active)
    }

    /// Whether the contract may be closed as completed.
    pub fn may_close(&self) -> (r: bool)
        ensures
            r == all_passed(self@.assertions),
    {
        let n = self.counts();
        n.pending == 0 && n.failed == 0 && n.passed == n.total
    }

    /// Whether something is left to verify.
    pub fn has_unverified(&self) -> (r: bool)
        ensures
            r == is_unverified(self@.assertions),
    {
        let n = self.counts();
        n.pending > 0 || n.failed > 0
    }

    /// What the model is told when it tries to end the turn too early.
    pub fn demand(&self) -> (r: String)
        ensures
            r@ == open_contract_text(self@),
    {
        let n = self.counts();
        let done = n.pending == 0 && n.failed == 0 && n.passed == n.total;
        let mut s: String = OPEN_HEAD.to_owned();
        proof {
            lemma_ids_len(self@.assertions, AssertionState::Pending);
            lemma_blocks_len(self@.assertions);
        }
        if done && self.active {
            s.push_str(CLOSE_NOW);
            return s;
        }
        let failed = self.failed_blocks();
        assert(text::texts(failed@).len() == failed@.len());
        if failed.len() > 0 {
            let mut part: String = FAILED_HEAD.to_owned();
            part.push_str(&text::join_with(&failed, "\n\n"));
            part.push_str(FAILED_TAIL);
            s.push_str(&part);
            return s;
        }
        let pending = self.ids(AssertionState::Pending);
        assert(text::texts(pending@).len() == pending@.len());
        if pending.len() > 0 {
            let mut part: String = "You have ".to_owned();
            part.push_str(&text::number(pending.len() as u64));
            part.push_str(PENDING_MIDDLE);
            part.push_str(&pending[0]);
            part.push_str(PENDING_TAIL);
            part.push_str(PENDING_END);
            s.push_str(&part);
            return s;
        }
        s.push_str("");
        s
    }
}

proof fn lemma_count(v: Seq<AssertionText>, s: AssertionState)
    ensures
        count_in(v, s) <= v.len(),
        count_in(v, s) == v.len() <==> forall|i: int| 0 <= i < v.len() ==> v[i].state == s,
        count_in(v, s) == 0 <==> forall|i: int| 0 <= i < v.len() ==> v[i].state != s,
    decreases v.len(),
{
    if v.len() > 0 {
        let rest = v.drop_last();
        lemma_count(rest, s);
        assert(forall|i: int| 0 <= i < rest.len() ==> rest[i] == v[i]);
        assert(v.last() == v[v.len() - 1]);
    }
}

/// A contract may be closed exactly when each of its assertions has passed:
/// not while one is pending, failed or skipped.
pub proof fn law_closing_needs_every_assertion(v: Seq<AssertionText>)
    ensures
        all_passed(v) <==> forall|i: int|
            0 <= i < v.len() ==> v[i].state == AssertionState::Passed,
{
    lemma_count(v, AssertionState::Passed);
    lemma_count(v, AssertionState::Pending);
    lemma_count(v, AssertionState::Failed);
}

/// The assertions in a state are counted one by one.
pub proof fn law_counting(v: Seq<AssertionText>, s: AssertionState)
    ensures
        count_in(v, s) == v.filter(|a: AssertionText| a.state == s).len(),
        ids_in(v, s) == v.filter(|a: AssertionText| a.state == s).map_values(
            |a: AssertionText| a.id,
        ),
        count_in(v, s) == 0 <==> (forall|i: int| 0 <= i < v.len() ==> (#[trigger] v[i]).state != s),
        count_in(v, s) == v.len() <==> (forall|i: int|
            0 <= i < v.len() ==> (#[trigger] v[i]).state == s),
        count_in(v, s) <= v.len(),
    decreases v.len(),
{
    reveal(Seq::filter);
    let f = |a: AssertionText| a.id;
    let p = |a: AssertionText| a.state == s;
    if v.len() > 0 {
        let d = v.drop_last();
        law_counting(d, s);
        assert(forall|i: int| 0 <= i < d.len() ==> d[i] == v[i]);
        if v.last().state == s {
            assert(v.filter(p) =~= d.filter(p).push(v.last()));
            assert(v.filter(p).map_values(f) =~= d.filter(p).map_values(f).push(v.last().id));
        } else {
            assert(v.filter(p) =~= d.filter(p));
        }
        assert(v[v.len() - 1] == v.last());
        assert(count_in(v, s) == 0 ==> forall|i: int|
            0 <= i < v.len() ==> (#[trigger] v[i]).state != s) by {
            if count_in(v, s) == 0 {
                assert forall|i: int| 0 <= i < v.len() implies (#[trigger] v[i]).state != s by {
                    if i < d.len() {
                        assert(d[i].state != s);
                    }
                }
            }
        }
        assert((forall|i: int| 0 <= i < v.len() ==> (#[trigger] v[i]).state != s) ==> count_in(v, s)
            == 0) by {
            if forall|i: int| 0 <= i < v.len() ==> (#[trigger] v[i]).state != s {
                assert forall|i: int| 0 <= i < d.len() implies (#[trigger] d[i]).state != s by {
                    assert(v[i].state != s);
                }
            }
        }
        assert(count_in(v, s) == v.len() ==> forall|i: int|
            0 <= i < v.len() ==> (#[trigger] v[i]).state == s) by {
            if count_in(v, s) == v.len() {
                assert forall|i: int| 0 <= i < v.len() implies (#[trigger] v[i]).state == s by {
                    if i < d.len() {
                        assert(d[i].state == s);
                    }
                }
            }
        }
        assert((forall|i: int| 0 <= i < v.len() ==> (#[trigger] v[i]).state == s) ==> count_in(v, s)
            == v.len()) by {
            if forall|i: int| 0 <= i < v.len() ==> (#[trigger] v[i]).state == s {
                assert forall|i: int| 0 <= i < d.len() implies (#[trigger] d[i]).state == s by {
                    assert(v[i].state == s);
                }
            }
        }
    } else {
        assert(v.filter(p) =~= Seq::<AssertionText>::empty());
        assert(v.filter(p).map_values(f) =~= Seq::<Seq<char>>::empty());
    }
}

/// A contract needs work as long as an assertion is pending or failed, and then
/// as long as it is open although each one passed.
pub proof fn law_when_work_is_left(c: ContractText)
    ensures
        needs_work(c) <==> ((exists|i: int|
            0 <= i < c.assertions.len() && ((#[trigger] c.assertions[i]).state
                == AssertionState::Pending || c.assertions[i].state == AssertionState::Failed)) || (
        c.active && forall|i: int|
            0 <= i < c.assertions.len() ==> (#[trigger] c.assertions[i]).state
                == AssertionState::Passed)),
{
    let v = c.assertions;
    law_counting(v, AssertionState::Pending);
    law_counting(v, AssertionState::Failed);
    law_counting(v, AssertionState::Passed);
    if all_passed(v) {
        assert forall|i: int| 0 <= i < v.len() implies (#[trigger] v[i]).state
            == AssertionState::Passed by {}
    }
}

proof fn lemma_failure_block_of(v: Seq<AssertionText>, i: int) -> (k: int)
    requires
        0 <= i < v.len(),
        v[i].state == AssertionState::Failed,
    ensures
        0 <= k < failure_blocks(v).len(),
        failure_blocks(v)[k] == failure_block(v[i]),
    decreases v.len(),
{
    if i == v.len() - 1 {
        (failure_blocks(v).len() - 1) as int
    } else {
        assert(v.drop_last()[i] == v[i]);
        lemma_failure_block_of(v.drop_last(), i)
    }
}

/// What the model is told of an open contract names every failed assertion with
/// what it says and the evidence that was kept of it; when none failed, the
/// first one that is still to be verified, by its id.
pub proof fn law_open_work_is_named(c: ContractText, i: int)
    requires
        0 <= i < c.assertions.len(),
    ensures
        c.assertions[i].state == AssertionState::Failed ==> text::has(
            open_contract_text(c),
            c.assertions[i].id,
        ) && text::has(open_contract_text(c), c.assertions[i].text) && (
        c.assertions[i].evidence matches Some(e) ==> text::has(open_contract_text(c), e)),
        c.assertions[i].state == AssertionState::Pending && (forall|k: int|
            0 <= k < c.assertions.len() ==> (#[trigger] c.assertions[k]).state
                != AssertionState::Failed && (k < i ==> c.assertions[k].state
                != AssertionState::Pending)) ==> text::has(
            open_contract_text(c),
            c.assertions[i].id,
        ),
{
    let v = c.assertions;
    let s = open_contract_text(c);
    law_counting(v, AssertionState::Pending);
    law_counting(v, AssertionState::Failed);
    law_counting(v, AssertionState::Passed);
    if v[i].state == AssertionState::Failed {
        assert(!all_passed(v));
        let k = lemma_failure_block_of(v, i);
        let blocks = failure_blocks(v);
        text::lemma_joined_part(blocks, "\n\n"@, k);
        let t = text::join(blocks, "\n\n"@);
        let b = failure_block(v[i]);
        let a = OPEN_HEAD@ + FAILED_HEAD@;
        assert(s =~= a + t + FAILED_TAIL@);
        text::lemma_has_within(s, a, t, FAILED_TAIL@, b);
        let m = choose|m: int| text::at(s, b, m);
        let pre = s.take(m);
        let post = s.skip(m + b.len());
        assert(s =~= pre + b + post) by {
            assert(s.subrange(m, m + b.len()) == b);
        }
        let q = "  `"@;
        let dash = "` — "@;
        assert(b.subrange(q.len() as int, (q.len() + v[i].id.len()) as int) =~= v[i].id);
        assert(text::at(b, v[i].id, q.len() as int));
        let o = (q.len() + v[i].id.len() + dash.len()) as int;
        assert(b.subrange(o, o + v[i].text.len()) =~= v[i].text);
        assert(text::at(b, v[i].text, o));
        text::lemma_has_within(s, pre, b, post, v[i].id);
        text::lemma_has_within(s, pre, b, post, v[i].text);
        if let Some(e) = v[i].evidence {
            let w = o + v[i].text.len() + "\n    last evidence: "@.len();
            assert(b.subrange(w, w + e.len()) =~= e);
            assert(text::at(b, e, w));
            text::lemma_has_within(s, pre, b, post, e);
        }
    } else if v[i].state == AssertionState::Pending && (forall|k: int|
        0 <= k < v.len() ==> (#[trigger] v[k]).state != AssertionState::Failed && (k < i
            ==> v[k].state != AssertionState::Pending)) {
        lemma_no_failures(v);
        lemma_first_pending(v, i);
        let pending = ids_in(v, AssertionState::Pending);
        let a = OPEN_HEAD@ + ("You have "@ + text::decimal(pending.len()) + PENDING_MIDDLE@);
        assert(s.subrange(a.len() as int, (a.len() + v[i].id.len()) as int) =~= v[i].id);
        assert(text::at(s, v[i].id, a.len() as int));
    }
}

proof fn lemma_no_failures(v: Seq<AssertionText>)
    requires
        forall|k: int| 0 <= k < v.len() ==> (#[trigger] v[k]).state != AssertionState::Failed,
    ensures
        failure_blocks(v).len() == 0,
    decreases v.len(),
{
    if v.len() > 0 {
        let d = v.drop_last();
        assert forall|k: int| 0 <= k < d.len() implies (#[trigger] d[k]).state
            != AssertionState::Failed by {
            assert(d[k] == v[k]);
        }
        lemma_no_failures(d);
        assert(v[v.len() - 1].state != AssertionState::Failed);
    }
}

proof fn lemma_first_pending(v: Seq<AssertionText>, i: int)
    requires
        0 <= i < v.len(),
        v[i].state == AssertionState::Pending,
        forall|k: int| 0 <= k < i ==> (#[trigger] v[k]).state != AssertionState::Pending,
    ensures
        ids_in(v, AssertionState::Pending).len() > 0,
        ids_in(v, AssertionState::Pending)[0] == v[i].id,
    decreases v.len(),
{
    let d = v.drop_last();
    if i < d.len() {
        assert(d[i] == v[i]);
        assert forall|k: int| 0 <= k < i implies (#[trigger] d[k]).state != AssertionState::Pending by {
            assert(d[k] == v[k]);
        }
        lemma_first_pending(d, i);
    } else {
        law_counting(d, AssertionState::Pending);
        assert forall|k: int| 0 <= k < d.len() implies (#[trigger] d[k]).state
            != AssertionState::Pending by {
            assert(d[k] == v[k]);
        }
        assert(d.filter(|a: AssertionText| a.state == AssertionState::Pending).len() == 0);
        assert(ids_in(d, AssertionState::Pending).len() == 0);
    }
}

/// Work is left while an assertion is pending or failed.
pub proof fn law_unverified(v: Seq<AssertionText>, i: int)
    ensures
        0 <= i < v.len() && (v[i].state == AssertionState::Pending || v[i].state
            == AssertionState::Failed) ==> is_unverified(v),
        (forall|k: int|
            0 <= k < v.len() ==> (#[trigger] v[k]).state == AssertionState::Passed || v[k].state
                == AssertionState::Skipped) ==> !is_unverified(v),
    decreases v.len(),
{
    if v.len() > 0 {
        let d = v.drop_last();
        law_unverified(d, i);
        assert(forall|k: int| 0 <= k < d.len() ==> d[k] == v[k]);
        assert(v[v.len() - 1] == v.last());
    }
}

/// What failed is told with its identifier, what it says, the evidence and the
/// last command.
pub proof fn law_failures_are_told(a: AssertionText, e: Seq<char>, v: Seq<AssertionText>)
    ensures
        text::starts(failure_block(a), "  `"@ + a.id + "` — "@ + a.text),
        a.evidence == Some(e) ==> text::has(failure_block(a), "\n    last evidence: "@ + e),
        a.last_check matches Some(k) ==> text::ends(
            failure_block(a),
            "\n    last command:  "@ + k.command + "\n    exit_code:     "@ + text::decimal_int(
                k.exit_code as int,
            ) + "\n    observation:   "@ + k.observation,
        ),
        a.state == AssertionState::Failed ==> failure_blocks(v.push(a)) == failure_blocks(v).push(
            failure_block(a),
        ),
        a.state != AssertionState::Failed ==> failure_blocks(v.push(a)) == failure_blocks(v),
{
    assert(v.push(a).drop_last() =~= v);
    let head = "  `"@ + a.id + "` — "@ + a.text;
    let b = failure_block(a);
    let ev = match a.evidence {
        Some(x) => "\n    last evidence: "@ + x,
        None => Seq::empty(),
    };
    let ck = match a.last_check {
        Some(k) => "\n    last command:  "@ + k.command + "\n    exit_code:     "@
            + text::decimal_int(k.exit_code as int) + "\n    observation:   "@ + k.observation,
        None => Seq::empty(),
    };
    assert(b =~= head + (ev + ck));
    text::law_affixes(head, ev + ck, Seq::empty());
    assert(b =~= head + ev + ck);
    text::law_affixes(ev, head, ck);
    text::law_affixes(ck, head + ev, Seq::empty());
}

} // verus!
