//! The tools that make, work and close a contract.

use vstd::prelude::*;

use crate::agent::contract::{AssertionState, Contract, Counts};
use crate::agent::contract;
use crate::features::negotiation;
use crate::features::second_opinion::PassedAssertion;
use crate::json;
use crate::json::Json;
use crate::outside;
use crate::text;

verus! {

// ---------------------------------------------------------------------------
// Proposing a contract
// ---------------------------------------------------------------------------

/// A part of the work on a contract, and the assertions that it fulfills.
#[derive(Debug)]
pub struct Feature {
    pub id: String,
    pub description: String,
    pub fulfills: Vec<String>,
}

pub ghost struct FeatureText {
    pub id: Seq<char>,
    pub description: Seq<char>,
    pub fulfills: Seq<Seq<char>>,
}

impl View for Feature {
    type V = FeatureText;

    open spec fn view(&self) -> FeatureText {
        FeatureText {
            id: self.id@,
            description: self.description@,
            fulfills: text::texts(self.fulfills@),
        }
    }
}

pub open spec fn feature_texts(v: Seq<Feature>) -> Seq<FeatureText> {
    v.map_values(|f: Feature| f@)
}

/// A contract as it is proposed.
#[derive(Debug)]
pub struct Proposal {
    pub title: String,
    pub brief: String,
    pub assertions: Vec<(String, String)>,
    pub features: Vec<Feature>,
}

pub ghost struct ProposalText {
    pub title: Seq<char>,
    pub brief: Seq<char>,
    pub assertions: Seq<(Seq<char>, Seq<char>)>,
    pub features: Seq<FeatureText>,
}

impl View for Proposal {
    type V = ProposalText;

    open spec fn view(&self) -> ProposalText {
        ProposalText {
            title: self.title@,
            brief: self.brief@,
            assertions: text::pairs(self.assertions@),
            features: feature_texts(self.features@),
        }
    }
}

/// The title of a proposal, or what is wrong with it.
pub open spec fn title_in(args: json::JsonText) -> Result<Seq<char>, Seq<char>> {
    match args.member_text("title"@) {
        Some(t) => if text::trimmed(t).len() > 0 && text::utf8_len(t) <= 200 {
            Ok(t)
        } else {
            Err("title must be 1-200 chars"@)
        },
        None => Err("missing `title`"@),
    }
}

/// The brief of a proposal, or what is wrong with it.
pub open spec fn brief_in(args: json::JsonText) -> Result<Seq<char>, Seq<char>> {
    match args.member_text("brief"@) {
        Some(b) => if text::utf8_len(text::trimmed(b)) >= 20 {
            Ok(b)
        } else {
            Err(
                "`brief` must be at least 20 characters — describe what you'll do and what done looks like"@,
            )
        },
        None => Err("missing `brief`"@),
    }
}

/// The assertion at position `i` of a proposal, or what is wrong with it; the
/// identifiers before it are taken.
pub open spec fn assertion_at(
    a: json::JsonText,
    i: nat,
    taken: Seq<Seq<char>>,
) -> Result<(Seq<char>, Seq<char>), Seq<char>> {
    match a.member_text("id"@) {
        Some(id) => if text::trimmed(id).len() == 0 {
            Err("assertions["@ + text::decimal(i) + "]: missing or empty `id`"@)
        } else if taken.contains(text::trimmed(id)) {
            Err("duplicate assertion id `"@ + text::trimmed(id) + "`"@)
        } else {
            match a.member_text("text"@) {
                Some(s) => if text::utf8_len(text::trimmed(s)) >= 5 && text::utf8_len(s) <= 200 {
                    Ok((text::trimmed(id), text::trimmed(s)))
                } else {
                    Err(
                        "assertions["@ + text::decimal(i)
                            + "].text must be 5-200 chars; keep it to one testable statement"@,
                    )
                },
                None => Err("assertions["@ + text::decimal(i) + "]: missing `text`"@),
            }
        },
        None => Err("assertions["@ + text::decimal(i) + "]: missing or empty `id`"@),
    }
}

/// The assertions of a proposal, or what is wrong with the first bad one.
pub open spec fn assertions_read(v: Seq<json::JsonText>) -> Result<
    Seq<(Seq<char>, Seq<char>)>,
    Seq<char>,
>
    decreases v.len(),
{
    if v.len() == 0 {
        Ok(Seq::empty())
    } else {
        match assertions_read(v.drop_last()) {
            Err(e) => Err(e),
            Ok(before) => match assertion_at(
                v.last(),
                (v.len() - 1) as nat,
                negotiation::ids(before),
            ) {
                Ok(a) => Ok(before.push(a)),
                Err(e) => Err(e),
            },
        }
    }
}

/// The assertions of a proposal, or what is wrong with them.
pub open spec fn assertions_of_args(args: json::JsonText) -> Result<
    Seq<(Seq<char>, Seq<char>)>,
    Seq<char>,
> {
    match args.member_items("assertions"@) {
        None => Err("missing `assertions` array (need at least one)"@),
        Some(v) => if v.len() == 0 {
            Err("`assertions` must contain at least one item"@)
        } else if v.len() > negotiation::MAX_ASSERTIONS {
            Err(
                "more than 24 assertions — too many to track. Group related ones or split the contract."@,
            )
        } else {
            assertions_read(v)
        },
    }
}

/// The part of the work that a value describes, if it describes one.
pub open spec fn feature_in(f: json::JsonText) -> Option<FeatureText> {
    match (f.member_text("id"@), f.member_text("description"@)) {
        (Some(id), Some(description)) => Some(
            FeatureText {
                id,
                description,
                fulfills: match f.member_items("fulfills"@) {
                    Some(v) => json::strings_in(v),
                    None => Seq::empty(),
                },
            },
        ),
        _ => None,
    }
}

pub open spec fn features_read(v: Seq<json::JsonText>) -> Seq<FeatureText>
    decreases v.len(),
{
    if v.len() == 0 {
        Seq::empty()
    } else {
        match feature_in(v.last()) {
            Some(f) => features_read(v.drop_last()).push(f),
            None => features_read(v.drop_last()),
        }
    }
}

/// A proposal, or what is wrong with it.
pub open spec fn proposal_in(args: json::JsonText) -> Result<ProposalText, Seq<char>> {
    match title_in(args) {
        Err(e) => Err(e),
        Ok(title) => match brief_in(args) {
            Err(e) => Err(e),
            Ok(brief) => match assertions_of_args(args) {
                Err(e) => Err(e),
                Ok(assertions) => Ok(
                    ProposalText {
                        title,
                        brief,
                        assertions,
                        features: match args.member_items("features"@) {
                            Some(v) => features_read(v),
                            None => Seq::empty(),
                        },
                    },
                ),
            },
        },
    }
}

fn read_title(args: &Json) -> (r: Result<String, String>)
    ensures
        match title_in(args@) {
            Ok(t) => r matches Ok(s) && s@ == t,
            Err(e) => r matches Err(s) && s@ == e,
        },
{
    match args.get_str("title") {
        Some(t) => {
            let bare = text::trim(&t);
            if !bare.as_str().is_empty() && text::byte_len(&t) <= 200 {
                Ok(t)
            } else {
                Err("title must be 1-200 chars".to_owned())
            }
        },
        None => Err("missing `title`".to_owned()),
    }
}

fn read_brief(args: &Json) -> (r: Result<String, String>)
    ensures
        match brief_in(args@) {
            Ok(t) => r matches Ok(s) && s@ == t,
            Err(e) => r matches Err(s) && s@ == e,
        },
{
    match args.get_str("brief") {
        Some(b) => {
            let bare = text::trim(&b);
            if text::byte_len(&bare) >= 20 {
                Ok(b)
            } else {
                Err(
                    "`brief` must be at least 20 characters — describe what you'll do and what done looks like".to_owned(),
                )
            }
        },
        None => Err("missing `brief`".to_owned()),
    }
}

fn read_assertion(a: &Json, i: usize, taken: &Vec<String>) -> (r: Result<(String, String), String>)
    ensures
        match assertion_at(a@, i as nat, text::texts(taken@)) {
            Ok(p) => r matches Ok(q) && (q.0@, q.1@) == p,
            Err(e) => r matches Err(s) && s@ == e,
        },
{
    let n = text::number(i as u64);
    let id = match a.get_str("id") {
        Some(s) => text::trim(&s),
        None => {
            return Err(text::cat3("assertions[", &n, "]: missing or empty `id`"));
        },
    };
    if id.as_str().is_empty() {
        return Err(text::cat3("assertions[", &n, "]: missing or empty `id`"));
    }
    if text::is_among(&id, taken) {
        return Err(text::cat3("duplicate assertion id `", &id, "`"));
    }
    match a.get_str("text") {
        Some(s) => {
            let bare = text::trim(&s);
            if text::byte_len(&bare) >= 5 && text::byte_len(&s) <= 200 {
                Ok((id, bare))
            } else {
                Err(
                    text::cat3(
                        "assertions[",
                        &n,
                        "].text must be 5-200 chars; keep it to one testable statement",
                    ),
                )
            }
        },
        None => Err(text::cat3("assertions[", &n, "]: missing `text`")),
    }
}

proof fn lemma_bad_start(v: Seq<json::JsonText>, i: int)
    requires
        0 <= i <= v.len(),
        assertions_read(v.take(i)) is Err,
    ensures
        assertions_read(v) == assertions_read(v.take(i)),
    decreases v.len() - i,
{
    if i < v.len() {
        assert(v.take(i + 1).drop_last() =~= v.take(i));
        lemma_bad_start(v, i + 1);
    } else {
        assert(v.take(i) =~= v);
    }
}

fn read_assertions(v: &Vec<Json>) -> (r: Result<Vec<(String, String)>, String>)
    ensures
        match assertions_read(json::values(v@)) {
            Ok(t) => r matches Ok(s) && text::pairs(s@) == t,
            Err(e) => r matches Err(s) && s@ == e,
        },
{
    let ghost all = json::values(v@);
    let mut out: Vec<(String, String)> = Vec::new();
    let mut ids: Vec<String> = Vec::new();
    let mut i: usize = 0;
    proof {
        assert(text::pairs(out@) =~= Seq::<(Seq<char>, Seq<char>)>::empty());
        assert(text::texts(ids@) =~= negotiation::ids(text::pairs(out@)));
        assert(all.take(0) =~= Seq::<json::JsonText>::empty());
    }
    while i < v.len()
        invariant
            i <= v.len(),
            all == json::values(v@),
            assertions_read(all.take(i as int)) == Ok::<_, Seq<char>>(text::pairs(out@)),
            text::texts(ids@) == negotiation::ids(text::pairs(out@)),
        decreases v.len() - i,
    {
        proof {
            assert(all.take(i + 1).drop_last() =~= all.take(i as int));
            assert(all.take(i + 1).last() == v@[i as int]@);
        }
        match read_assertion(&v[i], i, &ids) {
            Ok(p) => {
                let id = p.0.clone();
                let ghost before = text::pairs(out@);
                proof {
                    text::lemma_texts_push(ids@, id);
                }
                ids.push(id);
                out.push(p);
                proof {
                    assert(text::pairs(out@) =~= before.push((p.0@, p.1@)));
                    assert(negotiation::ids(text::pairs(out@)) =~= negotiation::ids(before).push(
                        p.0@,
                    ));
                }
            },
            Err(e) => {
                proof {
                    lemma_bad_start(all, i + 1);
                }
                return Err(e);
            },
        }
        i = i + 1;
    }
    assert(all.take(i as int) =~= all);
    Ok(out)
}

fn read_feature(f: &Json) -> (r: Option<Feature>)
    ensures
        match feature_in(f@) {
            Some(t) => r matches Some(x) && x@ == t,
            None => r is None,
        },
{
    match f.get_str("id") {
        Some(id) => match f.get_str("description") {
            Some(description) => {
                let fulfills: Vec<String> = match f.get_array("fulfills") {
                    Some(v) => json::strings_of(v),
                    None => {
                        let none: Vec<String> = Vec::new();
                        assert(text::texts(none@) =~= Seq::<Seq<char>>::empty());
                        none
                    },
                };
                Some(Feature { id, description, fulfills })
            },
            None => None,
        },
        None => None,
    }
}

fn read_features(v: &Vec<Json>) -> (r: Vec<Feature>)
    ensures
        feature_texts(r@) == features_read(json::values(v@)),
{
    let ghost all = json::values(v@);
    let mut r: Vec<Feature> = Vec::new();
    let mut i: usize = 0;
    assert(feature_texts(r@) =~= features_read(all.take(0)));
    while i < v.len()
        invariant
            i <= v.len(),
            all == json::values(v@),
            feature_texts(r@) == features_read(all.take(i as int)),
        decreases v.len() - i,
    {
        assert(all.take(i + 1).drop_last() =~= all.take(i as int));
        assert(all.take(i + 1).last() == v@[i as int]@);
        match read_feature(&v[i]) {
            Some(f) => {
                let ghost before = feature_texts(r@);
                r.push(f);
                assert(feature_texts(r@) =~= before.push(f@));
            },
            None => {},
        }
        i = i + 1;
    }
    assert(all.take(i as int) =~= all);
    r
}

/// A proposal, or what is wrong with it. The first thing that is wrong is named.
pub fn read_proposal(args: &Json) -> (r: Result<Proposal, String>)
    ensures
        match proposal_in(args@) {
            Ok(p) => r matches Ok(x) && x@ == p,
            Err(e) => r matches Err(s) && s@ == e,
        },
{
    let title = match read_title(args) {
        Ok(t) => t,
        Err(e) => {
            return Err(e);
        },
    };
    let brief = match read_brief(args) {
        Ok(t) => t,
        Err(e) => {
            return Err(e);
        },
    };
    let assertions = match args.get_array("assertions") {
        None => {
            return Err("missing `assertions` array (need at least one)".to_owned());
        },
        Some(v) => {
            assert(json::values(v@).len() == v@.len());
            if v.len() == 0 {
                return Err("`assertions` must contain at least one item".to_owned());
            }
            if v.len() > negotiation::MAX_ASSERTIONS {
                return Err(
                    "more than 24 assertions — too many to track. Group related ones or split the contract.".to_owned(),
                );
            }
            match read_assertions(v) {
                Ok(a) => a,
                Err(e) => {
                    return Err(e);
                },
            }
        },
    };
    let features: Vec<Feature> = match args.get_array("features") {
        Some(v) => read_features(v),
        None => {
            let none: Vec<Feature> = Vec::new();
            assert(feature_texts(none@) =~= Seq::<FeatureText>::empty());
            none
        },
    };
    Ok(Proposal { title, brief, assertions, features })
}

/// A proposal that is taken has between one and twenty-four assertions with
/// distinct identifiers that are not empty.
pub proof fn law_proposal_is_sound(args: json::JsonText)
    ensures
        proposal_in(args) matches Ok(p) ==> 1 <= p.assertions.len() <= negotiation::MAX_ASSERTIONS
            && negotiation::distinct_ids(p.assertions) && (forall|i: int|
            0 <= i < p.assertions.len() ==> (#[trigger] p.assertions[i]).0.len() > 0),
{
    match args.member_items("assertions"@) {
        Some(v) => {
            lemma_read_is_sound(v);
        },
        None => {},
    }
}

proof fn lemma_read_is_sound(v: Seq<json::JsonText>)
    ensures
        assertions_read(v) matches Ok(p) ==> p.len() == v.len() && negotiation::distinct_ids(p) && (
        forall|i: int| 0 <= i < p.len() ==> (#[trigger] p[i]).0.len() > 0),
    decreases v.len(),
{
    if v.len() > 0 {
        lemma_read_is_sound(v.drop_last());
        match assertions_read(v.drop_last()) {
            Ok(before) => {
                let taken = negotiation::ids(before);
                match assertion_at(v.last(), (v.len() - 1) as nat, taken) {
                    Ok(a) => {
                        assert forall|i: int| 0 <= i < before.len() implies (#[trigger] before[i]).0
                            != a.0 by {
                            assert(taken[i] == before[i].0);
                        }
                    },
                    Err(_) => {},
                }
            },
            Err(_) => {},
        }
    }
}

/// The answer when a contract was made.
pub open spec fn proposed_text(id: Seq<char>, n: nat, negotiated: bool) -> Seq<char> {
    "Contract `"@ + id + "` created with "@ + text::decimal(n) + " assertions."@ + (if negotiated {
        " Assertions were negotiated between main and second-opinion models."@
    } else {
        ""@
    })
        + " Work the assertions, marking each with mark_assertion as you go. Call close_contract(\"completed\") when every assertion is non-pending."@
}

/// What came of a proposal.
#[derive(Debug)]
pub struct Proposed {
    pub result: String,
    pub contract_id: String,
    pub title: String,
    pub assertion_ids: Vec<String>,
    pub negotiated: bool,
}

pub open spec fn word_values(v: Seq<Seq<char>>) -> Seq<json::JsonText> {
    v.map_values(|s: Seq<char>| json::JsonText::Text(s))
}

impl Proposed {
    /// As a value.
    pub fn to_value(&self) -> (r: Json)
        ensures
            r@ == json::JsonText::Table(
                seq![
                    (
                        "assertion_ids"@,
                        json::JsonText::List(word_values(text::texts(self.assertion_ids@))),
                    ),
                    ("contract_id"@, json::JsonText::Text(self.contract_id@)),
                    ("negotiated"@, json::JsonText::Bool(self.negotiated)),
                    ("result"@, json::JsonText::Text(self.result@)),
                    ("title"@, json::JsonText::Text(self.title@)),
                ],
            ),
    {
        let ghost wanted = word_values(text::texts(self.assertion_ids@));
        let mut ids: Vec<Json> = Vec::new();
        let mut i: usize = 0;
        while i < self.assertion_ids.len()
            invariant
                i <= self.assertion_ids.len(),
                ids.len() == i,
                wanted == word_values(text::texts(self.assertion_ids@)),
                forall|k: int| 0 <= k < i ==> (#[trigger] ids@[k])@ == wanted[k],
            decreases self.assertion_ids.len() - i,
        {
            assert(text::texts(self.assertion_ids@)[i as int] == self.assertion_ids@[i as int]@);
            let w = json::word(&self.assertion_ids[i]);
            assert(w@ == wanted[i as int]);
            ids.push(w);
            i = i + 1;
        }
        assert(json::values(ids@) =~= wanted);
        let v = vec![
            ("assertion_ids".to_owned(), json::list(ids)),
            ("contract_id".to_owned(), json::word(&self.contract_id)),
            ("negotiated".to_owned(), Json::Bool(self.negotiated)),
            ("result".to_owned(), json::word(&self.result)),
            ("title".to_owned(), json::word(&self.title)),
        ];
        let r = json::table(v);
        assert(r@->Table_0 =~= seq![
            ("assertion_ids"@, json::JsonText::List(wanted)),
            ("contract_id"@, json::JsonText::Text(self.contract_id@)),
            ("negotiated"@, json::JsonText::Bool(self.negotiated)),
            ("result"@, json::JsonText::Text(self.result@)),
            ("title"@, json::JsonText::Text(self.title@)),
        ]);
        r
    }
}

/// The answer when a contract was made.
pub fn proposed(c: &Contract, negotiated: bool) -> (r: Proposed)
    ensures
        r.result@ == proposed_text(c@.id, c@.assertions.len(), negotiated),
        r.contract_id@ == c@.id,
        r.title@ == c@.title,
        text::texts(r.assertion_ids@) == c@.assertions.map_values(
            |a: contract::AssertionText| a.id,
        ),
        r.negotiated == negotiated,
{
    let ghost wanted = c@.assertions.map_values(|a: contract::AssertionText| a.id);
    assert(c@.assertions.len() == c.assertions.len());
    let n = text::number(c.assertions.len() as u64);
    let note = if negotiated {
        " Assertions were negotiated between main and second-opinion models."
    } else {
        ""
    };
    let result = text::cat6(
        "Contract `",
        &c.id,
        "` created with ",
        &n,
        " assertions.",
        note,
    );
    let result = text::cat2(
        &result,
        " Work the assertions, marking each with mark_assertion as you go. Call close_contract(\"completed\") when every assertion is non-pending.",
    );
    let mut ids: Vec<String> = Vec::new();
    let mut i: usize = 0;
    assert(text::texts(ids@) =~= wanted.take(0));
    while i < c.assertions.len()
        invariant
            i <= c.assertions.len(),
            wanted == c@.assertions.map_values(|a: contract::AssertionText| a.id),
            text::texts(ids@) == wanted.take(i as int),
        decreases c.assertions.len() - i,
    {
        let id = c.assertions[i].id.clone();
        proof {
            text::lemma_texts_push(ids@, id);
            assert(c@.assertions[i as int] == c.assertions@[i as int]@);
            assert(wanted.take(i + 1) =~= wanted.take(i as int).push(id@));
        }
        ids.push(id);
        i = i + 1;
    }
    assert(wanted.take(i as int) =~= wanted);
    Proposed {
        result,
        contract_id: c.id.clone(),
        title: c.title.clone(),
        assertion_ids: ids,
        negotiated,
    }
}

/// Why no contract is made of assertions that two models agreed on.
pub fn refuse_empty(assertions: &Vec<(String, String)>) -> (r: Option<String>)
    ensures
        text::opt_text(r) == (if assertions@.len() == 0 {
            Some("assertion negotiation produced an empty list — please retry"@)
        } else {
            None
        }),
{
    if assertions.len() == 0 {
        Some("assertion negotiation produced an empty list — please retry".to_owned())
    } else {
        None
    }
}

/// The error of a tool that the store of contracts refused.
pub fn store_error(tool: &str, reason: &str) -> (r: String)
    ensures
        r@ == tool@ + ": "@ + reason@,
{
    text::cat3(tool, ": ", reason)
}

// ---------------------------------------------------------------------------
// Marking an assertion
// ---------------------------------------------------------------------------

/// How an assertion is to be marked.
#[derive(Debug)]
pub struct Mark {
    pub id: String,
    pub state: AssertionState,
    pub evidence: String,
    /// Command, exit code and what was seen.
    pub check: Option<(String, i64, String)>,
}

pub ghost struct MarkText {
    pub id: Seq<char>,
    pub state: AssertionState,
    pub evidence: Seq<char>,
    pub check: Option<(Seq<char>, i64, Seq<char>)>,
}

impl View for Mark {
    type V = MarkText;

    open spec fn view(&self) -> MarkText {
        MarkText {
            id: self.id@,
            state: self.state,
            evidence: self.evidence@,
            check: match self.check {
                Some((c, n, o)) => Some((c@, n, o@)),
                None => None,
            },
        }
    }
}

/// The state that a call names, or what is wrong with it.
pub open spec fn state_in(args: json::JsonText) -> Result<AssertionState, Seq<char>> {
    match args.member_text("state"@) {
        None => Err("missing `state` (passed | failed)"@),
        Some(s) => if s == "passed"@ {
            Ok(AssertionState::Passed)
        } else if s == "failed"@ {
            Ok(AssertionState::Failed)
        } else if s == "skipped"@ {
            Err(
                "`skipped` is not allowed — assertions must be passed or failed. If verification is genuinely impossible, keep trying or explain why in the `evidence` field and mark `failed`."@,
            )
        } else {
            Err("`state` must be `passed` or `failed`"@)
        },
    }
}

/// The evidence that a call gives, or what is wrong with it.
pub open spec fn evidence_in(args: json::JsonText) -> Result<Seq<char>, Seq<char>> {
    match args.member_text("evidence"@) {
        Some(s) => if text::utf8_len(text::trimmed(s)) >= 10 {
            Ok(text::trimmed(s))
        } else {
            Err("`evidence` must be at least 10 chars — describe how you verified"@)
        },
        None => Err("`evidence` must be at least 10 chars — describe how you verified"@),
    }
}

/// Whether what was seen, in lower case, says nothing.
pub open spec fn is_vague(l: Seq<char>) -> bool {
    l == "ok"@ || l == "passed"@ || l == "passes"@ || l == "done"@ || l == "good"@ || l
        == "success"@ || l == "tests passed"@
}

/// The command that a call tells of, when it tells enough of it.
pub open spec fn run_in(args: json::JsonText) -> Option<(Seq<char>, i64, Seq<char>)> {
    match (
        args.member_text("command"@),
        args.member_signed("exit_code"@),
        args.member_text("observation"@),
    ) {
        (Some(c), Some(n), Some(o)) => if c.len() > 0 && text::utf8_len(o) >= 5 {
            Some((c, n, o))
        } else {
            None
        },
        _ => None,
    }
}

/// How an assertion is to be marked, or what is wrong with the call. `vague`
/// says whether what was seen says nothing.
pub open spec fn mark_in(args: json::JsonText, vague: bool) -> Result<MarkText, Seq<char>> {
    match args.member_text("id"@) {
        None => Err("missing assertion `id`"@),
        Some(id) => match state_in(args) {
            Err(e) => Err(e),
            Ok(state) => match evidence_in(args) {
                Err(e) => Err(e),
                Ok(evidence) => match run_in(args) {
                    Some(run) => if vague {
                        Err(
                            "observation \""@ + run.2
                                + "\" is too vague — write the specific output you saw"@,
                        )
                    } else {
                        Ok(MarkText { id, state, evidence, check: Some(run) })
                    },
                    None => if state == AssertionState::Passed && text::utf8_len(evidence) < 30 {
                        Err(
                            "marking `passed` without a verification command requires substantive evidence (≥30 chars). Re-run the check and include command + observation."@,
                        )
                    } else {
                        Ok(MarkText { id, state, evidence, check: None })
                    },
                },
            },
        },
    }
}

/// Whether what a call says was seen says nothing.
pub open spec fn saw_nothing(args: json::JsonText) -> bool {
    match args.member_text("observation"@) {
        Some(o) => is_vague(outside::lowered(text::trimmed(o))),
        None => false,
    }
}

/// Whether what was seen, in lower case, says nothing.
pub fn says_nothing(l: &str) -> (r: bool)
    ensures
        r == is_vague(l@),
{
    text::same(l, "ok") || text::same(l, "passed") || text::same(l, "passes") || text::same(
        l,
        "done",
    ) || text::same(l, "good") || text::same(l, "success") || text::same(l, "tests passed")
}

fn read_state(args: &Json) -> (r: Result<AssertionState, String>)
    ensures
        match state_in(args@) {
            Ok(t) => r matches Ok(s) && s == t,
            Err(e) => r matches Err(s) && s@ == e,
        },
{
    match args.get_str("state") {
        None => Err("missing `state` (passed | failed)".to_owned()),
        Some(s) => if text::same(&s, "passed") {
            Ok(AssertionState::Passed)
        } else if text::same(&s, "failed") {
            Ok(AssertionState::Failed)
        } else if text::same(&s, "skipped") {
            Err(
                "`skipped` is not allowed — assertions must be passed or failed. If verification is genuinely impossible, keep trying or explain why in the `evidence` field and mark `failed`.".to_owned(),
            )
        } else {
            Err("`state` must be `passed` or `failed`".to_owned())
        },
    }
}

fn read_evidence(args: &Json) -> (r: Result<String, String>)
    ensures
        match evidence_in(args@) {
            Ok(t) => r matches Ok(s) && s@ == t,
            Err(e) => r matches Err(s) && s@ == e,
        },
{
    match args.get_str("evidence") {
        Some(s) => {
            let bare = text::trim(&s);
            if text::byte_len(&bare) >= 10 {
                Ok(bare)
            } else {
                Err("`evidence` must be at least 10 chars — describe how you verified".to_owned())
            }
        },
        None => Err("`evidence` must be at least 10 chars — describe how you verified".to_owned()),
    }
}

fn read_run(args: &Json) -> (r: Option<(String, i64, String)>)
    ensures
        match run_in(args@) {
            Some(t) => r matches Some(x) && (x.0@, x.1, x.2@) == t,
            None => r is None,
        },
{
    match args.get_str("command") {
        Some(c) => match args.get_i64("exit_code") {
            Some(n) => match args.get_str("observation") {
                Some(o) => if !c.as_str().is_empty() && text::byte_len(&o) >= 5 {
                    Some((c, n, o))
                } else {
                    None
                },
                None => None,
            },
            None => None,
        },
        None => None,
    }
}

/// How an assertion is to be marked, or what is wrong with the call, when it is
/// known whether what was seen says nothing.
pub fn read_mark_with(args: &Json, vague: bool) -> (r: Result<Mark, String>)
    ensures
        match mark_in(args@, vague) {
            Ok(m) => r matches Ok(x) && x@ == m,
            Err(e) => r matches Err(s) && s@ == e,
        },
{
    let id = match args.get_str("id") {
        Some(id) => id,
        None => {
            return Err("missing assertion `id`".to_owned());
        },
    };
    let state = match read_state(args) {
        Ok(s) => s,
        Err(e) => {
            return Err(e);
        },
    };
    let evidence = match read_evidence(args) {
        Ok(s) => s,
        Err(e) => {
            return Err(e);
        },
    };
    match read_run(args) {
        Some(run) => {
            if vague {
                return Err(
                    text::cat3(
                        "observation \"",
                        &run.2,
                        "\" is too vague — write the specific output you saw",
                    ),
                );
            }
            Ok(Mark { id, state, evidence, check: Some(run) })
        },
        None => {
            if state == AssertionState::Passed && text::byte_len(&evidence) < 30 {
                return Err(
                    "marking `passed` without a verification command requires substantive evidence (≥30 chars). Re-run the check and include command + observation.".to_owned(),
                );
            }
            Ok(Mark { id, state, evidence, check: None })
        },
    }
}

/// How an assertion is to be marked, or what is wrong with the call.
pub fn read_mark(args: &Json) -> (r: Result<Mark, String>)
    ensures
        match mark_in(args@, saw_nothing(args@)) {
            Ok(m) => r matches Ok(x) && x@ == m,
            Err(e) => r matches Err(s) && s@ == e,
        },
{
    let vague = match args.get_str("observation") {
        Some(o) => {
            let l = outside::to_lowercase(&text::trim(&o));
            says_nothing(&l)
        },
        None => false,
    };
    read_mark_with(args, vague)
}

/// An assertion is marked as passed only with a command and what it showed, or
/// with evidence of some length; never as skipped or pending.
pub proof fn law_marks_are_backed(args: json::JsonText, vague: bool)
    ensures
        mark_in(args, vague) matches Ok(m) ==> (m.state == AssertionState::Passed || m.state
            == AssertionState::Failed) && text::utf8_len(m.evidence) >= 10 && (m.state
            == AssertionState::Passed ==> m.check is Some || text::utf8_len(m.evidence) >= 30),
{
}

/// What the assertion with an identifier says; nothing when there is none.
pub open spec fn assertion_said(v: Seq<contract::AssertionText>, id: Seq<char>) -> Seq<char>
    decreases v.len(),
{
    if v.len() == 0 {
        Seq::empty()
    } else if v[0].id == id {
        v[0].text
    } else {
        assertion_said(v.drop_first(), id)
    }
}

/// What the assertion with an identifier says; nothing when there is none.
pub fn said_by(c: &Contract, id: &str) -> (r: String)
    ensures
        r@ == assertion_said(c@.assertions, id@),
{
    let ghost all = c@.assertions;
    let mut i: usize = 0;
    assert(all.skip(0) =~= all);
    while i < c.assertions.len()
        invariant
            i <= c.assertions.len(),
            all == contract::assertion_texts(c.assertions@),
            assertion_said(all, id@) == assertion_said(all.skip(i as int), id@),
        decreases c.assertions.len() - i,
    {
        assert(all.skip(i as int)[0] == c.assertions@[i as int]@);
        assert(all.skip(i as int).drop_first() =~= all.skip(i + 1));
        if text::same(&c.assertions[i].id, id) {
            return c.assertions[i].text.clone();
        }
        i = i + 1;
    }
    let r = String::new();
    assert(r@ =~= Seq::<char>::empty());
    r
}

/// Whether a second model is asked before an assertion is marked.
pub fn wants_second_opinion(m: &Mark, said: &str) -> (r: bool)
    ensures
        r == (m@.state == AssertionState::Passed && said@.len() > 0),
{
    m.state == AssertionState::Passed && !said.is_empty()
}

/// Why an assertion is not marked as passed: a second model doubts it.
pub fn doubted(id: &str, reason: &str) -> (r: String)
    ensures
        r@ == "[SECOND OPINION] Assertion "@ + id@ + " may not be passed: "@ + reason@
            + ". Re-verify with a concrete command and clear output before marking passed."@,
{
    text::cat5(
        "[SECOND OPINION] Assertion ",
        id,
        " may not be passed: ",
        reason,
        ". Re-verify with a concrete command and clear output before marking passed.",
    )
}

pub open spec fn state_name(s: AssertionState) -> Seq<char> {
    match s {
        AssertionState::Pending => "pending"@,
        AssertionState::Passed => "passed"@,
        AssertionState::Failed => "failed"@,
        AssertionState::Skipped => "skipped"@,
    }
}

fn name_of_state(s: AssertionState) -> (r: &'static str)
    ensures
        r@ == state_name(s),
{
    match s {
        AssertionState::Pending => "pending",
        AssertionState::Passed => "passed",
        AssertionState::Failed => "failed",
        AssertionState::Skipped => "skipped",
    }
}

/// The answer when an assertion was marked, as a value.
pub fn marked_value(id: &str, state: AssertionState, counts: &Counts) -> (r: Json)
    ensures
        r@ == json::JsonText::Table(
            seq![
                ("remaining_pending"@, json::JsonText::Unsigned(counts.pending as u64)),
                ("result"@, json::JsonText::Text(marked_text(id@, state, *counts))),
            ],
        ),
{
    json::table2(
        "remaining_pending",
        Json::Unsigned(counts.pending as u64),
        "result",
        Json::Text(marked(id, state, counts)),
    )
}

/// The answer when an assertion was marked.
pub open spec fn marked_text(id: Seq<char>, state: AssertionState, counts: Counts) -> Seq<char> {
    "Marked "@ + id + " as "@ + state_name(state) + " ("@ + text::decimal(counts.passed as nat)
        + " passed / "@ + text::decimal(counts.failed as nat) + " failed / "@ + text::decimal(
        counts.pending as nat,
    ) + " pending)."@
}

/// The answer when an assertion was marked.
pub fn marked(id: &str, state: AssertionState, counts: &Counts) -> (r: String)
    ensures
        r@ == marked_text(id@, state, *counts),
{
    let a = text::number(counts.passed as u64);
    let b = text::number(counts.failed as u64);
    let c = text::number(counts.pending as u64);
    text::cat10(
        "Marked ",
        id,
        " as ",
        name_of_state(state),
        " (",
        &a,
        " passed / ",
        &b,
        " failed / ",
        &text::cat2(&c, " pending)."),
    )
}

// ---------------------------------------------------------------------------
// Marking a feature
// ---------------------------------------------------------------------------

#[derive(Debug, Clone, Copy, PartialEq, Eq, Structural)]
pub enum FeatureState {
    InProgress,
    Done,
    Cancelled,
}

pub open spec fn feature_state_named(s: Seq<char>) -> Option<FeatureState> {
    if s == "in_progress"@ {
        Some(FeatureState::InProgress)
    } else if s == "done"@ {
        Some(FeatureState::Done)
    } else if s == "cancelled"@ {
        Some(FeatureState::Cancelled)
    } else {
        None
    }
}

/// Which feature is to be marked how, or what is wrong with the call.
pub open spec fn feature_mark_in(args: json::JsonText) -> Result<
    (Seq<char>, FeatureState),
    Seq<char>,
> {
    match args.member_text("id"@) {
        None => Err("missing feature `id`"@),
        Some(id) => match args.member_text("state"@) {
            None => Err("missing `state` (in_progress | done | cancelled)"@),
            Some(s) => match feature_state_named(s) {
                Some(state) => Ok((id, state)),
                None => Err("`state` must be in_progress | done | cancelled"@),
            },
        },
    }
}

/// Which feature is to be marked how, or what is wrong with the call.
pub fn read_feature_mark(args: &Json) -> (r: Result<(String, FeatureState), String>)
    ensures
        match feature_mark_in(args@) {
            Ok(m) => r matches Ok(x) && (x.0@, x.1) == m,
            Err(e) => r matches Err(s) && s@ == e,
        },
{
    match args.get_str("id") {
        None => Err("missing feature `id`".to_owned()),
        Some(id) => match args.get_str("state") {
            None => Err("missing `state` (in_progress | done | cancelled)".to_owned()),
            Some(s) => if text::same(&s, "in_progress") {
                Ok((id, FeatureState::InProgress))
            } else if text::same(&s, "done") {
                Ok((id, FeatureState::Done))
            } else if text::same(&s, "cancelled") {
                Ok((id, FeatureState::Cancelled))
            } else {
                Err("`state` must be in_progress | done | cancelled".to_owned())
            },
        },
    }
}

/// The answer when a feature was marked.
pub fn feature_marked(id: &str, state: FeatureState) -> (r: String)
    ensures
        r@ == "Feature "@ + id@ + " marked "@ + (match state {
            FeatureState::InProgress => "in_progress"@,
            FeatureState::Done => "done"@,
            FeatureState::Cancelled => "cancelled"@,
        }),
{
    let name = match state {
        FeatureState::InProgress => "in_progress",
        FeatureState::Done => "done",
        FeatureState::Cancelled => "cancelled",
    };
    text::cat4("Feature ", id, " marked ", name)
}

// ---------------------------------------------------------------------------
// Closing a contract
// ---------------------------------------------------------------------------

/// Why a contract is not closed: it can only be completed.
pub fn refuse_close(args: &Json) -> (r: Option<String>)
    ensures
        text::opt_text(r) == match args@.member_text("status"@) {
            None => Some("missing `status` — only `completed` is accepted"@),
            Some(s) => if s == "completed"@ {
                None
            } else if s == "aborted"@ {
                Some(
                    "`aborted` is not available — fix failing assertions and close as `completed`"@,
                )
            } else {
                Some("`status` must be `completed`"@)
            },
        },
{
    match args.get_str("status") {
        None => Some("missing `status` — only `completed` is accepted".to_owned()),
        Some(s) => if text::same(&s, "completed") {
            None
        } else if text::same(&s, "aborted") {
            Some(
                "`aborted` is not available — fix failing assertions and close as `completed`".to_owned(),
            )
        } else {
            Some("`status` must be `completed`".to_owned())
        },
    }
}

/// An assertion with its identifier, what it says, and the evidence.
pub open spec fn passed_in(v: Seq<contract::AssertionText>) -> Seq<
    (Seq<char>, Seq<char>, Seq<char>),
>
    decreases v.len(),
{
    if v.len() == 0 {
        Seq::empty()
    } else if v.last().state == AssertionState::Passed {
        passed_in(v.drop_last()).push(
            (
                v.last().id,
                v.last().text,
                match v.last().evidence {
                    Some(e) => e,
                    None => Seq::empty(),
                },
            ),
        )
    } else {
        passed_in(v.drop_last())
    }
}

pub open spec fn passed_texts(v: Seq<PassedAssertion>) -> Seq<(Seq<char>, Seq<char>, Seq<char>)> {
    v.map_values(|a: PassedAssertion| (a.id@, a.text@, a.evidence@))
}

/// The assertions of a contract that are passed.
pub fn passed_of(c: &Contract) -> (r: Vec<PassedAssertion>)
    ensures
        passed_texts(r@) == passed_in(c@.assertions),
{
    let ghost all = c@.assertions;
    let mut r: Vec<PassedAssertion> = Vec::new();
    let mut i: usize = 0;
    assert(passed_texts(r@) =~= passed_in(all.take(0)));
    while i < c.assertions.len()
        invariant
            i <= c.assertions.len(),
            all == contract::assertion_texts(c.assertions@),
            passed_texts(r@) == passed_in(all.take(i as int)),
        decreases c.assertions.len() - i,
    {
        assert(all.take(i + 1).drop_last() =~= all.take(i as int));
        assert(all.take(i + 1).last() == c.assertions@[i as int]@);
        let a = &c.assertions[i];
        if a.state == AssertionState::Passed {
            let evidence = match &a.evidence {
                Some(e) => e.clone(),
                None => {
                    let none = String::new();
                    assert(none@ =~= Seq::<char>::empty());
                    none
                },
            };
            let ghost before = passed_texts(r@);
            let p = PassedAssertion { id: a.id.clone(), text: a.text.clone(), evidence };
            r.push(p);
            assert(passed_texts(r@) =~= before.push((p.id@, p.text@, p.evidence@)));
        }
        i = i + 1;
    }
    assert(all.take(i as int) =~= all);
    r
}

/// Why a contract is not closed: a second model doubts some assertions.
pub fn close_doubted(disputed: &Vec<String>) -> (r: String)
    ensures
        r@ == "[SECOND OPINION] Final review doubts these assertions are truly satisfied: "@
            + text::join(text::texts(disputed@), ", "@) + ". Re-verify them before closing."@,
{
    let list = text::join_with(disputed, ", ");
    text::cat3(
        "[SECOND OPINION] Final review doubts these assertions are truly satisfied: ",
        &list,
        ". Re-verify them before closing.",
    )
}

/// How many assertions are in a state, as a value.
pub open spec fn count_value(
    v: Seq<contract::AssertionText>,
    s: AssertionState,
) -> json::JsonText {
    json::JsonText::Unsigned(contract::count_in(v, s) as u64)
}

/// How an open contract stands, as a value; it is rendered as `shown`.
pub open spec fn status_value(
    shown: Seq<char>,
    status: Seq<char>,
    c: contract::ContractText,
) -> json::JsonText {
    json::JsonText::Table(
        seq![
            ("contract_id"@, json::JsonText::Text(c.id)),
            (
                "counts"@,
                json::JsonText::Table(
                    seq![
                        ("failed"@, count_value(c.assertions, AssertionState::Failed)),
                        ("passed"@, count_value(c.assertions, AssertionState::Passed)),
                        ("pending"@, count_value(c.assertions, AssertionState::Pending)),
                        ("skipped"@, count_value(c.assertions, AssertionState::Skipped)),
                        ("total"@, json::JsonText::Unsigned(c.assertions.len() as u64)),
                    ],
                ),
            ),
            ("result"@, json::JsonText::Text(shown)),
            ("status"@, json::JsonText::Text(status)),
        ],
    )
}

/// The answer to the question how an open contract stands.
pub fn contract_status(shown: &str, status: &str, c: &Contract) -> (r: Json)
    ensures
        r@ == status_value(shown@, status@, c@),
{
    let n = c.counts();
    let v = vec![
        ("failed".to_owned(), Json::Unsigned(n.failed as u64)),
        ("passed".to_owned(), Json::Unsigned(n.passed as u64)),
        ("pending".to_owned(), Json::Unsigned(n.pending as u64)),
        ("skipped".to_owned(), Json::Unsigned(n.skipped as u64)),
        ("total".to_owned(), Json::Unsigned(n.total as u64)),
    ];
    assert(json::members(v@) =~= seq![
        ("failed"@, count_value(c@.assertions, AssertionState::Failed)),
        ("passed"@, count_value(c@.assertions, AssertionState::Passed)),
        ("pending"@, count_value(c@.assertions, AssertionState::Pending)),
        ("skipped"@, count_value(c@.assertions, AssertionState::Skipped)),
        ("total"@, json::JsonText::Unsigned(c@.assertions.len() as u64)),
    ]);
    json::table4(
        "contract_id",
        json::word(&c.id),
        "counts",
        json::table(v),
        "result",
        json::word(shown),
        "status",
        json::word(status),
    )
}

/// The answer when a contract was closed.
pub fn closed(id: &str, status: &str, counts: &Counts) -> (r: String)
    ensures
        r@ == "Contract `"@ + id@ + "` closed as "@ + status@ + " — "@ + text::decimal(
            counts.passed as nat,
        ) + " passed / "@ + text::decimal(counts.failed as nat) + " failed / "@ + text::decimal(
            counts.skipped as nat,
        ) + " skipped of "@ + text::decimal(counts.total as nat) + "."@,
{
    let a = text::number(counts.passed as u64);
    let b = text::number(counts.failed as u64);
    let c = text::number(counts.skipped as u64);
    let d = text::number(counts.total as u64);
    let mut r = text::cat10(
        "Contract `",
        id,
        "` closed as ",
        status,
        " — ",
        &a,
        " passed / ",
        &b,
        " failed / ",
        &c,
    );
    r.push_str(" skipped of ");
    r.push_str(&d);
    r.push_str(".");
    r
}

/// The answer when there is no contract.
pub fn no_contract() -> (r: &'static str)
    ensures
        r@ == "(no active contract)"@,
{
    "(no active contract)"
}

// ---------------------------------------------------------------------------
// Laws
// ---------------------------------------------------------------------------

/// A value that says enough of an assertion.
pub open spec fn is_sound_assertion(a: json::JsonText) -> bool {
    &&& a.member_text("id"@) matches Some(id) && text::trimmed(id).len() > 0
    &&& a.member_text("text"@) matches Some(s) && text::utf8_len(text::trimmed(s)) >= 5
        && text::utf8_len(s) <= 200
}

proof fn lemma_sound_assertions(v: Seq<json::JsonText>)
    requires
        forall|i: int| 0 <= i < v.len() ==> is_sound_assertion(#[trigger] v[i]),
        forall|i: int, j: int|
            0 <= i < j < v.len() ==> text::trimmed((#[trigger] v[i]).member_text("id"@)->0)
                != text::trimmed((#[trigger] v[j]).member_text("id"@)->0),
    ensures
        assertions_read(v) matches Ok(p) && p.len() == v.len() && (forall|i: int|
            0 <= i < v.len() ==> #[trigger] p[i] == (
                text::trimmed(v[i].member_text("id"@)->0),
                text::trimmed(v[i].member_text("text"@)->0),
            )),
    decreases v.len(),
{
    if v.len() > 0 {
        let d = v.drop_last();
        let n = v.len() - 1;
        assert(forall|i: int| 0 <= i < d.len() ==> d[i] == v[i]);
        assert(v.last() == v[n]);
        lemma_sound_assertions(d);
        let before = assertions_read(d)->Ok_0;
        let id = text::trimmed(v[n].member_text("id"@)->0);
        assert(!negotiation::ids(before).contains(id)) by {
            if negotiation::ids(before).contains(id) {
                let k = choose|k: int|
                    0 <= k < negotiation::ids(before).len() && negotiation::ids(before)[k] == id;
                assert(before[k].0 == id);
                assert(d[k] == v[k]);
            }
        }
    }
}

/// A proposal with a title, a brief of some length, and between one and
/// twenty-four assertions, each with an identifier of its own and something to
/// say, is taken as it was made, without the white space around its assertions.
pub proof fn law_sound_proposals_are_taken(
    args: json::JsonText,
    title: Seq<char>,
    brief: Seq<char>,
    v: Seq<json::JsonText>,
)
    requires
        args.member_text("title"@) == Some(title),
        text::trimmed(title).len() > 0,
        text::utf8_len(title) <= 200,
        args.member_text("brief"@) == Some(brief),
        text::utf8_len(text::trimmed(brief)) >= 20,
        args.member_items("assertions"@) == Some(v),
        1 <= v.len() <= 24,
        forall|i: int| 0 <= i < v.len() ==> is_sound_assertion(#[trigger] v[i]),
        forall|i: int, j: int|
            0 <= i < j < v.len() ==> text::trimmed((#[trigger] v[i]).member_text("id"@)->0)
                != text::trimmed((#[trigger] v[j]).member_text("id"@)->0),
    ensures
        proposal_in(args) matches Ok(p) && p.title == title && p.brief == brief && p.assertions.len()
            == v.len() && (forall|i: int|
            0 <= i < v.len() ==> #[trigger] p.assertions[i] == (
                text::trimmed(v[i].member_text("id"@)->0),
                text::trimmed(v[i].member_text("text"@)->0),
            )) && (args.member_items("features"@) is None ==> p.features.len() == 0),
{
    lemma_sound_assertions(v);
}

proof fn lemma_bad_assertion(v: Seq<json::JsonText>, i: int)
    requires
        0 <= i < v.len(),
        !is_sound_assertion(v[i]),
    ensures
        assertions_read(v) is Err,
    decreases v.len(),
{
    if i < v.len() - 1 {
        assert(v.drop_last()[i] == v[i]);
        lemma_bad_assertion(v.drop_last(), i);
    }
}

proof fn lemma_same_assertion(v: Seq<json::JsonText>, i: int, j: int)
    requires
        0 <= i < j < v.len(),
        v[i].member_text("id"@) is Some,
        v[j].member_text("id"@) is Some,
        text::trimmed(v[i].member_text("id"@)->0) == text::trimmed(v[j].member_text("id"@)->0),
    ensures
        assertions_read(v) is Err,
    decreases v.len(),
{
    let d = v.drop_last();
    assert(d[i] == v[i]);
    if j < v.len() - 1 {
        assert(d[j] == v[j]);
        lemma_same_assertion(d, i, j);
    } else if assertions_read(d) is Ok {
        let before = assertions_read(d)->Ok_0;
        lemma_assertions_are_trimmed(d);
        assert(negotiation::ids(before)[i] == before[i].0);
        assert(negotiation::ids(before).contains(text::trimmed(v[j].member_text("id"@)->0)));
    }
}

proof fn lemma_assertions_are_trimmed(v: Seq<json::JsonText>)
    ensures
        assertions_read(v) matches Ok(p) ==> p.len() == v.len() && (forall|i: int|
            0 <= i < v.len() ==> (#[trigger] v[i]).member_text("id"@) is Some && p[i].0
                == text::trimmed(v[i].member_text("id"@)->0)),
    decreases v.len(),
{
    if v.len() > 0 {
        let d = v.drop_last();
        lemma_assertions_are_trimmed(d);
        assert(forall|i: int| 0 <= i < d.len() ==> d[i] == v[i]);
    }
}

/// A proposal is refused where its title is missing, empty or too long, its
/// brief missing or too short, or its assertions are missing, none, too many,
/// unsound, or two with one identifier.
pub proof fn law_unsound_proposals_are_refused(args: json::JsonText, i: int, j: int)
    requires
        ({
            let v = args.member_items("assertions"@);
            ||| args.member_text("title"@) is None
            ||| text::trimmed(args.member_text("title"@)->0).len() == 0
            ||| text::utf8_len(args.member_text("title"@)->0) > 200
            ||| args.member_text("brief"@) is None
            ||| text::utf8_len(text::trimmed(args.member_text("brief"@)->0)) < 20
            ||| v is None
            ||| v->0.len() == 0
            ||| v->0.len() > 24
            ||| (0 <= i < v->0.len() && !is_sound_assertion(v->0[i]))
            ||| (0 <= i < j < v->0.len() && v->0[i].member_text("id"@) is Some && v->0[j].member_text(
                "id"@,
            ) is Some && text::trimmed(v->0[i].member_text("id"@)->0) == text::trimmed(
                v->0[j].member_text("id"@)->0,
            ))
        }),
    ensures
        proposal_in(args) is Err,
        args.member_text("title"@) is None ==> proposal_in(args)->Err_0 == "missing `title`"@,
{
    let v = args.member_items("assertions"@);
    if v is Some {
        let w = v->0;
        if 0 <= i < w.len() && !is_sound_assertion(w[i]) {
            lemma_bad_assertion(w, i);
        } else if 0 <= i < j < w.len() && w[i].member_text("id"@) is Some && w[j].member_text(
            "id"@,
        ) is Some && text::trimmed(w[i].member_text("id"@)->0) == text::trimmed(
            w[j].member_text("id"@)->0,
        ) {
            lemma_same_assertion(w, i, j);
        }
    }
}

/// The parts of the work that a proposal names: each value with an identifier
/// and a description, with what it says it fulfills.
pub proof fn law_features_are_read(v: Seq<json::JsonText>, f: json::JsonText)
    ensures
        features_read(Seq::empty()).len() == 0,
        f.member_text("id"@) is None || f.member_text("description"@) is None ==> features_read(
            v.push(f),
        ) == features_read(v),
        f.member_text("id"@) is Some && f.member_text("description"@) is Some ==> {
            let r = features_read(v.push(f));
            &&& r.drop_last() == features_read(v) && r.len() == features_read(v).len() + 1
            &&& r.last().id == f.member_text("id"@)->0
            &&& r.last().description == f.member_text("description"@)->0
            &&& f.member_items("fulfills"@) is None ==> r.last().fulfills.len() == 0
            &&& f.member_items("fulfills"@) matches Some(w) ==> r.last().fulfills
                == json::strings_in(w)
        },
{
    assert(v.push(f).drop_last() =~= v);
    let r = features_read(v.push(f));
    if r.len() > features_read(v).len() {
        assert(r.drop_last() =~= features_read(v));
    }
}

/// An assertion is marked as its call says when the call names it, says that it
/// passed or failed, and gives evidence: a command with its exit code and what
/// it showed, or enough words.
pub proof fn law_marks(
    args: json::JsonText,
    vague: bool,
    id: Seq<char>,
    evidence: Seq<char>,
    run: (Seq<char>, i64, Seq<char>),
)
    requires
        args.member_text("id"@) == Some(id),
        args.member_text("evidence"@) == Some(evidence),
        text::utf8_len(text::trimmed(evidence)) >= 10,
    ensures
        args.member_text("state"@) == Some("passed"@) || args.member_text("state"@) == Some(
            "failed"@,
        ) ==> {
            let passed = args.member_text("state"@) == Some("passed"@);
            let m = mark_in(args, vague);
            let told = args.member_text("command"@) == Some(run.0) && args.member_signed(
                "exit_code"@,
            ) == Some(run.1) && args.member_text("observation"@) == Some(run.2) && run.0.len() > 0
                && text::utf8_len(run.2) >= 5;
            &&& m matches Ok(x) ==> x.id == id && x.evidence == text::trimmed(evidence) && (x.state
                == AssertionState::Passed <==> passed) && (x.state == AssertionState::Failed <==> !passed)
            &&& told && !vague ==> (m matches Ok(x) && x.check == Some(run))
            &&& told && vague ==> (m matches Err(e) && text::has(e, run.2))
            &&& args.member_text("command"@) is None ==> {
                &&& m is Ok <==> (!passed || text::utf8_len(text::trimmed(evidence)) >= 30)
                &&& m matches Ok(x) ==> x.check is None
            }
        },
        args.member_text("state"@) != Some("passed"@) && args.member_text("state"@) != Some(
            "failed"@,
        ) ==> mark_in(args, vague) is Err,
{
    reveal_strlit("passed");
    reveal_strlit("failed");
    reveal_strlit("skipped");
    assert("passed"@.len() == 6 && "failed"@.len() == 6 && "skipped"@.len() == 7);
    assert("passed"@[0] == 'p' && "failed"@[0] == 'f');
    text::law_affixes(
        run.2,
        "observation \""@,
        "\" is too vague — write the specific output you saw"@,
    );
}

/// No assertion is marked by a call that does not name it, or that has no
/// evidence to speak of.
pub proof fn law_bad_marks_are_refused(args: json::JsonText, vague: bool)
    ensures
        args.member_text("id"@) is None ==> mark_in(args, vague) is Err,
        args.member_text("evidence"@) is None ==> mark_in(args, vague) is Err,
        args.member_text("evidence"@) matches Some(e) ==> (text::utf8_len(text::trimmed(e)) < 10
            ==> mark_in(args, vague) is Err),
{
}

/// The words that say nothing.
pub proof fn law_vague_words(l: Seq<char>)
    ensures
        is_vague("ok"@) && is_vague("passed"@) && is_vague("passes"@) && is_vague("done"@)
            && is_vague("good"@) && is_vague("success"@) && is_vague("tests passed"@),
        is_vague(l) <==> seq![
            "ok"@,
            "passed"@,
            "passes"@,
            "done"@,
            "good"@,
            "success"@,
            "tests passed"@,
        ].contains(l),
{
    let v = seq!["ok"@, "passed"@, "passes"@, "done"@, "good"@, "success"@, "tests passed"@];
    assert(v[0] == "ok"@ && v[1] == "passed"@ && v[2] == "passes"@ && v[3] == "done"@);
    assert(v[4] == "good"@ && v[5] == "success"@ && v[6] == "tests passed"@);
}

/// What an assertion says is found by its identifier.
pub proof fn law_assertion_said(v: Seq<contract::AssertionText>, i: int)
    requires
        0 <= i < v.len(),
        forall|k: int| 0 <= k < i ==> (#[trigger] v[k]).id != v[i].id,
    ensures
        assertion_said(v, v[i].id) == v[i].text,
    decreases v.len(),
{
    if i > 0 {
        let d = v.drop_first();
        assert(d[i - 1] == v[i]);
        assert forall|k: int| 0 <= k < i - 1 implies (#[trigger] d[k]).id != d[i - 1].id by {
            assert(d[k] == v[k + 1]);
        }
        assert(v[0].id != v[i].id);
        law_assertion_said(d, i - 1);
    }
}

/// An identifier that no assertion has says nothing.
pub proof fn law_nothing_said(v: Seq<contract::AssertionText>, id: Seq<char>)
    requires
        forall|k: int| 0 <= k < v.len() ==> (#[trigger] v[k]).id != id,
    ensures
        assertion_said(v, id).len() == 0,
    decreases v.len(),
{
    if v.len() > 0 {
        let d = v.drop_first();
        assert forall|k: int| 0 <= k < d.len() implies (#[trigger] d[k]).id != id by {
            assert(d[k] == v[k + 1]);
        }
        law_nothing_said(d, id);
    }
}

/// Of the assertions those are looked at again that are passed, in their order,
/// each with its identifier, what it says and its evidence.
pub proof fn law_passed(v: Seq<contract::AssertionText>, a: contract::AssertionText)
    ensures
        passed_in(Seq::empty()).len() == 0,
        a.state != AssertionState::Passed ==> passed_in(v.push(a)) == passed_in(v),
        a.state == AssertionState::Passed ==> {
            let r = passed_in(v.push(a));
            &&& r.len() == passed_in(v).len() + 1
            &&& r.drop_last() == passed_in(v)
            &&& r.last().0 == a.id && r.last().1 == a.text
            &&& a.evidence matches Some(e) ==> r.last().2 == e
            &&& a.evidence is None ==> r.last().2.len() == 0
        },
        passed_in(v).len() == contract::count_in(v, AssertionState::Passed),
    decreases v.len(),
{
    assert(v.push(a).drop_last() =~= v);
    if a.state == AssertionState::Passed {
        assert(passed_in(v.push(a)).drop_last() =~= passed_in(v));
    }
    if v.len() > 0 {
        law_passed(v.drop_last(), a);
    }
}

/// A feature is marked by a call that names it and one of the three states.
pub proof fn law_feature_marks(args: json::JsonText, id: Seq<char>)
    requires
        args.member_text("id"@) == Some(id),
    ensures
        args.member_text("state"@) == Some("done"@) ==> feature_mark_in(args) == Ok::<
            (Seq<char>, FeatureState),
            Seq<char>,
        >((id, FeatureState::Done)),
        args.member_text("state"@) == Some("in_progress"@) ==> feature_mark_in(args) == Ok::<
            (Seq<char>, FeatureState),
            Seq<char>,
        >((id, FeatureState::InProgress)),
        args.member_text("state"@) == Some("cancelled"@) ==> feature_mark_in(args) == Ok::<
            (Seq<char>, FeatureState),
            Seq<char>,
        >((id, FeatureState::Cancelled)),
        feature_mark_in(args) is Ok ==> args.member_text("state"@) is Some,
        args.member_text("state"@) matches Some(s) ==> (s != "done"@ && s != "in_progress"@ && s
            != "cancelled"@ ==> feature_mark_in(args) is Err),
{
    reveal_strlit("done");
    reveal_strlit("in_progress");
    reveal_strlit("cancelled");
    assert("done"@.len() == 4 && "in_progress"@.len() == 11 && "cancelled"@.len() == 9);
}

/// A contract is closed as completed and in no other way.
pub proof fn law_contracts_are_completed(args: &Json, r: Option<String>)
    requires
        call_ensures(refuse_close, (args,), r),
    ensures
        r is None <==> args@.member_text("status"@) == Some("completed"@),
{
}

/// What a second model doubts is named, with its reason, before an assertion is
/// marked and before a contract is closed.
pub proof fn law_doubts_are_named(
    id: &str,
    reason: &str,
    r: String,
    disputed: &Vec<String>,
    c: String,
    i: int,
)
    requires
        call_ensures(doubted, (id, reason), r),
        call_ensures(close_doubted, (disputed,), c),
        0 <= i < disputed@.len(),
    ensures
        text::has(r@, id@),
        text::has(r@, reason@),
        text::has(c@, disputed@[i]@),
{
    let a = "[SECOND OPINION] Assertion "@;
    let b = " may not be passed: "@;
    let d = ". Re-verify with a concrete command and clear output before marking passed."@;
    text::law_affixes(id@, a, b + reason@ + d);
    assert(a + id@ + (b + reason@ + d) =~= a + id@ + b + reason@ + d);
    text::law_affixes(reason@, a + id@ + b, d);
    let v = text::texts(disputed@);
    assert(v[i] == disputed@[i]@);
    text::lemma_joined_part(v, ", "@, i);
    text::lemma_has_within(
        c@,
        "[SECOND OPINION] Final review doubts these assertions are truly satisfied: "@,
        text::join(v, ", "@),
        ". Re-verify them before closing."@,
        v[i],
    );
}

/// What is said of a marked assertion names it and the state, and how many are
/// left.
pub proof fn law_marked(id: Seq<char>, state: AssertionState, counts: Counts)
    ensures
        text::has(marked_text(id, state, counts), id),
        text::has(marked_text(id, state, counts), " as "@ + state_name(state) + " ("@),
        text::has(
            marked_text(id, state, counts),
            text::decimal(counts.pending as nat) + " pending)."@,
        ),
        text::has(
            marked_text(id, state, counts),
            text::decimal(counts.passed as nat) + " passed"@,
        ),
        text::has(
            marked_text(id, state, counts),
            text::decimal(counts.failed as nat) + " failed"@,
        ),
        state_name(AssertionState::Passed) == "passed"@,
        state_name(AssertionState::Failed) == "failed"@,
        state_name(AssertionState::Pending) == "pending"@,
        state_name(AssertionState::Skipped) == "skipped"@,
{
    let t = marked_text(id, state, counts);
    let p = text::decimal(counts.passed as nat);
    let f = text::decimal(counts.failed as nat);
    let q = text::decimal(counts.pending as nat);
    let n = state_name(state);
    reveal_strlit(" passed / ");
    reveal_strlit(" failed / ");
    reveal_strlit(" passed");
    reveal_strlit(" failed");
    reveal_strlit(" / ");
    assert(" passed / "@ =~= " passed"@ + " / "@);
    assert(" failed / "@ =~= " failed"@ + " / "@);
    let end = q + " pending)."@;
    let c = " / "@ + end;
    let bb = " / "@ + (f + " failed"@) + c;
    let e = p + " passed"@ + bb;
    assert(t =~= "Marked "@ + id + (" as "@ + n + " ("@ + e));
    text::law_affixes(id, "Marked "@, " as "@ + n + " ("@ + e);
    assert(t =~= ("Marked "@ + id) + (" as "@ + n + " ("@) + e);
    text::law_affixes(" as "@ + n + " ("@, "Marked "@ + id, e);
    assert(t =~= ("Marked "@ + id + " as "@ + n + " ("@) + (p + " passed"@) + bb);
    text::law_affixes(p + " passed"@, "Marked "@ + id + " as "@ + n + " ("@, bb);
    let h = "Marked "@ + id + " as "@ + n + " ("@ + p + " passed"@ + " / "@;
    assert(t =~= h + (f + " failed"@) + c);
    text::law_affixes(f + " failed"@, h, c);
    assert(t =~= (h + (f + " failed"@) + " / "@) + end + Seq::empty());
    text::law_affixes(end, h + (f + " failed"@) + " / "@, Seq::empty());
}

/// How a contract stands is answered with its identifier, how it is shown, and
/// how many of its assertions are in each state.
pub proof fn law_status(shown: Seq<char>, status: Seq<char>, c: contract::ContractText)
    ensures
        status_value(shown, status, c).member_text("contract_id"@) == Some(c.id),
        status_value(shown, status, c).member_text("result"@) == Some(shown),
        status_value(shown, status, c).member_text("status"@) == Some(status),
        status_value(shown, status, c).member("counts"@) matches Some(n) && n.member_unsigned(
            "failed"@,
        ) == Some(contract::count_in(c.assertions, AssertionState::Failed) as u64)
            && n.member_unsigned("passed"@) == Some(
            contract::count_in(c.assertions, AssertionState::Passed) as u64,
        ) && n.member_unsigned("pending"@) == Some(
            contract::count_in(c.assertions, AssertionState::Pending) as u64,
        ) && n.member_unsigned("skipped"@) == Some(
            contract::count_in(c.assertions, AssertionState::Skipped) as u64,
        ) && n.member_unsigned("total"@) == Some(c.assertions.len() as u64),
{
    reveal_strlit("contract_id");
    reveal_strlit("counts");
    reveal_strlit("result");
    reveal_strlit("status");
    reveal_strlit("failed");
    reveal_strlit("passed");
    reveal_strlit("pending");
    reveal_strlit("skipped");
    reveal_strlit("total");
    assert("contract_id"@.len() == 11 && "counts"@.len() == 6 && "result"@.len() == 6 && "status"@.len() == 6 && "failed"@.len() == 6 && "passed"@.len() == 6 && "pending"@.len() == 7 && "skipped"@.len() == 7 && "total"@.len() == 5);
    assert("counts"@[0] == 'c' && "result"@[0] == 'r' && "status"@[0] == 's' && "failed"@[0] == 'f');
    assert("passed"@[0] == 'p' && "pending"@[0] == 'p' && "skipped"@[0] == 's');
    let t = status_value(shown, status, c)->Table_0;
    assert(t[0].0 == "contract_id"@ && t[1].0 == "counts"@ && t[2].0 == "result"@ && t[3].0
        == "status"@);
    json::law_lookup(t, "contract_id"@, 0);
    json::law_lookup(t, "counts"@, 1);
    json::law_lookup(t, "result"@, 2);
    json::law_lookup(t, "status"@, 3);
    let n = t[1].1->Table_0;
    json::law_lookup(n, "failed"@, 0);
    json::law_lookup(n, "passed"@, 1);
    json::law_lookup(n, "pending"@, 2);
    json::law_lookup(n, "skipped"@, 3);
    json::law_lookup(n, "total"@, 4);
}

/// A contract that was made is told with its identifier, its title and the
/// identifiers of its assertions, in their order.
pub proof fn law_made_contracts_are_told(c: &Contract, negotiated: bool, r: Proposed, i: int)
    requires
        call_ensures(proposed, (c, negotiated), r),
    ensures
        r.contract_id@ == c@.id && r.title@ == c@.title && r.negotiated == negotiated,
        r.assertion_ids@.len() == c@.assertions.len(),
        0 <= i < c@.assertions.len() ==> r.assertion_ids@[i]@ == c@.assertions[i].id,
        text::has(r.result@, c@.id),
{
    let v = text::texts(r.assertion_ids@);
    assert(v.len() == r.assertion_ids@.len());
    if 0 <= i < c@.assertions.len() {
        assert(v[i] == r.assertion_ids@[i]@);
    }
    let t = r.result@;
    let k = "Contract `"@.len() as int;
    assert(t.subrange(k, k + c@.id.len()) =~= c@.id);
    assert(text::at(t, c@.id, k));
}

/// A second model is asked before an assertion passes that says something.
pub proof fn law_second_opinions(m: &Mark, said: &str, r: bool)
    requires
        call_ensures(wants_second_opinion, (m, said), r),
    ensures
        m.state == AssertionState::Passed && said@.len() > 0 ==> r,
        m.state == AssertionState::Failed ==> !r,
        said@.len() == 0 ==> !r,
{
}

} // verus!
