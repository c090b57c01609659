//! Which model takes on which task.

use vstd::prelude::*;

use crate::json;
use crate::json::Json;
use crate::text;

verus! {

/// A model and the tier that it stands for.
#[derive(Debug, Clone, Copy)]
pub struct RouteDecision {
    pub model_id: &'static str,
    pub tier: &'static str,
}

/// How much a task asks for.
#[derive(Debug, Clone, Copy, PartialEq, Eq, Structural)]
pub enum Level {
    /// At most three tenths.
    Low,
    /// At most six tenths.
    Middle,
    /// More.
    High,
}

/// What is known of how much a task asks for.
#[derive(Debug)]
pub enum Reading {
    Known(Level),
    /// A number that is still to be read.
    Text(String),
    Missing,
}

/// How much a count asks for.
pub open spec fn level_of_count(n: nat) -> Level {
    if n == 0 {
        Level::Low
    } else {
        Level::High
    }
}

/// What a value says of how much a task asks for: a number, the text of one, or
/// the size of what is in it.
pub fn read_complexity(input: &Json) -> (r: Reading)
    ensures
        match input@.member("complexity"@) {
            Some(json::JsonText::Unsigned(n)) => r matches Reading::Known(l) && l
                == level_of_count(n as nat),
            Some(json::JsonText::Negative(n)) => r matches Reading::Known(l) && l == (if n <= 0 {
                Level::Low
            } else {
                Level::High
            }),
            Some(json::JsonText::Float(s)) => r matches Reading::Text(t) && t@ == s,
            Some(json::JsonText::Text(s)) => r matches Reading::Text(t) && t@ == s,
            Some(json::JsonText::List(v)) => r matches Reading::Known(l) && l == level_of_count(
                v.len(),
            ),
            Some(json::JsonText::Table(v)) => r matches Reading::Known(l) && l == level_of_count(
                v.len(),
            ),
            _ => r is Missing,
        },
{
    match input.get("complexity") {
        Some(j) => match j {
            Json::Unsigned(n) => Reading::Known(
                if *n == 0 {
                    Level::Low
                } else {
                    Level::High
                },
            ),
            Json::Negative(n) => Reading::Known(
                if *n <= 0 {
                    Level::Low
                } else {
                    Level::High
                },
            ),
            Json::Float(s) => Reading::Text(s.clone()),
            Json::Text(s) => Reading::Text(s.clone()),
            Json::List(v) => {
                proof {
                    json::lemma_list(*v);
                }
                Reading::Known(
                    if v.len() == 0 {
                        Level::Low
                    } else {
                        Level::High
                    },
                )
            },
            Json::Table(v) => {
                proof {
                    json::lemma_table(*v);
                }
                Reading::Known(
                    if v.len() == 0 {
                        Level::Low
                    } else {
                        Level::High
                    },
                )
            },
            _ => Reading::Missing,
        },
        None => Reading::Missing,
    }
}

/// The model for a task. Without anything known of the task, the largest takes
/// it on.
pub fn coding_router_route(level: Option<Level>) -> (r: RouteDecision)
    ensures
        match level {
            Some(Level::Low) => r.model_id@ == "TinyClassifier"@ && r.tier@ == "trivial"@,
            Some(Level::Middle) => r.model_id@ == "SmallCoder"@ && r.tier@ == "simple"@,
            _ => r.model_id@ == "MediumCoder"@ && r.tier@ == "complex"@,
        },
{
    match level {
        Some(Level::Low) => RouteDecision { model_id: "TinyClassifier", tier: "trivial" },
        Some(Level::Middle) => RouteDecision { model_id: "SmallCoder", tier: "simple" },
        _ => RouteDecision { model_id: "MediumCoder", tier: "complex" },
    }
}

/// The model for a task whose complexity is known, in tenths.
pub fn route_to_tier(tenths: u32) -> (r: RouteDecision)
    ensures
        if tenths <= 3 {
            r.model_id@ == "TinyClassifier"@ && r.tier@ == "trivial"@
        } else if tenths <= 6 {
            r.model_id@ == "SmallCoder"@ && r.tier@ == "simple"@
        } else {
            r.model_id@ == "MediumCoder"@ && r.tier@ == "complex"@
        },
{
    let level = if tenths <= 3 {
        Level::Low
    } else if tenths <= 6 {
        Level::Middle
    } else {
        Level::High
    };
    coding_router_route(Some(level))
}

/// The next larger tier and its model, when there is one.
pub open spec fn escalated(tier: Seq<char>) -> Option<(Seq<char>, Seq<char>)> {
    if tier == "trivial"@ {
        Some(("simple"@, "SmallCoder"@))
    } else if tier == "simple"@ {
        Some(("complex"@, "MediumCoder"@))
    } else {
        None
    }
}

/// The next larger tier and its model, when there is one.
pub fn coding_router_escalate(current: &str) -> (r: Option<RouteDecision>)
    ensures
        match escalated(current@) {
            Some((tier, model)) => r matches Some(d) && d.tier@ == tier && d.model_id@ == model,
            None => r is None,
        },
{
    if text::same(current, "trivial") {
        Some(RouteDecision { model_id: "SmallCoder", tier: "simple" })
    } else if text::same(current, "simple") {
        Some(RouteDecision { model_id: "MediumCoder", tier: "complex" })
    } else {
        None
    }
}

/// After two steps up there is nothing larger.
pub proof fn law_escalation_ends(tier: Seq<char>)
    ensures
        escalated(tier) matches Some((a, _)) ==> (escalated(a) matches Some((b, _)) ==> escalated(b)
            is None),
{
    reveal_strlit("trivial");
    reveal_strlit("simple");
    reveal_strlit("complex");
    assert("complex"@[0] != "trivial"@[0]);
    assert("complex"@[0] != "simple"@[0]);
    assert("simple"@[0] != "trivial"@[0]);
}

/// The model when nothing else is known.
pub fn coding_router_fallback() -> (r: RouteDecision)
    ensures
        r.model_id@ == "MediumCoder"@,
        r.tier@ == "fallback"@,
{
    RouteDecision { model_id: "MediumCoder", tier: "fallback" }
}

/// The model when nothing else is known.
pub fn route_fallback() -> (r: RouteDecision)
    ensures
        r.model_id@ == "MediumCoder"@,
        r.tier@ == "fallback"@,
{
    coding_router_fallback()
}

#[derive(Debug, Clone, Copy, PartialEq, Eq, Structural)]
pub enum Router {
    CodingRouter,
}

/// The router with a name.
pub fn get_router(name: &str) -> (r: Option<Router>)
    ensures
        r == (if name@ == "coding_router"@ {
            Some(Router::CodingRouter)
        } else {
            None
        }),
{
    if text::same(name, "coding_router") {
        Some(Router::CodingRouter)
    } else {
        None
    }
}

/// The more a task asks for, the larger the model; each tier has one.
pub proof fn law_routes(a: u32, b: u32, r: RouteDecision, s: RouteDecision)
    requires
        a <= b,
        call_ensures(route_to_tier, (a,), r),
        call_ensures(route_to_tier, (b,), s),
    ensures
        r.tier@ == "trivial"@ <==> a <= 3,
        r.tier@ == "simple"@ <==> 4 <= a <= 6,
        r.tier@ == "complex"@ <==> a >= 7,
        r.tier@ == "complex"@ ==> s.tier@ == "complex"@,
        s.tier@ == "trivial"@ ==> r.tier@ == "trivial"@,
        r.tier@ == "trivial"@ ==> r.model_id@ == "TinyClassifier"@,
        r.tier@ == "simple"@ ==> r.model_id@ == "SmallCoder"@,
        r.tier@ == "complex"@ ==> r.model_id@ == "MediumCoder"@,
{
    reveal_strlit("trivial");
    reveal_strlit("simple");
    reveal_strlit("complex");
    assert("trivial"@.len() == 7 && "simple"@.len() == 6 && "complex"@.len() == 7);
    assert("trivial"@[0] == 't' && "complex"@[0] == 'c');
}

/// From each tier the next larger one is taken, with the model that routing
/// gives it.
pub proof fn law_escalation_is_one_step(
    a: u32,
    r: RouteDecision,
    b: u32,
    s: RouteDecision,
)
    requires
        call_ensures(route_to_tier, (a,), r),
        call_ensures(route_to_tier, (b,), s),
    ensures
        a <= 3 && 4 <= b <= 6 ==> escalated(r.tier@) == Some((s.tier@, s.model_id@)),
        4 <= a <= 6 && b >= 7 ==> escalated(r.tier@) == Some((s.tier@, s.model_id@)),
        a >= 7 ==> escalated(r.tier@) is None,
{
    reveal_strlit("trivial");
    reveal_strlit("simple");
    reveal_strlit("complex");
    assert("trivial"@.len() == 7 && "simple"@.len() == 6 && "complex"@.len() == 7);
    assert("trivial"@[0] == 't' && "complex"@[0] == 'c');
}

/// A number of nothing asks for little and any other whole number for much; so
/// does a list by its length. A text is still to be read, and without a value
/// nothing is known.
pub proof fn law_complexity_is_read(input: &Json, r: Reading)
    requires
        call_ensures(read_complexity, (input,), r),
    ensures
        input@.member("complexity"@) == Some(json::JsonText::Unsigned(0)) ==> r == Reading::Known(
            Level::Low,
        ),
        input@.member("complexity"@) matches Some(json::JsonText::Unsigned(n)) ==> (n > 0 ==> r
            == Reading::Known(Level::High)),
        input@.member("complexity"@) matches Some(json::JsonText::Negative(n)) ==> (n < 0 ==> r
            == Reading::Known(Level::Low)),
        input@.member("complexity"@) matches Some(json::JsonText::Text(s)) ==> (
        r matches Reading::Text(t) && t@ == s),
        input@.member("complexity"@) matches Some(json::JsonText::Float(s)) ==> (
        r matches Reading::Text(t) && t@ == s),
        input@.member("complexity"@) is None ==> r is Missing,
{
}

/// The levels go with the tiers, and where nothing is known the largest model
/// takes a task on.
pub proof fn law_levels(level: Option<Level>, r: RouteDecision, f: RouteDecision)
    requires
        call_ensures(coding_router_route, (level,), r),
        call_ensures(route_fallback, (), f),
    ensures
        level == Some(Level::Low) ==> r.tier@ == "trivial"@,
        level == Some(Level::Middle) ==> r.tier@ == "simple"@,
        level == Some(Level::High) || level is None ==> r.tier@ == "complex"@ && r.model_id@
            == f.model_id@,
{
}

} // verus!
