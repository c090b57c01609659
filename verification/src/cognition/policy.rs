//! Which features the environment switches on.

use vstd::prelude::*;

use crate::text;

verus! {

/// Whether a feature is on, and why.
#[derive(Debug, Clone, Copy)]
pub struct PolicyDecision {
    pub feature: &'static str,
    pub enabled: bool,
    pub reason: &'static str,
}

/// The variable of the environment that governs a feature.
pub open spec fn variable(feature: Seq<char>) -> Option<Seq<char>> {
    if feature == "diff_context"@ {
        Some("ITSY_DIFF_CONTEXT"@)
    } else if feature == "write_guard"@ {
        Some("ITSY_WRITE_GUARD"@)
    } else if feature == "shell_persist"@ {
        Some("ITSY_SHELL_PERSIST"@)
    } else if feature == "rtk"@ {
        Some("ITSY_RTK"@)
    } else if feature == "web_browse"@ {
        Some("ITSY_WEB_BROWSE"@)
    } else if feature == "auto_approve"@ {
        Some("ITSY_AUTO_APPROVE"@)
    } else if feature == "auto_commit"@ {
        Some("ITSY_AUTO_COMMIT"@)
    } else {
        None
    }
}

/// The variable of the environment that governs a feature.
pub fn variable_of(feature: &str) -> (r: Option<&'static str>)
    ensures
        match variable(feature@) {
            Some(v) => r matches Some(s) && s@ == v,
            None => r is None,
        },
{
    if text::same(feature, "diff_context") {
        Some("ITSY_DIFF_CONTEXT")
    } else if text::same(feature, "write_guard") {
        Some("ITSY_WRITE_GUARD")
    } else if text::same(feature, "shell_persist") {
        Some("ITSY_SHELL_PERSIST")
    } else if text::same(feature, "rtk") {
        Some("ITSY_RTK")
    } else if text::same(feature, "web_browse") {
        Some("ITSY_WEB_BROWSE")
    } else if text::same(feature, "auto_approve") {
        Some("ITSY_AUTO_APPROVE")
    } else if text::same(feature, "auto_commit") {
        Some("ITSY_AUTO_COMMIT")
    } else {
        None
    }
}

/// Whether a feature is on unless it is switched off.
pub open spec fn is_on_by_default(feature: Seq<char>) -> bool {
    feature == "write_guard"@ || feature == "shell_persist"@ || feature == "rtk"@
}

/// Whether a feature is on, by the value of its variable; an unset one is empty.
pub fn is_enabled(feature: &str, value: &str) -> (r: PolicyDecision)
    ensures
        match variable(feature@) {
            Some(_) => r.feature@ == "feature"@ && r.reason@ == "env-controlled"@ && r.enabled == (
            if is_on_by_default(feature@) {
                value@ != "false"@
            } else {
                value@ == "true"@
            }),
            None => r.feature@ == "unknown"@ && r.reason@ == "no policy registered"@ && !r.enabled,
        },
{
    if variable_of(feature).is_none() {
        return PolicyDecision {
            feature: "unknown",
            enabled: false,
            reason: "no policy registered",
        };
    }
    let enabled = if text::same(feature, "write_guard") || text::same(feature, "shell_persist")
        || text::same(feature, "rtk") {
        !text::same(value, "false")
    } else {
        text::same(value, "true")
    };
    PolicyDecision { feature: "feature", enabled, reason: "env-controlled" }
}

/// An edit that is planned.
#[derive(Debug)]
pub struct PlannedEdit {
    pub path: String,
    pub summary: String,
}

/// Edits to several files.
#[derive(Debug)]
pub struct EditPlan {
    pub edits: Vec<PlannedEdit>,
}

/// Each feature has a variable of its own: its name in capitals behind a common
/// prefix.
pub proof fn law_variables(a: Seq<char>, b: Seq<char>)
    ensures
        variable("diff_context"@) == Some("ITSY_DIFF_CONTEXT"@),
        variable("write_guard"@) == Some("ITSY_WRITE_GUARD"@),
        variable("shell_persist"@) == Some("ITSY_SHELL_PERSIST"@),
        variable("rtk"@) == Some("ITSY_RTK"@),
        variable("web_browse"@) == Some("ITSY_WEB_BROWSE"@),
        variable("auto_approve"@) == Some("ITSY_AUTO_APPROVE"@),
        variable("auto_commit"@) == Some("ITSY_AUTO_COMMIT"@),
        variable(a) is Some ==> seq![
            "diff_context"@,
            "write_guard"@,
            "shell_persist"@,
            "rtk"@,
            "web_browse"@,
            "auto_approve"@,
            "auto_commit"@,
        ].contains(a),
        variable(a) is Some && variable(a) == variable(b) ==> a == b,
{
    reveal_strlit("diff_context");
    reveal_strlit("write_guard");
    reveal_strlit("shell_persist");
    reveal_strlit("rtk");
    reveal_strlit("web_browse");
    reveal_strlit("auto_approve");
    reveal_strlit("auto_commit");
    assert("diff_context"@.len() == 12 && "write_guard"@.len() == 11 && "shell_persist"@.len() == 13 && "rtk"@.len() == 3 && "web_browse"@.len() == 10 && "auto_approve"@.len() == 12 && "auto_commit"@.len() == 11);
    assert("diff_context"@[0] == 'd' && "auto_approve"@[0] == 'a' && "write_guard"@[0] == 'w' && "auto_commit"@[0] == 'a');
    reveal_strlit("ITSY_DIFF_CONTEXT");
    reveal_strlit("ITSY_WRITE_GUARD");
    reveal_strlit("ITSY_SHELL_PERSIST");
    reveal_strlit("ITSY_RTK");
    reveal_strlit("ITSY_WEB_BROWSE");
    reveal_strlit("ITSY_AUTO_APPROVE");
    reveal_strlit("ITSY_AUTO_COMMIT");
    assert("ITSY_DIFF_CONTEXT"@.len() == 17 && "ITSY_WRITE_GUARD"@.len() == 16 && "ITSY_SHELL_PERSIST"@.len() == 18 && "ITSY_RTK"@.len() == 8 && "ITSY_WEB_BROWSE"@.len() == 15 && "ITSY_AUTO_APPROVE"@.len() == 17 && "ITSY_AUTO_COMMIT"@.len() == 16);
    assert("ITSY_DIFF_CONTEXT"@[5] == 'D' && "ITSY_AUTO_APPROVE"@[5] == 'A' && "ITSY_WRITE_GUARD"@[5] == 'W' && "ITSY_AUTO_COMMIT"@[5] == 'A');
    let v = seq![
        "diff_context"@,
        "write_guard"@,
        "shell_persist"@,
        "rtk"@,
        "web_browse"@,
        "auto_approve"@,
        "auto_commit"@,
    ];
    assert(v[0] == "diff_context"@ && v[1] == "write_guard"@ && v[2] == "shell_persist"@ && v[3] == "rtk"@);
    assert(v[4] == "web_browse"@ && v[5] == "auto_approve"@ && v[6] == "auto_commit"@);
}

/// The guard on writing, the shell that stays and the shortened output are on
/// unless their variable says that they are not; the other features are off
/// unless theirs says that they are. A feature that is not known is off.
pub proof fn law_policy(feature: &str, value: &str, r: PolicyDecision)
    requires
        call_ensures(is_enabled, (feature, value), r),
    ensures
        feature@ == "write_guard"@ || feature@ == "shell_persist"@ || feature@ == "rtk"@ ==> (
        r.enabled <==> value@ != "false"@),
        feature@ == "diff_context"@ || feature@ == "web_browse"@ || feature@ == "auto_approve"@
            || feature@ == "auto_commit"@ ==> (r.enabled <==> value@ == "true"@),
        variable(feature@) is None ==> !r.enabled && r.reason@ == "no policy registered"@,
        variable(feature@) is Some ==> r.reason@ == "env-controlled"@,
{
    reveal_strlit("diff_context");
    reveal_strlit("write_guard");
    reveal_strlit("shell_persist");
    reveal_strlit("rtk");
    reveal_strlit("web_browse");
    reveal_strlit("auto_approve");
    reveal_strlit("auto_commit");
    assert("diff_context"@.len() == 12 && "write_guard"@.len() == 11 && "shell_persist"@.len() == 13 && "rtk"@.len() == 3 && "web_browse"@.len() == 10 && "auto_approve"@.len() == 12 && "auto_commit"@.len() == 11);
    assert("diff_context"@[0] == 'd' && "auto_approve"@[0] == 'a' && "write_guard"@[0] == 'w' && "auto_commit"@[0] == 'a');
}

} // verus!
