//! Suites of cases by which the agent is judged.

use vstd::prelude::*;

use crate::json;
use crate::json::Json;
use crate::outside;
use crate::text;

verus! {

/// A message, and the kinds of task that it may be taken for.
#[derive(Debug)]
pub struct ClassifyCase {
    pub input: &'static str,
    pub expected: &'static str,
    pub tolerance: Vec<&'static str>,
}

/// A message, and the tool that it calls for.
#[derive(Debug, Clone, Copy)]
pub struct ToolCase {
    pub input: &'static str,
    pub expected_tool: &'static str,
}

/// A message, and what the answer has to meet: "length>50" or
/// "contains:foo|bar".
#[derive(Debug, Clone, Copy)]
pub struct QualityCase {
    pub input: &'static str,
    pub check: &'static str,
    pub desc: &'static str,
}

/// How a case went.
#[derive(Debug)]
pub struct CaseResult {
    pub input: String,
    pub passed: bool,
    pub got: String,
    pub expected: Option<String>,
}

/// How a suite went.
#[derive(Debug)]
pub struct SuiteResult {
    pub suite: String,
    pub name: String,
    pub total: usize,
    pub passed: usize,
    pub failed: usize,
    pub score: String,
    pub cases: Vec<CaseResult>,
}

pub ghost struct CaseText {
    pub input: Seq<char>,
    pub passed: bool,
    pub got: Seq<char>,
    pub expected: Option<Seq<char>>,
}

impl View for CaseResult {
    type V = CaseText;

    open spec fn view(&self) -> CaseText {
        CaseText {
            input: self.input@,
            passed: self.passed,
            got: self.got@,
            expected: text::opt_text(self.expected),
        }
    }
}

pub open spec fn case_texts(v: Seq<CaseResult>) -> Seq<CaseText> {
    v.map_values(|c: CaseResult| c@)
}

pub ghost struct SuiteText {
    pub suite: Seq<char>,
    pub name: Seq<char>,
    pub total: nat,
    pub passed: nat,
    pub failed: nat,
    pub score: Seq<char>,
    pub cases: Seq<CaseText>,
}

impl View for SuiteResult {
    type V = SuiteText;

    open spec fn view(&self) -> SuiteText {
        SuiteText {
            suite: self.suite@,
            name: self.name@,
            total: self.total as nat,
            passed: self.passed as nat,
            failed: self.failed as nat,
            score: self.score@,
            cases: case_texts(self.cases@),
        }
    }
}

impl CaseResult {
    fn copy(&self) -> (r: CaseResult)
        ensures
            r@ == self@,
    {
        let expected = match &self.expected {
            Some(e) => Some(e.clone()),
            None => None,
        };
        CaseResult {
            input: self.input.clone(),
            passed: self.passed,
            got: self.got.clone(),
            expected,
        }
    }
}

impl SuiteResult {
    /// The same once more.
    pub fn copy(&self) -> (r: SuiteResult)
        ensures
            r@ == self@,
    {
        let ghost wanted = case_texts(self.cases@);
        let mut cases: Vec<CaseResult> = Vec::new();
        let mut i: usize = 0;
        while i < self.cases.len()
            invariant
                i <= self.cases.len(),
                cases.len() == i,
                wanted == case_texts(self.cases@),
                forall|k: int| 0 <= k < i ==> (#[trigger] cases@[k])@ == wanted[k],
            decreases self.cases.len() - i,
        {
            let c = self.cases[i].copy();
            assert(c@ == wanted[i as int]);
            cases.push(c);
            i = i + 1;
        }
        assert(case_texts(cases@) =~= wanted);
        SuiteResult {
            suite: self.suite.clone(),
            name: self.name.clone(),
            total: self.total,
            passed: self.passed,
            failed: self.failed,
            score: self.score.clone(),
            cases,
        }
    }
}

// ---------------------------------------------------------------------------
// The suites
// ---------------------------------------------------------------------------

pub ghost struct ClassText {
    pub input: Seq<char>,
    pub expected: Seq<char>,
    pub tolerance: Seq<Seq<char>>,
}

impl View for ClassifyCase {
    type V = ClassText;

    open spec fn view(&self) -> ClassText {
        ClassText {
            input: self.input@,
            expected: self.expected@,
            tolerance: self.tolerance@.map_values(|s: &'static str| s@),
        }
    }
}

pub open spec fn class_texts(v: Seq<ClassifyCase>) -> Seq<ClassText> {
    v.map_values(|c: ClassifyCase| c@)
}

pub open spec fn class_case(
    input: Seq<char>,
    expected: Seq<char>,
    tolerance: Seq<Seq<char>>,
) -> ClassText {
    ClassText { input, expected, tolerance }
}

/// The messages of the suite on classification, and the kinds of task that they
/// may be taken for.
pub open spec fn class_cases() -> Seq<ClassText> {
    seq![
        class_case("fix the typo in main.ts"@, "coding"@, seq!["coding"@, "editing"@, "refactoring"@]),
        class_case("explain what this function does"@, "explanation"@, seq!["explanation"@]),
        class_case("refactor the database module"@, "editing"@, seq!["editing"@, "coding"@, "refactoring"@]),
        class_case("write unit tests for auth"@, "coding"@, seq!["coding"@]),
        class_case("deploy to production"@, "shell"@, seq!["shell"@, "coding"@]),
        class_case("what is dependency injection?"@, "explanation"@, seq!["explanation"@]),
        class_case("add error handling to the API"@, "coding"@, seq!["coding"@]),
        class_case("why is the build failing?"@, "debugging"@, seq!["debugging"@]),
        class_case("rename getUserData to fetchUser"@, "editing"@, seq!["editing"@, "coding"@, "refactoring"@]),
        class_case("create a new React component"@, "coding"@, seq!["coding"@]),
    ]
}

fn class(input: &'static str, expected: &'static str, tolerance: Vec<&'static str>) -> (r:
    ClassifyCase)
    ensures
        r@ == class_case(
            input@,
            expected@,
            tolerance@.map_values(|s: &'static str| s@),
        ),
{
    ClassifyCase { input, expected, tolerance }
}

/// The suite on classification.
pub fn classify_accuracy() -> (r: Vec<ClassifyCase>)
    ensures
        class_texts(r@) == class_cases(),
{
    let r = vec![
        class("fix the typo in main.ts", "coding", vec!["coding", "editing", "refactoring"]),
        class("explain what this function does", "explanation", vec!["explanation"]),
        class("refactor the database module", "editing", vec!["editing", "coding", "refactoring"]),
        class("write unit tests for auth", "coding", vec!["coding"]),
        class("deploy to production", "shell", vec!["shell", "coding"]),
        class("what is dependency injection?", "explanation", vec!["explanation"]),
        class("add error handling to the API", "coding", vec!["coding"]),
        class("why is the build failing?", "debugging", vec!["debugging"]),
        class("rename getUserData to fetchUser", "editing", vec!["editing", "coding", "refactoring"]),
        class("create a new React component", "coding", vec!["coding"]),
    ];
    proof {
        let a = class_texts(r@);
        let b = class_cases();
        assert(a[0].tolerance =~= b[0].tolerance);
        assert(a[1].tolerance =~= b[1].tolerance);
        assert(a[2].tolerance =~= b[2].tolerance);
        assert(a[3].tolerance =~= b[3].tolerance);
        assert(a[4].tolerance =~= b[4].tolerance);
        assert(a[5].tolerance =~= b[5].tolerance);
        assert(a[6].tolerance =~= b[6].tolerance);
        assert(a[7].tolerance =~= b[7].tolerance);
        assert(a[8].tolerance =~= b[8].tolerance);
        assert(a[9].tolerance =~= b[9].tolerance);
        assert(a =~= b);
    }
    r
}

/// The messages of the suite on tools, and the tools that they call for.
pub open spec fn tool_cases() -> Seq<(Seq<char>, Seq<char>)> {
    seq![
        ("read the contents of package.json"@, "read_file"@),
        ("find all uses of useState"@, "search"@),
        ("create a new file called utils.ts"@, "write_file"@),
        ("run the test suite"@, "bash"@),
        ("change the function name from foo to bar"@, "patch"@),
        ("list all files in the project"@, "list_projects"@),
        ("search for the error message"@, "search"@),
        ("install a new package"@, "bash"@),
    ]
}

pub open spec fn tool_case_texts(v: Seq<ToolCase>) -> Seq<(Seq<char>, Seq<char>)> {
    v.map_values(|c: ToolCase| (c.input@, c.expected_tool@))
}

/// The suite on tools.
pub fn tool_selection() -> (r: Vec<ToolCase>)
    ensures
        tool_case_texts(r@) == tool_cases(),
{
    let r = vec![
        ToolCase { input: "read the contents of package.json", expected_tool: "read_file" },
        ToolCase { input: "find all uses of useState", expected_tool: "search" },
        ToolCase { input: "create a new file called utils.ts", expected_tool: "write_file" },
        ToolCase { input: "run the test suite", expected_tool: "bash" },
        ToolCase { input: "change the function name from foo to bar", expected_tool: "patch" },
        ToolCase { input: "list all files in the project", expected_tool: "list_projects" },
        ToolCase { input: "search for the error message", expected_tool: "search" },
        ToolCase { input: "install a new package", expected_tool: "bash" },
    ];
    assert(tool_case_texts(r@) =~= tool_cases());
    r
}

/// The messages of the suite on answers, what the answers have to meet, and
/// why.
pub open spec fn quality_cases() -> Seq<(Seq<char>, Seq<char>, Seq<char>)> {
    seq![
        ("explain closures in javascript"@, "length>50"@, "response should be substantial"@),
        ("fix: const x = 1; x = 2;"@, "contains:const|let"@, "should suggest const→let"@),
        ("2 + 2"@, "contains:4"@, "basic math"@),
    ]
}

pub open spec fn quality_case_texts(v: Seq<QualityCase>) -> Seq<
    (Seq<char>, Seq<char>, Seq<char>),
> {
    v.map_values(|c: QualityCase| (c.input@, c.check@, c.desc@))
}

/// The suite on answers.
pub fn response_quality() -> (r: Vec<QualityCase>)
    ensures
        quality_case_texts(r@) == quality_cases(),
{
    let r = vec![
        QualityCase { input: "explain closures in javascript", check: "length>50", desc: "response should be substantial" },
        QualityCase { input: "fix: const x = 1; x = 2;", check: "contains:const|let", desc: "should suggest const→let" },
        QualityCase { input: "2 + 2", check: "contains:4", desc: "basic math" },
    ];
    assert(quality_case_texts(r@) =~= quality_cases());
    r
}

// ---------------------------------------------------------------------------
// Scores
// ---------------------------------------------------------------------------

/// How many cases passed.
pub open spec fn passes(v: Seq<CaseText>) -> nat
    decreases v.len(),
{
    if v.len() == 0 {
        0
    } else {
        passes(v.drop_last()) + (if v.last().passed {
            1nat
        } else {
            0nat
        })
    }
}

/// A score: so many of so many, and in percent.
pub open spec fn score_text(passed: nat, total: nat) -> Seq<char> {
    text::decimal(passed) + "/"@ + text::decimal(total) + " ("@ + text::decimal(
        passed * 100 / (if total > 0 {
            total
        } else {
            1
        }),
    ) + "%)"@
}

/// How a suite went, by how its cases went.
pub open spec fn scored(suite: Seq<char>, name: Seq<char>, cases: Seq<CaseText>) -> SuiteText {
    SuiteText {
        suite,
        name,
        total: cases.len(),
        passed: passes(cases),
        failed: (cases.len() - passes(cases)) as nat,
        score: score_text(passes(cases), cases.len()),
        cases,
    }
}

/// Every case of a suite either passes or fails.
pub proof fn law_cases_add_up(cases: Seq<CaseText>)
    ensures
        passes(cases) <= cases.len(),
    decreases cases.len(),
{
    if cases.len() > 0 {
        law_cases_add_up(cases.drop_last());
    }
}

/// How a suite went, by how its cases went.
pub fn score(suite: &str, name: &str, cases: Vec<CaseResult>) -> (r: SuiteResult)
    ensures
        r@ == scored(suite@, name@, case_texts(cases@)),
        r.passed + r.failed == r.total,
{
    let ghost all = case_texts(cases@);
    let mut passed: usize = 0;
    let mut i: usize = 0;
    assert(all.take(0) =~= Seq::<CaseText>::empty());
    while i < cases.len()
        invariant
            i <= cases.len(),
            all == case_texts(cases@),
            passed <= i,
            passed == passes(all.take(i as int)),
        decreases cases.len() - i,
    {
        assert(all.take(i + 1).drop_last() =~= all.take(i as int));
        assert(all.take(i + 1).last() == cases@[i as int]@);
        if cases[i].passed {
            passed = passed + 1;
        }
        i = i + 1;
    }
    assert(all.take(i as int) =~= all);
    let total: usize = cases.len();
    let divisor: u128 = if total > 0 {
        total as u128
    } else {
        1
    };
    let percent: u128 = passed as u128 * 100 / divisor;
    let a = text::number(passed as u64);
    let b = text::number(total as u64);
    let c = text::wide_number(percent);
    SuiteResult {
        suite: suite.to_owned(),
        name: name.to_owned(),
        total,
        passed,
        failed: total - passed,
        score: text::cat6(&a, "/", &b, " (", &c, "%)"),
        cases,
    }
}

// ---------------------------------------------------------------------------
// Running
// ---------------------------------------------------------------------------

fn is_tolerated(got: &str, tolerance: &Vec<&'static str>) -> (r: bool)
    ensures
        r == tolerance@.map_values(|s: &'static str| s@).contains(got@),
{
    let ghost all = tolerance@.map_values(|s: &'static str| s@);
    let mut i: usize = 0;
    while i < tolerance.len()
        invariant
            i <= tolerance.len(),
            all == tolerance@.map_values(|s: &'static str| s@),
            forall|k: int| 0 <= k < i ==> all[k] != got@,
        decreases tolerance.len() - i,
    {
        if text::same(tolerance[i], got) {
            assert(all[i as int] == got@);
            return true;
        }
        i = i + 1;
    }
    false
}

/// How a case on classification went: what the message was taken for.
pub open spec fn class_judged(c: ClassText, got: Seq<char>) -> CaseText {
    CaseText { input: c.input, passed: c.tolerance.contains(got), got, expected: Some(c.expected) }
}

/// How a case on classification went: what the message was taken for.
pub fn judge_class(c: &ClassifyCase, got: &str) -> (r: CaseResult)
    ensures
        r@ == class_judged(c@, got@),
{
    CaseResult {
        input: c.input.to_owned(),
        passed: is_tolerated(got, &c.tolerance),
        got: got.to_owned(),
        expected: Some(c.expected.to_owned()),
    }
}

/// How a case on tools went: the tool that was called, if one was.
pub open spec fn tool_judged(c: (Seq<char>, Seq<char>), got: Option<Seq<char>>) -> CaseText {
    let tool = match got {
        Some(t) => t,
        None => "(no tool)"@,
    };
    CaseText { input: c.0, passed: tool == c.1, got: tool, expected: Some(c.1) }
}

/// How a case on tools went.
pub fn judge_tool(c: &ToolCase, got: &Option<String>) -> (r: CaseResult)
    ensures
        r@ == tool_judged((c.input@, c.expected_tool@), text::opt_text(*got)),
{
    let tool = match got {
        Some(t) => t.clone(),
        None => "(no tool)".to_owned(),
    };
    let passed = text::same(&tool, c.expected_tool);
    CaseResult {
        input: c.input.to_owned(),
        passed,
        got: tool,
        expected: Some(c.expected_tool.to_owned()),
    }
}

/// Whether one of some texts, separated by bars, is in another.
pub open spec fn has_any(s: Seq<char>, needles: Seq<char>) -> bool {
    exists|i: int|
        0 <= i < text::split(needles, '|').len() && text::has(
            s,
            #[trigger] text::split(needles, '|')[i],
        )
}

/// Whether an answer meets a check.
pub open spec fn meets(check: Seq<char>, content: Seq<char>, lowered: Seq<char>) -> bool {
    match text::without_prefix(check, "length>"@) {
        Some(rest) => match text::parsed(rest, u64::MAX as nat) {
            Some(n) => text::utf8_len(content) > n,
            None => false,
        },
        None => match text::without_prefix(check, "contains:"@) {
            Some(rest) => has_any(lowered, rest),
            None => false,
        },
    }
}

fn contains_any(s: &str, needles: &str) -> (r: bool)
    ensures
        r == has_any(s@, needles@),
{
    let parts = text::split_char(needles, '|');
    let ghost all = text::texts(parts@);
    let mut i: usize = 0;
    while i < parts.len()
        invariant
            i <= parts.len(),
            all == text::texts(parts@),
            all == text::split(needles@, '|'),
            forall|j: int| 0 <= j < i ==> !text::has(s@, #[trigger] all[j]),
        decreases parts.len() - i,
    {
        assert(all[i as int] == parts@[i as int]@);
        if text::contains(s, &parts[i]) {
            return true;
        }
        i = i + 1;
    }
    false
}

/// Whether an answer, whose lower case form is known, meets a check.
pub fn check_answer(check: &str, content: &str, lowered: &str) -> (r: bool)
    ensures
        r == meets(check@, content@, lowered@),
{
    match text::strip_prefix(check, "length>") {
        Some(rest) => match text::parse_number(&rest, u64::MAX) {
            Some(n) => text::byte_len(content) as u64 > n,
            None => false,
        },
        None => match text::strip_prefix(check, "contains:") {
            Some(rest) => contains_any(lowered, &rest),
            None => false,
        },
    }
}

/// How a case on answers went.
pub fn judge_answer(c: &QualityCase, content: &str) -> (r: CaseResult)
    ensures
        r@ == (CaseText {
            input: c.input@,
            passed: meets(c.check@, content@, outside::lowered(content@)),
            got: text::head(content@, 100),
            expected: Some(c.desc@),
        }),
{
    let lowered = outside::to_lowercase(content);
    CaseResult {
        input: c.input.to_owned(),
        passed: check_answer(c.check, content, &lowered),
        got: text::take_chars(content, 100),
        expected: Some(c.desc.to_owned()),
    }
}

/// The suites that were run.
#[derive(Debug)]
pub struct EvalRunner {
    pub results: Vec<SuiteResult>,
}

pub open spec fn suite_texts(v: Seq<SuiteResult>) -> Seq<SuiteText> {
    v.map_values(|s: SuiteResult| s@)
}

impl EvalRunner {
    pub fn new() -> (r: EvalRunner)
        ensures
            r.results@.len() == 0,
    {
        EvalRunner { results: Vec::new() }
    }

    fn keep(&mut self, r: SuiteResult) -> (out: SuiteResult)
        ensures
            suite_texts(final(self).results@) == suite_texts(old(self).results@).push(r@),
            out@ == r@,
    {
        let ghost before = suite_texts(self.results@);
        let out = r.copy();
        self.results.push(r);
        assert(suite_texts(self.results@) =~= before.push(r@));
        out
    }

    /// Runs the suite on classification: each message is taken for one kind of
    /// task.
    pub fn run_classify(&mut self, got: &Vec<String>) -> (r: SuiteResult)
        requires
            got.len() == 10,
        ensures
            r@ == scored(
                "classify_accuracy"@,
                "Task Classification Accuracy"@,
                Seq::new(10, |i: int| class_judged(class_cases()[i], got@[i]@)),
            ),
            suite_texts(final(self).results@) == suite_texts(old(self).results@).push(r@),
    {
        let suite = classify_accuracy();
        let ghost wanted = Seq::new(10, |i: int| class_judged(class_cases()[i], got@[i]@));
        assert(class_texts(suite@).len() == suite@.len());
        let mut cases: Vec<CaseResult> = Vec::new();
        let mut i: usize = 0;
        while i < suite.len()
            invariant
                i <= suite.len(),
                suite.len() == 10,
                got.len() == 10,
                cases.len() == i,
                class_texts(suite@) == class_cases(),
                wanted == Seq::new(10, |i: int| class_judged(class_cases()[i], got@[i]@)),
                forall|j: int| 0 <= j < i ==> (#[trigger] cases@[j])@ == wanted[j],
            decreases suite.len() - i,
        {
            assert(class_texts(suite@)[i as int] == suite@[i as int]@);
            let c = judge_class(&suite[i], &got[i]);
            assert(c@ == wanted[i as int]);
            cases.push(c);
            i = i + 1;
        }
        assert(case_texts(cases@) =~= wanted);
        let r = score("classify_accuracy", "Task Classification Accuracy", cases);
        self.keep(r)
    }

    /// Runs the suite on tools: each message gives a call of a tool, or none.
    pub fn run_tool_selection(&mut self, got: &Vec<Option<String>>) -> (r: SuiteResult)
        requires
            got.len() == 8,
        ensures
            r@ == scored(
                "tool_selection"@,
                "Tool Selection Quality"@,
                Seq::new(
                    8,
                    |i: int| tool_judged(tool_cases()[i], text::opt_text(got@[i])),
                ),
            ),
            suite_texts(final(self).results@) == suite_texts(old(self).results@).push(r@),
    {
        let suite = tool_selection();
        let ghost wanted = Seq::new(
            8,
            |i: int| tool_judged(tool_cases()[i], text::opt_text(got@[i])),
        );
        assert(tool_case_texts(suite@).len() == suite@.len());
        let mut cases: Vec<CaseResult> = Vec::new();
        let mut i: usize = 0;
        while i < suite.len()
            invariant
                i <= suite.len(),
                suite.len() == 8,
                got.len() == 8,
                cases.len() == i,
                tool_case_texts(suite@) == tool_cases(),
                wanted == Seq::new(
                    8,
                    |i: int| tool_judged(tool_cases()[i], text::opt_text(got@[i])),
                ),
                forall|j: int| 0 <= j < i ==> (#[trigger] cases@[j])@ == wanted[j],
            decreases suite.len() - i,
        {
            assert(tool_case_texts(suite@)[i as int] == (
                suite@[i as int].input@,
                suite@[i as int].expected_tool@,
            ));
            let c = judge_tool(&suite[i], &got[i]);
            assert(c@ == wanted[i as int]);
            cases.push(c);
            i = i + 1;
        }
        assert(case_texts(cases@) =~= wanted);
        let r = score("tool_selection", "Tool Selection Quality", cases);
        self.keep(r)
    }

    /// Runs the suite on answers: each message gives an answer.
    pub fn run_response_quality(&mut self, answers: &Vec<String>) -> (r: SuiteResult)
        requires
            answers.len() == 3,
        ensures
            r@ == scored(
                "response_quality"@,
                "Response Quality"@,
                Seq::new(
                    3,
                    |i: int|
                        CaseText {
                            input: quality_cases()[i].0,
                            passed: meets(
                                quality_cases()[i].1,
                                answers@[i]@,
                                outside::lowered(answers@[i]@),
                            ),
                            got: text::head(answers@[i]@, 100),
                            expected: Some(quality_cases()[i].2),
                        },
                ),
            ),
            suite_texts(final(self).results@) == suite_texts(old(self).results@).push(r@),
    {
        let suite = response_quality();
        let ghost wanted = Seq::new(
            3,
            |i: int|
                CaseText {
                    input: quality_cases()[i].0,
                    passed: meets(
                        quality_cases()[i].1,
                        answers@[i]@,
                        outside::lowered(answers@[i]@),
                    ),
                    got: text::head(answers@[i]@, 100),
                    expected: Some(quality_cases()[i].2),
                },
        );
        assert(quality_case_texts(suite@).len() == suite@.len());
        let mut cases: Vec<CaseResult> = Vec::new();
        let mut i: usize = 0;
        while i < suite.len()
            invariant
                i <= suite.len(),
                suite.len() == 3,
                answers.len() == 3,
                cases.len() == i,
                quality_case_texts(suite@) == quality_cases(),
                wanted == Seq::new(
                    3,
                    |i: int|
                        CaseText {
                            input: quality_cases()[i].0,
                            passed: meets(
                                quality_cases()[i].1,
                                answers@[i]@,
                                outside::lowered(answers@[i]@),
                            ),
                            got: text::head(answers@[i]@, 100),
                            expected: Some(quality_cases()[i].2),
                        },
                ),
                forall|j: int| 0 <= j < i ==> (#[trigger] cases@[j])@ == wanted[j],
            decreases suite.len() - i,
        {
            assert(quality_case_texts(suite@)[i as int] == (
                suite@[i as int].input@,
                suite@[i as int].check@,
                suite@[i as int].desc@,
            ));
            let c = judge_answer(&suite[i], &answers[i]);
            assert(c@ == wanted[i as int]);
            cases.push(c);
            i = i + 1;
        }
        assert(case_texts(cases@) =~= wanted);
        let r = score("response_quality", "Response Quality", cases);
        self.keep(r)
    }
}

// ---------------------------------------------------------------------------
// Results
// ---------------------------------------------------------------------------

/// A case as a line, in colour.
pub open spec fn case_line(c: CaseText) -> Seq<char> {
    "  "@ + (if c.passed {
        "\x1b[32m✓"@
    } else {
        "\x1b[31m✗"@
    }) + "\x1b[0m "@ + text::head(c.input, 50) + " → "@ + c.got + (match c.expected {
        Some(e) => " (exp: "@ + e + ")"@,
        None => Seq::empty(),
    })
}

pub const RULE: &'static str = "────────────────────────────────────────";

/// A suite as lines.
pub open spec fn result_lines(r: SuiteText) -> Seq<Seq<char>> {
    seq!["  "@ + r.name, "  Score: "@ + r.score, "  "@ + RULE@] + r.cases.map_values(
        |c: CaseText| case_line(c),
    )
}

fn format_case(c: &CaseResult) -> (r: String)
    ensures
        r@ == case_line(c@),
{
    let mark = if c.passed {
        "\x1b[32m✓"
    } else {
        "\x1b[31m✗"
    };
    let short = text::take_chars(&c.input, 50);
    let expected = match &c.expected {
        Some(e) => text::cat3(" (exp: ", e, ")"),
        None => {
            let e = String::new();
            assert(e@ =~= Seq::<char>::empty());
            e
        },
    };
    text::cat7("  ", mark, "\x1b[0m ", &short, " → ", &c.got, &expected)
}

/// A suite as text.
pub fn format_results(r: &SuiteResult) -> (s: String)
    ensures
        s@ == text::join(result_lines(r@), "\n"@),
{
    let ghost wanted = result_lines(r@);
    let mut lines = vec![
        text::cat2("  ", &r.name),
        text::cat2("  Score: ", &r.score),
        text::cat2("  ", RULE),
    ];
    assert(r@.cases.len() == r.cases.len());
    let mut i: usize = 0;
    assert(text::texts(lines@) =~= wanted.take(3));
    while i < r.cases.len()
        invariant
            i <= r.cases.len(),
            r@.cases.len() == r.cases.len(),
            wanted == result_lines(r@),
            text::texts(lines@) == wanted.take(3 + i),
        decreases r.cases.len() - i,
    {
        let line = format_case(&r.cases[i]);
        proof {
            assert(r@.cases[i as int] == r.cases@[i as int]@);
            text::lemma_texts_push(lines@, line);
            assert(wanted[3 + i] == line@);
            assert(wanted.take(4 + i) =~= wanted.take(3 + i).push(line@));
        }
        lines.push(line);
        i = i + 1;
    }
    assert(wanted.take(3 + i) =~= wanted);
    text::join_with(&lines, "\n")
}

/// The name of a suite, or which names there are.
pub fn known_suite(name: &str) -> (r: Result<&'static str, String>)
    ensures
        if name@ == "classify_accuracy"@ || name@ == "tool_selection"@ || name@
            == "response_quality"@ {
            r matches Ok(s) && s@ == name@
        } else {
            r matches Err(e) && e@ == "Unknown suite: "@ + name@
                + ". Available: classify_accuracy, tool_selection, response_quality"@
        },
{
    if text::same(name, "classify_accuracy") {
        Ok("classify_accuracy")
    } else if text::same(name, "tool_selection") {
        Ok("tool_selection")
    } else if text::same(name, "response_quality") {
        Ok("response_quality")
    } else {
        Err(
            text::cat3(
                "Unknown suite: ",
                name,
                ". Available: classify_accuracy, tool_selection, response_quality",
            ),
        )
    }
}

/// A case as a value.
pub open spec fn case_value(c: CaseText) -> json::JsonText {
    json::JsonText::Table(
        seq![
            ("input"@, json::JsonText::Text(c.input)),
            ("passed"@, json::JsonText::Bool(c.passed)),
            ("got"@, json::JsonText::Text(c.got)),
            (
                "expected"@,
                match c.expected {
                    Some(e) => json::JsonText::Text(e),
                    None => json::JsonText::Null,
                },
            ),
        ],
    )
}

/// A suite as a value.
pub open spec fn suite_value(r: SuiteText) -> json::JsonText {
    json::JsonText::Table(
        seq![
            ("suite"@, json::JsonText::Text(r.suite)),
            ("name"@, json::JsonText::Text(r.name)),
            ("total"@, json::JsonText::Unsigned(r.total as u64)),
            ("passed"@, json::JsonText::Unsigned(r.passed as u64)),
            ("failed"@, json::JsonText::Unsigned(r.failed as u64)),
            ("score"@, json::JsonText::Text(r.score)),
            ("cases"@, json::JsonText::List(r.cases.map_values(|c: CaseText| case_value(c)))),
        ],
    )
}

fn case_to_value(c: &CaseResult) -> (r: Json)
    ensures
        r@ == case_value(c@),
{
    let expected = match &c.expected {
        Some(e) => json::word(e),
        None => Json::Null,
    };
    let v = vec![
        ("input".to_owned(), json::word(&c.input)),
        ("passed".to_owned(), Json::Bool(c.passed)),
        ("got".to_owned(), json::word(&c.got)),
        ("expected".to_owned(), expected),
    ];
    let r = json::table(v);
    assert(r@->Table_0 =~= case_value(c@)->Table_0);
    r
}

/// A suite as a value.
pub fn suite_to_value(r: &SuiteResult) -> (j: Json)
    ensures
        j@ == suite_value(r@),
{
    let ghost wanted = r@.cases.map_values(|c: CaseText| case_value(c));
    let mut cases: Vec<Json> = Vec::new();
    let mut i: usize = 0;
    while i < r.cases.len()
        invariant
            i <= r.cases.len(),
            cases.len() == i,
            wanted == r@.cases.map_values(|c: CaseText| case_value(c)),
            forall|k: int| 0 <= k < i ==> (#[trigger] cases@[k])@ == wanted[k],
        decreases r.cases.len() - i,
    {
        assert(r@.cases[i as int] == r.cases@[i as int]@);
        let c = case_to_value(&r.cases[i]);
        assert(c@ == wanted[i as int]);
        cases.push(c);
        i = i + 1;
    }
    assert(json::values(cases@) =~= wanted);
    let v = vec![
        ("suite".to_owned(), json::word(&r.suite)),
        ("name".to_owned(), json::word(&r.name)),
        ("total".to_owned(), Json::Unsigned(r.total as u64)),
        ("passed".to_owned(), Json::Unsigned(r.passed as u64)),
        ("failed".to_owned(), Json::Unsigned(r.failed as u64)),
        ("score".to_owned(), json::word(&r.score)),
        ("cases".to_owned(), json::list(cases)),
    ];
    let j = json::table(v);
    assert(j@->Table_0 =~= suite_value(r@)->Table_0);
    j
}

/// A suite counts its cases: those that passed and those that failed are all of
/// them.
pub proof fn law_suites_are_scored(suite: Seq<char>, name: Seq<char>, cases: Seq<CaseText>, c: CaseText)
    ensures
        ({
            let s = scored(suite, name, cases);
            s.total == cases.len() && s.passed + s.failed == s.total && s.cases == cases && s.suite
                == suite && s.name == name
        }),
        c.passed ==> passes(cases.push(c)) == passes(cases) + 1,
        !c.passed ==> passes(cases.push(c)) == passes(cases),
        passes(Seq::empty()) == 0,
        cases.len() > 0 && passes(cases) == cases.len() ==> text::ends(
            scored(suite, name, cases).score,
            " ("@ + text::decimal(100) + "%)"@,
        ),
        cases.len() > 0 && passes(cases) == 0 ==> text::ends(
            scored(suite, name, cases).score,
            " ("@ + text::decimal(0) + "%)"@,
        ),
{
    law_cases_add_up(cases);
    assert(cases.push(c).drop_last() =~= cases);
    let n = cases.len();
    let p = passes(cases);
    if n > 0 && p == n {
        assert(p * 100 / n == 100) by (nonlinear_arith)
            requires
                p == n,
                n > 0,
        ;
        lemma_percent(p, n, 100);
    }
    if n > 0 && p == 0 {
        assert(p * 100 / n == 0) by (nonlinear_arith)
            requires
                p == 0,
                n > 0,
        ;
        lemma_percent(p, n, 0);
    }
}

proof fn lemma_percent(p: nat, n: nat, k: nat)
    requires
        n > 0,
        p * 100 / n == k,
    ensures
        text::ends(score_text(p, n), " ("@ + text::decimal(k) + "%)"@),
{
    let t = score_text(p, n);
    let front = text::decimal(p) + "/"@ + text::decimal(n);
    let back = " ("@ + text::decimal(k) + "%)"@;
    assert(t =~= front + back);
    text::law_affixes(back, front, Seq::empty());
}

/// A kind of task is right where it is among those that the case lets pass; a
/// tool where it is the one that is expected.
pub proof fn law_cases_are_judged(c: ClassText, got: Seq<char>, t: (Seq<char>, Seq<char>))
    ensures
        class_judged(c, got).passed <==> c.tolerance.contains(got),
        class_judged(c, got).got == got && class_judged(c, got).input == c.input,
        tool_judged(t, Some(got)).passed <==> got == t.1,
        tool_judged(t, Some(got)).got == got,
        t.1 != "(no tool)"@ ==> !tool_judged(t, None).passed,
        tool_judged(t, None).expected == Some(t.1),
{
}

/// An answer meets a check on its length where it is longer, and one on its
/// words where it has one of them.
pub proof fn law_checks(n: nat, content: Seq<char>, lowered: Seq<char>, a: Seq<char>, b: Seq<char>, check: Seq<char>)
    requires
        n <= u64::MAX,
        !a.contains('|'),
        !b.contains('|'),
    ensures
        meets("length>"@ + text::decimal(n), content, lowered) <==> text::utf8_len(content) > n,
        meets("contains:"@ + a, content, lowered) <==> text::has(lowered, a),
        meets("contains:"@ + (a.push('|') + b), content, lowered) <==> text::has(lowered, a)
            || text::has(lowered, b),
        !text::starts(check, "length>"@) && !text::starts(check, "contains:"@) ==> !meets(
            check,
            content,
            lowered,
        ),
{
    text::law_affixes("length>"@, text::decimal(n), check);
    text::law_numbers_are_read_back(n, u64::MAX as nat);
    lemma_contains(a);
    lemma_contains(a.push('|') + b);
    text::law_split_at(a, '|', b);
    text::law_split_at(b, '|', a);
    let v = text::split(a, '|');
    let w = text::split(a.push('|') + b, '|');
    assert(v[0] == a);
    assert(w =~= seq![a, b]);
    assert(w[0] == a && w[1] == b);
}

proof fn lemma_contains(rest: Seq<char>)
    ensures
        text::without_prefix("contains:"@ + rest, "contains:"@) == Some(rest),
        text::without_prefix("contains:"@ + rest, "length>"@) is None,
{
    text::law_affixes("contains:"@, rest, Seq::empty());
    reveal_strlit("contains:");
    reveal_strlit("length>");
    let s = "contains:"@ + rest;
    assert(s[0] == 'c' && "length>"@[0] == 'l' && "length>"@.len() == 7);
    if text::without_prefix(s, "length>"@) is Some {
        assert(s.subrange(0, 7)[0] == s[0]);
    }
}

/// A suite is shown with its name, its score and a line for each case.
pub proof fn law_results_are_shown(r: SuiteText, i: int)
    ensures
        result_lines(r).len() == r.cases.len() + 3,
        text::ends(result_lines(r)[0], r.name),
        text::ends(result_lines(r)[1], r.score),
        0 <= i < r.cases.len() ==> result_lines(r)[i + 3] == case_line(r.cases[i]),
        0 <= i < r.cases.len() && r.cases[i].passed ==> text::has(case_line(r.cases[i]), "✓"@),
        0 <= i < r.cases.len() && !r.cases[i].passed ==> text::has(case_line(r.cases[i]), "✗"@),
{
    text::law_affixes(r.name, "  "@, Seq::empty());
    text::law_affixes(r.score, "  Score: "@, Seq::empty());
    if 0 <= i < r.cases.len() {
        lemma_marks(r.cases[i]);
    }
}

proof fn lemma_marks(c: CaseText)
    ensures
        c.passed ==> text::has(case_line(c), "✓"@),
        !c.passed ==> text::has(case_line(c), "✗"@),
{
    reveal_strlit("  ");
    reveal_strlit("✓");
    reveal_strlit("✗");
    reveal_strlit("\x1b[32m✓");
    reveal_strlit("\x1b[31m✗");
    let t = case_line(c);
    assert(t.len() >= 8);
    if c.passed {
        assert(t[7] == '✓');
        assert(t.subrange(7, 8) =~= "✓"@);
        assert(text::at(t, "✓"@, 7));
    } else {
        assert(t[7] == '✗');
        assert(t.subrange(7, 8) =~= "✗"@);
        assert(text::at(t, "✗"@, 7));
    }
}

/// A suite as a value holds what the suite holds.
pub proof fn law_suites_are_told(r: SuiteText, i: int)
    requires
        r.total <= u64::MAX,
        r.passed <= u64::MAX,
        r.failed <= u64::MAX,
    ensures
        ({
            let v = suite_value(r);
            &&& v.member_text("suite"@) == Some(r.suite) && v.member_text("name"@) == Some(r.name)
            &&& v.member_unsigned("total"@) == Some(r.total as u64)
            &&& v.member_unsigned("passed"@) == Some(r.passed as u64)
            &&& v.member_unsigned("failed"@) == Some(r.failed as u64)
            &&& v.member_text("score"@) == Some(r.score)
            &&& v.member_items("cases"@) matches Some(w) && w.len() == r.cases.len() && (0 <= i
                < w.len() ==> w[i].member_text("input"@) == Some(r.cases[i].input)
                && w[i].member_boolean("passed"@) == Some(r.cases[i].passed) && w[i].member_text(
                "got"@,
            ) == Some(r.cases[i].got) && w[i].member_text("expected"@) == r.cases[i].expected)
        }),
{
    reveal_strlit("suite");
    reveal_strlit("name");
    reveal_strlit("total");
    reveal_strlit("passed");
    reveal_strlit("failed");
    reveal_strlit("score");
    reveal_strlit("cases");
    reveal_strlit("input");
    reveal_strlit("got");
    reveal_strlit("expected");
    assert("suite"@.len() == 5 && "name"@.len() == 4 && "total"@.len() == 5 && "passed"@.len() == 6 && "failed"@.len() == 6 && "score"@.len() == 5 && "cases"@.len() == 5 && "input"@.len() == 5 && "got"@.len() == 3 && "expected"@.len() == 8);
    assert("suite"@[0] == 's' && "total"@[0] == 't' && "suite"@[1] == 'u' && "score"@[1] == 'c');
    assert("cases"@[0] == 'c' && "input"@[0] == 'i' && "score"@[0] == 's' && "passed"@[0] == 'p');
    assert("failed"@[0] == 'f');
    let t = suite_value(r)->Table_0;
    assert(t[0].0 == "suite"@);
    assert(t[1].0 == "name"@);
    assert(t[2].0 == "total"@);
    assert(t[3].0 == "passed"@);
    assert(t[4].0 == "failed"@);
    assert(t[5].0 == "score"@);
    assert(t[6].0 == "cases"@);
    json::law_lookup(t, "suite"@, 0);
    json::law_lookup(t, "name"@, 1);
    json::law_lookup(t, "total"@, 2);
    json::law_lookup(t, "passed"@, 3);
    json::law_lookup(t, "failed"@, 4);
    json::law_lookup(t, "score"@, 5);
    json::law_lookup(t, "cases"@, 6);
    if 0 <= i < r.cases.len() {
        let u = case_value(r.cases[i])->Table_0;
        assert(u[0].0 == "input"@);
        assert(u[1].0 == "passed"@);
        assert(u[2].0 == "got"@);
        assert(u[3].0 == "expected"@);
        json::law_lookup(u, "input"@, 0);
        json::law_lookup(u, "passed"@, 1);
        json::law_lookup(u, "got"@, 2);
        json::law_lookup(u, "expected"@, 3);
    }
}

/// The three suites are known by their names.
pub proof fn law_suites(name: &str, r: Result<&'static str, String>)
    requires
        call_ensures(known_suite, (name,), r),
    ensures
        r is Ok <==> seq!["classify_accuracy"@, "tool_selection"@, "response_quality"@].contains(
            name@,
        ),
        r matches Ok(s) ==> s@ == name@,
        r matches Err(e) ==> text::has(e@, name@),
{
    let v = seq!["classify_accuracy"@, "tool_selection"@, "response_quality"@];
    assert(v[0] == "classify_accuracy"@ && v[1] == "tool_selection"@ && v[2] == "response_quality"@);
    text::law_affixes(
        name@,
        "Unknown suite: "@,
        ". Available: classify_accuracy, tool_selection, response_quality"@,
    );
}

} // verus!
