//! What the agent asks a model beside the conversation itself, and what it
//! makes of the answers. Where no answer comes, a safe default takes its place.

use vstd::prelude::*;

use crate::edit;
use crate::json;
use crate::json::Json;
use crate::outside;
use crate::text;

pub mod negotiation;
pub mod second_opinion;

verus! {

/// Whether prompts can be sent: a model has to be named.
pub fn is_features_available(model_name: &str) -> (r: bool)
    ensures
        r == (model_name@.len() > 0),
{
    !model_name.is_empty()
}

/// The longest start of a text that takes at most `n` bytes.
pub fn truncate(s: &str, n: usize) -> (r: String)
    ensures
        r@ == text::clip(s@, n as int),
{
    text::clip_bytes(s, n)
}

/// A text without the fences of a code block around it.
pub open spec fn unfenced(s: Seq<char>) -> Seq<char> {
    text::trimmed(
        text::unsuffixed(
            text::unprefixed(text::unprefixed(text::trimmed(s), "```json"@), "```"@),
            "```"@,
        ),
    )
}

/// A text without the fences of a code block around it.
pub fn strip_fences(s: &str) -> (r: String)
    ensures
        r@ == unfenced(s@),
{
    proof {
        reveal_strlit("```json");
        reveal_strlit("```");
    }
    let a = text::trim(s);
    let b = text::trim_start_text(&a, "```json");
    let c = text::trim_start_text(&b, "```");
    let d = text::trim_end_text(&c, "```");
    text::trim(&d)
}

/// The JSON value that a text holds, fences or not.
pub fn parse_fenced(raw: &str) -> (r: Option<Json>)
    ensures
        json::opt_value(r) == outside::json_value(unfenced(raw@)),
{
    let s = strip_fences(raw);
    outside::json_parse(&s)
}

// ---------------------------------------------------------------------------
// Repairing a call
// ---------------------------------------------------------------------------

/// What a model is told of a malformed call.
#[derive(Debug)]
pub struct RepairInput {
    pub original_call: String,
    pub error: String,
    pub tool_schema: String,
}

/// What a model is told of a malformed call.
pub fn repair_input(original_call: &str, error: &str, tool_schema: &str) -> (r: RepairInput)
    ensures
        r.original_call@ == text::clip(original_call@, 2000),
        r.error@ == text::clip(error@, 500),
        r.tool_schema@ == text::clip(tool_schema@, 1000),
{
    RepairInput {
        original_call: truncate(original_call, 2000),
        error: truncate(error, 500),
        tool_schema: truncate(tool_schema, 1000),
    }
}

/// What became of a malformed call.
#[derive(Debug)]
pub struct RepairResult {
    pub ok: bool,
    pub repaired_call: Option<String>,
    pub error: Option<String>,
}

/// What became of a malformed call.
pub fn repair_tool_call(answer: Result<String, String>) -> (r: RepairResult)
    ensures
        r.ok == (answer is Ok),
        text::opt_text(r.repaired_call) == match answer {
            Ok(s) => Some(s@),
            Err(_) => None,
        },
        text::opt_text(r.error) == match answer {
            Ok(_) => None,
            Err(e) => Some(e@),
        },
{
    match answer {
        Ok(s) => RepairResult { ok: true, repaired_call: Some(s), error: None },
        Err(e) => RepairResult { ok: false, repaired_call: None, error: Some(e) },
    }
}

// ---------------------------------------------------------------------------
// Summarising a file
// ---------------------------------------------------------------------------

/// What of a file a model is asked to summarise; nothing of a short one.
pub fn summary_input(content: &str) -> (r: Option<String>)
    ensures
        text::opt_text(r) == (if edit::line_count(content@) < 100 {
            None
        } else {
            Some(text::clip(content@, 8000))
        }),
{
    if edit::count_lines(content) < 100 {
        None
    } else {
        Some(truncate(content, 8000))
    }
}

// ---------------------------------------------------------------------------
// Checkpoints
// ---------------------------------------------------------------------------

#[derive(Debug, Clone, Copy, PartialEq, Eq, Structural)]
pub enum CheckpointDecision {
    Approve,
    Reject,
    Edit,
}

/// What becomes of a checkpoint: without anyone to ask, it is approved.
pub fn settle_checkpoint(answer: Option<CheckpointDecision>) -> (r: CheckpointDecision)
    ensures
        r == match answer {
            Some(d) => d,
            None => CheckpointDecision::Approve,
        },
{
    match answer {
        Some(d) => d,
        None => CheckpointDecision::Approve,
    }
}

// ---------------------------------------------------------------------------
// Commit messages
// ---------------------------------------------------------------------------

pub const COMMIT_PATTERN: &'static str =
    r"^(feat|fix|docs|refactor|test|chore|style|ci|perf|build|revert)(\(.+\))?:";

/// Whether a character is left out of a commit message.
pub open spec fn is_unquotable(c: char) -> bool {
    c == '\n' || c == '\r' || c == '"' || c == '\'' || c == '`' || c == '$' || c == '\\'
}

/// A text with a blank for each character that is left out of a commit message.
pub open spec fn quotable(s: Seq<char>) -> Seq<char> {
    Seq::new(
        s.len(),
        |i: int|
            if is_unquotable(s[i]) {
                ' '
            } else {
                s[i]
            },
    )
}

/// The commit message for a task when no model answers.
pub open spec fn plain_message(task: Seq<char>) -> Seq<char> {
    "itsy: "@ + text::trimmed(quotable(text::head(task, 50)))
}

/// What is taken of a model's commit message.
pub open spec fn cut_message(answer: Seq<char>) -> Seq<char> {
    let bare = text::stripped_end(text::stripped_start(text::trimmed(answer), "\"'"@), "\"'"@);
    text::head(text::stripped_end(bare, "."@), 72)
}

/// A commit message with a kind: its own, or that of a chore.
pub open spec fn kinded_message(message: Seq<char>, kinded: bool) -> Seq<char> {
    if kinded {
        message
    } else {
        "chore: "@ + text::head(message, 65)
    }
}

fn without_quotes(s: &str) -> (r: String)
    ensures
        r@ == quotable(s@),
{
    let v = text::chars(s);
    let mut r: String = String::new();
    let mut i: usize = 0;
    while i < v.len()
        invariant
            i <= v.len(),
            v@ == s@,
            r@ == quotable(s@).take(i as int),
        decreases v.len() - i,
    {
        let c = v[i];
        let ghost before = r@;
        if c == '\n' || c == '\r' || c == '"' || c == '\'' || c == '`' || c == '$' || c == '\\' {
            r.push(' ');
        } else {
            r.push(c);
        }
        assert(r@ =~= quotable(s@).take(i + 1));
        i = i + 1;
    }
    assert(r@ =~= quotable(s@));
    r
}

/// The commit message for a task when no model answers.
pub fn fallback_message(task: &str) -> (r: String)
    ensures
        r@ == plain_message(task@),
{
    let head = text::take_chars(task, 50);
    let clean = text::trim(&without_quotes(&head));
    text::cat2("itsy: ", &clean)
}

/// The files that a model is told of for a commit message.
pub fn commit_files(changed_files: &Vec<String>) -> (r: String)
    ensures
        r@ == text::join(text::leading(text::texts(changed_files@), 10), ", "@),
{
    text::join_with(&text::leading_of(changed_files, 10), ", ")
}

/// What is taken of a model's commit message.
pub fn shorten_message(answer: &str) -> (r: String)
    ensures
        r@ == cut_message(answer@),
{
    let a = text::trim(answer);
    let b = text::trim_start_set(&a, "\"'");
    let c = text::trim_end_set(&b, "\"'");
    let d = text::trim_end_set(&c, ".");
    text::take_chars(&d, 72)
}

/// A commit message with a kind, when it is known whether it has one.
pub fn kind_message(message: &str, kinded: bool) -> (r: String)
    ensures
        r@ == kinded_message(message@, kinded),
{
    if kinded {
        message.to_owned()
    } else {
        let short = text::take_chars(message, 65);
        text::cat2("chore: ", &short)
    }
}

/// The commit message for a task: what a model answered, brought into form, or
/// the task itself.
pub fn generate_commit_message(task: &str, answer: &Option<String>) -> (r: String)
    ensures
        r@ == match *answer {
            Some(a) => kinded_message(
                cut_message(a@),
                outside::regex_matches(COMMIT_PATTERN@, cut_message(a@)),
            ),
            None => plain_message(task@),
        },
{
    match answer {
        Some(a) => {
            let m = shorten_message(a);
            let kinded = outside::regex_is_match(COMMIT_PATTERN, &m);
            kind_message(&m, kinded)
        },
        None => fallback_message(task),
    }
}

/// A commit message is never longer than seventy-two characters.
pub proof fn law_commit_message_is_short(answer: Seq<char>, kinded: bool)
    ensures
        kinded_message(cut_message(answer), kinded).len() <= 72,
{
    reveal_strlit("chore: ");
}

// ---------------------------------------------------------------------------
// Clarification and validation
// ---------------------------------------------------------------------------

/// Whether a message is too vague to act on: a model says so, or, without an
/// answer, the rules do.
pub fn check_needs_clarification(answer: &Option<String>, by_rules: bool) -> (r: bool)
    ensures
        r == match *answer {
            Some(a) => text::starts(outside::lowered(text::trimmed(a@)), "vague"@),
            None => by_rules,
        },
{
    match answer {
        Some(a) => {
            let l = outside::to_lowercase(&text::trim(a));
            text::starts_with(&l, "vague")
        },
        None => by_rules,
    }
}

/// What a model is told of an edit.
#[derive(Debug)]
pub struct EditInput {
    pub content: String,
    pub original_task: String,
}

/// What a model is told of an edit.
pub fn edit_input(content: &str, original_task: &str) -> (r: EditInput)
    ensures
        r.content@ == text::clip(content@, 4000),
        r.original_task@ == text::clip(original_task@, 500),
{
    EditInput { content: truncate(content, 4000), original_task: truncate(original_task, 500) }
}

/// What a model thinks of an edit.
#[derive(Debug)]
pub struct ValidateEditResult {
    pub ok: bool,
    pub issues: Vec<String>,
}

/// Whether an answer in lower case lets an edit pass.
pub open spec fn lets_pass(l: Seq<char>) -> bool {
    ||| text::has(l, "ok"@)
    ||| text::has(l, "correct"@)
    ||| text::has(l, "looks good"@)
    ||| text::has(l, "valid"@)
    ||| text::has(l, "pass"@)
    ||| !text::has(l, "error"@)
}

/// What an answer says of an edit, when its lower case form is known.
pub fn judge_edit(answer: &str, lowered: &str) -> (r: ValidateEditResult)
    ensures
        r.ok == lets_pass(lowered@),
        text::texts(r.issues@) == (if lets_pass(lowered@) {
            Seq::empty()
        } else {
            seq![text::clip(answer@, 200)]
        }),
{
    let ok = text::contains(lowered, "ok") || text::contains(lowered, "correct") || text::contains(
        lowered,
        "looks good",
    ) || text::contains(lowered, "valid") || text::contains(lowered, "pass") || !text::contains(
        lowered,
        "error",
    );
    if ok {
        let issues: Vec<String> = Vec::new();
        assert(text::texts(issues@) =~= Seq::<Seq<char>>::empty());
        ValidateEditResult { ok, issues }
    } else {
        let issues = vec![truncate(answer, 200)];
        assert(text::texts(issues@) =~= seq![text::clip(answer@, 200)]);
        ValidateEditResult { ok, issues }
    }
}

/// What an answer says of an edit; without one the edit passes.
pub fn validate_edit_compiled(answer: &Option<String>) -> (r: ValidateEditResult)
    ensures
        r.ok == match *answer {
            Some(a) => lets_pass(outside::lowered(a@)),
            None => true,
        },
        text::texts(r.issues@) == match *answer {
            Some(a) => if lets_pass(outside::lowered(a@)) {
                Seq::empty()
            } else {
                seq![text::clip(a@, 200)]
            },
            None => Seq::empty(),
        },
{
    match answer {
        Some(a) => {
            let l = outside::to_lowercase(a);
            judge_edit(a, &l)
        },
        None => {
            let issues: Vec<String> = Vec::new();
            assert(text::texts(issues@) =~= Seq::<Seq<char>>::empty());
            ValidateEditResult { ok: true, issues }
        },
    }
}

// ---------------------------------------------------------------------------
// Diagnosis
// ---------------------------------------------------------------------------

/// What an explanation of a failure says.
#[derive(Debug)]
pub struct ErrorDiagnosis {
    pub kind: String,
    pub file: Option<String>,
    pub line: Option<u32>,
    pub suggestion: String,
}

pub ghost struct DiagnosisText {
    pub kind: Seq<char>,
    pub file: Option<Seq<char>>,
    pub line: Option<u32>,
    pub suggestion: Seq<char>,
}

impl View for ErrorDiagnosis {
    type V = DiagnosisText;

    open spec fn view(&self) -> DiagnosisText {
        DiagnosisText {
            kind: self.kind@,
            file: text::opt_text(self.file),
            line: self.line,
            suggestion: self.suggestion@,
        }
    }
}

/// What a model is told of a command that failed.
#[derive(Debug)]
pub struct DiagnosisInput {
    pub command: String,
    pub stderr: String,
    pub exit_code: String,
}

/// What a model is told of a command that failed.
pub fn diagnosis_input(command: &str, stderr: &str, exit_code: i32) -> (r: DiagnosisInput)
    ensures
        r.command@ == text::clip(command@, 500),
        r.stderr@ == text::clip(stderr@, 1500),
        r.exit_code@ == text::decimal_int(exit_code as int),
{
    DiagnosisInput {
        command: truncate(command, 500),
        stderr: truncate(stderr, 1500),
        exit_code: text::signed_number(exit_code as i64),
    }
}

/// The explanation that a value holds.
pub open spec fn diagnosis_in(j: json::JsonText) -> DiagnosisText {
    DiagnosisText {
        kind: j.member_text_or("type"@, "unknown"@),
        file: j.member_text("file"@),
        line: match j.member_unsigned("line"@) {
            Some(n) => Some((n % 0x1_0000_0000) as u32),
            None => None,
        },
        suggestion: text::clip(j.member_text_or("suggestion"@, ""@), 200),
    }
}

/// The explanation that a value holds. A line beyond thirty-two bits loses the
/// bits above them.
pub fn diagnosis_of(j: &Json) -> (r: ErrorDiagnosis)
    ensures
        r@ == diagnosis_in(j@),
{
    let line: Option<u32> = match j.get_u64("line") {
        Some(n) => Some((n % 0x1_0000_0000) as u32),
        None => None,
    };
    let suggestion = j.get_str_or("suggestion", "");
    ErrorDiagnosis {
        kind: j.get_str_or("type", "unknown"),
        file: j.get_str("file"),
        line,
        suggestion: truncate(&suggestion, 200),
    }
}

/// The explanation that an answer holds, if any.
pub fn diagnose_error(answer: &str) -> (r: Option<ErrorDiagnosis>)
    ensures
        match outside::json_value(unfenced(answer@)) {
            Some(j) => r matches Some(d) && d@ == diagnosis_in(j),
            None => r is None,
        },
{
    match parse_fenced(answer) {
        Some(j) => Some(diagnosis_of(&j)),
        None => None,
    }
}

// ---------------------------------------------------------------------------
// Decomposition
// ---------------------------------------------------------------------------

/// How a task that failed is to be taken on again.
#[derive(Debug)]
pub struct DecomposeStrategy {
    pub strategy: String,
    pub reason: String,
    pub instruction: String,
}

pub ghost struct StrategyText {
    pub strategy: Seq<char>,
    pub reason: Seq<char>,
    pub instruction: Seq<char>,
}

impl View for DecomposeStrategy {
    type V = StrategyText;

    open spec fn view(&self) -> StrategyText {
        StrategyText {
            strategy: self.strategy@,
            reason: self.reason@,
            instruction: self.instruction@,
        }
    }
}

pub open spec fn is_strategy(s: Seq<char>) -> bool {
    s == "split_file"@ || s == "one_error_at_a_time"@ || s == "rewrite_section"@ || s
        == "extract_function"@
}

/// The strategy that a value holds; an unknown one stands for rewriting a
/// section.
pub open spec fn strategy_in(j: json::JsonText) -> StrategyText {
    StrategyText {
        strategy: match j.member_text("strategy"@) {
            Some(s) => if is_strategy(s) {
                s
            } else {
                "rewrite_section"@
            },
            None => "rewrite_section"@,
        },
        reason: text::clip(j.member_text_or("reason"@, ""@), 300),
        instruction: text::clip(j.member_text_or("instruction"@, ""@), 600),
    }
}

/// The strategy that a value holds.
pub fn strategy_of(j: &Json) -> (r: DecomposeStrategy)
    ensures
        r@ == strategy_in(j@),
{
    let strategy = match j.get_str("strategy") {
        Some(s) => if text::same(&s, "split_file") || text::same(&s, "one_error_at_a_time")
            || text::same(&s, "rewrite_section") || text::same(&s, "extract_function") {
            s
        } else {
            "rewrite_section".to_owned()
        },
        None => "rewrite_section".to_owned(),
    };
    let reason = j.get_str_or("reason", "");
    let instruction = j.get_str_or("instruction", "");
    DecomposeStrategy {
        strategy,
        reason: truncate(&reason, 300),
        instruction: truncate(&instruction, 600),
    }
}

/// The strategy that an answer holds, if any.
pub fn decompose_task(answer: &str) -> (r: Option<DecomposeStrategy>)
    ensures
        match outside::json_value(unfenced(answer@)) {
            Some(j) => r matches Some(d) && d@ == strategy_in(j),
            None => r is None,
        },
{
    match parse_fenced(answer) {
        Some(j) => Some(strategy_of(&j)),
        None => None,
    }
}

/// What a second model is asked about a task that failed.
pub open spec fn decompose_prompt_text(
    task: Seq<char>,
    errors: Seq<char>,
    file_context: Seq<char>,
) -> Seq<char> {
    "A coding task has failed after multiple attempts. Suggest a decomposition strategy.\n\nTask: "@
        + text::head(task, 300) + "\nErrors: "@ + text::head(errors, 500) + "\nFile context: "@
        + text::head(file_context, 1000)
        + "\n\nReturn JSON: {\"strategy\":\"split_file|one_error_at_a_time|rewrite_section|extract_function\",\"reason\":\"<why>\",\"instruction\":\"<2-3 sentence instruction for the model>\"}"@
}

/// What a second model is asked about a task that failed.
pub fn decompose_prompt(task: &str, errors: &str, file_context: &str) -> (r: String)
    ensures
        r@ == decompose_prompt_text(task@, errors@, file_context@),
{
    let a = text::take_chars(task, 300);
    let b = text::take_chars(errors, 500);
    let c = text::take_chars(file_context, 1000);
    text::cat7(
        "A coding task has failed after multiple attempts. Suggest a decomposition strategy.\n\nTask: ",
        &a,
        "\nErrors: ",
        &b,
        "\nFile context: ",
        &c,
        "\n\nReturn JSON: {\"strategy\":\"split_file|one_error_at_a_time|rewrite_section|extract_function\",\"reason\":\"<why>\",\"instruction\":\"<2-3 sentence instruction for the model>\"}",
    )
}

/// An instruction together with that of a second model, which is named where
/// it goes another way.
pub open spec fn joined_instruction(main: StrategyText, second: json::JsonText) -> Seq<char> {
    let instruction = text::clip(second.member_text_or("instruction"@, ""@), 400);
    let strategy = second.member_text_or("strategy"@, ""@);
    if instruction.len() == 0 {
        main.instruction
    } else if strategy != main.strategy {
        main.instruction + "\n[Second opinion — "@ + strategy + "]: "@ + instruction
    } else {
        main.instruction + " "@ + instruction
    }
}

/// An instruction together with that of a second model.
pub fn join_instruction(main: &DecomposeStrategy, second: &Json) -> (r: String)
    ensures
        r@ == joined_instruction(main@, second@),
{
    let instruction = truncate(&second.get_str_or("instruction", ""), 400);
    let strategy = second.get_str_or("strategy", "");
    if instruction.as_str().is_empty() {
        main.instruction.clone()
    } else if !text::same(&strategy, &main.strategy) {
        text::cat5(&main.instruction, "\n[Second opinion — ", &strategy, "]: ", &instruction)
    } else {
        text::cat3(&main.instruction, " ", &instruction)
    }
}

/// An instruction together with the answer of a second model, if one came. An
/// answer that holds no value adds nothing.
pub fn second_instruction(main: &DecomposeStrategy, answer: &Option<String>) -> (r: String)
    ensures
        r@ == match *answer {
            Some(a) => joined_instruction(
                main@,
                match outside::json_value(unfenced(a@)) {
                    Some(j) => j,
                    None => json::JsonText::Null,
                },
            ),
            None => main@.instruction,
        },
{
    match answer {
        Some(a) => {
            let j = match parse_fenced(a) {
                Some(j) => j,
                None => Json::Null,
            };
            join_instruction(main, &j)
        },
        None => main.instruction.clone(),
    }
}

// ---------------------------------------------------------------------------
// Merging an edit
// ---------------------------------------------------------------------------

/// The file that an answer holds; nothing when it holds none.
pub fn semantic_merge(answer: &str) -> (r: Option<String>)
    ensures
        text::opt_text(r) == (if unfenced(answer@).len() == 0 {
            None
        } else {
            Some(unfenced(answer@))
        }),
{
    let s = strip_fences(answer);
    if s.as_str().is_empty() {
        None
    } else {
        Some(s)
    }
}

// ---------------------------------------------------------------------------
// Laws
// ---------------------------------------------------------------------------

/// A fence before and behind is taken off, with or without the name of the
/// language; what has none only loses the white space around it.
pub proof fn law_fences_are_taken_off(body: Seq<char>)
    requires
        body.len() > 0,
        body[0] != '`',
        body.last() != '`',
    ensures
        text::trimmed("```json"@ + body + "```"@) == "```json"@ + body + "```"@ ==> unfenced(
            "```json"@ + body + "```"@,
        ) == text::trimmed(body),
        text::trimmed("```"@ + body + "```"@) == "```"@ + body + "```"@ && !text::starts(
            "```"@ + body + "```"@,
            "```json"@,
        ) ==> unfenced("```"@ + body + "```"@) == text::trimmed(body),
        text::trimmed(body) == body ==> unfenced(body) == body,
{
    reveal_strlit("```json");
    reveal_strlit("```");
    let f = "```"@;
    let p = "```json"@;
    assert(f.len() == 3 && p.len() == 7 && f[0] == '`' && p[0] == '`' && f[2] == '`');
    let u = body + f;
    lemma_no_fence(u);
    lemma_one_fence_end(body);
    let t = p + body + f;
    assert(t.subrange(0, 7) =~= p);
    assert(t.skip(7) =~= u);
    assert(text::unprefixed(t, p) == text::unprefixed(u, p));
    let w = f + body + f;
    assert(w.subrange(0, 3) =~= f);
    assert(w.skip(3) =~= u);
    assert(text::unprefixed(w, f) == text::unprefixed(u, f));
    lemma_no_fence(body);
    if text::ends(body, f) {
        assert(body.subrange(body.len() - 3, body.len() as int)[2] == body.last());
    }
}

proof fn lemma_no_fence(u: Seq<char>)
    requires
        u.len() > 0,
        u[0] != '`',
    ensures
        text::unprefixed(u, "```json"@) == u,
        text::unprefixed(u, "```"@) == u,
{
    reveal_strlit("```json");
    reveal_strlit("```");
    if text::starts(u, "```json"@) {
        assert(u.subrange(0, 7)[0] == u[0]);
        assert("```json"@[0] == '`');
    }
    if text::starts(u, "```"@) {
        assert(u.subrange(0, 3)[0] == u[0]);
        assert("```"@[0] == '`');
    }
}

proof fn lemma_one_fence_end(body: Seq<char>)
    requires
        body.len() > 0,
        body.last() != '`',
    ensures
        text::unsuffixed(body + "```"@, "```"@) == body,
{
    reveal_strlit("```");
    let f = "```"@;
    let u = body + f;
    assert(f.len() == 3 && f[2] == '`');
    assert(u.subrange(u.len() - 3, u.len() as int) =~= f);
    assert(text::ends(u, f));
    assert(u.take(u.len() - f.len()) =~= body);
    assert(!text::ends(body, f)) by {
        if text::ends(body, f) {
            assert(body.subrange(body.len() - 3, body.len() as int)[2] == body.last());
        }
    }
    assert(text::unsuffixed(body, f) == body);
    assert(text::unsuffixed(u, f) == text::unsuffixed(body, f));
}

/// A message for a commit has no character that a shell would read; one that the
/// rules make starts with the name of the program.
pub proof fn law_commit_messages_are_plain(task: Seq<char>, i: int)
    ensures
        text::starts(plain_message(task), "itsy: "@),
        0 <= i < task.len() ==> !is_unquotable(quotable(task)[i]),
        0 <= i < task.len() && !is_unquotable(task[i]) ==> quotable(task)[i] == task[i],
        quotable(task).len() == task.len(),
        is_unquotable('\n') && is_unquotable('"') && is_unquotable('\'') && is_unquotable('`')
            && is_unquotable('$') && is_unquotable('\\') && is_unquotable('\r'),
{
    text::law_affixes(
        "itsy: "@,
        text::trimmed(quotable(text::head(task, 50))),
        Seq::empty(),
    );
}

/// A message that names its kind stays; another one gets one.
pub proof fn law_commit_messages_have_a_kind(m: Seq<char>)
    ensures
        kinded_message(m, true) == m,
        text::starts(kinded_message(m, false), "chore: "@),
        m.len() <= 65 ==> kinded_message(m, false) == "chore: "@ + m,
{
    text::law_affixes("chore: "@, text::head(m, 65), Seq::empty());
    text::law_head(m, 65);
}

/// What is changed in a commit, a file that needs a summary, and what is asked
/// of a checkpoint.
pub proof fn law_small_decisions(
    files: &Vec<String>,
    list: String,
    content: &str,
    shown: Option<String>,
    answer: Option<CheckpointDecision>,
    decision: CheckpointDecision,
    i: int,
)
    requires
        call_ensures(commit_files, (files,), list),
        call_ensures(summary_input, (content,), shown),
        call_ensures(settle_checkpoint, (answer,), decision),
    ensures
        0 <= i < files@.len() && i < 10 ==> text::has(list@, files@[i]@),
        edit::line_count(content@) < 100 ==> shown is None,
        edit::line_count(content@) >= 100 && text::utf8_len(content@) <= 8000 ==> (
        shown matches Some(s) && s@ == content@),
        answer matches Some(d) ==> decision == d,
        answer is None ==> decision == CheckpointDecision::Approve,
{
    let v = text::texts(files@);
    if 0 <= i < files@.len() && i < 10 {
        assert(v[i] == files@[i]@);
        let w = text::leading(v, 10);
        assert(w[i] == v[i]);
        text::lemma_joined_part(w, ", "@, i);
    }
    text::law_clip(content@, 8000);
}

/// An edit passes unless the answer speaks of an error and of nothing good.
pub proof fn law_edits_pass(l: Seq<char>)
    ensures
        !text::has(l, "error"@) ==> lets_pass(l),
        text::has(l, "ok"@) || text::has(l, "correct"@) || text::has(l, "looks good"@) || text::has(
            l,
            "valid"@,
        ) || text::has(l, "pass"@) ==> lets_pass(l),
        text::has(l, "error"@) && !text::has(l, "ok"@) && !text::has(l, "correct"@) && !text::has(
            l,
            "looks good"@,
        ) && !text::has(l, "valid"@) && !text::has(l, "pass"@) ==> !lets_pass(l),
{
}

/// What was wrong with an edit is told, and only then; without an answer an edit
/// passes.
pub proof fn law_edits_are_judged(answer: &Option<String>, r: ValidateEditResult)
    requires
        call_ensures(validate_edit_compiled, (answer,), r),
    ensures
        r.ok <==> r.issues@.len() == 0,
        *answer is None ==> r.ok,
        *answer matches Some(a) ==> (!r.ok && text::utf8_len(a@) <= 200 ==> r.issues@[0]@ == a@),
{
    let v = text::texts(r.issues@);
    assert(v.len() == r.issues@.len());
    if let Some(a) = *answer {
        text::law_clip(a@, 200);
        if !r.ok {
            assert(v[0] == r.issues@[0]@);
        }
    }
}

/// A diagnosis says what its value says: the kind of error, the file, the line
/// and what to do.
pub proof fn law_diagnosis(j: json::JsonText, s: Seq<char>, n: u64)
    ensures
        j.member_text("type"@) == Some(s) ==> diagnosis_in(j).kind == s,
        j.member_text("type"@) is None ==> diagnosis_in(j).kind == "unknown"@,
        diagnosis_in(j).file == j.member_text("file"@),
        j.member_unsigned("line"@) == Some(n) && n <= u32::MAX ==> diagnosis_in(j).line == Some(
            n as u32,
        ),
        j.member_unsigned("line"@) is None ==> diagnosis_in(j).line is None,
        j.member_text("suggestion"@) == Some(s) && text::utf8_len(s) <= 200 ==> diagnosis_in(
            j,
        ).suggestion == s,
{
    text::law_clip(s, 200);
}

/// One of the four ways to take a task apart is taken as it is named; any other
/// answer means the third.
pub proof fn law_strategies(j: json::JsonText, s: Seq<char>)
    ensures
        j.member_text("strategy"@) == Some("split_file"@) ==> strategy_in(j).strategy
            == "split_file"@,
        j.member_text("strategy"@) == Some("one_error_at_a_time"@) ==> strategy_in(j).strategy
            == "one_error_at_a_time"@,
        j.member_text("strategy"@) == Some("extract_function"@) ==> strategy_in(j).strategy
            == "extract_function"@,
        j.member_text("strategy"@) is None ==> strategy_in(j).strategy == "rewrite_section"@,
        j.member_text("strategy"@) == Some(s) ==> strategy_in(j).strategy == s || strategy_in(
            j,
        ).strategy == "rewrite_section"@,
        j.member_text("instruction"@) == Some(s) && text::utf8_len(s) <= 600 ==> strategy_in(
            j,
        ).instruction == s,
        j.member_text("reason"@) == Some(s) && text::utf8_len(s) <= 300 ==> strategy_in(j).reason
            == s,
{
    text::law_clip(s, 300);
    text::law_clip(s, 600);
}

/// What a second model advises stands behind what the first one did, and names
/// its way where that is another.
pub proof fn law_second_instruction(main: StrategyText, second: json::JsonText, s: Seq<char>, t: Seq<char>)
    requires
        second.member_text("instruction"@) == Some(s),
        second.member_text("strategy"@) == Some(t),
        text::utf8_len(s) <= 400,
    ensures
        text::starts(joined_instruction(main, second), main.instruction),
        s.len() > 0 ==> text::ends(joined_instruction(main, second), s),
        s.len() == 0 ==> joined_instruction(main, second) == main.instruction,
        s.len() > 0 && t != main.strategy ==> text::has(joined_instruction(main, second), t),
{
    text::law_clip(s, 400);
    let m = main.instruction;
    let r = joined_instruction(main, second);
    if s.len() == 0 {
        assert(r.subrange(0, m.len() as int) =~= m);
    } else if t != main.strategy {
        lemma_between(m, "\n[Second opinion — "@, t, "]: "@, s);
    } else {
        lemma_between(m, " "@, Seq::empty(), Seq::empty(), s);
        assert(m + " "@ + Seq::<char>::empty() + Seq::<char>::empty() + s =~= m + " "@ + s);
    }
}

proof fn lemma_between(m: Seq<char>, a: Seq<char>, t: Seq<char>, b: Seq<char>, s: Seq<char>)
    ensures
        text::starts(m + a + t + b + s, m),
        text::ends(m + a + t + b + s, s),
        text::has(m + a + t + b + s, t),
{
    let r = m + a + t + b + s;
    assert(r.subrange(0, m.len() as int) =~= m);
    assert(r.subrange(r.len() - s.len(), r.len() as int) =~= s);
    let k = m.len() + a.len();
    assert(r.subrange(k as int, (k + t.len()) as int) =~= t);
    assert(text::at(r, t, k as int));
}

/// A repair is taken where there is one, and else what went wrong; a message is
/// vague where the model says so, or else by the rules.
pub proof fn law_answers_are_taken(
    answer: Result<String, String>,
    r: RepairResult,
    said: &Option<String>,
    by_rules: bool,
    b: bool,
    name: &str,
    on: bool,
)
    requires
        call_ensures(repair_tool_call, (answer,), r),
        call_ensures(check_needs_clarification, (said, by_rules), b),
        call_ensures(is_features_available, (name,), on),
    ensures
        answer matches Ok(s) ==> r.ok && (r.repaired_call matches Some(t) && t@ == s@)
            && r.error is None,
        answer matches Err(e) ==> !r.ok && r.repaired_call is None && (r.error matches Some(t) && t@
            == e@),
        *said is None ==> b == by_rules,
        *said matches Some(s) ==> (b <==> text::starts(
            outside::lowered(text::trimmed(s@)),
            "vague"@,
        )),
        on <==> name@.len() > 0,
{
}

/// The prompt for taking a task apart holds the task, the errors and the file.
pub proof fn law_decompose_prompt(task: Seq<char>, errors: Seq<char>, file: Seq<char>)
    requires
        task.len() <= 300,
        errors.len() <= 500,
        file.len() <= 1000,
    ensures
        text::has(
            decompose_prompt_text(task, errors, file),
            task + "\nErrors: "@ + errors + "\nFile context: "@ + file,
        ),
{
    text::law_head(task, 300);
    text::law_head(errors, 500);
    text::law_head(file, 1000);
    let a = "A coding task has failed after multiple attempts. Suggest a decomposition strategy.\n\nTask: "@;
    let x = task + "\nErrors: "@ + errors + "\nFile context: "@ + file;
    let t = decompose_prompt_text(task, errors, file);
    let k = a.len() as int;
    assert(t.subrange(k, k + x.len()) =~= x);
    assert(text::at(t, x, k));
}

} // verus!
