//! Running commands: what is not run, and how what was run is answered.

use vstd::prelude::*;

use crate::edit;
use crate::executor::{refuse, run_ended, run_failed, Reply};
use crate::executor;
use crate::executor::files;
use crate::features::ErrorDiagnosis;
use crate::features;
use crate::json::Json;
use crate::outside;
use crate::text;

verus! {

// ---------------------------------------------------------------------------
// Before a command
// ---------------------------------------------------------------------------

/// The command that a call names.
pub fn command_of(tool: &str, args: &Json) -> (r: Result<String, Reply>)
    ensures
        match args@.member_text("command"@) {
            Some(c) => r matches Ok(s) && s@ == c,
            None => r matches Err(e) && e@ == executor::refused(tool@ + ": command missing"@),
        },
{
    match args.get_str("command") {
        Some(c) => Ok(c),
        None => Err(refuse(text::cat2(tool, ": command missing"))),
    }
}

pub const GIT_PATTERN: &'static str =
    r"^git\s+(status|log|diff|add|commit|push|pull|fetch|branch|show)\b";

pub const TEST_PATTERN: &'static str =
    r"^(cargo\s+test|jest|vitest|pytest|go\s+test|npm\s+test|yarn\s+test|pnpm\s+test|rake\s+test|rspec)\b";

pub const BUILD_PATTERN: &'static str =
    r"^(cargo\s+build|cargo\s+clippy|tsc\b|eslint|ruff\s+check|golangci-lint|rubocop)\b";

pub const FIND_PATTERN: &'static str = r"^(ls|find\s|grep\s|rg\s)";

pub const DOCKER_PATTERN: &'static str = r"^docker\s+(ps|images|logs|compose\s+ps)\b";

pub const KUBECTL_PATTERN: &'static str = r"^kubectl\s+(get\s+pods|logs|get\s+services)\b";

pub const PACKAGE_PATTERN: &'static str = r"^(npm\s+list|pnpm\s+list|yarn\s+list)\b";

/// Whether the output of a command is worth shortening.
pub open spec fn is_verbose(command: Seq<char>) -> bool {
    ||| outside::regex_matches(GIT_PATTERN@, command)
    ||| outside::regex_matches(TEST_PATTERN@, command)
    ||| outside::regex_matches(BUILD_PATTERN@, command)
    ||| outside::regex_matches(FIND_PATTERN@, command)
    ||| outside::regex_matches(DOCKER_PATTERN@, command)
    ||| outside::regex_matches(KUBECTL_PATTERN@, command)
    ||| outside::regex_matches(PACKAGE_PATTERN@, command)
}

/// A command as it is run: with the filter for its output before it, when it
/// is wanted and there, and not yet in use.
pub open spec fn rewritten(
    command: Seq<char>,
    enabled: bool,
    installed: bool,
    verbose: bool,
) -> Seq<char> {
    let bare = text::trimmed_start(command);
    if enabled && installed && !text::starts(bare, "rtk "@) && verbose {
        "rtk "@ + bare
    } else {
        command
    }
}

/// A command as it is run, when it is known whether its output is worth
/// shortening.
pub fn rewrite_with(command: &str, enabled: bool, installed: bool, verbose: bool) -> (r: String)
    ensures
        r@ == rewritten(command@, enabled, installed, verbose),
{
    let bare = text::trim_start(command);
    if enabled && installed && !text::starts_with(&bare, "rtk ") && verbose {
        text::cat2("rtk ", &bare)
    } else {
        command.to_owned()
    }
}

/// A command as it is run.
pub fn rtk_rewrite(command: &str, enabled: bool, installed: bool) -> (r: String)
    ensures
        r@ == rewritten(
            command@,
            enabled,
            installed,
            is_verbose(text::trimmed_start(command@)),
        ),
{
    let bare = text::trim_start(command);
    let verbose = outside::regex_is_match(GIT_PATTERN, &bare) || outside::regex_is_match(
        TEST_PATTERN,
        &bare,
    ) || outside::regex_is_match(BUILD_PATTERN, &bare) || outside::regex_is_match(
        FIND_PATTERN,
        &bare,
    ) || outside::regex_is_match(DOCKER_PATTERN, &bare) || outside::regex_is_match(
        KUBECTL_PATTERN,
        &bare,
    ) || outside::regex_is_match(PACKAGE_PATTERN, &bare);
    rewrite_with(command, enabled, installed, verbose)
}

pub const SERVER_FILE_PATTERN: &'static str =
    r"(?i)^(node|python|python3|ruby|php|go run|deno run|bun run)\s+.*\b(server\.(js|py|rb|php|ts)|app\.(js|py|rb|php|ts))\b";

pub const SERVER_PATTERN: &'static str =
    r"(?i)\b(uvicorn|gunicorn|rails\s+s|npm\s+start|yarn\s+start|npm\s+run\s+dev|python3?\s+-m\s+(flask|django|uvicorn|aiohttp\.web|fastapi)|puma|unicorn|passenger)\b";

/// Whether a command starts a server.
pub open spec fn starts_server(command: Seq<char>) -> bool {
    outside::regex_matches(SERVER_FILE_PATTERN@, command) || outside::regex_matches(
        SERVER_PATTERN@,
        command,
    )
}

/// Whether a command would not come to an end.
pub open spec fn blocks(command: Seq<char>, server: bool) -> bool {
    server && !text::has(command, "--check"@) && !text::has(command, "--version"@) && !text::has(
        command,
        "test"@,
    )
}

/// The answer to a command that would not come to an end.
pub open spec fn blocking_reply(command: Seq<char>) -> executor::ReplyText {
    executor::broke(
        "Refused: \""@ + command
            + "\" would start a long-running server that blocks. Use \"node --check <file>\" to verify syntax, or describe what you want to test and I'll use a non-blocking approach."@,
        "Blocking command detected"@,
        command,
    )
}

/// Why a command is not run, when it is known whether it starts a server.
pub fn refuse_server(command: &str, server: bool) -> (r: Option<Reply>)
    ensures
        if blocks(command@, server) {
            r matches Some(x) && x@ == blocking_reply(command@)
        } else {
            r is None
        },
{
    if server && !text::contains(command, "--check") && !text::contains(command, "--version")
        && !text::contains(command, "test") {
        let result = text::cat3(
            "Refused: \"",
            command,
            "\" would start a long-running server that blocks. Use \"node --check <file>\" to verify syntax, or describe what you want to test and I'll use a non-blocking approach.",
        );
        Some(run_failed(result, "Blocking command detected".to_owned(), command))
    } else {
        None
    }
}

/// Why a command is not run: it would start a server.
pub fn refuse_blocking(command: &str) -> (r: Option<Reply>)
    ensures
        if blocks(command@, starts_server(command@)) {
            r matches Some(x) && x@ == blocking_reply(command@)
        } else {
            r is None
        },
{
    let server = outside::regex_is_match(SERVER_FILE_PATTERN, command) || outside::regex_is_match(
        SERVER_PATTERN,
        command,
    );
    refuse_server(command, server)
}

pub const SCRIPT_PATTERN: &'static str = r#"(?:^|\s)(python3?|node|ruby)\s+["']?([^\s"']+)"#;

pub const LEADING_SCRIPT_PATTERN: &'static str = r#"^(python3?|node|ruby)\s+["']?([^\s"']+)"#;

/// The script that a shell command runs.
pub fn script_of(command: &str) -> (r: Option<String>)
    ensures
        text::opt_text(r) == outside::regex_captured(SCRIPT_PATTERN@, command@, 2),
{
    outside::regex_group(SCRIPT_PATTERN, command, 2)
}

/// The script with which a command starts.
pub fn leading_script_of(command: &str) -> (r: Option<String>)
    ensures
        text::opt_text(r) == outside::regex_captured(LEADING_SCRIPT_PATTERN@, command@, 2),
{
    outside::regex_group(LEADING_SCRIPT_PATTERN, command, 2)
}

/// Whether a script waits for what is typed.
pub open spec fn waits_for_input(content: Seq<char>) -> bool {
    ||| text::has(content, "input("@)
    ||| text::has(content, "readline.question"@)
    ||| text::has(content, "process.stdin.on"@)
}

/// Whether a shell command would wait for what is typed.
pub open spec fn is_interactive(command: Seq<char>, content: Seq<char>) -> bool {
    !text::has(command, "--check"@) && !text::has(command, "-c"@) && !text::has(command, "-m"@)
        && waits_for_input(content)
}

/// Why a shell command is not run: the script that it runs, with the given
/// content, would wait for what is typed.
pub fn refuse_interactive(command: &str, target: &str, content: &str) -> (r: Option<Reply>)
    ensures
        if is_interactive(command@, content@) {
            r matches Some(x) && x@ == executor::broke(
                "Refused: \""@ + command@
                    + "\" — file contains interactive input() calls that block in non-interactive mode. File created successfully. Verify syntax: python -m py_compile "@
                    + target@,
                "Interactive script detected"@,
                command@,
            )
        } else {
            r is None
        },
{
    if !text::contains(command, "--check") && !text::contains(command, "-c") && !text::contains(
        command,
        "-m",
    ) && (text::contains(content, "input(") || text::contains(content, "readline.question")
        || text::contains(content, "process.stdin.on")) {
        let result = text::cat4(
            "Refused: \"",
            command,
            "\" — file contains interactive input() calls that block in non-interactive mode. File created successfully. Verify syntax: python -m py_compile ",
            target,
        );
        Some(run_failed(result, "Interactive script detected".to_owned(), command))
    } else {
        None
    }
}

// ---------------------------------------------------------------------------
// After a command
// ---------------------------------------------------------------------------

/// An output of at most `max` bytes, or its start and its end.
pub open spec fn short_output(s: Seq<char>, max: int) -> Seq<char> {
    if text::utf8_len(s) <= max {
        s
    } else {
        text::clip(
            s,
            if max > 500 {
                max - 500
            } else {
                0
            },
        ) + "\n...(truncated)...\n"@ + text::clip_end(s, 300)
    }
}

/// An output of at most `max` bytes, or its start and its end.
pub fn trim_output(s: &str, max: usize) -> (r: String)
    ensures
        r@ == short_output(s@, max as int),
{
    if text::byte_len(s) <= max {
        return s.to_owned();
    }
    let n: usize = if max > 500 {
        max - 500
    } else {
        0
    };
    let head = text::clip_bytes(s, n);
    let tail = text::clip_bytes_end(s, 300);
    text::cat3(&head, "\n...(truncated)...\n", &tail)
}

/// The last statement of a command line.
pub open spec fn last_statement(command: Seq<char>) -> Seq<char> {
    let piped = text::trimmed(text::behind_last(text::trimmed(command), "|"@));
    let chained = text::trimmed(text::behind_last(piped, "&&"@));
    text::trimmed(text::behind_last(chained, ";"@))
}

/// Whether a command line ends with a search, which fails when it finds
/// nothing.
pub open spec fn searches(command: Seq<char>) -> bool {
    let ws = text::words(last_statement(command));
    ws.len() > 0 && (ws[0] == "grep"@ || ws[0] == "rg"@ || ws[0] == "egrep"@ || ws[0] == "fgrep"@)
}

/// Whether a command line ends with a search.
pub fn is_grep_command(command: &str) -> (r: bool)
    ensures
        r == searches(command@),
{
    let t = text::trim(command);
    let piped = text::trim(&text::after_last(&t, "|"));
    let chained = text::trim(&text::after_last(&piped, "&&"));
    let last = text::trim(&text::after_last(&chained, ";"));
    let ws = text::words_of(&last);
    assert(text::texts(ws@).len() == ws@.len());
    if ws.len() == 0 {
        return false;
    }
    assert(text::texts(ws@)[0] == ws@[0]@);
    let first = ws[0].as_str();
    text::same(first, "grep") || text::same(first, "rg") || text::same(first, "egrep")
        || text::same(first, "fgrep")
}

/// What a shell made of a command.
#[derive(Debug)]
pub struct ShellRun {
    pub stdout: String,
    pub timed_out: bool,
    pub error: Option<String>,
    pub exit_code: i32,
}

/// What follows on a command.
#[derive(Debug)]
pub enum BashStep {
    Done(Reply),
    /// The command failed with this output, and an explanation may be sought.
    Diagnose { body: String, exit_code: i32 },
}

pub ghost enum BashPlan {
    Done(executor::ReplyText),
    Diagnose { body: Seq<char>, exit_code: i32 },
}

impl View for BashStep {
    type V = BashPlan;

    open spec fn view(&self) -> BashPlan {
        match self {
            BashStep::Done(r) => BashPlan::Done(r@),
            BashStep::Diagnose { body, exit_code } => BashPlan::Diagnose {
                body: body@,
                exit_code: *exit_code,
            },
        }
    }
}

pub open spec fn or_else(s: Seq<char>, default: Seq<char>) -> Seq<char> {
    if s.len() == 0 {
        default
    } else {
        s
    }
}

fn or(s: String, default: &str) -> (r: String)
    ensures
        r@ == or_else(s@, default@),
{
    if s.as_str().is_empty() {
        default.to_owned()
    } else {
        s
    }
}

/// How many bytes of an output are kept.
pub open spec fn output_cap(window: u32) -> int {
    if window < 64_000 {
        1500
    } else {
        3000
    }
}

/// What follows on a command in the shell of the session.
pub open spec fn settled(
    command: Seq<char>,
    stdout: Seq<char>,
    timed_out: bool,
    error: Option<Seq<char>>,
    exit_code: i32,
    window: u32,
) -> BashPlan {
    let out = short_output(stdout, output_cap(window));
    if timed_out {
        BashPlan::Done(
            executor::broke(
                or_else(out, "(no output before timeout)"@),
                "Timed out (killed after 30s)"@,
                command,
            ),
        )
    } else if error is Some {
        BashPlan::Done(executor::broke(out, error->0, command))
    } else if exit_code == 1 && out.len() == 0 && searches(command) {
        BashPlan::Done(executor::ran("(no matches found)"@, command))
    } else if exit_code != 0 {
        BashPlan::Diagnose { body: or_else(out, "(no output)"@), exit_code }
    } else {
        BashPlan::Done(executor::ran(or_else(out, "(no output)"@), command))
    }
}

/// What follows on a command in the shell of the session. A search that finds
/// nothing is no failure.
pub fn settle_shell(command: &str, run: &ShellRun, window: u32) -> (r: BashStep)
    ensures
        r@ == settled(
            command@,
            run.stdout@,
            run.timed_out,
            text::opt_text(run.error),
            run.exit_code,
            window,
        ),
{
    let max: usize = if window < 64_000 {
        1500
    } else {
        3000
    };
    let out = trim_output(&run.stdout, max);
    if run.timed_out {
        return BashStep::Done(
            run_failed(
                or(out, "(no output before timeout)"),
                "Timed out (killed after 30s)".to_owned(),
                command,
            ),
        );
    }
    match &run.error {
        Some(e) => {
            return BashStep::Done(run_failed(out, e.clone(), command));
        },
        None => {},
    }
    if run.exit_code != 0 {
        if run.exit_code == 1 && out.as_str().is_empty() && is_grep_command(command) {
            return BashStep::Done(run_ended("(no matches found)".to_owned(), command));
        }
        return BashStep::Diagnose { body: or(out, "(no output)"), exit_code: run.exit_code };
    }
    BashStep::Done(run_ended(or(out, "(no output)"), command))
}

/// The code with which a command ended, minus one when it was stopped.
pub open spec fn exit_code_or(code: Option<i32>) -> i32 {
    match code {
        Some(c) => c,
        None => -1i32,
    }
}

/// What follows on a command in a shell of its own. It ends with a code, or
/// with none when it was stopped.
pub open spec fn settled_once(
    command: Seq<char>,
    output: Seq<char>,
    success: bool,
    code: Option<i32>,
) -> BashPlan {
    let out = short_output(output, 3000);
    let exit_code = exit_code_or(code);
    if success {
        BashPlan::Done(executor::ran(or_else(out, "(no output)"@), command))
    } else if exit_code == 1 && out.len() == 0 && searches(command) {
        BashPlan::Done(executor::ran("(no matches found)"@, command))
    } else {
        BashPlan::Diagnose { body: out, exit_code }
    }
}

/// What follows on a command in a shell of its own.
pub fn settle_once(command: &str, output: &str, success: bool, code: Option<i32>) -> (r: BashStep)
    ensures
        r@ == settled_once(command@, output@, success, code),
{
    let out = trim_output(output, 3000);
    if success {
        return BashStep::Done(run_ended(or(out, "(no output)"), command));
    }
    let exit_code: i32 = match code {
        Some(c) => c,
        None => -1,
    };
    if exit_code == 1 && out.as_str().is_empty() && is_grep_command(command) {
        return BashStep::Done(run_ended("(no matches found)".to_owned(), command));
    }
    BashStep::Diagnose { body: out, exit_code }
}

/// The answer when a command could not be run at all; `shown` is what of the
/// reason may be shown.
pub fn not_run(command: &str, shown: &str, reason: &str) -> (r: Reply)
    ensures
        r@ == executor::broke(shown@, reason@, command@),
{
    run_failed(shown.to_owned(), reason.to_owned(), command)
}

/// A search that finds nothing is answered as such, never as a failure.
pub proof fn law_search_is_no_failure(command: Seq<char>, window: u32)
    requires
        searches(command),
    ensures
        settled(command, Seq::empty(), false, None, 1, window) == BashPlan::Done(
            executor::ran("(no matches found)"@, command),
        ),
        settled_once(command, Seq::empty(), false, Some(1)) == BashPlan::Done(
            executor::ran("(no matches found)"@, command),
        ),
{
}

/// Where a failure lies.
pub open spec fn diagnosis_place(d: features::DiagnosisText) -> Seq<char> {
    match d.file {
        Some(f) => match d.line {
            Some(l) => " in "@ + f + ":"@ + text::decimal(l as nat),
            None => " in "@ + f,
        },
        None => Seq::empty(),
    }
}

/// An output with an explanation before it.
pub open spec fn diagnosed(output: Seq<char>, d: features::DiagnosisText) -> Seq<char> {
    "[ERROR-DIAGNOSIS] Type: "@ + d.kind + diagnosis_place(d) + ". Fix: "@ + d.suggestion + "\n\n"@
        + output
}

/// An output with the explanation before it that there is, if any.
pub fn prepend_error_diagnosis(output: &str, diagnosis: &Option<ErrorDiagnosis>) -> (r: String)
    ensures
        r@ == match *diagnosis {
            Some(d) => diagnosed(output@, d@),
            None => output@,
        },
{
    match diagnosis {
        None => output.to_owned(),
        Some(d) => {
            let place: String = match &d.file {
                Some(f) => match d.line {
                    Some(l) => {
                        let n = text::number(l as u64);
                        text::cat4(" in ", f, ":", &n)
                    },
                    None => text::cat2(" in ", f),
                },
                None => {
                    let e = String::new();
                    assert(e@ =~= Seq::<char>::empty());
                    e
                },
            };
            text::cat7(
                "[ERROR-DIAGNOSIS] Type: ",
                &d.kind,
                &place,
                ". Fix: ",
                &d.suggestion,
                "\n\n",
                output,
            )
        },
    }
}

/// The answer when a command failed.
pub fn failure_reply(
    command: &str,
    body: &str,
    exit_code: i32,
    diagnosis: &Option<ErrorDiagnosis>,
) -> (r: Reply)
    ensures
        r@ == executor::broke(
            match *diagnosis {
                Some(d) => diagnosed(body@, d@),
                None => body@,
            },
            "Exit code "@ + text::decimal_int(exit_code as int),
            command@,
        ),
{
    let result = prepend_error_diagnosis(body, diagnosis);
    let code = text::signed_number(exit_code as i64);
    run_failed(result, text::cat2("Exit code ", &code), command)
}

// ---------------------------------------------------------------------------
// Running a script
// ---------------------------------------------------------------------------

/// Whether a script that is run by itself waits for what is typed.
pub open spec fn reads_input(content: Seq<char>) -> bool {
    ||| text::has(content, "input("@)
    ||| text::has(content, "readline"@)
    ||| text::has(content, "process.stdin"@)
}

/// Why a command is not run: the script with which it starts, with the given
/// content, would wait for what is typed.
pub fn refuse_run(command: &str, content: &str) -> (r: Option<Reply>)
    ensures
        if reads_input(content@) {
            r matches Some(x) && x@ == executor::broke(
                "Refused: \""@ + command@ + "\" — interactive input detected."@,
                "Interactive script"@,
                command@,
            )
        } else {
            r is None
        },
{
    if text::contains(content, "input(") || text::contains(content, "readline") || text::contains(
        content,
        "process.stdin",
    ) {
        let result = text::cat3("Refused: \"", command, "\" — interactive input detected.");
        Some(run_failed(result, "Interactive script".to_owned(), command))
    } else {
        None
    }
}

/// The longest start of a text that takes at most `n` bytes.
pub fn truncate(s: &str, n: usize) -> (r: String)
    ensures
        r@ == text::clip(s@, n as int),
{
    text::clip_bytes(s, n)
}

/// How long a command may run, in seconds.
pub fn run_timeout(args: &Json) -> (r: u64)
    ensures
        r == match args@.member_unsigned("timeout"@) {
            Some(n) => n,
            None => 30,
        },
{
    match args.get_u64("timeout") {
        Some(n) => n,
        None => 30,
    }
}

/// The answer of a command: its output, or its output and the code with which
/// it failed.
pub fn run_reply(command: &str, outcome: &Result<String, (String, i32)>) -> (r: Reply)
    ensures
        r@ == match *outcome {
            Ok(out) => executor::ran(text::clip(out@, 3000), command@),
            Err((out, code)) => executor::broke(
                "EXIT "@ + text::decimal_int(code as int) + ": "@ + text::clip(out@, 2500),
                "Exit "@ + text::decimal_int(code as int),
                command@,
            ),
        },
{
    match outcome {
        Ok(out) => run_ended(truncate(out, 3000), command),
        Err((out, code)) => {
            let n = text::signed_number(*code as i64);
            let shown = truncate(out, 2500);
            run_failed(
                text::cat4("EXIT ", &n, ": ", &shown),
                text::cat2("Exit ", &n),
                command,
            )
        },
    }
}

/// What is known of a command that ended.
pub open spec fn shell_outcome(output: Seq<char>, success: bool, code: Option<i32>) -> Result<
    Seq<char>,
    (Seq<char>, i32),
> {
    if success {
        Ok(output)
    } else {
        Err((output, exit_code_or(code)))
    }
}

pub open spec fn outcome_text(r: Result<String, (String, i32)>) -> Result<
    Seq<char>,
    (Seq<char>, i32),
> {
    match r {
        Ok(s) => Ok(s@),
        Err((s, c)) => Err((s@, c)),
    }
}

/// What is known of a command that ended: what it wrote, and how it failed.
pub fn end_of_run(stdout: &str, stderr: &str, success: bool, code: Option<i32>) -> (r: Result<
    String,
    (String, i32),
>)
    ensures
        outcome_text(r) == shell_outcome(stdout@ + stderr@, success, code),
{
    let out = text::cat2(stdout, stderr);
    if success {
        Ok(out)
    } else {
        let c: i32 = match code {
            Some(c) => c,
            None => -1,
        };
        Err((out, c))
    }
}

// ---------------------------------------------------------------------------
// A file that is made and run
// ---------------------------------------------------------------------------

/// Why a file is not made.
pub fn refuse_create(content: &str) -> (r: Option<Reply>)
    ensures
        if text::utf8_len(content@) > files::MAX_CONTENT_BYTES {
            r matches Some(x) && x@ == executor::refused(
                "create_and_run: content too large ("@ + text::decimal(edit::line_count(content@))
                    + " lines). Use write_file (skeleton) + append_file (sections) + bash to run."@,
            )
        } else {
            r is None
        },
{
    if text::byte_len(content) > files::MAX_CONTENT_BYTES {
        let n = text::number(edit::count_lines(content));
        Some(
            refuse(
                text::cat3(
                    "create_and_run: content too large (",
                    &n,
                    " lines). Use write_file (skeleton) + append_file (sections) + bash to run.",
                ),
            ),
        )
    } else {
        None
    }
}

/// Whether a new file is one that waits for what is typed.
pub open spec fn asks_for_input(content: Seq<char>) -> bool {
    ||| text::has(content, "input("@)
    ||| text::has(content, "readline"@)
    ||| text::has(content, "process.stdin"@)
    ||| text::has(content, "Scanner("@)
    ||| text::has(content, "gets"@)
    ||| text::has(content, "read()"@)
}

/// Whether the command that goes with a new file is run.
pub fn runs_created(args: &Json, content: &str) -> (r: Option<String>)
    ensures
        text::opt_text(r) == (if asks_for_input(content@) {
            None
        } else {
            args@.member_text("command"@)
        }),
{
    if text::contains(content, "input(") || text::contains(content, "readline") || text::contains(
        content,
        "process.stdin",
    ) || text::contains(content, "Scanner(") || text::contains(content, "gets") || text::contains(
        content,
        "read()",
    ) {
        None
    } else {
        args.get_str("command")
    }
}

/// The answer when a file was made, and its command, if any, was run with an
/// outcome.
pub open spec fn create_and_run_reply(
    path: Seq<char>,
    content: Seq<char>,
    command: Option<Seq<char>>,
    outcome: Result<Seq<char>, Seq<char>>,
) -> executor::ReplyText {
    let lines = edit::line_count(content) as u64;
    let start = files::created_text(path, content);
    match command {
        None => files::created(start, path, lines),
        Some(c) => if asks_for_input(content) {
            files::created(
                start + "\n⚠ File contains interactive input calls. Skipping execution."@,
                path,
                lines,
            )
        } else {
            match outcome {
                Ok(out) => files::created(
                    start + "\n$ "@ + c + "\n"@ + text::clip(out, 2000),
                    path,
                    lines,
                ),
                Err(out) => executor::ReplyText {
                    error: Some("Command failed"@),
                    ..files::created(
                        start + "\n$ "@ + c + "\nFAILED:\n"@ + text::clip(out, 2000),
                        path,
                        lines,
                    )
                },
            }
        },
    }
}

/// The answer when a file was made, and its command, if any, was run with an
/// outcome.
pub fn created_and_run(
    path: &str,
    content: &str,
    args: &Json,
    outcome: &Result<String, String>,
) -> (r: Reply)
    ensures
        r@ == create_and_run_reply(
            path@,
            content@,
            args@.member_text("command"@),
            match *outcome {
                Ok(s) => Ok(s@),
                Err(s) => Err(s@),
            },
        ),
{
    let mut r = files::write_reply(path, content);
    let ghost start = r@;
    let n = text::number(edit::count_lines(content));
    let start_text = text::cat5("Created ", path, " (", &n, " lines)");
    match args.get_str("command") {
        None => r,
        Some(c) => match runs_created(args, content) {
            None => {
                r.result = Some(
                    text::cat2(
                        &start_text,
                        "\n⚠ File contains interactive input calls. Skipping execution.",
                    ),
                );
                r
            },
            Some(_) => match outcome {
                Ok(out) => {
                    let shown = truncate(out, 2000);
                    r.result = Some(text::cat5(&start_text, "\n$ ", &c, "\n", &shown));
                    r
                },
                Err(out) => {
                    let shown = truncate(out, 2000);
                    r.result = Some(text::cat5(&start_text, "\n$ ", &c, "\nFAILED:\n", &shown));
                    r.error = Some("Command failed".to_owned());
                    r
                },
            },
        },
    }
}

// ---------------------------------------------------------------------------
// Laws
// ---------------------------------------------------------------------------

proof fn lemma_short_output(s: Seq<char>, max: int)
    requires
        max >= 1500,
    ensures
        text::utf8_len(s) <= max ==> short_output(s, max) == s,
        (short_output(s, max).len() == 0) == (s.len() == 0),
{
    reveal_strlit("\n...(truncated)...\n");
    text::lemma_utf8_len_bounds(s);
}

/// An output that fits is kept as it is. Of a longer one the beginning and the
/// end are, with a note between them: all but five hundred of the bytes allowed
/// at the beginning, three hundred at the end, as far as whole characters go.
pub proof fn law_output_keeps_its_ends(s: Seq<char>, max: int)
    requires
        max >= 500,
    ensures
        text::utf8_len(s) <= max ==> short_output(s, max) == s,
        text::utf8_len(s) > max ==> exists|i: int, j: int|
            {
                &&& 0 <= i < s.len()
                &&& 0 < j <= s.len()
                &&& short_output(s, max) == #[trigger] s.take(i) + "\n...(truncated)...\n"@
                    + #[trigger] s.skip(j)
                &&& text::utf8_len(s.take(i)) <= max - 500 < text::utf8_len(s.take(i + 1))
                &&& text::utf8_len(s.skip(j)) <= 300 < text::utf8_len(s.skip(j - 1))
            },
{
    if text::utf8_len(s) > max {
        text::law_clip(s, max - 500);
        let c = text::clip(s, max - 500);
        let i = c.len() as int;
        assert(c =~= s.take(i));
        if i == s.len() {
            assert(s.take(i) =~= s);
        }
        text::law_clip_end(s, 300);
        let j = choose|j: int|
            {
                &&& 0 <= j <= s.len()
                &&& text::clip_end(s, 300) == #[trigger] s.skip(j)
                &&& text::utf8_len(s.skip(j)) <= 300
                &&& j > 0 ==> text::utf8_len(s.skip(j - 1)) > 300
            };
        if j == 0 {
            assert(s.skip(0) =~= s);
        }
        assert(short_output(s, max) == s.take(i) + "\n...(truncated)...\n"@ + s.skip(j));
    }
}

/// A command that ended in time and without trouble of the shell has succeeded
/// exactly when its exit code is 0, or when it is 1, nothing was written and the
/// command line ends with a search. Otherwise it has failed, and the failure
/// carries its exit code and what it wrote.
pub proof fn law_failures_are_reported(
    command: Seq<char>,
    stdout: Seq<char>,
    exit_code: i32,
    window: u32,
)
    ensures
        ({
            let r = settled(command, stdout, false, None, exit_code, window);
            let room: nat = if window < 64_000 {
                1500
            } else {
                3000
            };
            let nothing_found = exit_code == 1 && stdout.len() == 0 && searches(command);
            &&& exit_code == 0 || nothing_found <==> r is Done
            &&& r matches BashPlan::Done(x) ==> x.error is None && x.command == Some(command)
                && x.result is Some && x.action is None && x.path is None
            &&& exit_code == 0 && stdout.len() > 0 && text::utf8_len(stdout) <= room ==> (
            r matches BashPlan::Done(x) && x.result == Some(stdout))
            &&& exit_code == 0 && stdout.len() == 0 ==> (r matches BashPlan::Done(x) && x.result
                == Some("(no output)"@))
            &&& nothing_found ==> (r matches BashPlan::Done(x) && x.result == Some(
                "(no matches found)"@,
            ))
            &&& r matches BashPlan::Diagnose { body, exit_code: code } ==> {
                &&& code == exit_code
                &&& stdout.len() == 0 ==> body == "(no output)"@
                &&& stdout.len() > 0 && text::utf8_len(stdout) <= room ==> body == stdout
                &&& text::utf8_len(stdout) > room ==> body == short_output(stdout, room as int)
            }
        }),
{
    let room = output_cap(window);
    lemma_short_output(stdout, room);
    text::lemma_utf8_len_bounds(stdout);
}

/// A command in a shell of its own is answered likewise; one that was stopped
/// before it ended has failed with the code minus one.
pub proof fn law_failures_are_reported_once(
    command: Seq<char>,
    output: Seq<char>,
    success: bool,
    code: Option<i32>,
)
    ensures
        ({
            let r = settled_once(command, output, success, code);
            let nothing_found = !success && code == Some(1i32) && output.len() == 0 && searches(
                command,
            );
            &&& success || nothing_found <==> r is Done
            &&& r matches BashPlan::Done(x) ==> x.error is None && x.command == Some(command)
            &&& success && output.len() > 0 && text::utf8_len(output) <= 3000 ==> (
            r matches BashPlan::Done(x) && x.result == Some(output))
            &&& nothing_found ==> (r matches BashPlan::Done(x) && x.result == Some(
                "(no matches found)"@,
            ))
            &&& r matches BashPlan::Diagnose { body, exit_code } ==> {
                &&& code matches Some(c) ==> exit_code == c
                &&& code is None ==> exit_code == -1
                &&& text::utf8_len(output) <= 3000 ==> body == output
            }
        }),
{
    lemma_short_output(output, 3000);
    text::lemma_utf8_len_bounds(output);
}

/// A command that ran out of time, or whose shell had trouble, is answered with
/// an error, whatever its exit code is, and with what it wrote so far.
pub proof fn law_trouble_is_an_error(
    command: Seq<char>,
    stdout: Seq<char>,
    timed_out: bool,
    error: Option<Seq<char>>,
    exit_code: i32,
    window: u32,
)
    requires
        timed_out || error is Some,
    ensures
        settled(command, stdout, timed_out, error, exit_code, window) matches BashPlan::Done(x) && {
            &&& x.error is Some
            &&& x.command == Some(command)
            &&& !timed_out ==> x.error == error
            &&& timed_out ==> x.error == Some("Timed out (killed after 30s)"@)
            &&& stdout.len() > 0 && text::utf8_len(stdout) <= 1500 ==> x.result == Some(stdout)
        },
{
    lemma_short_output(stdout, output_cap(window));
    text::lemma_utf8_len_bounds(stdout);
}

/// The answer to a failure names its exit code as the error, and shows what the
/// command wrote, behind the explanation when there is one.
pub proof fn law_failure_names_its_code(
    command: &str,
    body: &str,
    exit_code: i32,
    diagnosis: &Option<ErrorDiagnosis>,
    r: Reply,
)
    requires
        call_ensures(failure_reply, (command, body, exit_code, diagnosis), r),
    ensures
        r@.error == Some("Exit code "@ + text::decimal_int(exit_code as int)),
        r@.command == Some(command@),
        diagnosis is None ==> r@.result == Some(body@),
        diagnosis is Some ==> (r@.result matches Some(s) && text::ends(s, body@)),
{
    if diagnosis is Some {
        let s = r@.result->0;
        let n = s.len() as int;
        assert(s.subrange(n - body@.len(), n) =~= body@);
    }
}

proof fn lemma_no_separator(s: Seq<char>, p: Seq<char>, c: char)
    requires
        p.len() > 0,
        p[0] == c,
        !s.contains(c),
    ensures
        text::behind_last(s, p) == s,
{
    text::lemma_last_at(s, p, s.len() as int);
    if text::last_at(s, p, s.len() as int) is Some {
        let k = text::last_at(s, p, s.len() as int)->0;
        assert(s.subrange(k, k + p.len())[0] == s[k]);
        assert(s.contains(s[k]));
    }
}

proof fn lemma_trimmed_without(s: Seq<char>, c: char)
    requires
        !s.contains(c),
    ensures
        !text::trimmed(s).contains(c),
{
    text::law_trimmed(s);
    let (i, j) = choose|i: int, j: int|
        {
            &&& 0 <= i <= j <= s.len()
            &&& text::trimmed(s) == #[trigger] s.subrange(i, j)
            &&& forall|k: int| 0 <= k < i || j <= k < s.len() ==> text::white(#[trigger] s[k])
        };
    if text::trimmed(s).contains(c) {
        let k = choose|k: int| 0 <= k < s.subrange(i, j).len() && s.subrange(i, j)[k] == c;
        assert(s[i + k] == c);
    }
}

/// A plain command line is a search exactly when its first word is `grep`, `rg`,
/// `egrep` or `fgrep`.
pub proof fn law_searches_are_told_by_name(w: Seq<char>, rest: Seq<char>)
    requires
        w.len() > 0,
        forall|i: int| 0 <= i < w.len() ==> !text::white(#[trigger] w[i]),
        !w.contains('|') && !w.contains('&') && !w.contains(';'),
        rest.len() == 0 || (rest[0] == ' ' && !text::white(rest.last())),
        !rest.contains('|') && !rest.contains('&') && !rest.contains(';'),
    ensures
        searches(w + rest) <==> (w == "grep"@ || w == "rg"@ || w == "egrep"@ || w == "fgrep"@),
{
    reveal_strlit("|");
    reveal_strlit("&&");
    reveal_strlit(";");
    let s = w + rest;
    assert(!s.contains('|') && !s.contains('&') && !s.contains(';')) by {
        assert forall|c: char| s.contains(c) implies w.contains(c) || rest.contains(c) by {
            let k = choose|k: int| 0 <= k < s.len() && s[k] == c;
            if k < w.len() {
                assert(w[k] == c);
            } else {
                assert(rest[k - w.len()] == c);
            }
        }
    }
    assert(!text::white(s[0]));
    assert(!text::white(s.last())) by {
        if rest.len() == 0 {
            assert(s.last() == w[w.len() - 1]);
        }
    }
    assert(text::trimmed(s) == s);
    lemma_no_separator(s, "|"@, '|');
    lemma_no_separator(s, "&&"@, '&');
    lemma_no_separator(s, ";"@, ';');
    assert(last_statement(s) == s);
    if rest.len() == 0 {
        assert(s =~= w);
        text::law_words(w, ' ', rest);
    } else {
        let tail = rest.drop_first();
        assert(rest =~= seq![' '] + tail);
        text::law_words(w, ' ', tail);
        assert(text::words(s)[0] == w);
    }
}

proof fn lemma_start_kept(a: Seq<char>, b: Seq<char>) -> (x: Seq<char>)
    requires
        b.len() > 0,
        !text::white(b[0]),
    ensures
        text::trimmed_start(a + b) == x + b,
    decreases a.len(),
{
    let s = a + b;
    if a.len() > 0 && text::white(a[0]) {
        assert(s.drop_first() =~= a.drop_first() + b);
        lemma_start_kept(a.drop_first(), b)
    } else {
        assert(s[0] == if a.len() > 0 {
            a[0]
        } else {
            b[0]
        });
        a
    }
}

proof fn lemma_end_kept(a: Seq<char>, b: Seq<char>)
    requires
        a.len() > 0,
        !text::white(a.last()),
    ensures
        text::trimmed_end(a + b) == a + text::trimmed_end(b),
    decreases b.len(),
{
    let s = a + b;
    if b.len() == 0 {
        assert(s =~= a);
        assert(a + text::trimmed_end(b) =~= a);
    } else {
        assert(s.drop_last() =~= a + b.drop_last());
        lemma_end_kept(a, b.drop_last());
    }
}

proof fn lemma_trimmed_around(a: Seq<char>, sep: Seq<char>, b: Seq<char>) -> (x: Seq<char>)
    requires
        sep.len() > 0,
        !text::white(sep[0]),
        !text::white(sep.last()),
    ensures
        text::trimmed(a + sep + b) == x + sep + text::trimmed_end(b),
{
    assert(a + sep + b =~= a + (sep + b));
    let x = lemma_start_kept(a, sep + b);
    assert(x + (sep + b) =~= x + sep + b);
    lemma_end_kept(x + sep, b);
    x
}

proof fn lemma_end_of(b: Seq<char>, c: char)
    requires
        !b.contains(c),
    ensures
        !text::trimmed_end(b).contains(c),
        text::trimmed_end(text::trimmed_end(b)) == text::trimmed_end(b),
    decreases b.len(),
{
    if b.len() > 0 && text::white(b.last()) {
        let d = b.drop_last();
        if d.contains(c) {
            let k = choose|k: int| 0 <= k < d.len() && d[k] == c;
            assert(b[k] == c);
        }
        lemma_end_of(d, c);
    }
}

proof fn lemma_trimmed_of_end(b: Seq<char>)
    ensures
        text::trimmed(text::trimmed_end(b)) == text::trimmed(b),
    decreases b.len(),
{
    if b.len() > 0 && text::white(b.last()) {
        let d = b.drop_last();
        lemma_trimmed_of_end(d);
        lemma_trimmed_push(d, b.last());
        assert(d.push(b.last()) =~= b);
    }
}

proof fn lemma_trimmed_push(d: Seq<char>, c: char)
    requires
        text::white(c),
    ensures
        text::trimmed(d.push(c)) == text::trimmed(d),
    decreases d.len(),
{
    let s = d.push(c);
    if d.len() > 0 && text::white(d[0]) {
        assert(s.drop_first() =~= d.drop_first().push(c));
        lemma_trimmed_push(d.drop_first(), c);
    } else if d.len() > 0 {
        assert(s.drop_last() =~= d);
    } else {
        assert(s.drop_first() =~= d);
    }
}

proof fn lemma_behind(a: Seq<char>, sep: Seq<char>, b: Seq<char>, p: Seq<char>, c: char) -> (x: Seq<
    char,
>)
    requires
        p.len() > 0,
        forall|i: int| 0 <= i < p.len() ==> #[trigger] p[i] == c,
        sep.len() > 0,
        !sep.contains(c),
        !b.contains(c),
    ensures
        text::behind_last(a + sep + b, p) == x + sep + b,
{
    let s = a + sep + b;
    text::lemma_last_at(s, p, s.len() as int);
    match text::last_at(s, p, s.len() as int) {
        Some(k) => {
            assert(s.subrange(k, k + p.len())[0] == s[k]);
            if k >= a.len() + sep.len() {
                assert(b[k - a.len() - sep.len()] == c);
            } else if k >= a.len() {
                assert(sep[k - a.len()] == c);
            }
            // The separator looked for ends within `a`, for none of it is in `sep`.
            if k + p.len() > a.len() {
                lemma_uniform(s, p, k);
                assert(s[a.len() as int] == p[a.len() - k]);
                assert(sep.contains(sep[0]));
            }
            let x = a.skip(k + p.len());
            assert(s.skip(k + p.len()) =~= x + sep + b);
            x
        },
        None => a,
    }
}

proof fn lemma_uniform(s: Seq<char>, p: Seq<char>, k: int)
    requires
        text::at(s, p, k),
    ensures
        forall|i: int| 0 <= i < p.len() ==> s[k + i] == #[trigger] p[i],
{
    assert forall|i: int| 0 <= i < p.len() implies s[k + i] == #[trigger] p[i] by {
        assert(s.subrange(k, k + p.len())[i] == s[k + i]);
    }
}

/// Of several commands in a row the last one counts: whatever stands before a
/// `|`, a `&&` or a `;`, a command line is a search when what follows is one.
pub proof fn law_last_command_counts(a: Seq<char>, sep: Seq<char>, b: Seq<char>)
    requires
        sep == "|"@ || sep == "&&"@ || sep == ";"@,
        !b.contains('|') && !b.contains('&') && !b.contains(';'),
    ensures
        searches(a + sep + b) == searches(b),
{
    reveal_strlit("|");
    reveal_strlit("&&");
    reveal_strlit(";");
    let bar = "|"@;
    let and = "&&"@;
    let semi = ";"@;
    assert(bar =~= seq!['|'] && and =~= seq!['&', '&'] && semi =~= seq![';']);
    let e = text::trimmed_end(b);
    lemma_end_of(b, '|');
    lemma_end_of(b, '&');
    lemma_end_of(b, ';');
    lemma_trimmed_of_end(b);
    let t = text::trimmed(b);
    lemma_trimmed_without(b, '|');
    lemma_trimmed_without(b, '&');
    lemma_trimmed_without(b, ';');
    text::law_trimmed(b);
    lemma_no_separator(t, bar, '|');
    lemma_no_separator(t, and, '&');
    lemma_no_separator(t, semi, ';');
    assert(last_statement(b) == t);
    let s0 = a + sep + b;
    let x0 = lemma_trimmed_around(a, sep, b);
    let s1 = text::trimmed(s0);
    if sep == bar {
        lemma_behind_sep(x0, bar, e, '|');
        assert(text::trimmed(text::behind_last(s1, bar)) == t);
    } else {
        assert(!sep.contains('|'));
        let x1 = lemma_behind(x0, sep, e, bar, '|');
        let x2 = lemma_trimmed_around(x1, sep, e);
        let s2 = text::trimmed(text::behind_last(s1, bar));
        assert(s2 == x2 + sep + e);
        if sep == and {
            lemma_behind_sep(x2, and, e, '&');
            assert(text::trimmed(text::behind_last(s2, and)) == t);
        } else {
            assert(!sep.contains('&'));
            let x3 = lemma_behind(x2, sep, e, and, '&');
            let x4 = lemma_trimmed_around(x3, sep, e);
            let s3 = text::trimmed(text::behind_last(s2, and));
            assert(s3 == x4 + sep + e);
            lemma_behind_sep(x4, semi, e, ';');
            assert(text::trimmed(text::behind_last(s3, semi)) == t);
        }
    }
    assert(last_statement(s0) == t);
}

proof fn lemma_behind_sep(a: Seq<char>, sep: Seq<char>, b: Seq<char>, c: char)
    requires
        sep.len() > 0,
        sep.last() == c,
        !b.contains(c),
    ensures
        text::behind_last(a + sep + b, sep) == b,
{
    let s = a + sep + b;
    assert forall|i: int|
        a.len() < i && i + sep.len() <= s.len() implies #[trigger] s.subrange(i, i + sep.len())
        != sep by {
        let k = i + sep.len() - 1;
        assert(s.subrange(i, i + sep.len())[sep.len() - 1] == s[k]);
        assert(s[k] == b[k - a.len() - sep.len()]);
        assert(b.contains(s[k]));
    }
    text::law_behind_last(a, sep, b);
}

/// A command with much output is shortened where that is wanted and possible, and
/// only once; any other command stays as it is.
pub proof fn law_shortened_commands(command: Seq<char>, rest: Seq<char>, enabled: bool, installed: bool, verbose: bool)
    ensures
        !enabled || !installed || !verbose ==> rewritten(command, enabled, installed, verbose)
            == command,
        rewritten("rtk "@ + rest, enabled, installed, verbose) == "rtk "@ + rest,
        !text::starts(text::trimmed_start(command), "rtk "@) ==> rewritten(command, true, true, true)
            == "rtk "@ + text::trimmed_start(command),
{
    let c = "rtk "@ + rest;
    reveal_strlit("rtk ");
    assert(c[0] == 'r');
    text::law_white('r');
    assert(text::trimmed_start(c) == c);
    text::law_affixes("rtk "@, rest, Seq::empty());
}

/// A program that waits for input is not run, unless it is only checked.
pub proof fn law_programs_that_wait(command: Seq<char>, content: Seq<char>)
    ensures
        text::has(content, "input("@) || text::has(content, "readline.question"@) || text::has(
            content,
            "process.stdin.on"@,
        ) <==> waits_for_input(content),
        waits_for_input(content) && !text::has(command, "--check"@) && !text::has(command, "-c"@)
            && !text::has(command, "-m"@) ==> is_interactive(command, content),
        text::has(command, "--check"@) || text::has(command, "-c"@) || text::has(command, "-m"@)
            ==> !is_interactive(command, content),
        !waits_for_input(content) ==> !is_interactive(command, content),
{
}

/// A command that would not end is refused by its name.
pub proof fn law_servers_are_refused(command: Seq<char>)
    ensures
        blocking_reply(command).error is Some,
        blocking_reply(command).command == Some(command),
        blocking_reply(command).result matches Some(s) && text::has(s, command),
{
    text::law_affixes(
        command,
        "Refused: \""@,
        "\" would start a long-running server that blocks. Use \"node --check <file>\" to verify syntax, or describe what you want to test and I'll use a non-blocking approach."@,
    );
}

/// A diagnosis stands before the output, with the kind of error, its place and
/// what to do; the output stays whole behind it.
pub proof fn law_diagnoses_stand_first(output: Seq<char>, d: features::DiagnosisText, f: Seq<char>, n: u32)
    ensures
        text::ends(diagnosed(output, d), output),
        text::starts(diagnosed(output, d), "[ERROR-DIAGNOSIS] Type: "@ + d.kind),
        text::has(diagnosed(output, d), "Fix: "@ + d.suggestion),
        d.file == Some(f) && d.line == Some(n) ==> text::has(
            diagnosed(output, d),
            " in "@ + f + ":"@ + text::decimal(n as nat),
        ),
        d.file == Some(f) && d.line is None ==> text::has(diagnosed(output, d), " in "@ + f),
{
    let t = diagnosed(output, d);
    let head = "[ERROR-DIAGNOSIS] Type: "@ + d.kind;
    let p = diagnosis_place(d);
    lemma_fix();
    let fix = "Fix: "@ + d.suggestion;
    assert(t =~= head + (p + ". "@ + fix + "\n\n"@ + output));
    text::law_affixes(head, p + ". "@ + fix + "\n\n"@ + output, Seq::empty());
    assert(t =~= (head + p + ". "@ + fix + "\n\n"@) + output);
    text::law_affixes(output, head + p + ". "@ + fix + "\n\n"@, Seq::empty());
    assert(t =~= (head + p + ". "@) + fix + ("\n\n"@ + output));
    text::law_affixes(fix, head + p + ". "@, "\n\n"@ + output);
    assert(t =~= head + p + (". "@ + fix + "\n\n"@ + output));
    text::law_affixes(p, head, ". "@ + fix + "\n\n"@ + output);
}

proof fn lemma_fix()
    ensures
        ". Fix: "@ == ". "@ + "Fix: "@,
{
    reveal_strlit(". Fix: ");
    reveal_strlit(". ");
    reveal_strlit("Fix: ");
    assert(". Fix: "@ =~= ". "@ + "Fix: "@);
}

/// A command that ended well gives its output; else its exit code goes with it,
/// and minus one stands for none.
pub proof fn law_ends_of_runs(output: Seq<char>, code: Option<i32>, n: i32)
    ensures
        shell_outcome(output, true, code) == Ok::<Seq<char>, (Seq<char>, i32)>(output),
        shell_outcome(output, false, Some(n)) == Err::<Seq<char>, (Seq<char>, i32)>((output, n)),
        shell_outcome(output, false, None) == Err::<Seq<char>, (Seq<char>, i32)>((output, -1i32)),
{
}

/// A file that is made is told with its path and its lines. Its command is run
/// unless it would wait for input, and what came of it is told, as an error where
/// it failed.
pub proof fn law_made_and_run(path: Seq<char>, content: Seq<char>, c: Seq<char>, out: Seq<char>)
    requires
        text::utf8_len(out) <= 2000,
    ensures
        ({
            let none = create_and_run_reply(path, content, None, Ok(out));
            none.action == Some("Created"@) && none.path == Some(path) && none.error is None
        }),
        !asks_for_input(content) ==> {
            let good = create_and_run_reply(path, content, Some(c), Ok(out));
            let bad = create_and_run_reply(path, content, Some(c), Err(out));
            &&& good.error is None && good.path == Some(path) && (good.result matches Some(s)
                && text::ends(s, c + "\n"@ + out))
            &&& bad.error is Some && bad.path == Some(path) && (bad.result matches Some(s)
                && text::ends(s, out))
        },
        asks_for_input(content) ==> {
            let r = create_and_run_reply(path, content, Some(c), Err(out));
            r.error is None && r.action == Some("Created"@)
        },
        text::has(content, "input("@) || text::has(content, "readline"@) || text::has(
            content,
            "process.stdin"@,
        ) || text::has(content, "Scanner("@) || text::has(content, "gets"@) || text::has(
            content,
            "read()"@,
        ) <==> asks_for_input(content),
{
    text::law_clip(out, 2000);
    let start = files::created_text(path, content);
    let x = c + "\n"@ + out;
    assert(start + "\n$ "@ + c + "\n"@ + out =~= (start + "\n$ "@) + x);
    text::law_affixes(x, start + "\n$ "@, Seq::empty());
    text::law_affixes(out, start + "\n$ "@ + c + "\nFAILED:\n"@, Seq::empty());
}

/// Less of the output is kept for a model with a small window.
pub proof fn law_output_caps(a: u32, b: u32)
    requires
        a <= b,
    ensures
        output_cap(a) <= output_cap(b),
        a < 64_000 ==> output_cap(a) == 1500,
        a >= 64_000 ==> output_cap(a) == 3000,
{
}

/// A file that is too large is not made, and a program that asks for input is
/// made but not run.
pub proof fn law_what_is_made_and_run(content: &str, r: Option<Reply>, args: &Json, c: Option<String>)
    requires
        call_ensures(refuse_create, (content,), r),
        call_ensures(runs_created, (args, content), c),
    ensures
        text::utf8_len(content@) <= 8000 ==> r is None,
        text::utf8_len(content@) > 8000 ==> (r matches Some(x) && x@.error is Some),
        text::has(content@, "input("@) ==> c is None,
        !asks_for_input(content@) ==> text::opt_text(c) == args@.member_text("command"@),
{
}

/// Without a diagnosis the output stays as it is.
pub proof fn law_no_diagnosis(output: &str, d: &Option<ErrorDiagnosis>, r: String)
    requires
        call_ensures(prepend_error_diagnosis, (output, d), r),
    ensures
        *d is None ==> r@ == output@,
        text::ends(r@, output@),
{
    match *d {
        Some(x) => law_diagnoses_stand_first(output@, x@, Seq::empty(), 0),
        None => {
            assert(output@.subrange(0, output@.len() as int) =~= output@);
        },
    }
}

} // verus!
