//! Reading, writing and patching files.

use vstd::prelude::*;

use crate::edit;
use crate::executor::{refuse, tell, Reply};
use crate::executor;
use crate::json;
use crate::json::Json;
use crate::text;

verus! {

/// A file is not written in one piece beyond this many bytes.
pub const MAX_CONTENT_BYTES: usize = 8000;

/// From how many lines on a file is summarised.
pub const SUMMARY_LINES: usize = 200;

// ---------------------------------------------------------------------------
// Paths
// ---------------------------------------------------------------------------

/// The path that a call names, or the answer when it names none.
pub fn path_of(tool: &str, args: &Json) -> (r: Result<String, Reply>)
    ensures
        match args@.member_text("path"@) {
            Some(p) => r matches Ok(s) && s@ == p,
            None => r matches Err(e) && e@ == executor::refused(tool@ + " rejected: path missing"@),
        },
{
    match args.get_str("path") {
        Some(p) => Ok(p),
        None => Err(refuse(text::cat2(tool, " rejected: path missing"))),
    }
}

/// The answer when a path is not allowed.
pub fn rejected(tool: &str, reason: &str) -> (r: Reply)
    ensures
        r@ == executor::refused(tool@ + " rejected: "@ + reason@),
{
    refuse(text::cat3(tool, " rejected: ", reason))
}

/// The answer when there is no such file.
pub fn not_found(path: &str) -> (r: Reply)
    ensures
        r@ == executor::refused("File not found: "@ + path@),
{
    refuse(text::cat2("File not found: ", path))
}

// ---------------------------------------------------------------------------
// Reading
// ---------------------------------------------------------------------------

/// Lines with their numbers, from the one behind `first` on.
pub open spec fn numbered(lines: Seq<Seq<char>>, first: int, mark: Seq<char>) -> Seq<char> {
    text::join(numbered_lines(lines, first, mark), "\n"@)
}

pub open spec fn numbered_lines(lines: Seq<Seq<char>>, first: int, mark: Seq<char>) -> Seq<
    Seq<char>,
> {
    Seq::new(
        lines.len(),
        |i: int|
            text::right_aligned(text::decimal((first + i + 1) as nat), 4) + mark + lines[i],
    )
}

/// Lines with their numbers, from the one behind `first` on.
pub fn number_lines(lines: &Vec<String>, first: usize, mark: &str) -> (r: String)
    requires
        first + lines.len() <= usize::MAX,
    ensures
        r@ == numbered(text::texts(lines@), first as int, mark@),
{
    let ghost all = numbered_lines(text::texts(lines@), first as int, mark@);
    let mut out: Vec<String> = Vec::new();
    let mut i: usize = 0;
    assert(text::texts(out@) =~= all.take(0));
    while i < lines.len()
        invariant
            i <= lines.len(),
            first + lines.len() <= usize::MAX,
            all == numbered_lines(text::texts(lines@), first as int, mark@),
            text::texts(out@) == all.take(i as int),
        decreases lines.len() - i,
    {
        assert(text::texts(lines@)[i as int] == lines@[i as int]@);
        let n = text::number((first + i + 1) as u64);
        let line = text::cat3(&text::pad_start(&n, 4), mark, &lines[i]);
        proof {
            text::lemma_texts_push(out@, line);
            assert(line@ == all[i as int]);
            assert(all.take(i + 1) =~= all.take(i as int).push(all[i as int]));
        }
        out.push(line);
        i = i + 1;
    }
    assert(all.take(i as int) =~= all);
    text::join_with(&out, "\n")
}

pub open spec fn least(a: int, b: int) -> int {
    if a < b {
        a
    } else {
        b
    }
}

/// The line behind which a read of a file of `total` lines starts.
pub open spec fn range_start(args: json::JsonText, total: int) -> int {
    match args.member_unsigned("start_line"@) {
        Some(n) => if n > 0 {
            least(n - 1, total)
        } else {
            least(0, total)
        },
        None => least(0, total),
    }
}

/// The line with which a read of a file of `total` lines ends.
pub open spec fn range_end(args: json::JsonText, total: int) -> int {
    match args.member_unsigned("end_line"@) {
        Some(n) => least(n as int, total),
        None => total,
    }
}

/// Whether a read asks for no lines in particular.
pub open spec fn reads_whole(args: json::JsonText) -> bool {
    args.member("start_line"@) is None && args.member("end_line"@) is None
}

/// Which lines of a file of `total` lines a read asks for.
pub fn read_range(args: &Json, total: usize) -> (r: (usize, usize))
    ensures
        r.0 == range_start(args@, total as int),
        r.1 == range_end(args@, total as int),
{
    let start: usize = match args.get_u64("start_line") {
        Some(n) => {
            let k: u64 = if n > 0 {
                n - 1
            } else {
                0
            };
            if k < total as u64 {
                k as usize
            } else {
                total
            }
        },
        None => 0,
    };
    let end: usize = match args.get_u64("end_line") {
        Some(n) => if n < total as u64 {
            n as usize
        } else {
            total
        },
        None => total,
    };
    (start, end)
}

/// The lines of a file that a read asks for. A read whose end lies before its
/// start asks for nothing that can be given.
pub fn read_lines(content: &str, args: &Json) -> (r: Vec<String>)
    requires
        ({
            let all = text::split(content@, '\n');
            range_start(args@, all.len() as int) <= range_end(args@, all.len() as int)
        }),
    ensures
        ({
            let all = text::split(content@, '\n');
            text::texts(r@) == all.subrange(
                range_start(args@, all.len() as int),
                range_end(args@, all.len() as int),
            )
        }),
{
    let lines = text::split_char(content, '\n');
    let ghost all = text::texts(lines@);
    assert(all.len() == lines.len());
    let (start, end) = read_range(args, lines.len());
    let mut out: Vec<String> = Vec::new();
    let mut i: usize = start;
    assert(text::texts(out@) =~= all.subrange(start as int, start as int));
    while i < end
        invariant
            start <= i <= end,
            end <= lines.len(),
            all == text::texts(lines@),
            text::texts(out@) == all.subrange(start as int, i as int),
        decreases end - i,
    {
        let line = lines[i].clone();
        proof {
            text::lemma_texts_push(out@, line);
            assert(all[i as int] == lines@[i as int]@);
            assert(all.subrange(start as int, i + 1) =~= all.subrange(start as int, i as int).push(
                all[i as int],
            ));
        }
        out.push(line);
        i = i + 1;
    }
    out
}

/// How a file relates to what was read of it before.
#[derive(Debug)]
pub enum Record {
    /// It was not read before, or there is nothing to compare.
    Fresh,
    Unchanged,
    Changed { diff: String, full_length: usize },
}

/// Whether a read is answered with a summary, when one can be had.
pub open spec fn summarises(args: json::JsonText, total: int, record: Record) -> bool {
    reads_whole(args) && record is Fresh && total > SUMMARY_LINES
}

/// Whether a read is answered with a summary, when one can be had.
pub fn wants_summary(args: &Json, total: usize, record: &Record) -> (r: bool)
    ensures
        r == summarises(args@, total as int, *record),
{
    let fresh = match record {
        Record::Fresh => true,
        _ => false,
    };
    args.get("start_line").is_none() && args.get("end_line").is_none() && fresh && total
        > SUMMARY_LINES
}

/// The answer to a read.
pub open spec fn read_reply(
    path: Seq<char>,
    args: json::JsonText,
    total: int,
    record: Record,
    summary: Option<SummaryText>,
    body: Seq<char>,
) -> Seq<char> {
    let lines = text::decimal(total as nat);
    if reads_whole(args) && record is Unchanged {
        path + " ("@ + lines + " lines — unchanged since last read, no diff)"@
    } else if reads_whole(args) && record is Changed {
        path + " changes since last read ("@ + text::decimal(record->full_length as nat)
            + " lines total):\n"@ + record->diff@
    } else if summarises(args, total, record) && summary is Some && (summary->0).bytes > 50 {
        path + " ("@ + lines + " lines — summarized):\n"@ + (summary->0).shown
    } else {
        path + " ("@ + lines + " lines):\n"@ + body
    }
}

/// A summary of a file: how many bytes it had, and what of it may be shown.
#[derive(Debug)]
pub struct Summary {
    pub bytes: usize,
    pub shown: String,
}

pub ghost struct SummaryText {
    pub bytes: nat,
    pub shown: Seq<char>,
}

pub open spec fn summary_text(s: Option<Summary>) -> Option<SummaryText> {
    match s {
        Some(x) => Some(SummaryText { bytes: x.bytes as nat, shown: x.shown@ }),
        None => None,
    }
}

/// The answer to a read of `total` lines, of which `body` shows those asked
/// for. A file that was read before is answered by what changed since.
pub fn read_file_reply(
    path: &str,
    args: &Json,
    total: usize,
    record: &Record,
    summary: &Option<Summary>,
    body: &str,
) -> (r: Reply)
    ensures
        r@ == executor::told(
            read_reply(path@, args@, total as int, *record, summary_text(*summary), body@),
        ),
{
    let n = text::number(total as u64);
    let whole = args.get("start_line").is_none() && args.get("end_line").is_none();
    if whole {
        match record {
            Record::Unchanged => {
                return tell(
                    text::cat4(path, " (", &n, " lines — unchanged since last read, no diff)"),
                );
            },
            Record::Changed { diff, full_length } => {
                let k = text::number(*full_length as u64);
                return tell(
                    text::cat5(path, " changes since last read (", &k, " lines total):\n", diff),
                );
            },
            Record::Fresh => {},
        }
    }
    if wants_summary(args, total, record) {
        match summary {
            Some(s) => {
                if s.bytes > 50 {
                    return tell(text::cat5(path, " (", &n, " lines — summarized):\n", &s.shown));
                }
            },
            None => {},
        }
    }
    tell(text::cat5(path, " (", &n, " lines):\n", body))
}

/// The answer to a read of what a file held when it was first read; its lines,
/// when they are known.
pub fn read_original_reply(path: &str, lines: &Option<Vec<String>>) -> (r: Reply)
    ensures
        r@ == match *lines {
            Some(v) => executor::told(
                path@ + " (original, "@ + text::decimal(v@.len()) + " lines):\n"@ + numbered(
                    text::texts(v@),
                    0,
                    "│ "@,
                ),
            ),
            None => executor::refused(
                "No original content recorded for "@ + path@
                    + ". read_original only works for files that were read with read_file earlier this session."@,
            ),
        },
{
    match lines {
        Some(v) => {
            let n = text::number(v.len() as u64);
            let body = number_lines(v, 0, "│ ");
            tell(text::cat5(path, " (original, ", &n, " lines):\n", &body))
        },
        None => refuse(
            text::cat3(
                "No original content recorded for ",
                path,
                ". read_original only works for files that were read with read_file earlier this session.",
            ),
        ),
    }
}

// ---------------------------------------------------------------------------
// Writing
// ---------------------------------------------------------------------------

/// Why a new file is not written.
pub open spec fn write_refusal(path: Seq<char>, exists: bool, content: Seq<char>) -> Option<
    Seq<char>,
> {
    if exists {
        Some(
            "write_file rejected: '"@ + path
                + "' already exists. Use read_and_patch to edit existing files — it reads the current content atomically so you never accidentally overwrite with stale data."@,
        )
    } else if text::utf8_len(content) > MAX_CONTENT_BYTES {
        Some(
            "write_file: content too large ("@ + text::decimal(edit::line_count(content))
                + " lines / "@ + text::decimal(text::utf8_len(content) / 1024)
                + "KB). Keep each write_file under 60 lines; use append_file for additional sections."@,
        )
    } else {
        None
    }
}

/// Why a new file is not written: it exists, or there is too much of it.
pub fn refuse_write(path: &str, exists: bool, content: &str) -> (r: Option<Reply>)
    ensures
        match write_refusal(path@, exists, content@) {
            Some(e) => r matches Some(x) && x@ == executor::refused(e),
            None => r is None,
        },
{
    if exists {
        return Some(
            refuse(
                text::cat3(
                    "write_file rejected: '",
                    path,
                    "' already exists. Use read_and_patch to edit existing files — it reads the current content atomically so you never accidentally overwrite with stale data.",
                ),
            ),
        );
    }
    let size = text::byte_len(content);
    if size > MAX_CONTENT_BYTES {
        let lines = text::number(edit::count_lines(content));
        let kb = text::number((size / 1024) as u64);
        return Some(
            refuse(
                text::cat5(
                    "write_file: content too large (",
                    &lines,
                    " lines / ",
                    &kb,
                    "KB). Keep each write_file under 60 lines; use append_file for additional sections.",
                ),
            ),
        );
    }
    None
}

/// A file was made.
pub open spec fn created(result: Seq<char>, path: Seq<char>, lines: u64) -> executor::ReplyText {
    executor::ReplyText {
        action: Some("Created"@),
        path: Some(path),
        lines: Some(lines),
        ..executor::told(result)
    }
}

pub open spec fn created_text(path: Seq<char>, content: Seq<char>) -> Seq<char> {
    "Created "@ + path + " ("@ + text::decimal(edit::line_count(content)) + " lines)"@
}

/// The answer when a new file was written.
pub fn write_reply(path: &str, content: &str) -> (r: Reply)
    ensures
        r@ == created(
            created_text(path@, content@),
            path@,
            edit::line_count(content@) as u64,
        ),
{
    let lines = edit::count_lines(content);
    let n = text::number(lines);
    let mut r = tell(text::cat5("Created ", path, " (", &n, " lines)"));
    r.action = Some("Created".to_owned());
    r.path = Some(path.to_owned());
    r.lines = Some(lines);
    r
}

/// Why nothing is added to a file.
pub open spec fn append_refusal(path: Seq<char>, exists: bool, content: Seq<char>) -> Option<
    Seq<char>,
> {
    if text::utf8_len(content) > MAX_CONTENT_BYTES {
        Some(
            "append_file: chunk too large ("@ + text::decimal(text::utf8_len(content) / 1024)
                + " KB). Keep each append under 60 lines."@,
        )
    } else if !exists {
        Some(
            "append_file: file not found: "@ + path + ". Create it first with write_file."@,
        )
    } else {
        None
    }
}

/// Why nothing is added to a file: there is too much, or no such file.
pub fn refuse_append(path: &str, exists: bool, content: &str) -> (r: Option<Reply>)
    ensures
        match append_refusal(path@, exists, content@) {
            Some(e) => r matches Some(x) && x@ == executor::refused(e),
            None => r is None,
        },
{
    let size = text::byte_len(content);
    if size > MAX_CONTENT_BYTES {
        let kb = text::number((size / 1024) as u64);
        return Some(
            refuse(
                text::cat3(
                    "append_file: chunk too large (",
                    &kb,
                    " KB). Keep each append under 60 lines.",
                ),
            ),
        );
    }
    if !exists {
        return Some(
            refuse(
                text::cat3(
                    "append_file: file not found: ",
                    path,
                    ". Create it first with write_file.",
                ),
            ),
        );
    }
    None
}

/// A file with a section added: the section starts on a line of its own.
pub open spec fn appended(before: Seq<char>, content: Seq<char>) -> Seq<char> {
    before + (if before.len() > 0 && before.last() != '\n' {
        "\n"@
    } else {
        ""@
    }) + content
}

/// A file with a section added.
pub fn append_content(before: &str, content: &str) -> (r: String)
    ensures
        r@ == appended(before@, content@),
{
    let v = text::chars(before);
    let n: usize = v.len();
    if n > 0 && v[n - 1] != '\n' {
        text::cat3(before, "\n", content)
    } else {
        text::cat3(before, "", content)
    }
}

/// The answer when a section was added to a file, which is now `new`.
pub fn append_reply(path: &str, content: &str, new: &str) -> (r: Reply)
    ensures
        r@ == (executor::ReplyText {
            action: Some("Appended"@),
            path: Some(path@),
            ..executor::told(
                "Appended "@ + text::decimal(edit::line_count(content@)) + " lines to "@ + path@
                    + " (now "@ + text::decimal(edit::line_count(new@)) + " lines total)"@,
            )
        }),
{
    let added = text::number(edit::count_lines(content));
    let total = text::number(edit::count_lines(new));
    let mut r = tell(
        text::cat7("Appended ", &added, " lines to ", path, " (now ", &total, " lines total)"),
    );
    r.action = Some("Appended".to_owned());
    r.path = Some(path.to_owned());
    r
}

/// Adding a section leaves what the file held in place, and the section stands
/// at its end, on a line of its own.
pub proof fn law_append(before: Seq<char>, content: Seq<char>)
    ensures
        text::starts(appended(before, content), before),
        text::ends(appended(before, content), content),
        before.len() > 0 ==> ({
            let at = appended(before, content).len() - content.len();
            appended(before, content)[at - 1] == '\n'
        }),
{
    reveal_strlit("\n");
    reveal_strlit("");
    let all = appended(before, content);
    assert(all.take(before.len() as int) =~= before);
    assert(all.subrange(0, before.len() as int) =~= before);
    assert(all.skip(all.len() - content.len()) =~= content);
    assert(all.subrange(all.len() - content.len(), all.len() as int) =~= content);
}

// ---------------------------------------------------------------------------
// Patching
// ---------------------------------------------------------------------------

/// A file was changed.
pub open spec fn edited(result: Seq<char>, path: Seq<char>, line: u64) -> executor::ReplyText {
    executor::ReplyText {
        action: Some("Edited"@),
        path: Some(path),
        line: Some(line),
        ..executor::told(result)
    }
}

fn edit_reply(result: String, path: &str, line: u64) -> (r: Reply)
    ensures
        r@ == edited(result@, path@, line),
{
    let mut r = tell(result);
    r.action = Some("Edited".to_owned());
    r.path = Some(path.to_owned());
    r.line = Some(line);
    r
}

/// What becomes of a patch.
#[derive(Debug)]
pub enum PatchStep {
    Refused(Reply),
    /// The text to be replaced is not there, but the change may be merged in by
    /// other means.
    Merge,
    /// The file is to be written; then comes the answer.
    Write { content: String, line: u64, reply: Reply },
}

pub ghost enum PatchPlan {
    Refused(executor::ReplyText),
    Merge,
    Write { content: Seq<char>, line: u64, reply: executor::ReplyText },
}

impl View for PatchStep {
    type V = PatchPlan;

    open spec fn view(&self) -> PatchPlan {
        match self {
            PatchStep::Refused(r) => PatchPlan::Refused(r@),
            PatchStep::Merge => PatchPlan::Merge,
            PatchStep::Write { content, line, reply } => PatchPlan::Write {
                content: content@,
                line: *line,
                reply: reply@,
            },
        }
    }
}

/// What becomes of a patch of a file.
pub open spec fn patch_plan(
    path: Seq<char>,
    old_str: Seq<char>,
    new_str: Seq<char>,
    content: Seq<char>,
    merges: bool,
) -> PatchPlan {
    let n = edit::hits(content, old_str);
    if old_str.len() == 0 {
        PatchPlan::Refused(executor::refused("patch: old_str is empty"@))
    } else if n == 0 {
        if merges {
            PatchPlan::Merge
        } else {
            PatchPlan::Refused(executor::refused("old_str not found in "@ + path))
        }
    } else if n > 1 {
        PatchPlan::Refused(
            executor::refused(
                "old_str matches "@ + text::decimal(n) + " locations. Include more context."@,
            ),
        )
    } else {
        let new = edit::first_replaced(content, old_str, new_str);
        let line = edit::line_of(new, new_str);
        PatchPlan::Write {
            content: new,
            line: line as u64,
            reply: edited(
                "Patched "@ + path + ": replaced "@ + text::decimal(edit::line_count(old_str))
                    + " lines with "@ + text::decimal(edit::line_count(new_str))
                    + " lines at line "@ + text::decimal(line),
                path,
                line as u64,
            ),
        }
    }
}

/// What becomes of a patch of a file: the text to be replaced has to stand in
/// it exactly once.
pub fn plan_patch(path: &str, args: &Json, content: &str, merges: bool) -> (r: PatchStep)
    ensures
        r@ == patch_plan(
            path@,
            args@.member_text_or("old_str"@, ""@),
            args@.member_text_or("new_str"@, ""@),
            content@,
            merges,
        ),
{
    let old_str = args.get_str_or("old_str", "");
    let new_str = args.get_str_or("new_str", "");
    if old_str.as_str().is_empty() {
        return PatchStep::Refused(refuse("patch: old_str is empty".to_owned()));
    }
    let n = edit::count_hits(content, &old_str);
    if n == 0 {
        if merges {
            return PatchStep::Merge;
        }
        return PatchStep::Refused(refuse(text::cat2("old_str not found in ", path)));
    }
    if n > 1 {
        let k = text::wide_number(n);
        return PatchStep::Refused(
            refuse(text::cat3("old_str matches ", &k, " locations. Include more context.")),
        );
    }
    let new = edit::replace_first(content, &old_str, &new_str);
    let line = edit::find_line(&new, &new_str);
    let a = text::number(edit::count_lines(&old_str));
    let b = text::number(edit::count_lines(&new_str));
    let c = text::number(line);
    let result = text::cat8(
        "Patched ",
        path,
        ": replaced ",
        &a,
        " lines with ",
        &b,
        " lines at line ",
        &c,
    );
    PatchStep::Write { content: new, line, reply: edit_reply(result, path, line) }
}

/// The answer when a change was merged into a file, or could not be.
pub fn merge_reply(path: &str, content: &str, merged: &Option<String>) -> (r: Reply)
    ensures
        r@ == match *merged {
            Some(m) => edited(
                "Patched "@ + path@ + " via semantic merge ("@ + text::decimal(
                    edit::line_count(content@),
                ) + " → "@ + text::decimal(edit::line_count(m@)) + " lines)"@,
                path@,
                1,
            ),
            None => executor::refused("old_str not found in "@ + path@),
        },
{
    match merged {
        Some(m) => {
            let a = text::number(edit::count_lines(content));
            let b = text::number(edit::count_lines(m));
            let result = text::cat7(
                "Patched ",
                path,
                " via semantic merge (",
                &a,
                " → ",
                &b,
                " lines)",
            );
            edit_reply(result, path, 1)
        },
        None => refuse(text::cat2("old_str not found in ", path)),
    }
}

/// What becomes of a patch of a file that is read in the same step.
pub open spec fn read_and_patch_plan(
    path: Seq<char>,
    old_str: Seq<char>,
    new_str: Seq<char>,
    content: Seq<char>,
) -> PatchPlan {
    let n = edit::hits(content, old_str);
    if n == 0 {
        PatchPlan::Refused(executor::refused("old_str not found in "@ + path))
    } else if n > 1 {
        PatchPlan::Refused(
            executor::refused(
                "old_str matches "@ + text::decimal(n) + " locations. Be more specific."@,
            ),
        )
    } else {
        let new = edit::first_replaced(content, old_str, new_str);
        let line = edit::line_of(new, new_str);
        PatchPlan::Write {
            content: new,
            line: line as u64,
            reply: edited(
                "Read and patched "@ + path + " at line "@ + text::decimal(line),
                path,
                line as u64,
            ),
        }
    }
}

/// What becomes of a patch of a file that is read in the same step.
pub fn plan_read_and_patch(path: &str, args: &Json, content: &str) -> (r: PatchStep)
    ensures
        r@ == read_and_patch_plan(
            path@,
            args@.member_text_or("old_str"@, ""@),
            args@.member_text_or("new_str"@, ""@),
            content@,
        ),
{
    let old_str = args.get_str_or("old_str", "");
    let new_str = args.get_str_or("new_str", "");
    let n = edit::count_hits(content, &old_str);
    if n == 0 {
        return PatchStep::Refused(refuse(text::cat2("old_str not found in ", path)));
    }
    if n > 1 {
        let k = text::wide_number(n);
        return PatchStep::Refused(
            refuse(text::cat3("old_str matches ", &k, " locations. Be more specific.")),
        );
    }
    let new = edit::replace_first(content, &old_str, &new_str);
    let line = edit::find_line(&new, &new_str);
    let c = text::number(line);
    let result = text::cat4("Read and patched ", path, " at line ", &c);
    PatchStep::Write { content: new, line, reply: edit_reply(result, path, line) }
}

/// A patch writes a file only when the text to be replaced stands in it exactly
/// once, and then changes nothing else.
pub proof fn law_patch_is_exact(
    path: Seq<char>,
    old_str: Seq<char>,
    new_str: Seq<char>,
    content: Seq<char>,
    merges: bool,
)
    ensures
        patch_plan(path, old_str, new_str, content, merges) matches PatchPlan::Write {
            content: new,
            ..
        } ==> edit::hits(content, old_str) == 1 && new == edit::first_replaced(
            content,
            old_str,
            new_str,
        ),
        read_and_patch_plan(path, old_str, new_str, content) matches PatchPlan::Write {
            content: new,
            ..
        } ==> edit::hits(content, old_str) == 1 && new == edit::first_replaced(
            content,
            old_str,
            new_str,
        ),
{
}

/// A patch whose old text stands in the file once succeeds, however many lines
/// it has: the file is written with the new text in its place and nothing else
/// changed, and the answer names the file and the line, and no error.
pub proof fn law_patch_succeeds(
    path: Seq<char>,
    a: Seq<char>,
    old_str: Seq<char>,
    b: Seq<char>,
    new_str: Seq<char>,
    merges: bool,
)
    requires
        old_str.len() > 0,
        forall|i: int|
            0 <= i < a.len() && i + old_str.len() <= (a + old_str + b).len() ==> #[trigger] (a
                + old_str + b).subrange(i, i + old_str.len()) != old_str,
        forall|i: int|
            0 <= i && i + old_str.len() <= b.len() ==> #[trigger] b.subrange(i, i + old_str.len())
                != old_str,
    ensures
        read_and_patch_plan(path, old_str, new_str, a + old_str + b) matches PatchPlan::Write {
            content,
            line,
            reply,
        } && content == a + new_str + b && reply.error is None && reply.action == Some("Edited"@)
            && reply.path == Some(path) && reply.line == Some(line) && reply.result == Some(
            "Read and patched "@ + path + " at line "@ + text::decimal(
                edit::line_of(a + new_str + b, new_str),
            ),
        ),
        patch_plan(path, old_str, new_str, a + old_str + b, merges) matches PatchPlan::Write {
            content,
            line,
            reply,
        } && content == a + new_str + b && reply.error is None && reply.action == Some("Edited"@)
            && reply.path == Some(path) && reply.line == Some(line) && reply.result is Some,
{
    edit::law_one_hit(a, old_str, b);
    let new = edit::first_replaced(a + old_str + b, old_str, new_str);
    assert(new == a + new_str + b);
}

/// The line that a patch is said to be at is the one on which the new text
/// begins: one more than there are line feeds before it.
pub proof fn law_patch_names_the_line(a: Seq<char>, new_str: Seq<char>, b: Seq<char>)
    requires
        forall|i: int|
            0 <= i < a.len() && i + new_str.len() <= (a + new_str + b).len() ==> #[trigger] (a
                + new_str + b).subrange(i, i + new_str.len()) != new_str,
    ensures
        edit::line_of(a + new_str + b, new_str) == 1 + a.filter(|c: char| c == '\n').len(),
{
    let s = a + new_str + b;
    assert(s.subrange(a.len() as int, (a.len() + new_str.len()) as int) =~= new_str);
    assert(text::at(s, new_str, a.len() as int));
    text::lemma_first_at(s, new_str, 0);
    let f = text::first_at(s, new_str, 0)->0;
    if f < a.len() {
        assert(s.subrange(f, f + new_str.len()) == new_str);
    }
    assert(s.take(f) =~= a);
    edit::law_lines_are_counted(a);
}

/// A patch whose old text stands in the file nowhere is answered by that, or
/// left to be merged in; one whose old text stands in it at two places that do
/// not overlap is refused for another reason. In neither case the file is
/// written.
pub proof fn law_patch_is_refused(
    path: Seq<char>,
    old_str: Seq<char>,
    new_str: Seq<char>,
    content: Seq<char>,
    a: Seq<char>,
    b: Seq<char>,
    c: Seq<char>,
)
    requires
        old_str.len() > 0,
    ensures
        (forall|i: int|
            0 <= i && i + old_str.len() <= content.len() ==> #[trigger] content.subrange(
                i,
                i + old_str.len(),
            ) != old_str) <==> read_and_patch_plan(path, old_str, new_str, content)
            == PatchPlan::Refused(executor::refused("old_str not found in "@ + path)),
        (forall|i: int|
            0 <= i && i + old_str.len() <= content.len() ==> #[trigger] content.subrange(
                i,
                i + old_str.len(),
            ) != old_str) ==> patch_plan(path, old_str, new_str, content, true) is Merge
            && patch_plan(path, old_str, new_str, content, false) == PatchPlan::Refused(
            executor::refused("old_str not found in "@ + path),
        ),
        patch_plan(path, old_str, new_str, content, true) is Merge ==> (forall|i: int|
            0 <= i && i + old_str.len() <= content.len() ==> #[trigger] content.subrange(
                i,
                i + old_str.len(),
            ) != old_str),
        ({
            let twice = a + old_str + b + old_str + c;
            let n = edit::hits(twice, old_str);
            &&& n >= 2
            &&& read_and_patch_plan(path, old_str, new_str, twice) == PatchPlan::Refused(
                executor::refused(
                    "old_str matches "@ + text::decimal(n) + " locations. Be more specific."@,
                ),
            )
            &&& forall|merges: bool| #[trigger]
                patch_plan(path, old_str, new_str, twice, merges) == PatchPlan::Refused(
                    executor::refused(
                        "old_str matches "@ + text::decimal(n)
                            + " locations. Include more context."@,
                    ),
                )
        }),
{
    edit::law_hits(a, old_str, b, c, content);
    reveal_strlit("old_str not found in ");
    reveal_strlit("old_str matches ");
    reveal_strlit(" locations. Be more specific.");
    let n = edit::hits(content, old_str);
    let x = "old_str not found in "@ + path;
    let y = "old_str matches "@ + text::decimal(n) + " locations. Be more specific."@;
    assert(x[8] == 'n');
    assert(y[8] == 'm');
    assert(x != y);
    assert(executor::refused(x).error == Some(x));
    assert(executor::refused(y).error == Some(y));
}

/// An empty old text is refused by a patch, whatever the file holds.
pub proof fn law_empty_patch_is_refused(
    path: Seq<char>,
    new_str: Seq<char>,
    content: Seq<char>,
    merges: bool,
)
    ensures
        patch_plan(path, Seq::empty(), new_str, content, merges) == PatchPlan::Refused(
            executor::refused("patch: old_str is empty"@),
        ),
        content.len() > 0 ==> read_and_patch_plan(path, Seq::empty(), new_str, content) is Refused,
{
}

/// A new file is written when there is none of its name yet and it takes at most
/// eight thousand bytes; a section is added when there is such a file and the
/// section takes no more than that.
pub proof fn law_when_files_are_written(path: Seq<char>, exists_already: bool, content: Seq<char>)
    ensures
        write_refusal(path, exists_already, content) is None <==> !exists_already && text::utf8_len(
            content,
        ) <= 8000,
        append_refusal(path, exists_already, content) is None <==> exists_already && text::utf8_len(
            content,
        ) <= 8000,
        exists_already ==> (write_refusal(path, exists_already, content) matches Some(e) && text::has(
            e,
            path,
        ) && text::has(e, "already exists"@)),
        !exists_already && text::utf8_len(content) <= 8000 ==> (append_refusal(
            path,
            exists_already,
            content,
        ) matches Some(e) && text::has(e, path) && text::has(e, "file not found"@)),
{
    if exists_already {
        let e = write_refusal(path, exists_already, content)->0;
        let a = "write_file rejected: '"@;
        reveal_strlit("already exists");
        reveal_strlit(
            "' already exists. Use read_and_patch to edit existing files — it reads the current content atomically so you never accidentally overwrite with stale data.",
        );
        let z = "' already exists. Use read_and_patch to edit existing files — it reads the current content atomically so you never accidentally overwrite with stale data."@;
        assert(e.subrange(a.len() as int, (a.len() + path.len()) as int) =~= path);
        assert(text::at(e, path, a.len() as int));
        let k = (a.len() + path.len() + 2) as int;
        assert(e.subrange(k, k + 14) =~= z.subrange(2, 16));
        assert(z.subrange(2, 16) =~= "already exists"@);
        assert(text::at(e, "already exists"@, k));
    } else if text::utf8_len(content) <= 8000 {
        let e = append_refusal(path, exists_already, content)->0;
        reveal_strlit("append_file: file not found: ");
        reveal_strlit("file not found");
        let a = "append_file: file not found: "@;
        assert(e.subrange(a.len() as int, (a.len() + path.len()) as int) =~= path);
        assert(text::at(e, path, a.len() as int));
        assert(e.subrange(13, 27) =~= "file not found"@);
        assert(text::at(e, "file not found"@, 13));
    }
}

/// A file to which a section is added holds what it held, then the section, and
/// between them a line feed when the file did not end with one; an empty file
/// then holds the section alone.
pub proof fn law_append_is_exact(before: Seq<char>, content: Seq<char>)
    ensures
        before.len() == 0 ==> appended(before, content) == content,
        before.len() > 0 && before.last() == '\n' ==> appended(before, content) == before + content,
        before.len() > 0 && before.last() != '\n' ==> appended(before, content) == before.push('\n')
            + content,
{
    reveal_strlit("\n");
    reveal_strlit("");
    assert("\n"@ =~= seq!['\n']);
    assert(""@ =~= Seq::<char>::empty());
    assert(appended(before, content) =~= before + (if before.len() > 0 && before.last() != '\n' {
        seq!['\n']
    } else {
        Seq::<char>::empty()
    }) + content);
    if before.len() == 0 {
        assert(appended(before, content) =~= content);
    } else if before.last() == '\n' {
        assert(appended(before, content) =~= before + content);
    } else {
        assert(appended(before, content) =~= before.push('\n') + content);
    }
}

/// A read from line `n` on begins with that line, and one up to line `m` ends
/// with it, as far as the file has such lines; without them it begins with the
/// first and ends with the last one.
pub proof fn law_read_shows_what_is_asked(args: json::JsonText, total: int)
    requires
        total >= 0,
    ensures
        args.member_unsigned("start_line"@) is None ==> range_start(args, total) == 0,
        args.member_unsigned("end_line"@) is None ==> range_end(args, total) == total,
        args.member_unsigned("start_line"@) matches Some(n) ==> {
            &&& 1 <= n <= total ==> range_start(args, total) == n - 1
            &&& n == 0 ==> range_start(args, total) == 0
            &&& n > total ==> range_start(args, total) == total
        },
        args.member_unsigned("end_line"@) matches Some(m) ==> {
            &&& m <= total ==> range_end(args, total) == m
            &&& m > total ==> range_end(args, total) == total
        },
{
}

/// Each line that is shown carries its own number, right-aligned to four
/// columns, then the mark, then what the line says, unchanged.
pub proof fn law_lines_carry_their_numbers(
    lines: Seq<Seq<char>>,
    first: int,
    mark: Seq<char>,
    i: int,
)
    requires
        0 <= first,
        0 <= i < lines.len(),
    ensures
        numbered_lines(lines, first, mark).len() == lines.len(),
        numbered(lines, first, mark) == text::join(numbered_lines(lines, first, mark), "\n"@),
        exists|pad: Seq<char>|
            {
                let number = text::decimal((first + i + 1) as nat);
                &&& (forall|k: int| 0 <= k < pad.len() ==> #[trigger] pad[k] == ' ')
                &&& numbered_lines(lines, first, mark)[i] == #[trigger] (pad + text::decimal(
                    (first + i + 1) as nat,
                )) + mark + lines[i]
                &&& number.len() < 4 ==> pad.len() + number.len() == 4
                &&& number.len() >= 4 ==> pad.len() == 0
            },
{
    let number = text::decimal((first + i + 1) as nat);
    let pad = text::blanks(4 - number.len());
    assert(text::right_aligned(number, 4) == pad + number);
    assert(numbered_lines(lines, first, mark)[i] == (pad + number) + mark + lines[i]);
}

/// A file that is read again as a whole is answered by what changed since, and
/// when nothing did, by those words; in every other case the lines that are
/// asked for stand at the end of the answer, unless a summary of more than fifty
/// bytes of a file of more than two hundred lines takes their place.
pub proof fn law_read_is_answered(
    path: Seq<char>,
    args: json::JsonText,
    total: int,
    record: Record,
    summary: Option<SummaryText>,
    body: Seq<char>,
)
    ensures
        ({
            let whole = args.member("start_line"@) is None && args.member("end_line"@) is None;
            let r = read_reply(path, args, total, record, summary, body);
            let short = summary is Some && (summary->0).bytes > 50 && total > 200;
            &&& text::starts(r, path)
            &&& whole && record is Unchanged ==> text::has(r, "unchanged since last read"@)
            &&& whole && record is Changed ==> text::ends(r, record->diff@)
            &&& !whole ==> text::ends(r, body)
            &&& whole && record is Fresh && short ==> text::ends(r, (summary->0).shown)
            &&& whole && record is Fresh && !short ==> text::ends(r, body)
        }),
{
    let r = read_reply(path, args, total, record, summary, body);
    assert(r.subrange(0, path.len() as int) =~= path);
    let n = r.len() as int;
    if reads_whole(args) && record is Unchanged {
        reveal_strlit("unchanged since last read");
        reveal_strlit(" lines — unchanged since last read, no diff)");
        let z = " lines — unchanged since last read, no diff)"@;
        let k = n - z.len() + 9;
        assert(r.subrange(k, k + 25) =~= z.subrange(9, 34));
        assert(z.subrange(9, 34) =~= "unchanged since last read"@);
        assert(text::at(r, "unchanged since last read"@, k));
    } else if reads_whole(args) && record is Changed {
        let d = record->diff@;
        assert(r.subrange(n - d.len(), n) =~= d);
    } else if summarises(args, total, record) && summary is Some && (summary->0).bytes > 50 {
        let d = (summary->0).shown;
        assert(r.subrange(n - d.len(), n) =~= d);
    } else {
        assert(r.subrange(n - body.len(), n) =~= body);
    }
}

/// A long file is summarised where the whole of it is read for the first time;
/// a part of it is shown as it is.
pub proof fn law_when_files_are_summarised(args: json::JsonText, total: int, record: Record)
    ensures
        args.member("start_line"@) is Some || args.member("end_line"@) is Some ==> !summarises(
            args,
            total,
            record,
        ),
        total <= 200 ==> !summarises(args, total, record),
        !(record is Fresh) ==> !summarises(args, total, record),
        args.member("start_line"@) is None && args.member("end_line"@) is None && record is Fresh
            && total > 200 ==> summarises(args, total, record),
{
}

/// A file that is made is told with its path and how many lines it has.
pub proof fn law_made_files_are_told(path: Seq<char>, content: Seq<char>, s: Seq<char>, n: u64)
    ensures
        text::has(created_text(path, content), path),
        text::ends(
            created_text(path, content),
            " ("@ + text::decimal(edit::line_count(content)) + " lines)"@,
        ),
        created(s, path, n).action == Some("Created"@),
        created(s, path, n).path == Some(path) && created(s, path, n).lines == Some(n) && created(
            s,
            path,
            n,
        ).result == Some(s) && created(s, path, n).error is None,
{
    let x = " ("@ + text::decimal(edit::line_count(content)) + " lines)"@;
    let t = created_text(path, content);
    assert(t =~= "Created "@ + path + x);
    text::law_affixes(path, "Created "@, x);
    text::law_affixes(x, "Created "@ + path, Seq::empty());
}

} // verus!
