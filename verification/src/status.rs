//! Rendering execution results into the bounded status payload.
//!
//! The reporting channel takes at most 10 string-valued entries. A
//! single-step job is rendered as individual fields; a multi-step job packs
//! one JSON-encoded array summarizing every step into a single field, so the
//! entry count stays bounded whatever the step count. The JSON text itself
//! is produced here, character by character, against an exact specification.

use vstd::prelude::*;
use vstd::string::StringExecFns;
use crate::decimal::{
    bool_to_string,
    i64_to_string,
    push_dec_i64,
    push_dec_u64,
    spec_bool_text,
    spec_dec_int,
    spec_dec_nat,
    u64_to_string,
};
use crate::models::{JobExecutionResult, StepOutput};
use crate::text::push_char;

verus! {

// ===========================================================================
// JSON string encoding
// ===========================================================================
/// The hexadecimal digit for `d`.
pub open spec fn hex_digit(d: nat) -> char {
    if d == 0 {
        '0'
    } else if d == 1 {
        '1'
    } else if d == 2 {
        '2'
    } else if d == 3 {
        '3'
    } else if d == 4 {
        '4'
    } else if d == 5 {
        '5'
    } else if d == 6 {
        '6'
    } else if d == 7 {
        '7'
    } else if d == 8 {
        '8'
    } else if d == 9 {
        '9'
    } else if d == 10 {
        'a'
    } else if d == 11 {
        'b'
    } else if d == 12 {
        'c'
    } else if d == 13 {
        'd'
    } else if d == 14 {
        'e'
    } else {
        'f'
    }
}

/// How one character appears inside a JSON string: quotes and backslashes
/// are escaped, the common control characters get their short escapes, the
/// remaining control characters a `\u00XX` escape, and everything else
/// stands as itself.
pub open spec fn esc_char(c: char) -> Seq<char> {
    if c == '"' {
        seq!['\\', '"']
    } else if c == '\\' {
        seq!['\\', '\\']
    } else if c == '\u{8}' {
        seq!['\\', 'b']
    } else if c == '\u{c}' {
        seq!['\\', 'f']
    } else if c == '\n' {
        seq!['\\', 'n']
    } else if c == '\r' {
        seq!['\\', 'r']
    } else if c == '\t' {
        seq!['\\', 't']
    } else if (c as u32) < 0x20 {
        seq!['\\', 'u', '0', '0', hex_digit(((c as u32) / 16) as nat), hex_digit(
            ((c as u32) % 16) as nat,
        )]
    } else {
        seq![c]
    }
}

/// The body of a JSON string: every character escaped.
pub open spec fn json_escaped(s: Seq<char>) -> Seq<char>
    decreases s.len(),
{
    if s.len() == 0 {
        Seq::empty()
    } else {
        esc_char(s[0]) + json_escaped(s.drop_first())
    }
}

/// A JSON string: the escaped body between quotes.
pub open spec fn json_string(s: Seq<char>) -> Seq<char> {
    seq!['"'] + json_escaped(s) + seq!['"']
}

/// Escaping one more character appends its escape.
proof fn lemma_json_escaped_push(s: Seq<char>, c: char)
    ensures
        json_escaped(s.push(c)) == json_escaped(s) + esc_char(c),
    decreases s.len(),
{
    if s.len() == 0 {
        assert(s.push(c)[0] == c);
        assert(s.push(c).drop_first() =~= Seq::<char>::empty());
        assert(json_escaped(Seq::<char>::empty()) == Seq::<char>::empty());
        assert(json_escaped(s.push(c)) =~= json_escaped(s) + esc_char(c));
    } else {
        assert(s.push(c)[0] == s[0]);
        assert(s.push(c).drop_first() =~= s.drop_first().push(c));
        lemma_json_escaped_push(s.drop_first(), c);
        assert(json_escaped(s.push(c)) =~= json_escaped(s) + esc_char(c));
    }
}

/// Appends the escape of one character to `out`.
fn push_escaped_char(out: &mut String, c: char)
    ensures
        final(out)@ == old(out)@ + esc_char(c),
{
    if c == '"' {
        push_char(out, '\\');
        push_char(out, '"');
    } else if c == '\\' {
        push_char(out, '\\');
        push_char(out, '\\');
    } else if c == '\u{8}' {
        push_char(out, '\\');
        push_char(out, 'b');
    } else if c == '\u{c}' {
        push_char(out, '\\');
        push_char(out, 'f');
    } else if c == '\n' {
        push_char(out, '\\');
        push_char(out, 'n');
    } else if c == '\r' {
        push_char(out, '\\');
        push_char(out, 'r');
    } else if c == '\t' {
        push_char(out, '\\');
        push_char(out, 't');
    } else if (c as u32) < 0x20 {
        push_char(out, '\\');
        push_char(out, 'u');
        push_char(out, '0');
        push_char(out, '0');
        push_char(out, hex_digit_char((c as u32) / 16));
        push_char(out, hex_digit_char((c as u32) % 16));
    } else {
        push_char(out, c);
    }
    proof {
        assert(out@ =~= old(out)@ + esc_char(c));
    }
}

/// The hexadecimal digit character for `d`.
fn hex_digit_char(d: u32) -> (r: char)
    requires
        d < 16,
    ensures
        r == hex_digit(d as nat),
{
    if d == 0 {
        '0'
    } else if d == 1 {
        '1'
    } else if d == 2 {
        '2'
    } else if d == 3 {
        '3'
    } else if d == 4 {
        '4'
    } else if d == 5 {
        '5'
    } else if d == 6 {
        '6'
    } else if d == 7 {
        '7'
    } else if d == 8 {
        '8'
    } else if d == 9 {
        '9'
    } else if d == 10 {
        'a'
    } else if d == 11 {
        'b'
    } else if d == 12 {
        'c'
    } else if d == 13 {
        'd'
    } else if d == 14 {
        'e'
    } else {
        'f'
    }
}

/// Appends the JSON string encoding of `s` to `out`.
pub fn push_json_string(out: &mut String, s: &str)
    ensures
        final(out)@ == old(out)@ + json_string(s@),
{
    push_char(out, '"');
    let n = s.unicode_len();
    let mut i: usize = 0;
    while i < n
        invariant
            n == s@.len(),
            i <= n,
            out@ == old(out)@ + seq!['"'] + json_escaped(s@.take(i as int)),
        decreases n - i,
    {
        let c = s.get_char(i);
        push_escaped_char(out, c);
        i = i + 1;
        proof {
            lemma_json_escaped_push(s@.take(i - 1), c);
            assert(s@.take(i - 1).push(c) =~= s@.take(i as int));
            assert(out@ =~= old(out)@ + seq!['"'] + json_escaped(s@.take(i as int)));
        }
    }
    push_char(out, '"');
    proof {
        assert(s@.take(n as int) =~= s@);
        assert(out@ =~= old(out)@ + json_string(s@));
    }
}

// ===========================================================================
// Status details
// ===========================================================================
/// One string-valued entry of a status payload.
#[derive(Debug, Clone)]
pub struct StatusEntry {
    pub key: String,
    pub value: String,
}

impl View for StatusEntry {
    type V = (Seq<char>, Seq<char>);

    open spec fn view(&self) -> (Seq<char>, Seq<char>) {
        (self.key@, self.value@)
    }
}

impl DeepView for StatusEntry {
    type V = (Seq<char>, Seq<char>);

    open spec fn deep_view(&self) -> (Seq<char>, Seq<char>) {
        self.view()
    }
}

/// The JSON object text summarizing one step inside a multi-step report.
pub open spec fn spec_step_summary_json(s: StepOutput, include_stdout: bool) -> Seq<char> {
    seq!['{'] + json_string("name"@) + seq![':'] + json_string(s.step_name@) + seq![',']
        + json_string("exit_code"@) + seq![':'] + spec_dec_int(s.output.exit_code as int)
        + seq![','] + json_string("time_ms"@) + seq![':'] + spec_dec_nat(
        s.output.execution_time_ms as nat,
    ) + (if include_stdout && s.output.stdout@.len() > 0 {
        seq![','] + json_string("stdout"@) + seq![':'] + json_string(s.output.stdout@)
    } else {
        Seq::<char>::empty()
    }) + (if s.output.stderr@.len() > 0 {
        seq![','] + json_string("stderr"@) + seq![':'] + json_string(s.output.stderr@)
    } else {
        Seq::<char>::empty()
    }) + (if s.ignored_failure {
        seq![','] + json_string("ignored_failure"@) + seq![':'] + "true"@
    } else {
        Seq::<char>::empty()
    }) + seq!['}']
}

/// The comma-joined step summaries of a multi-step report.
pub open spec fn spec_step_summaries(outs: Seq<StepOutput>, include_stdout: bool) -> Seq<char>
    decreases outs.len(),
{
    if outs.len() == 0 {
        Seq::empty()
    } else if outs.len() == 1 {
        spec_step_summary_json(outs[0], include_stdout)
    } else {
        spec_step_summaries(outs.drop_last(), include_stdout) + seq![','] + spec_step_summary_json(
            outs.last(),
            include_stdout,
        )
    }
}

/// The individual fields of a single-step report.
pub open spec fn spec_single_step_fields(s: StepOutput, include_stdout: bool) -> Seq<
    (Seq<char>, Seq<char>),
> {
    seq![
        ("step_name"@, s.step_name@),
        ("exit_code"@, spec_dec_int(s.output.exit_code as int)),
        ("execution_time_ms"@, spec_dec_nat(s.output.execution_time_ms as nat)),
    ] + (if include_stdout && s.output.stdout@.len() > 0 {
        seq![("stdout"@, s.output.stdout@)]
    } else {
        Seq::<(Seq<char>, Seq<char>)>::empty()
    }) + (if s.output.stderr@.len() > 0 {
        seq![("stderr"@, s.output.stderr@)]
    } else {
        Seq::<(Seq<char>, Seq<char>)>::empty()
    }) + (if s.ignored_failure {
        seq![("ignored_failure"@, "true"@)]
    } else {
        Seq::<(Seq<char>, Seq<char>)>::empty()
    })
}

/// The status-details entries for an execution result: the step count and
/// overall flag always, the failing step's name when there is one, then
/// either the single step's flat fields or the packed JSON array.
pub open spec fn spec_status_details(result: JobExecutionResult, include_stdout: bool) -> Seq<
    (Seq<char>, Seq<char>),
> {
    seq![
        ("steps_executed"@, spec_dec_nat(result.outputs@.len())),
        ("overall_success"@, spec_bool_text(result.overall_success)),
    ] + (match result.failed_step {
        Some(f) => seq![("failed_step"@, f@)],
        None => Seq::<(Seq<char>, Seq<char>)>::empty(),
    }) + (if result.outputs@.len() > 1 {
        seq![
            ("steps"@, seq!['['] + spec_step_summaries(result.outputs@, include_stdout)
            + seq![']']),
        ]
    } else if result.outputs@.len() == 1 {
        spec_single_step_fields(result.outputs@[0], include_stdout)
    } else {
        Seq::<(Seq<char>, Seq<char>)>::empty()
    })
}

/// However many steps a job ran, its status details never exceed the
/// channel's limit of 10 entries.
pub proof fn law_details_bounded(result: JobExecutionResult, include_stdout: bool)
    ensures
        spec_status_details(result, include_stdout).len() <= 10,
{
}

/// Appends the JSON object summarizing one step.
#[verifier::rlimit(100)]
fn push_step_summary(out: &mut String, s: &StepOutput, include_stdout: bool)
    ensures
        final(out)@ == old(out)@ + spec_step_summary_json(*s, include_stdout),
{
    push_char(out, '{');
    push_json_string(out, "name");
    push_char(out, ':');
    push_json_string(out, s.step_name.as_str());
    push_char(out, ',');
    push_json_string(out, "exit_code");
    push_char(out, ':');
    push_dec_i64(out, s.output.exit_code as i64);
    push_char(out, ',');
    push_json_string(out, "time_ms");
    push_char(out, ':');
    push_dec_u64(out, s.output.execution_time_ms);
    if include_stdout && !s.output.stdout.as_str().is_empty() {
        push_char(out, ',');
        push_json_string(out, "stdout");
        push_char(out, ':');
        push_json_string(out, s.output.stdout.as_str());
    }
    if !s.output.stderr.as_str().is_empty() {
        push_char(out, ',');
        push_json_string(out, "stderr");
        push_char(out, ':');
        push_json_string(out, s.output.stderr.as_str());
    }
    if s.ignored_failure {
        push_char(out, ',');
        push_json_string(out, "ignored_failure");
        push_char(out, ':');
        out.append("true");
    }
    push_char(out, '}');
    proof {
        assert(out@ =~= old(out)@ + spec_step_summary_json(*s, include_stdout));
    }
}

/// Renders an execution result into the bounded status-details list: always
/// the step count and overall-success flag, the failed step's name if any,
/// and either flat fields (one step) or one packed JSON array (several).
#[verifier::rlimit(100)]
pub fn format_status_details(result: &JobExecutionResult, include_stdout: bool) -> (r: Vec<
    StatusEntry,
>)
    ensures
        r.deep_view() == spec_status_details(*result, include_stdout),
        r@.len() <= 10,
{
    let mut entries: Vec<StatusEntry> = Vec::new();
    entries.push(
        StatusEntry {
            key: "steps_executed".to_owned(),
            value: u64_to_string(result.outputs.len() as u64),
        },
    );
    entries.push(
        StatusEntry {
            key: "overall_success".to_owned(),
            value: bool_to_string(result.overall_success),
        },
    );
    match &result.failed_step {
        Some(f) => {
            entries.push(StatusEntry { key: "failed_step".to_owned(), value: f.clone() });
        },
        None => {},
    }
    let ghost base = entries.deep_view();
    if result.outputs.len() > 1 {
        let mut arr = String::new();
        push_char(&mut arr, '[');
        let mut i: usize = 0;
        while i < result.outputs.len()
            invariant
                i <= result.outputs@.len(),
                arr@ == seq!['['] + spec_step_summaries(
                    result.outputs@.take(i as int),
                    include_stdout,
                ),
        decreases result.outputs@.len() - i,
        {
            if i > 0 {
                push_char(&mut arr, ',');
            }
            push_step_summary(&mut arr, &result.outputs[i], include_stdout);
            i = i + 1;
            proof {
                assert(result.outputs@.take(i as int).drop_last() =~= result.outputs@.take(i - 1));
                assert(result.outputs@.take(i as int).last() == result.outputs@[i - 1]);
                assert(arr@ =~= seq!['['] + spec_step_summaries(
                    result.outputs@.take(i as int),
                    include_stdout,
                ));
            }
        }
        push_char(&mut arr, ']');
        proof {
            assert(result.outputs@.take(result.outputs@.len() as int) =~= result.outputs@);
        }
        entries.push(StatusEntry { key: "steps".to_owned(), value: arr });
    } else if result.outputs.len() == 1 {
        let s = &result.outputs[0];
        entries.push(
            StatusEntry {
                key: "step_name".to_owned(),
                value: s.step_name.clone(),
            },
        );
        entries.push(
            StatusEntry {
                key: "exit_code".to_owned(),
                value: i64_to_string(s.output.exit_code as i64),
            },
        );
        entries.push(
            StatusEntry {
                key: "execution_time_ms".to_owned(),
                value: u64_to_string(s.output.execution_time_ms),
            },
        );
        if include_stdout && !s.output.stdout.as_str().is_empty() {
            entries.push(
                StatusEntry { key: "stdout".to_owned(), value: s.output.stdout.clone() },
            );
        }
        if !s.output.stderr.as_str().is_empty() {
            entries.push(
                StatusEntry { key: "stderr".to_owned(), value: s.output.stderr.clone() },
            );
        }
        if s.ignored_failure {
            entries.push(
                StatusEntry { key: "ignored_failure".to_owned(), value: "true".to_owned() },
            );
        }
    }
    proof {
        assert(entries.deep_view() =~~= spec_status_details(*result, include_stdout));
    }
    entries
}

// ===========================================================================
// Job status
// ===========================================================================
/// The reportable state of a job. The engine never emits `InProgress`.
#[derive(Debug, Clone, PartialEq, Eq, Structural)]
pub enum JobStatusType {
    InProgress,
    Succeeded,
    Failed,
}

/// The wire tag of a status.
pub open spec fn spec_status_tag(t: JobStatusType) -> Seq<char> {
    match t {
        JobStatusType::InProgress => "IN_PROGRESS"@,
        JobStatusType::Succeeded => "SUCCEEDED"@,
        JobStatusType::Failed => "FAILED"@,
    }
}

/// A status report: the tag and its bounded details.
#[derive(Debug, Clone)]
pub struct JobStatus {
    pub status: JobStatusType,
    pub status_details: Vec<StatusEntry>,
}

/// The comma-joined `"key":"value"` pairs of the details object.
pub open spec fn spec_details_json(entries: Seq<(Seq<char>, Seq<char>)>) -> Seq<char>
    decreases entries.len(),
{
    if entries.len() == 0 {
        Seq::empty()
    } else if entries.len() == 1 {
        json_string(entries[0].0) + seq![':'] + json_string(entries[0].1)
    } else {
        spec_details_json(entries.drop_last()) + seq![','] + json_string(entries.last().0)
            + seq![':'] + json_string(entries.last().1)
    }
}

/// The full JSON payload of a status report.
pub open spec fn spec_status_json(s: JobStatus) -> Seq<char> {
    seq!['{'] + json_string("status"@) + seq![':'] + json_string(spec_status_tag(s.status))
        + seq![','] + json_string("statusDetails"@) + seq![':'] + seq!['{'] + spec_details_json(
        s.status_details.deep_view(),
    ) + seq!['}'] + seq!['}']
}

impl JobStatus {
    /// A succeeded status carrying the execution result's details.
    pub fn from_success(result: &JobExecutionResult, include_stdout: bool) -> (r: Self)
        ensures
            r.status == JobStatusType::Succeeded,
            r.status_details.deep_view() == spec_status_details(*result, include_stdout),
            r.status_details@.len() <= 10,
    {
        JobStatus {
            status: JobStatusType::Succeeded,
            status_details: format_status_details(result, include_stdout),
        }
    }

    /// A failed status carrying the execution result's details.
    pub fn from_failure(result: &JobExecutionResult, include_stdout: bool) -> (r: Self)
        ensures
            r.status == JobStatusType::Failed,
            r.status_details.deep_view() == spec_status_details(*result, include_stdout),
            r.status_details@.len() <= 10,
    {
        JobStatus {
            status: JobStatusType::Failed,
            status_details: format_status_details(result, include_stdout),
        }
    }

    /// A simple failed status built from a free-text reason, used for
    /// validation failures and infrastructure errors.
    pub fn failed(reason: String, stdout: Option<String>, stderr: Option<String>) -> (r: Self)
        ensures
            r.status == JobStatusType::Failed,
            r.status_details.deep_view() == seq![("reason"@, reason@)] + (match stdout {
                Some(o) => seq![("stdout"@, o@)],
                None => Seq::<(Seq<char>, Seq<char>)>::empty(),
            }) + (match stderr {
                Some(e) => seq![("stderr"@, e@)],
                None => Seq::<(Seq<char>, Seq<char>)>::empty(),
            }),
            r.status_details@.len() <= 3,
    {
        let mut entries: Vec<StatusEntry> = Vec::new();
        entries.push(StatusEntry { key: "reason".to_owned(), value: reason });
        match stdout {
            Some(o) => {
                entries.push(StatusEntry { key: "stdout".to_owned(), value: o });
            },
            None => {},
        }
        match stderr {
            Some(e) => {
                entries.push(StatusEntry { key: "stderr".to_owned(), value: e });
            },
            None => {},
        }
        let r = JobStatus { status: JobStatusType::Failed, status_details: entries };
        proof {
            assert(r.status_details.deep_view() =~~= seq![("reason"@, reason@)] + (match stdout {
                Some(o) => seq![("stdout"@, o@)],
                None => Seq::<(Seq<char>, Seq<char>)>::empty(),
            }) + (match stderr {
                Some(e) => seq![("stderr"@, e@)],
                None => Seq::<(Seq<char>, Seq<char>)>::empty(),
            }));
        }
        r
    }

    /// The JSON payload published to the status channel.
    pub fn to_json(&self) -> (r: String)
        ensures
            r@ == spec_status_json(*self),
    {
        let mut out = String::new();
        push_char(&mut out, '{');
        push_json_string(&mut out, "status");
        push_char(&mut out, ':');
        match self.status {
            JobStatusType::InProgress => push_json_string(&mut out, "IN_PROGRESS"),
            JobStatusType::Succeeded => push_json_string(&mut out, "SUCCEEDED"),
            JobStatusType::Failed => push_json_string(&mut out, "FAILED"),
        }
        push_char(&mut out, ',');
        push_json_string(&mut out, "statusDetails");
        push_char(&mut out, ':');
        push_char(&mut out, '{');
        let mut i: usize = 0;
        while i < self.status_details.len()
            invariant
                i <= self.status_details@.len(),
                self.status_details@.len() == self.status_details.deep_view().len(),
                out@ == seq!['{'] + json_string("status"@) + seq![':'] + json_string(
                    spec_status_tag(self.status),
                ) + seq![','] + json_string("statusDetails"@) + seq![':'] + seq!['{']
                    + spec_details_json(self.status_details.deep_view().take(i as int)),
            decreases self.status_details@.len() - i,
        {
            if i > 0 {
                push_char(&mut out, ',');
            }
            push_json_string(&mut out, self.status_details[i].key.as_str());
            push_char(&mut out, ':');
            push_json_string(&mut out, self.status_details[i].value.as_str());
            i = i + 1;
            proof {
                let dv = self.status_details.deep_view();
                assert(dv[i - 1] == self.status_details@[i - 1]@);
                assert(dv.take(i as int).drop_last() =~= dv.take(i - 1));
                assert(dv.take(i as int).last() == dv[i - 1]);
                assert(out@ =~= seq!['{'] + json_string("status"@) + seq![':'] + json_string(
                    spec_status_tag(self.status),
                ) + seq![','] + json_string("statusDetails"@) + seq![':'] + seq!['{']
                    + spec_details_json(dv.take(i as int)));
            }
        }
        push_char(&mut out, '}');
        push_char(&mut out, '}');
        proof {
            let dv = self.status_details.deep_view();
            assert(dv.take(dv.len() as int) =~= dv);
            assert(out@ =~= spec_status_json(*self));
        }
        out
    }
}

} // verus!
