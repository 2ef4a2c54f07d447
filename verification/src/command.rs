//! The external commands that the optimizer runs, and how their exit status
//! and output become a result.
use vstd::prelude::*;
use crate::text::{signed_decimal, push_signed_decimal, trim, trim_str, join, join_strings, string_views};
use crate::decode::{decoded_output, decode_output, decodes_as_gb18030};

verus! {

/// A program to run and its arguments.
pub struct CommandLine {
    pub program: String,
    pub args: Vec<String>,
    /// Whether the command goes through the runner for arguments built at
    /// run time, which words its failures differently.
    pub dynamic: bool,
}

/// The words of a command line: its program and its arguments.
pub open spec fn command_words(c: &CommandLine) -> (Seq<char>, Seq<Seq<char>>) {
    (c.program@, string_views(c.args@))
}

/// A result of strings, by the views of its strings.
pub open spec fn result_view(r: Result<String, String>) -> Result<Seq<char>, Seq<char>> {
    match r {
        Ok(s) => Ok(s@),
        Err(e) => Err(e@),
    }
}

/// How `{:?}` shows an exit code: `Some(<n>)` or `None`.
pub open spec fn exit_code_debug(code: Option<i32>) -> Seq<char> {
    match code {
        Some(c) => "Some("@ + signed_decimal(c as int) + ")"@,
        None => "None"@,
    }
}

pub fn push_exit_code_debug(s: &mut String, code: Option<i32>)
    ensures
        final(s)@ == old(s)@ + exit_code_debug(code),
{
    match code {
        Some(c) => {
            s.append("Some(");
            push_signed_decimal(s, c);
            s.append(")");
        },
        None => {
            s.append("None");
        },
    }
}

/// The text of a failed command: the exit code, the command line and the
/// trimmed output. `dynamic` selects the wording of the commands whose
/// arguments are built at run time.
pub open spec fn failure_message(
    dynamic: bool,
    code: Option<i32>,
    program: Seq<char>,
    args: Seq<Seq<char>>,
    text: Seq<char>,
) -> Seq<char> {
    if dynamic {
        "\u{935b}\u{6212}\u{62a4}\u{95ab}\u{20ac}\u{9351}\u{8679}\u{721c} "@ + exit_code_debug(code)
            + ": "@ + program + " "@ + join(args, " "@) + " | \u{6748}\u{64b3}\u{56ad}: "@ + trim(
            text,
        )
    } else {
        "\u{547d}\u{4ee4}\u{9000}\u{51fa}\u{7801} "@ + exit_code_debug(code) + ": "@ + program
            + " "@ + join(args, " "@) + " | \u{8f93}\u{51fa}: "@ + trim(text)
    }
}

/// What a finished command yields: its decoded output (standard output then
/// standard error) when it succeeded, else the failure message.
pub open spec fn capture_outcome(
    dynamic: bool,
    program: Seq<char>,
    args: Seq<Seq<char>>,
    stdout: Seq<u8>,
    stderr: Seq<u8>,
    success: bool,
    code: Option<i32>,
) -> Result<Seq<char>, Seq<char>> {
    let text = decoded_output(stdout + stderr);
    if success {
        Ok(text)
    } else {
        Err(failure_message(dynamic, code, program, args, text))
    }
}

/// The two runners differ only in how they word a failure: for the same
/// command, exit status and output, both succeed or both fail, and when they
/// succeed they give the same text.
pub proof fn law_runners_agree(
    program: Seq<char>,
    args: Seq<Seq<char>>,
    stdout: Seq<u8>,
    stderr: Seq<u8>,
    success: bool,
    code: Option<i32>,
)
    ensures
        capture_outcome(true, program, args, stdout, stderr, success, code) is Ok
            <==> capture_outcome(false, program, args, stdout, stderr, success, code) is Ok,
        capture_outcome(true, program, args, stdout, stderr, success, code) is Ok
            ==> capture_outcome(true, program, args, stdout, stderr, success, code)
            == capture_outcome(false, program, args, stdout, stderr, success, code),
        success ==> capture_outcome(false, program, args, stdout, stderr, success, code) == Ok::<
            Seq<char>,
            Seq<char>,
        >(decoded_output(stdout + stderr)),
{
}

fn outcome(
    dynamic: bool,
    program: &str,
    args: &Vec<String>,
    stdout: &[u8],
    stderr: &[u8],
    success: bool,
    code: Option<i32>,
) -> (r: Result<String, String>)
    requires
        decodes_as_gb18030(stdout@ + stderr@) ==> stdout@.len() + stderr@.len() <= usize::MAX / 8,
    ensures
        result_view(r) == capture_outcome(
            dynamic,
            program@,
            string_views(args@),
            stdout@,
            stderr@,
            success,
            code,
        ),
{
    let mut all: Vec<u8> = Vec::new();
    let mut i: usize = 0;
    while i < stdout.len()
        invariant
            i <= stdout@.len(),
            all@ == stdout@.subrange(0, i as int),
        decreases stdout@.len() - i,
    {
        all.push(stdout[i]);
        assert(stdout@.subrange(0, i + 1) == stdout@.subrange(0, i as int).push(stdout@[i as int]));
        i = i + 1;
    }
    assert(stdout@.subrange(0, i as int) == stdout@);
    let mut j: usize = 0;
    while j < stderr.len()
        invariant
            j <= stderr@.len(),
            all@ == stdout@ + stderr@.subrange(0, j as int),
        decreases stderr@.len() - j,
    {
        all.push(stderr[j]);
        assert(stderr@.subrange(0, j + 1) == stderr@.subrange(0, j as int).push(stderr@[j as int]));
        j = j + 1;
    }
    assert(stderr@.subrange(0, j as int) == stderr@);
    let text = decode_output(all.as_slice());
    if success {
        return Ok(text);
    }
    let mut m = String::new();
    if dynamic {
        m.append("\u{935b}\u{6212}\u{62a4}\u{95ab}\u{20ac}\u{9351}\u{8679}\u{721c} ");
    } else {
        m.append("\u{547d}\u{4ee4}\u{9000}\u{51fa}\u{7801} ");
    }
    push_exit_code_debug(&mut m, code);
    m.append(": ");
    m.append(program);
    m.append(" ");
    let joined = join_strings(args, " ");
    m.append(joined.as_str());
    if dynamic {
        m.append(" | \u{6748}\u{64b3}\u{56ad}: ");
    } else {
        m.append(" | \u{8f93}\u{51fa}: ");
    }
    let trimmed = trim_str(text.as_str());
    m.append(trimmed.as_str());
    Err(m)
}

/// The result of a command started through the fixed-argument runner, from
/// what the command printed and how it exited.
pub fn run_capture_outcome(
    program: &str,
    args: &Vec<String>,
    stdout: &[u8],
    stderr: &[u8],
    success: bool,
    code: Option<i32>,
) -> (r: Result<String, String>)
    requires
        decodes_as_gb18030(stdout@ + stderr@) ==> stdout@.len() + stderr@.len() <= usize::MAX / 8,
    ensures
        result_view(r) == capture_outcome(
            false,
            program@,
            string_views(args@),
            stdout@,
            stderr@,
            success,
            code,
        ),
{
    outcome(false, program, args, stdout, stderr, success, code)
}

/// The result of a command started through the runner for arguments built
/// at run time, from what the command printed and how it exited.
pub fn run_capture_dynamic_outcome(
    program: &str,
    args: &Vec<String>,
    stdout: &[u8],
    stderr: &[u8],
    success: bool,
    code: Option<i32>,
) -> (r: Result<String, String>)
    requires
        decodes_as_gb18030(stdout@ + stderr@) ==> stdout@.len() + stderr@.len() <= usize::MAX / 8,
    ensures
        result_view(r) == capture_outcome(
            true,
            program@,
            string_views(args@),
            stdout@,
            stderr@,
            success,
            code,
        ),
{
    outcome(true, program, args, stdout, stderr, success, code)
}

} // verus!
