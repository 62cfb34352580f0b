//! How the result of a command is reported.
//!
//! Each run of a command is reported as a list of lines, each meant
//! for standard output or standard error: the entry's name (where it
//! has one), the command, whether it succeeded, and its trimmed output.
use vstd::prelude::*;
use vstd::utf8::{decode_utf8, valid_utf8};

use crate::text::{decimal, decimal_text, trim_text, trimmed};

verus! {

/// What `String::from_utf8_lossy` gives for a sequence of bytes.
pub uninterp spec fn lossy_text(bytes: Seq<u8>) -> Seq<char>;

/// `String::from_utf8_lossy`: decodes the bytes as UTF-8, putting
/// U+FFFD in place of each invalid sequence. The result is named
/// [`lossy_text`]; where the bytes are valid UTF-8 it is their
/// decoding.
#[verifier::external_body]
pub(crate) fn utf8_lossy(bytes: &[u8]) -> (text: String)
    ensures
        text@ == lossy_text(bytes@),
        valid_utf8(bytes@) ==> text@ == decode_utf8(bytes@),
{
    String::from_utf8_lossy(bytes).into_owned()
}

/// The stream a report line is meant for.
#[derive(Debug, Clone, Copy, PartialEq, Eq)]
pub enum Stream {
    Stdout,
    Stderr,
}

/// One line of a report.
#[derive(Debug)]
pub struct OutputLine {
    pub stream: Stream,
    pub text: String,
}

/// How running a command went.
#[derive(Debug)]
pub enum CommandOutcome {
    /// The command ran to its end: `success` as its exit status says,
    /// `code` its exit code (`None` where a signal ended it), and what
    /// it wrote.
    Finished { success: bool, code: Option<i32>, stdout: Vec<u8>, stderr: Vec<u8> },
    /// The command could not be started, for the reason given.
    SpawnFailed { reason: String },
}

/// Reported in place of empty output.
pub open spec fn no_output() -> Seq<char> {
    "(no output)"@
}

/// The report of a command's output: the trimmed text, or
/// [`no_output`] where nothing is left.
pub open spec fn output_text(bytes: Seq<u8>) -> Seq<char> {
    let t = trimmed(lossy_text(bytes));
    if t.len() == 0 {
        no_output()
    } else {
        t
    }
}

/// The status line of a command that failed.
pub open spec fn failure_status(code: Option<i32>) -> Seq<char> {
    match code {
        Some(c) => "✗ failed (exit code "@ + decimal(c as int) + ")"@,
        None => "✗ failed (terminated)"@,
    }
}

/// The lines that report running `cmd` for the entry named `name`.
pub open spec fn report(cmd: Seq<char>, name: Option<Seq<char>>, outcome: CommandOutcome) -> Seq<
    (Stream, Seq<char>),
> {
    let header = match name {
        Some(n) => seq![(Stream::Stdout, "["@ + n + "]"@)],
        None => Seq::empty(),
    };
    let header = header.push((Stream::Stdout, "$ "@ + cmd));
    match outcome {
        CommandOutcome::Finished { success, code, stdout, stderr } => if success {
            header + seq![
                (Stream::Stdout, "✓ success"@),
                (Stream::Stdout, output_text(stdout@)),
            ]
        } else {
            header + seq![
                (Stream::Stdout, failure_status(code)),
                (Stream::Stderr, output_text(stderr@)),
            ]
        },
        CommandOutcome::SpawnFailed { reason } => header.push(
            (Stream::Stdout, "✗ failed to spawn: "@ + reason@),
        ),
    }
}

/// The stream and text of each line.
pub open spec fn lines_view(lines: Seq<OutputLine>) -> Seq<(Stream, Seq<char>)> {
    lines.map_values(|l: OutputLine| (l.stream, l.text@))
}

/// The optional name, as text.
pub open spec fn opt_str_view(name: Option<&str>) -> Option<Seq<char>> {
    match name {
        Some(n) => Some(n@),
        None => None,
    }
}

/// A line built from literal text and one piece in between.
fn framed(before: &str, middle: &str, after: &str) -> (s: String)
    ensures
        s@ == before@ + middle@ + after@,
{
    let mut s = String::from_str(before);
    s.append(middle);
    s.append(after);
    s
}

/// A line built from literal text and what follows it.
fn prefixed(before: &str, rest: &str) -> (s: String)
    ensures
        s@ == before@ + rest@,
{
    let mut s = String::from_str(before);
    s.append(rest);
    s
}

/// The report text of a command's output.
fn output_line_text(bytes: &Vec<u8>) -> (s: String)
    ensures
        s@ == output_text(bytes@),
{
    let text = utf8_lossy(bytes.as_slice());
    let t = trim_text(text.as_str());
    if t.as_str().unicode_len() == 0 {
        String::from_str("(no output)")
    } else {
        t
    }
}

/// The lines that report running `cmd` for the entry named `name`:
///
/// - `[name]`, where the entry has a name;
/// - `$ cmd`;
/// - on success, `✓ success` and the trimmed standard output;
/// - on failure, `✗ failed (exit code N)` or `✗ failed (terminated)`,
///   and the trimmed standard error, meant for standard error;
/// - where the command could not start, `✗ failed to spawn: reason`.
///
/// Empty output is reported as `(no output)`.
pub fn render_output(cmd: &str, name: Option<&str>, outcome: &CommandOutcome) -> (lines: Vec<
    OutputLine,
>)
    ensures
        lines_view(lines@) == report(cmd@, opt_str_view(name), *outcome),
        lines@.len() >= 2,
        lines@[0].text@ == match name {
            Some(n) => "["@ + n@ + "]"@,
            None => "$ "@ + cmd@,
        },
        match *outcome {
            CommandOutcome::Finished { success: true, stdout, .. } => {
                &&& lines@.last().stream == Stream::Stdout
                &&& lines@.last().text@ == if trimmed(lossy_text(stdout@)).len() == 0 {
                    "(no output)"@
                } else {
                    trimmed(lossy_text(stdout@))
                }
            },
            CommandOutcome::Finished { success: false, stderr, .. } => {
                &&& lines@.last().stream == Stream::Stderr
                &&& lines@.last().text@ == if trimmed(lossy_text(stderr@)).len() == 0 {
                    "(no output)"@
                } else {
                    trimmed(lossy_text(stderr@))
                }
            },
            CommandOutcome::SpawnFailed { reason } => lines@.last().text@ == "✗ failed to spawn: "@
                + reason@,
        },
        forall|i: int|
            0 <= i < lines@.len() && (#[trigger] lines@[i]).stream == Stream::Stderr ==> (
            outcome matches CommandOutcome::Finished { success: false, .. } && i == lines@.len() - 1),
{
    let mut lines: Vec<OutputLine> = Vec::new();
    match name {
        Some(n) => {
            lines.push(OutputLine { stream: Stream::Stdout, text: framed("[", n, "]") });
        },
        None => {},
    }
    lines.push(OutputLine { stream: Stream::Stdout, text: prefixed("$ ", cmd) });
    let ghost header = lines_view(lines@);
    assert(header =~= match opt_str_view(name) {
        Some(n) => seq![(Stream::Stdout, "["@ + n + "]"@)],
        None => Seq::<(Stream, Seq<char>)>::empty(),
    }.push((Stream::Stdout, "$ "@ + cmd@)));
    match outcome {
        CommandOutcome::Finished { success, code, stdout, stderr } => {
            if *success {
                lines.push(OutputLine { stream: Stream::Stdout, text: String::from_str("✓ success") });
                lines.push(OutputLine { stream: Stream::Stdout, text: output_line_text(stdout) });
                assert(lines_view(lines@) =~= header + seq![
                    (Stream::Stdout, "✓ success"@),
                    (Stream::Stdout, output_text(stdout@)),
                ]);
            } else {
                let status = match code {
                    Some(c) => {
                        let digits = decimal_text(*c);
                        framed("✗ failed (exit code ", digits.as_str(), ")")
                    },
                    None => String::from_str("✗ failed (terminated)"),
                };
                lines.push(OutputLine { stream: Stream::Stdout, text: status });
                lines.push(OutputLine { stream: Stream::Stderr, text: output_line_text(stderr) });
                assert(lines_view(lines@) =~= header + seq![
                    (Stream::Stdout, failure_status(*code)),
                    (Stream::Stderr, output_text(stderr@)),
                ]);
            }
        },
        CommandOutcome::SpawnFailed { reason } => {
            lines.push(
                OutputLine {
                    stream: Stream::Stdout,
                    text: prefixed("✗ failed to spawn: ", reason.as_str()),
                },
            );
            assert(lines_view(lines@) =~= header.push(
                (Stream::Stdout, "✗ failed to spawn: "@ + reason@),
            ));
        },
    }
    proof {
        let v = lines_view(lines@);
        assert forall|i: int| 0 <= i < lines@.len() implies #[trigger] v[i] == (
        lines@[i].stream,
        lines@[i].text@,
        ) by {}
        assert(v[0] == (lines@[0].stream, lines@[0].text@));
        assert(v[v.len() - 1] == (lines@.last().stream, lines@.last().text@));
    }
    lines
}

/// On success the report shows only the standard output: two
/// successful runs that wrote the same standard output are reported
/// alike, whatever they wrote to standard error and whatever their
/// exit code.
pub proof fn lemma_success_ignores_stderr(
    cmd: Seq<char>,
    name: Option<Seq<char>>,
    a: CommandOutcome,
    b: CommandOutcome,
)
    requires
        a matches CommandOutcome::Finished { success: true, .. },
        b matches CommandOutcome::Finished { success: true, .. },
        a->stdout@ == b->stdout@,
    ensures
        report(cmd, name, a) == report(cmd, name, b),
{
}

/// On failure the report shows only the exit code and standard error:
/// two failed runs with the same exit code and standard error are
/// reported alike, whatever they wrote to standard output.
pub proof fn lemma_failure_ignores_stdout(
    cmd: Seq<char>,
    name: Option<Seq<char>>,
    a: CommandOutcome,
    b: CommandOutcome,
)
    requires
        a matches CommandOutcome::Finished { success: false, .. },
        b matches CommandOutcome::Finished { success: false, .. },
        a->code == b->code,
        a->stderr@ == b->stderr@,
    ensures
        report(cmd, name, a) == report(cmd, name, b),
{
}

} // verus!
