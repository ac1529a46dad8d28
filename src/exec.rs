use vstd::prelude::*;
use crate::text::{decimal_text, digit_char, push_char, push_decimal, push_signed, signed_text};

verus! {

/// What running a command produced, over mathematical values.
pub struct Report {
    pub success: bool,
    pub exit_code: int,
    pub stdout: Seq<char>,
    pub stderr: Seq<char>,
    pub error: Seq<char>,
}

/// What running a command produced. `exit_code` is `-1` when no exit code is
/// available; `success` holds exactly when the command exited with code 0,
/// and then `error` is empty.
#[derive(Debug)]
pub struct ExecutionResult {
    pub success: bool,
    pub exit_code: i32,
    pub stdout: String,
    pub stderr: String,
    pub error: String,
}

impl View for ExecutionResult {
    type V = Report;

    open spec fn view(&self) -> Report {
        Report {
            success: self.success,
            exit_code: self.exit_code as int,
            stdout: self.stdout@,
            stderr: self.stderr@,
            error: self.error@,
        }
    }
}

/// How to start a command: the program, its arguments, the working directory
/// (`None`: the caller's own) and how long to wait for it, in milliseconds.
#[derive(Debug)]
pub struct Launch {
    pub program: String,
    pub args: Vec<String>,
    pub cwd: Option<String>,
    pub wait_ms: u64,
}

/// How a started command ended, as the caller that ran it saw it.
#[derive(Debug)]
pub enum Outcome {
    /// The process could not be started; the system's message.
    SpawnFailed(String),
    /// Waiting for the process failed; the system's message.
    WaitFailed(String),
    /// The deadline passed; the process was killed and reaped.
    TimedOut,
    /// The process exited, with its exit code if it has one.
    Exited(Option<i32>),
}

pub open spec fn no_result(error: Seq<char>) -> Report {
    Report { success: false, exit_code: -1, stdout: seq![], stderr: seq![], error }
}

/// The report on an empty argument vector.
pub open spec fn empty_argv_report() -> Report {
    no_result("Empty argv"@)
}

/// A wait of `timeout_ms` milliseconds, at least one.
pub open spec fn wait_for(timeout_ms: nat) -> nat {
    if timeout_ms == 0 {
        1
    } else {
        timeout_ms
    }
}

/// `ms` milliseconds in seconds with one decimal, rounded half up.
pub open spec fn seconds_text(ms: nat) -> Seq<char> {
    let tenths = (ms + 50) / 100;
    decimal_text(tenths / 10).push('.').push(digit_char(tenths % 10))
}

/// The report for a command that ended with `outcome`, having written `out`
/// and `err`, under a timeout of `timeout_ms` milliseconds.
pub open spec fn report_of(outcome: Outcome, out: Seq<char>, err: Seq<char>, timeout_ms: nat) -> Report {
    match outcome {
        Outcome::SpawnFailed(m) => no_result("Spawn error: "@ + m@),
        Outcome::WaitFailed(m) => no_result("Wait error: "@ + m@),
        Outcome::TimedOut => Report {
            success: false,
            exit_code: -1,
            stdout: out,
            stderr: err,
            error: "Command timed out after "@ + seconds_text(timeout_ms) + "s"@,
        },
        Outcome::Exited(code) => {
            let c: int = match code {
                Some(c) => c as int,
                None => -1,
            };
            Report {
                success: c == 0,
                exit_code: c,
                stdout: out,
                stderr: err,
                error: if c == 0 {
                    seq![]
                } else {
                    "Exit code: "@ + signed_text(c)
                },
            }
        },
    }
}

/// Decides how to start the command `argv` in `cwd` (empty: the caller's own
/// directory) with a timeout of `timeout_ms` milliseconds, or reports at once
/// that there is nothing to run.
pub fn plan_command(argv: &Vec<String>, cwd: &str, timeout_ms: u64) -> (r: Result<Launch, ExecutionResult>)
    ensures
        r is Err <==> argv@.len() == 0,
        r matches Err(e) ==> e@ == empty_argv_report(),
        r matches Ok(l) ==> {
            &&& l.program == argv@[0]
            &&& l.args@ == argv@.drop_first()
            &&& (cwd@.len() == 0 ==> l.cwd is None)
            &&& (cwd@.len() > 0 ==> (l.cwd matches Some(d) && d@ == cwd@))
            &&& l.wait_ms == wait_for(timeout_ms as nat)
        },
{
    if argv.len() == 0 {
        return Err(
            ExecutionResult {
                success: false,
                exit_code: -1,
                stdout: String::new(),
                stderr: String::new(),
                error: String::from_str("Empty argv"),
            },
        );
    }
    let program = argv[0].clone();
    let mut args: Vec<String> = Vec::new();
    let mut i: usize = 1;
    while i < argv.len()
        invariant
            1 <= i <= argv@.len(),
            args@ == argv@.subrange(1, i as int),
        decreases argv@.len() - i,
    {
        args.push(argv[i].clone());
        i = i + 1;
        assert(args@ =~= argv@.subrange(1, i as int));
    }
    assert(args@ =~= argv@.drop_first());
    let dir = if cwd.unicode_len() == 0 {
        None
    } else {
        Some(String::from_str(cwd))
    };
    let wait_ms: u64 = if timeout_ms == 0 {
        1
    } else {
        timeout_ms
    };
    Ok(Launch { program, args, cwd: dir, wait_ms })
}

fn message(head: &str, m: &String) -> (r: String)
    ensures
        r@ == head@ + m@,
{
    let mut r = String::from_str(head);
    r.append(m.as_str());
    r
}

/// Appends `ms` milliseconds written in seconds with one decimal, rounded half up.
fn push_seconds(out: &mut String, ms: u64)
    ensures
        final(out)@ == old(out)@ + seconds_text(ms as nat),
{
    let tenths: u64 = ms / 100 + if ms % 100 >= 50 {
        1u64
    } else {
        0u64
    };
    assert(tenths == (ms + 50) / 100);
    push_decimal(out, tenths / 10);
    push_char(out, '.');
    let d: u8 = (tenths % 10) as u8;
    push_char(out, (48u8 + d) as char);
    assert(out@ =~= old(out)@ + seconds_text(ms as nat));
}

/// Builds the report for a command that ended with `outcome`, having written
/// `out` and `err`, under a timeout of `timeout_ms` milliseconds.
pub fn conclude(outcome: Outcome, out: String, err: String, timeout_ms: u64) -> (r: ExecutionResult)
    ensures
        r@ == report_of(outcome, out@, err@, timeout_ms as nat),
{
    match outcome {
        Outcome::SpawnFailed(m) => ExecutionResult {
            success: false,
            exit_code: -1,
            stdout: String::new(),
            stderr: String::new(),
            error: message("Spawn error: ", &m),
        },
        Outcome::WaitFailed(m) => ExecutionResult {
            success: false,
            exit_code: -1,
            stdout: String::new(),
            stderr: String::new(),
            error: message("Wait error: ", &m),
        },
        Outcome::TimedOut => {
            let mut error = String::from_str("Command timed out after ");
            push_seconds(&mut error, timeout_ms);
            error.append("s");
            ExecutionResult { success: false, exit_code: -1, stdout: out, stderr: err, error }
        },
        Outcome::Exited(code) => {
            let c: i32 = match code {
                Some(c) => c,
                None => -1,
            };
            let error = if c == 0 {
                String::new()
            } else {
                let mut e = String::from_str("Exit code: ");
                push_signed(&mut e, c as i64);
                e
            };
            ExecutionResult { success: c == 0, exit_code: c, stdout: out, stderr: err, error }
        },
    }
}

/// The text that `String::from_utf8_lossy` makes of bytes.
pub uninterp spec fn lossy_text(b: Seq<u8>) -> Seq<char>;

/// Relies on String::from_utf8_lossy: decodes UTF-8, with U+FFFD in place of
/// each invalid sequence; the text depends on the bytes alone.
#[verifier::external_body]
fn decode_lossy(b: &Vec<u8>) -> (r: String)
    ensures
        r@ == lossy_text(b@),
        b@.len() == 0 ==> r@.len() == 0,
{
    String::from_utf8_lossy(b.as_slice()).into_owned()
}

/// Builds the report for a command that ended with `outcome`, from the raw
/// bytes it wrote on its standard output and error.
pub fn conclude_captured(outcome: Outcome, out: &Vec<u8>, err: &Vec<u8>, timeout_ms: u64) -> (r: ExecutionResult)
    ensures
        r@ == report_of(outcome, lossy_text(out@), lossy_text(err@), timeout_ms as nat),
{
    let out_text = decode_lossy(out);
    let err_text = decode_lossy(err);
    conclude(outcome, out_text, err_text, timeout_ms)
}

/// A report that succeeds has no error and exit code 0; one with no exit
/// code available does not succeed.
pub proof fn lemma_report_success(outcome: Outcome, out: Seq<char>, err: Seq<char>, timeout_ms: nat)
    ensures
        report_of(outcome, out, err, timeout_ms).success ==> {
            &&& report_of(outcome, out, err, timeout_ms).exit_code == 0
            &&& report_of(outcome, out, err, timeout_ms).error == Seq::<char>::empty()
        },
        report_of(outcome, out, err, timeout_ms).exit_code == -1 ==> !report_of(
            outcome,
            out,
            err,
            timeout_ms,
        ).success,
{
}

} // verus!
