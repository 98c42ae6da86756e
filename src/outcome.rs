//! The result of one task, built from what the SSH client process did: its
//! exit status and captured streams, or the reason it never ran.
use vstd::prelude::*;
use vstd::utf8::{decode_utf8, valid_utf8};
use crate::text::{decimal, push_decimal};

verus! {

/// What one task produced. `duration_ms` is the wall-clock time from launch
/// to resolution, in milliseconds. `stderr` keeps whatever the process wrote
/// to its error stream, whether or not it failed.
#[derive(Clone, Debug)]
pub struct ServerResult {
    pub server: String,
    pub output: String,
    pub error: Option<String>,
    pub duration_ms: u64,
    pub success: bool,
    pub stderr: String,
}

/// A `ServerResult` as plain values.
pub struct ResultView {
    pub server: Seq<char>,
    pub output: Seq<char>,
    pub error: Option<Seq<char>>,
    pub duration_ms: u64,
    pub success: bool,
    pub stderr: Seq<char>,
}

impl View for ServerResult {
    type V = ResultView;

    open spec fn view(&self) -> ResultView {
        ResultView {
            server: self.server@,
            output: self.output@,
            error: match self.error {
                Some(e) => Some(e@),
                None => None,
            },
            duration_ms: self.duration_ms,
            success: self.success,
            stderr: self.stderr@,
        }
    }
}

/// The views of a sequence of results.
pub open spec fn views(s: Seq<ServerResult>) -> Seq<ResultView> {
    s.map_values(|r: ServerResult| r@)
}

/// What is recorded for a task whose worker ended without a result.
pub open spec fn lost_view(server: Seq<char>) -> ResultView {
    ResultView {
        server,
        output: Seq::empty(),
        error: Some(lost_message()),
        duration_ms: 0,
        success: false,
        stderr: Seq::empty(),
    }
}

/// The text that `String::from_utf8_lossy` makes of `bytes`.
pub uninterp spec fn lossy_utf8(bytes: Seq<u8>) -> Seq<char>;

/// Relies on `String::from_utf8_lossy`: the result depends on the bytes
/// alone, no bytes give no text, and valid UTF-8 is decoded as it stands
/// (invalid sequences become U+FFFD otherwise).
#[verifier::external_body]
fn decode_lossy(bytes: &[u8]) -> (r: String)
    ensures
        r@ == lossy_utf8(bytes@),
        bytes@.len() == 0 ==> r@.len() == 0,
        valid_utf8(bytes@) ==> r@ == decode_utf8(bytes@),
{
    String::from_utf8_lossy(bytes).into_owned()
}

/// `n` in decimal, with a leading minus sign where it is negative.
pub open spec fn signed_decimal(n: int) -> Seq<char> {
    if n < 0 {
        "-"@ + decimal((-n) as nat)
    } else {
        decimal(n as nat)
    }
}

/// The error reported for a failed command that wrote nothing to its error
/// stream.
pub open spec fn exit_message(code: Option<i32>) -> Seq<char> {
    match code {
        Some(c) => "remote command exited with status "@ + signed_decimal(c as int),
        None => "remote command was terminated by a signal"@,
    }
}

/// The error reported for a task whose worker ended without a result.
pub open spec fn lost_message() -> Seq<char> {
    "worker ended without reporting a result"@
}

/// The text of `exit_message`.
pub fn exit_message_text(code: Option<i32>) -> (r: String)
    ensures
        r@ == exit_message(code),
{
    match code {
        Some(c) => {
            let mut s = String::from_str("remote command exited with status ");
            let magnitude: u64;
            if c < 0 {
                s.append("-");
                magnitude = (0i64 - c as i64) as u64;
            } else {
                magnitude = c as u64;
            }
            push_decimal(&mut s, magnitude);
            proof {
                reveal_strlit("remote command exited with status ");
                reveal_strlit("-");
            }
            assert(s@ =~= exit_message(code));
            s
        },
        None => {
            proof {
                reveal_strlit("remote command was terminated by a signal");
            }
            String::from_str("remote command was terminated by a signal")
        },
    }
}

/// `r` is the result of a process on `server` that exited with `code`
/// (`None` where a signal ended it) after writing `output` and `stderr`.
/// Exit status 0 is success and carries no error; otherwise the error is the
/// error stream, or `exit_message` where that is empty.
pub open spec fn is_exit_result(
    r: ServerResult,
    server: Seq<char>,
    code: Option<i32>,
    output: Seq<char>,
    stderr: Seq<char>,
    duration_ms: u64,
) -> bool {
    &&& r.server@ == server
    &&& r.output@ == output
    &&& r.stderr@ == stderr
    &&& r.duration_ms == duration_ms
    &&& r.success == (code == Some(0i32))
    &&& r.success ==> r.error is None
    &&& !r.success ==> r.error is Some && r.error->Some_0@ == (if stderr.len() > 0 {
        stderr
    } else {
        exit_message(code)
    })
}

/// The result of a process that ran, from its exit code and decoded streams.
pub fn from_exit(
    server: &str,
    code: Option<i32>,
    output: String,
    stderr: String,
    duration_ms: u64,
) -> (r: ServerResult)
    ensures
        is_exit_result(r, server@, code, output@, stderr@, duration_ms),
{
    let success = match code {
        Some(c) => c == 0,
        None => false,
    };
    let error = if success {
        None
    } else if stderr.unicode_len() > 0 {
        Some(stderr.clone())
    } else {
        Some(exit_message_text(code))
    };
    ServerResult {
        server: String::from_str(server),
        output,
        error,
        duration_ms,
        success,
        stderr,
    }
}

/// The result of a process that ran, from its exit code and the raw bytes of
/// its two streams, decoded as UTF-8 with invalid sequences replaced.
pub fn completed(
    server: &str,
    code: Option<i32>,
    stdout: &[u8],
    stderr: &[u8],
    duration_ms: u64,
) -> (r: ServerResult)
    ensures
        is_exit_result(r, server@, code, lossy_utf8(stdout@), lossy_utf8(stderr@), duration_ms),
{
    let output = decode_lossy(stdout);
    let errors = decode_lossy(stderr);
    from_exit(server, code, output, errors, duration_ms)
}

/// The result of a task that ended without an exit status of its own: its
/// process could not be started, or its output could not be read. No output,
/// and the reason as the error.
pub fn task_failed(server: &str, message: &str, duration_ms: u64) -> (r: ServerResult)
    ensures
        r.server@ == server@,
        r.output@.len() == 0,
        r.stderr@.len() == 0,
        r.error is Some && r.error->Some_0@ == message@,
        r.duration_ms == duration_ms,
        !r.success,
{
    ServerResult {
        server: String::from_str(server),
        output: String::new(),
        error: Some(String::from_str(message)),
        duration_ms,
        success: false,
        stderr: String::new(),
    }
}

/// The failure recorded for a task whose worker ended without a result.
pub fn worker_lost(server: &str) -> (r: ServerResult)
    ensures
        r@ == lost_view(server@),
{
    proof {
        reveal_strlit("worker ended without reporting a result");
    }
    let r = ServerResult {
        server: String::from_str(server),
        output: String::new(),
        error: Some(String::from_str("worker ended without reporting a result")),
        duration_ms: 0,
        success: false,
        stderr: String::new(),
    };
    assert(r@.output =~= Seq::<char>::empty());
    assert(r@.stderr =~= Seq::<char>::empty());
    r
}

/// A provisional result for live display: one line of output seen so far.
/// Only the last result of a task is authoritative.
pub fn provisional(server: &str, line: &str, elapsed_ms: u64) -> (r: ServerResult)
    ensures
        r.server@ == server@,
        r.output@ == line@,
        r.stderr@.len() == 0,
        r.error is None,
        r.duration_ms == elapsed_ms,
        r.success,
{
    ServerResult {
        server: String::from_str(server),
        output: String::from_str(line),
        error: None,
        duration_ms: elapsed_ms,
        success: true,
        stderr: String::new(),
    }
}

} // verus!
