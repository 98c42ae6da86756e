//! What the reporter shows of a report: durations in seconds with two
//! decimals, a speed band per duration, the overall outcome, and the log
//! record of each result.
use vstd::prelude::*;
use crate::aggregate::ReportSet;
use crate::outcome::ServerResult;
use crate::text::{decimal, digit_char, push_decimal, push_digit};

verus! {

/// `ms` milliseconds in hundredths of a second, rounded half up.
pub open spec fn hundredths(ms: nat) -> nat {
    (ms + 5) / 10
}

/// `ms` milliseconds as seconds with two decimals and the unit: `1.24s` for
/// 1235 ms.
pub open spec fn duration_text(ms: nat) -> Seq<char> {
    let h = hundredths(ms);
    decimal(h / 100) + seq!['.', digit_char((h % 100) / 10), digit_char(h % 10), 's']
}

/// The text of `duration_text`.
pub fn format_duration(ms: u64) -> (r: String)
    ensures
        r@ == duration_text(ms as nat),
{
    let h: u64 = ms / 10 + if ms % 10 >= 5 {
        1
    } else {
        0
    };
    assert(h == hundredths(ms as nat));
    let mut s = String::new();
    push_decimal(&mut s, h / 100);
    s.append(".");
    push_digit(&mut s, (h % 100) / 10);
    push_digit(&mut s, h % 10);
    s.append("s");
    proof {
        reveal_strlit(".");
        reveal_strlit("s");
    }
    assert(s@ =~= duration_text(ms as nat));
    s
}

/// How long a task took, as the reporter colours it.
#[derive(PartialEq, Eq, Structural, Clone, Copy, Debug)]
pub enum DurationBand {
    /// At most 3 seconds.
    Fast,
    /// Over 3 and at most 10 seconds.
    Moderate,
    /// Over 10 seconds.
    Slow,
}

/// The band of a duration of `ms` milliseconds.
pub fn duration_band(ms: u64) -> (r: DurationBand)
    ensures
        r == (if ms <= 3000 {
            DurationBand::Fast
        } else if ms <= 10000 {
            DurationBand::Moderate
        } else {
            DurationBand::Slow
        }),
{
    if ms <= 3000 {
        DurationBand::Fast
    } else if ms <= 10000 {
        DurationBand::Moderate
    } else {
        DurationBand::Slow
    }
}

/// How a run went as a whole.
#[derive(PartialEq, Eq, Structural, Clone, Copy, Debug)]
pub enum RunOutcome {
    AllSucceeded,
    SomeFailed,
    AllFailed,
}

/// The outcome of a run from its two success flags. A run with no results
/// counts as having succeeded everywhere.
pub open spec fn outcome_of(all_succeeded: bool, any_succeeded: bool) -> RunOutcome {
    if all_succeeded {
        RunOutcome::AllSucceeded
    } else if any_succeeded {
        RunOutcome::SomeFailed
    } else {
        RunOutcome::AllFailed
    }
}

impl ReportSet {
    /// The outcome of the run, computed once from the two flags.
    pub fn outcome(&self) -> (r: RunOutcome)
        ensures
            r == outcome_of(self.all_succeeded, self.any_succeeded),
    {
        if self.all_succeeded {
            RunOutcome::AllSucceeded
        } else if self.any_succeeded {
            RunOutcome::SomeFailed
        } else {
            RunOutcome::AllFailed
        }
    }
}

/// The closing line shown for each outcome.
pub open spec fn outcome_message(o: RunOutcome) -> Seq<char> {
    match o {
        RunOutcome::AllSucceeded => "Execution completed successfully on all servers."@,
        RunOutcome::SomeFailed => "Execution completed with errors on some servers."@,
        RunOutcome::AllFailed => "Execution failed on all servers."@,
    }
}

impl RunOutcome {
    /// The text of `outcome_message`.
    pub fn message(&self) -> (r: String)
        ensures
            r@ == outcome_message(*self),
    {
        proof {
            reveal_strlit("Execution completed successfully on all servers.");
            reveal_strlit("Execution completed with errors on some servers.");
            reveal_strlit("Execution failed on all servers.");
        }
        match self {
            RunOutcome::AllSucceeded => String::from_str(
                "Execution completed successfully on all servers.",
            ),
            RunOutcome::SomeFailed => String::from_str(
                "Execution completed with errors on some servers.",
            ),
            RunOutcome::AllFailed => String::from_str("Execution failed on all servers."),
        }
    }
}

/// The log record of a result: `<server> - <duration>:`, a line break, and
/// the error where there is one, else the output.
pub open spec fn log_text(r: ServerResult) -> Seq<char> {
    r.server@ + " - "@ + duration_text(r.duration_ms as nat) + ":\n"@ + match r.error {
        Some(e) => e@,
        None => r.output@,
    }
}

/// The text of `log_text`.
pub fn log_record(r: &ServerResult) -> (s: String)
    ensures
        s@ == log_text(*r),
{
    let mut s = r.server.clone();
    s.append(" - ");
    let d = format_duration(r.duration_ms);
    s.append(d.as_str());
    s.append(":\n");
    match &r.error {
        Some(e) => s.append(e.as_str()),
        None => s.append(r.output.as_str()),
    }
    proof {
        reveal_strlit(" - ");
        reveal_strlit(":\n");
    }
    assert(s@ =~= log_text(*r));
    s
}

} // verus!
