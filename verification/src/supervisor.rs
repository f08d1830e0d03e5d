//! Starting and stopping the server as a background service. The process
//! id is kept in a file; stopping asks the process to end, waits a
//! bounded time, and then ends it by force. The decisions are made here;
//! whoever may signal processes carries them out and reports back.

use vstd::prelude::*;
use crate::text::{all_digits, bounded_number, chars_of, decimal, digit_char, digits_value, is_digit,
    lemma_decimal_digits, parse_bounded, push_decimal, string_of};

verus! {

/// How often a process that was asked to end is looked at before it is
/// ended by force.
pub const MAX_PROBES: u8 = 30;

/// The pause after each look, in milliseconds.
pub const PROBE_INTERVAL_MS: u64 = 100;

/// Whether a character is white space as Unicode defines it.
pub open spec fn is_whitespace(c: char) -> bool {
    let u = c as u32;
    ||| 0x09 <= u <= 0x0D
    ||| u == 0x20
    ||| u == 0x85
    ||| u == 0xA0
    ||| u == 0x1680
    ||| 0x2000 <= u <= 0x200A
    ||| u == 0x2028
    ||| u == 0x2029
    ||| u == 0x202F
    ||| u == 0x205F
    ||| u == 0x3000
}

/// `s` without the white space at its start.
pub open spec fn trim_start(s: Seq<char>) -> Seq<char>
    decreases s.len(),
{
    if s.len() > 0 && is_whitespace(s[0]) {
        trim_start(s.skip(1))
    } else {
        s
    }
}

/// `s` without the white space at its end.
pub open spec fn trim_end(s: Seq<char>) -> Seq<char>
    decreases s.len(),
{
    if s.len() > 0 && is_whitespace(s.last()) {
        trim_end(s.drop_last())
    } else {
        s
    }
}

/// `s` without the white space at either end.
pub open spec fn trimmed(s: Seq<char>) -> Seq<char> {
    trim_end(trim_start(s))
}

/// The process id that the contents of a PID file name: after trimming,
/// an optional `+` and a decimal number that fits 32 bits.
pub open spec fn pid_of(contents: Seq<char>) -> Option<nat> {
    let t = trimmed(contents);
    let digits = if t.len() > 0 && t[0] == '+' {
        t.skip(1)
    } else {
        t
    };
    bounded_number(digits, 0xffff_ffff)
}

/// Whether `c` is white space.
pub fn is_space(c: char) -> (space: bool)
    ensures
        space == is_whitespace(c),
{
    let u = c as u32;
    (u >= 0x09 && u <= 0x0D) || u == 0x20 || u == 0x85 || u == 0xA0 || u == 0x1680 || (u >= 0x2000
        && u <= 0x200A) || u == 0x2028 || u == 0x2029 || u == 0x202F || u == 0x205F || u == 0x3000
}

/// Reads the process id from the contents of a PID file.
pub fn parse_pid(contents: &str) -> (pid: Option<u32>)
    ensures
        match pid {
            Some(p) => pid_of(contents@) == Some(p as nat),
            None => pid_of(contents@) is None,
        },
{
    let chars = chars_of(contents);
    let mut start: usize = 0;
    assert(contents@.skip(0) =~= contents@);
    while start < chars.len() && is_space(chars[start])
        invariant
            start <= chars.len(),
            chars@ == contents@,
            trim_start(contents@) == trim_start(contents@.skip(start as int)),
        decreases chars.len() - start,
    {
        assert(contents@.skip(start as int).skip(1) =~= contents@.skip(start + 1));
        start += 1;
    }
    let ghost front = contents@.skip(start as int);
    assert(trim_start(contents@) == front);
    let mut end: usize = chars.len();
    assert(front.take(end - start) =~= front);
    while end > start && is_space(chars[end - 1])
        invariant
            start <= end <= chars.len(),
            chars@ == contents@,
            front == contents@.skip(start as int),
            trim_end(front) == trim_end(front.take(end - start)),
        decreases end,
    {
        assert(front.take(end - start).drop_last() =~= front.take(end - start - 1));
        end -= 1;
    }
    let ghost t = front.take(end - start);
    assert(trim_end(front) == t) by {
        if end > start {
            assert(t.last() == chars@[end - 1]);
        }
    }
    let body = vstd::slice::slice_subrange(chars.as_slice(), start, end);
    assert(body@ =~= t);
    let skip: usize = if body.len() > 0 && body[0] == '+' {
        1
    } else {
        0
    };
    let digits = vstd::slice::slice_subrange(body, skip, body.len());
    assert(skip == 0 ==> digits@ =~= t);
    parse_bounded(digits, 0xffff_ffff)
}

/// Renders a process id as the contents of a PID file.
pub fn render_pid(pid: u32) -> (contents: String)
    ensures
        contents@ == decimal(pid as nat),
{
    let mut out: Vec<char> = Vec::new();
    push_decimal(&mut out, pid as u128);
    string_of(out.as_slice())
}

/// The digits of a number write that number.
pub proof fn lemma_decimal_value(n: nat)
    ensures
        all_digits(decimal(n)),
        digits_value(decimal(n)) == n,
    decreases n,
{
    lemma_decimal_digits(n);
    let d = n % 10;
    assert(digit_char(d) as nat - '0' as nat == d);
    assert(decimal(n).last() == digit_char(d));
    if n >= 10 {
        lemma_decimal_value(n / 10);
        assert(decimal(n).drop_last() =~= decimal(n / 10));
    } else {
        assert(decimal(n).drop_last() =~= Seq::<char>::empty());
        assert(digits_value(Seq::<char>::empty()) == 0);
    }
}

/// What is written for a process id is read back as that process id.
pub proof fn lemma_pid_round_trip(pid: u32)
    ensures
        pid_of(decimal(pid as nat)) == Some(pid as nat),
{
    let d = decimal(pid as nat);
    lemma_decimal_digits(pid as nat);
    lemma_decimal_value(pid as nat);
    assert(is_digit(d[0]) && is_digit(d.last()));
    assert(trim_start(d) == d);
    assert(trim_end(d) == d);
}

/// What `start` does.
#[derive(Clone, Copy, Debug, PartialEq, Eq, Structural)]
pub enum StartDecision {
    /// A PID file names a process: the service counts as running, and
    /// nothing is started.
    AlreadyRunning(u32),
    /// The server is started in the background.
    Spawn,
}

/// Decides what `start` does from the contents of the PID file, `None`
/// where there is no such file. Whether the process named is alive is not
/// looked at.
pub fn decide_start(pid_file: Option<&str>) -> (decision: StartDecision)
    ensures
        decision == match pid_file {
            Some(contents) => match pid_of(contents@) {
                Some(pid) => StartDecision::AlreadyRunning(pid as u32),
                None => StartDecision::Spawn,
            },
            None => StartDecision::Spawn,
        },
{
    match pid_file {
        Some(contents) => match parse_pid(contents) {
            Some(pid) => StartDecision::AlreadyRunning(pid),
            None => StartDecision::Spawn,
        },
        None => StartDecision::Spawn,
    }
}

/// How a stop ended.
#[derive(Clone, Copy, Debug, PartialEq, Eq, Structural)]
pub enum StopOutcome {
    /// No PID file names a process: the service is not running.
    NotRunning,
    /// The process has ended, by itself or by force.
    Stopped,
    /// A signal could not be sent because the process is there no more.
    AlreadyGone,
    /// A signal could not be sent for another reason.
    Failed,
}

/// A signal to the process.
#[derive(Clone, Copy, Debug, PartialEq, Eq, Structural)]
pub enum Signal {
    /// Asks the process to end.
    Terminate,
    /// Sends nothing, and only finds out whether the process is there.
    Probe,
    /// Ends the process by force.
    Kill,
}

/// Where a stop stands.
#[derive(Clone, Copy, Debug, PartialEq, Eq, Structural)]
pub enum StopState {
    /// The PID file is being read.
    ReadingPid,
    /// The process has been asked to end.
    Terminating { pid: u32 },
    /// The process is being looked at; `left` looks remain, this one
    /// included.
    Probing { pid: u32, left: u8 },
    /// The pause after a look that found the process alive; `left` looks
    /// remain.
    Waiting { pid: u32, left: u8 },
    /// The process is being ended by force.
    Killing { pid: u32 },
    /// The stop has ended.
    Finished(StopOutcome),
}

/// What is to be done next.
#[derive(Clone, Copy, Debug, PartialEq, Eq, Structural)]
pub enum StopAction {
    /// Read the PID file.
    ReadPid,
    /// Send a signal to the process.
    Send { pid: u32, signal: Signal },
    /// Wait for the time given, in milliseconds.
    Sleep { millis: u64 },
    /// Report the outcome, and remove the PID file if the flag says so.
    Finish { outcome: StopOutcome, remove_pid_file: bool },
}

/// What happened to the last action.
#[derive(Clone, Copy, Debug, PartialEq, Eq, Structural)]
pub enum StopEvent {
    /// The process id in the PID file, or `None` where there is no file or
    /// it names none.
    Pid(Option<u32>),
    /// The signal was sent: the process is there.
    Delivered,
    /// The signal could not be sent; the flag says whether that was
    /// because no such process exists.
    NotDelivered { no_such_process: bool },
    /// The pause is over.
    Slept,
}

/// Whether the PID file goes when a stop ends with `outcome`: when the
/// process has ended or is found gone.
pub open spec fn removes_pid_file(outcome: StopOutcome) -> bool {
    outcome == StopOutcome::Stopped || outcome == StopOutcome::AlreadyGone
}

/// The outcome when a signal that must arrive could not be sent.
pub open spec fn undelivered(no_such_process: bool) -> StopOutcome {
    if no_such_process {
        StopOutcome::AlreadyGone
    } else {
        StopOutcome::Failed
    }
}

/// The state that follows `state` on `event`. An event that does not
/// answer the action of the state ends the stop as failed.
pub open spec fn next_stop_state(state: StopState, event: StopEvent) -> StopState {
    match (state, event) {
        (StopState::ReadingPid, StopEvent::Pid(None)) => StopState::Finished(StopOutcome::NotRunning),
        (StopState::ReadingPid, StopEvent::Pid(Some(pid))) => StopState::Terminating { pid },
        (StopState::Terminating { pid }, StopEvent::Delivered) => StopState::Probing {
            pid,
            left: MAX_PROBES,
        },
        (StopState::Terminating { pid }, StopEvent::NotDelivered { no_such_process }) => StopState::Finished(
            undelivered(no_such_process),
        ),
        (StopState::Probing { pid, left }, StopEvent::NotDelivered { no_such_process }) => StopState::Finished(
            StopOutcome::Stopped,
        ),
        (StopState::Probing { pid, left }, StopEvent::Delivered) => StopState::Waiting {
            pid,
            left: if left > 0 {
                (left - 1) as u8
            } else {
                0
            },
        },
        (StopState::Waiting { pid, left }, StopEvent::Slept) => if left > 0 {
            StopState::Probing { pid, left }
        } else {
            StopState::Killing { pid }
        },
        (StopState::Killing { pid }, StopEvent::Delivered) => StopState::Finished(StopOutcome::Stopped),
        (StopState::Killing { pid }, StopEvent::NotDelivered { no_such_process }) => StopState::Finished(
            undelivered(no_such_process),
        ),
        (StopState::Finished(outcome), _) => StopState::Finished(outcome),
        _ => StopState::Finished(StopOutcome::Failed),
    }
}

/// The action that belongs to a state.
pub open spec fn stop_action_of(state: StopState) -> StopAction {
    match state {
        StopState::ReadingPid => StopAction::ReadPid,
        StopState::Terminating { pid } => StopAction::Send { pid, signal: Signal::Terminate },
        StopState::Probing { pid, left } => StopAction::Send { pid, signal: Signal::Probe },
        StopState::Waiting { pid, left } => StopAction::Sleep { millis: PROBE_INTERVAL_MS },
        StopState::Killing { pid } => StopAction::Send { pid, signal: Signal::Kill },
        StopState::Finished(outcome) => StopAction::Finish {
            outcome,
            remove_pid_file: removes_pid_file(outcome),
        },
    }
}

/// How many steps a stop takes at most from a state.
pub open spec fn steps_left(state: StopState) -> nat {
    match state {
        StopState::ReadingPid => 2 * MAX_PROBES as nat + 4,
        StopState::Terminating { pid } => 2 * MAX_PROBES as nat + 3,
        StopState::Probing { pid, left } => 2 * left as nat + 2,
        StopState::Waiting { pid, left } => 2 * left as nat + 3,
        StopState::Killing { pid } => 1,
        StopState::Finished(_) => 0,
    }
}

/// Begins a stop: the PID file is read first.
pub fn begin_stop() -> (start: (StopState, StopAction))
    ensures
        start.0 == StopState::ReadingPid,
        start.1 == StopAction::ReadPid,
{
    (StopState::ReadingPid, StopAction::ReadPid)
}

/// The action that belongs to a state.
pub fn stop_action(state: StopState) -> (action: StopAction)
    ensures
        action == stop_action_of(state),
{
    match state {
        StopState::ReadingPid => StopAction::ReadPid,
        StopState::Terminating { pid } => StopAction::Send { pid, signal: Signal::Terminate },
        StopState::Probing { pid, left: _ } => StopAction::Send { pid, signal: Signal::Probe },
        StopState::Waiting { pid: _, left: _ } => StopAction::Sleep { millis: PROBE_INTERVAL_MS },
        StopState::Killing { pid } => StopAction::Send { pid, signal: Signal::Kill },
        StopState::Finished(outcome) => StopAction::Finish {
            outcome,
            remove_pid_file: match outcome {
                StopOutcome::Stopped | StopOutcome::AlreadyGone => true,
                _ => false,
            },
        },
    }
}

/// Decides what follows when the action of `state` has ended in `event`.
pub fn advance_stop(state: StopState, event: StopEvent) -> (next: (StopState, StopAction))
    ensures
        next.0 == next_stop_state(state, event),
        next.1 == stop_action_of(next.0),
{
    let failed = |no_such_process: bool| -> (o: StopOutcome)
        ensures
            o == undelivered(no_such_process),
        {
            if no_such_process {
                StopOutcome::AlreadyGone
            } else {
                StopOutcome::Failed
            }
        };
    let after = match (state, event) {
        (StopState::ReadingPid, StopEvent::Pid(None)) => StopState::Finished(StopOutcome::NotRunning),
        (StopState::ReadingPid, StopEvent::Pid(Some(pid))) => StopState::Terminating { pid },
        (StopState::Terminating { pid }, StopEvent::Delivered) => StopState::Probing {
            pid,
            left: MAX_PROBES,
        },
        (StopState::Terminating { pid: _ }, StopEvent::NotDelivered { no_such_process }) => StopState::Finished(
            failed(no_such_process),
        ),
        (StopState::Probing { pid: _, left: _ }, StopEvent::NotDelivered { no_such_process: _ }) => StopState::Finished(
            StopOutcome::Stopped,
        ),
        (StopState::Probing { pid, left }, StopEvent::Delivered) => StopState::Waiting {
            pid,
            left: if left > 0 {
                left - 1
            } else {
                0
            },
        },
        (StopState::Waiting { pid, left }, StopEvent::Slept) => if left > 0 {
            StopState::Probing { pid, left }
        } else {
            StopState::Killing { pid }
        },
        (StopState::Killing { pid: _ }, StopEvent::Delivered) => StopState::Finished(StopOutcome::Stopped),
        (StopState::Killing { pid: _ }, StopEvent::NotDelivered { no_such_process }) => StopState::Finished(
            failed(no_such_process),
        ),
        (StopState::Finished(outcome), _) => StopState::Finished(outcome),
        _ => StopState::Finished(StopOutcome::Failed),
    };
    (after, stop_action(after))
}

/// Every step from a state that is not finished leaves fewer steps: a stop
/// looks at the process thirty times at most and always comes to an end.
pub proof fn lemma_stop_terminates(state: StopState, event: StopEvent)
    requires
        !(state is Finished),
        state matches StopState::Probing { pid, left } ==> 1 <= left <= MAX_PROBES,
        state matches StopState::Waiting { pid, left } ==> left < MAX_PROBES,
    ensures
        steps_left(next_stop_state(state, event)) < steps_left(state),
        next_stop_state(state, event) matches StopState::Probing { pid, left } ==> 1 <= left
            <= MAX_PROBES,
        next_stop_state(state, event) matches StopState::Waiting { pid, left } ==> left
            < MAX_PROBES,
{
}

/// Without a process id in the PID file the stop ends at once: the
/// service is reported as not running, no signal is sent, and no file is
/// removed.
pub proof fn lemma_stop_without_pid()
    ensures
        next_stop_state(StopState::ReadingPid, StopEvent::Pid(None)) == StopState::Finished(
            StopOutcome::NotRunning,
        ),
        stop_action_of(StopState::Finished(StopOutcome::NotRunning)) == (StopAction::Finish {
            outcome: StopOutcome::NotRunning,
            remove_pid_file: false,
        }),
        !(stop_action_of(StopState::ReadingPid) is Send),
{
}

/// The PID file is removed exactly when the process is known to be gone:
/// a step ends in `Stopped` only on a look that does not find the process
/// or on a forced end that was delivered, and in `AlreadyGone` only when a
/// signal met no such process. A signal that fails otherwise leaves the
/// file in place.
pub proof fn lemma_pid_file_removal(state: StopState, event: StopEvent)
    requires
        !(state is Finished),
    ensures
        next_stop_state(state, event) == StopState::Finished(StopOutcome::Stopped) ==> (state
            is Probing && event is NotDelivered) || (state is Killing && event is Delivered),
        next_stop_state(state, event) == StopState::Finished(StopOutcome::AlreadyGone) ==> (state
            is Terminating || state is Killing) && event == (StopEvent::NotDelivered {
            no_such_process: true,
        }),
        (state is Terminating || state is Killing) && event == (StopEvent::NotDelivered {
            no_such_process: false,
        }) ==> next_stop_state(state, event) == StopState::Finished(StopOutcome::Failed)
            && !removes_pid_file(StopOutcome::Failed),
{
}

} // verus!
