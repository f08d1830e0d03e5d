use yunxi_webdisk::supervisor::{
    advance_stop, begin_stop, decide_start, is_space, parse_pid, render_pid, stop_action, Signal,
    StartDecision, StopAction, StopEvent, StopOutcome, StopState, MAX_PROBES, PROBE_INTERVAL_MS,
};

/// Runs a stop against a process that answers each action by `answer`.
fn stop_with(mut answer: impl FnMut(StopAction) -> StopEvent) -> (StopOutcome, bool, Vec<StopAction>) {
    let (mut state, mut action) = begin_stop();
    let mut actions = Vec::new();
    loop {
        actions.push(action);
        if let StopAction::Finish { outcome, remove_pid_file } = action {
            return (outcome, remove_pid_file, actions);
        }
        assert!(actions.len() < 100);
        let event = answer(action);
        let next = advance_stop(state, event);
        state = next.0;
        action = next.1;
    }
}

#[test]
fn pid_file_contents() {
    assert_eq!(parse_pid("1234"), Some(1234));
    assert_eq!(parse_pid("1234\n"), Some(1234));
    assert_eq!(parse_pid("  \t42\r\n"), Some(42));
    assert_eq!(parse_pid("\u{3000}7\u{a0}"), Some(7));
    assert_eq!(parse_pid("+5"), Some(5));
    assert_eq!(parse_pid("0"), Some(0));
    assert_eq!(parse_pid("4294967295"), Some(4294967295));
    assert_eq!(parse_pid("4294967296"), None);
    assert_eq!(parse_pid(""), None);
    assert_eq!(parse_pid("   "), None);
    assert_eq!(parse_pid("12 34"), None);
    assert_eq!(parse_pid("-1"), None);
    assert_eq!(parse_pid("pid"), None);
    assert_eq!(parse_pid("+ 5"), None);
}

#[test]
fn pid_parsing_agrees_with_the_standard_library() {
    for s in ["1", " 1", "1 ", "\n1\n", "+1", "+", "", "  ", "0007", "99999999999", "1\u{85}", "\u{2003}3", "\u{200b}3", "1e3", "0x1"] {
        assert_eq!(parse_pid(s), s.trim().parse::<u32>().ok(), "{:?}", s);
    }
    for code in 0..0x3100u32 {
        if let Some(c) = char::from_u32(code) {
            assert_eq!(is_space(c), c.is_whitespace(), "{:x}", code);
        }
    }
}

#[test]
fn a_written_pid_is_read_back() {
    for pid in [0u32, 1, 9, 10, 4321, 65536, u32::MAX] {
        assert_eq!(render_pid(pid), pid.to_string());
        assert_eq!(parse_pid(&render_pid(pid)), Some(pid));
        assert_eq!(decide_start(Some(&render_pid(pid))), StartDecision::AlreadyRunning(pid));
    }
}

#[test]
fn start_refuses_when_a_pid_is_recorded() {
    assert_eq!(decide_start(Some("4321\n")), StartDecision::AlreadyRunning(4321));
    assert_eq!(decide_start(Some("")), StartDecision::Spawn);
    assert_eq!(decide_start(Some("garbage")), StartDecision::Spawn);
    assert_eq!(decide_start(None), StartDecision::Spawn);
}

#[test]
fn stop_without_pid_file_sends_nothing() {
    let (outcome, remove, actions) = stop_with(|action| match action {
        StopAction::ReadPid => StopEvent::Pid(None),
        other => panic!("{:?}", other),
    });
    assert_eq!(outcome, StopOutcome::NotRunning);
    assert!(!remove);
    assert_eq!(actions.len(), 2);
    assert!(!actions.iter().any(|a| matches!(a, StopAction::Send { .. })));
}

#[test]
fn a_process_that_ends_by_itself() {
    let mut probes = 0;
    let (outcome, remove, actions) = stop_with(|action| match action {
        StopAction::ReadPid => StopEvent::Pid(Some(77)),
        StopAction::Send { pid: 77, signal: Signal::Terminate } => StopEvent::Delivered,
        StopAction::Send { pid: 77, signal: Signal::Probe } => {
            probes += 1;
            if probes < 3 {
                StopEvent::Delivered
            } else {
                StopEvent::NotDelivered { no_such_process: true }
            }
        }
        StopAction::Sleep { millis } => {
            assert_eq!(millis, 100);
            StopEvent::Slept
        }
        other => panic!("{:?}", other),
    });
    assert_eq!(outcome, StopOutcome::Stopped);
    assert!(remove);
    assert_eq!(probes, 3);
    assert!(!actions.iter().any(|a| matches!(a, StopAction::Send { signal: Signal::Kill, .. })));
}

#[test]
fn a_process_that_hangs_is_killed_after_thirty_looks() {
    let mut probes = 0;
    let mut sleeps = 0;
    let (outcome, remove, actions) = stop_with(|action| match action {
        StopAction::ReadPid => StopEvent::Pid(Some(9)),
        StopAction::Send { signal: Signal::Probe, .. } => {
            probes += 1;
            StopEvent::Delivered
        }
        StopAction::Send { .. } => StopEvent::Delivered,
        StopAction::Sleep { .. } => {
            sleeps += 1;
            StopEvent::Slept
        }
        other => panic!("{:?}", other),
    });
    assert_eq!(outcome, StopOutcome::Stopped);
    assert!(remove);
    assert_eq!(probes, 30);
    assert_eq!(sleeps, 30);
    assert_eq!(MAX_PROBES, 30);
    assert_eq!(PROBE_INTERVAL_MS, 100);
    assert_eq!(actions[actions.len() - 2], StopAction::Send { pid: 9, signal: Signal::Kill });
}

#[test]
fn a_process_that_is_gone_already() {
    let (outcome, remove, _) = stop_with(|action| match action {
        StopAction::ReadPid => StopEvent::Pid(Some(5)),
        StopAction::Send { signal: Signal::Terminate, .. } => StopEvent::NotDelivered { no_such_process: true },
        other => panic!("{:?}", other),
    });
    assert_eq!(outcome, StopOutcome::AlreadyGone);
    assert!(remove);
}

#[test]
fn a_signal_that_may_not_be_sent_leaves_the_pid_file() {
    let (outcome, remove, _) = stop_with(|action| match action {
        StopAction::ReadPid => StopEvent::Pid(Some(1)),
        StopAction::Send { signal: Signal::Terminate, .. } => StopEvent::NotDelivered { no_such_process: false },
        other => panic!("{:?}", other),
    });
    assert_eq!(outcome, StopOutcome::Failed);
    assert!(!remove);
    let (outcome, remove, _) = stop_with(|action| match action {
        StopAction::ReadPid => StopEvent::Pid(Some(1)),
        StopAction::Send { signal: Signal::Kill, .. } => StopEvent::NotDelivered { no_such_process: false },
        StopAction::Send { .. } => StopEvent::Delivered,
        StopAction::Sleep { .. } => StopEvent::Slept,
        other => panic!("{:?}", other),
    });
    assert_eq!(outcome, StopOutcome::Failed);
    assert!(!remove);
}

#[test]
fn an_event_out_of_turn_ends_the_stop_as_failed() {
    let next = advance_stop(StopState::ReadingPid, StopEvent::Slept);
    assert_eq!(next.0, StopState::Finished(StopOutcome::Failed));
    assert_eq!(next.1, StopAction::Finish { outcome: StopOutcome::Failed, remove_pid_file: false });
    let done = StopState::Finished(StopOutcome::Stopped);
    assert_eq!(advance_stop(done, StopEvent::Delivered).0, done);
    assert_eq!(stop_action(done), StopAction::Finish { outcome: StopOutcome::Stopped, remove_pid_file: true });
}
