use iron_dbg::control::{
    advance_cmds, execution_state_from_output, on_timeout, read_console_input, ButtonAction,
    CommandHistory, ConsoleOutput, ControlState, GDBExecutionState, Verifier,
};
use iron_dbg::mi::Output;

fn stdout(s: &str) -> ConsoleOutput {
    ConsoleOutput::Stdout(s.to_string())
}

fn running_default() -> ControlState {
    ControlState::GDBRunning {
        state: GDBExecutionState::Unknown,
        line: None,
        file: None,
        last_output: None,
    }
}

#[test]
fn loading_a_file_sends_file_then_start() {
    let mut h = CommandHistory::new();
    let state = ControlState::AttachFileDialog {
        path: Some("a.out".to_string()),
    };
    let (next, now) = advance_cmds(&state, &mut h);
    assert!(now.is_empty());
    match &next {
        ControlState::SendCommand { commands, sent, .. } => {
            assert_eq!(commands[0], "file a.out");
            assert_eq!(commands[1], "start");
            assert!(!sent);
        }
        other => panic!("unexpected {other:?}"),
    }
    assert_eq!(h.len(), 0);
}

#[test]
fn session_start_sequence() {
    let mut h = CommandHistory::new();
    let s0 = ControlState::new();
    assert_eq!(s0, ControlState::LookingForGDB);
    let (s1, now) = advance_cmds(&s0, &mut h);
    assert!(now.is_empty());
    let (s2, now) = advance_cmds(&s1, &mut h);
    assert_eq!(now, vec!["gdb --version".to_string(), "which gdb".to_string()]);
    assert_eq!(h.commands(), now);
    let s3 = read_console_input(s2, &stdout("GNU gdb 12.1\n"));
    assert_eq!(s3, ControlState::StartGDB);
    let (s4, _) = advance_cmds(&s3, &mut h);
    let (s5, now) = advance_cmds(&s4, &mut h);
    assert_eq!(now, vec!["gdb --interpreter=mi3".to_string()]);
    assert_eq!(h.len(), 3);
    let s6 = read_console_input(s5, &stdout("=thread-group-added,id=\"i1\"\n"));
    assert_eq!(s6, ControlState::GDBNothingLoaded);
}

#[test]
fn missing_debugger_is_reported() {
    let mut h = CommandHistory::new();
    let (s1, _) = advance_cmds(&ControlState::LookingForGDB, &mut h);
    let (s2, _) = advance_cmds(&s1, &mut h);
    let s3 = read_console_input(s2, &ConsoleOutput::Stderr("gdb: not found".to_string()));
    assert_eq!(s3, ControlState::GDBNotFound);
}

#[test]
fn error_output_fails_a_batch() {
    let state = ControlState::SendCommand {
        commands: vec!["start".to_string()],
        check: Verifier::NoStderr(Box::new(running_default())),
        sent: true,
    };
    let next = read_console_input(state, &ConsoleOutput::Stderr("boom".to_string()));
    assert_eq!(
        next,
        ControlState::Failed {
            reason: "boom".to_string()
        }
    );
}

#[test]
fn history_grows_by_what_is_dispatched() {
    let mut h = CommandHistory::new();
    let mut lens = vec![h.len()];
    let batch = ControlState::SendCommand {
        commands: vec!["a".to_string(), "b".to_string()],
        check: Verifier::NoStderr(Box::new(running_default())),
        sent: false,
    };
    let (waiting, sent) = advance_cmds(&batch, &mut h);
    lens.push(h.len());
    assert_eq!(sent.len(), 2);
    let (same, nothing) = advance_cmds(&waiting, &mut h);
    lens.push(h.len());
    assert!(nothing.is_empty());
    assert_eq!(same, waiting);
    let (_, again) = advance_cmds(&batch, &mut h);
    lens.push(h.len());
    assert_eq!(again.len(), 2);
    assert_eq!(lens, vec![0, 2, 2, 4]);
    assert_eq!(
        h.commands(),
        vec!["a".to_string(), "b".to_string(), "a".to_string(), "b".to_string()]
    );
}

#[test]
fn recovery_replays_the_whole_history() {
    let mut h = CommandHistory::new();
    let batch = ControlState::SendCommand {
        commands: vec!["file x".to_string(), "start".to_string()],
        check: Verifier::NoStderr(Box::new(running_default())),
        sent: false,
    };
    advance_cmds(&batch, &mut h);
    let prev = running_default();
    let state = ButtonAction::Reload.apply(&prev, &[]);
    assert_eq!(
        state,
        ControlState::RestartAndRecover {
            sent: false,
            prev: Box::new(prev.clone())
        }
    );
    let (next, cmds) = advance_cmds(&state, &mut h);
    assert_eq!(next, prev);
    assert_eq!(cmds, vec!["quit", "pwd", "file x", "start"]);
    assert_eq!(h.len(), 2);
}

#[test]
fn running_session_follows_records() {
    let s = running_default();
    let s = read_console_input(s, &stdout("*running,thread-id=\"all\"\n"));
    match &s {
        ControlState::GDBRunning { state, line, .. } => {
            assert_eq!(*state, GDBExecutionState::Running);
            assert_eq!(*line, None);
        }
        other => panic!("unexpected {other:?}"),
    }
    let s = read_console_input(
        s,
        &stdout("*stopped,reason=\"end-stepping-range\",frame={func=\"main\",fullname=\"/a.c\",line=\"7\"}\n"),
    );
    match &s {
        ControlState::GDBRunning { state, line, file, last_output } => {
            assert_eq!(*state, GDBExecutionState::Stopped);
            assert_eq!(*line, Some(7));
            assert_eq!(file.as_deref(), Some("/a.c"));
            assert!(last_output.is_some());
        }
        other => panic!("unexpected {other:?}"),
    }
    // A record with no frame keeps the line and file; unreadable lines change nothing.
    let s = read_console_input(s, &stdout("^done\n"));
    let s = read_console_input(s, &stdout("(gdb)\n"));
    match &s {
        ControlState::GDBRunning { state, line, file, .. } => {
            assert_eq!(*state, GDBExecutionState::Stopped);
            assert_eq!(*line, Some(7));
            assert_eq!(file.as_deref(), Some("/a.c"));
        }
        other => panic!("unexpected {other:?}"),
    }
    let s = read_console_input(s, &ConsoleOutput::Stderr("crash".to_string()));
    assert_eq!(
        s,
        ControlState::Failed {
            reason: "crash".to_string()
        }
    );
}

#[test]
fn execution_state_mapping() {
    let cur = GDBExecutionState::Stopped;
    let exec = |line: &str| match iron_dbg::mi::parse_stream(line).unwrap().1 {
        o => execution_state_from_output(&cur, &o),
    };
    assert_eq!(exec("*running,a=\"1\""), GDBExecutionState::Running);
    assert_eq!(exec("*connected,a=\"1\""), GDBExecutionState::Running);
    assert_eq!(exec("*stopped,a=\"1\""), GDBExecutionState::Stopped);
    assert_eq!(exec("*done,a=\"1\""), GDBExecutionState::Unknown);
    assert_eq!(
        execution_state_from_output(&cur, &Output::StatusAsync),
        GDBExecutionState::Unknown
    );
}

#[test]
fn buttons_and_fields_by_state() {
    let labels = |s: &ControlState| s.buttons().into_iter().map(|(l, _)| l).collect::<Vec<_>>();
    assert_eq!(
        labels(&ControlState::GDBNothingLoaded),
        vec!["Attach to port (QEMU)", "Load binary"]
    );
    assert_eq!(labels(&ControlState::AttachFileDialog { path: None }), vec!["Load"]);
    assert_eq!(labels(&ControlState::TryAttachPort { host: None }), vec!["Connect"]);
    assert_eq!(labels(&running_default()), vec!["Reload", "Step"]);
    assert!(labels(&ControlState::LookingForGDB).is_empty());
    assert_eq!(
        ControlState::AttachFileDialog { path: None }.input_fields(),
        vec![("Filename", "./res/a.out")]
    );
    assert_eq!(
        ControlState::TryAttachPort { host: None }.input_fields(),
        vec![("Host Address", "127.0.0.1:1234")]
    );
    assert!(ControlState::GDBNothingLoaded.input_fields().is_empty());
}

#[test]
fn buttons_change_state_only() {
    let s = ControlState::GDBNothingLoaded;
    assert_eq!(
        ButtonAction::AttachPort.apply(&s, &[]),
        ControlState::TryAttachPort { host: None }
    );
    assert_eq!(
        ButtonAction::LoadBinary.apply(&s, &[]),
        ControlState::AttachFileDialog { path: None }
    );
    let input = vec!["prog".to_string()];
    assert_eq!(
        ButtonAction::Load.apply(&s, &input),
        ControlState::AttachFileDialog {
            path: Some("prog".to_string())
        }
    );
    assert_eq!(
        ButtonAction::Connect.apply(&s, &input),
        ControlState::TryAttachPort {
            host: Some("prog".to_string())
        }
    );
    match ButtonAction::Step.apply(&s, &[]) {
        ControlState::SendCommand { commands, sent, .. } => {
            assert_eq!(commands, vec!["-exec-step"]);
            assert!(!sent);
        }
        other => panic!("unexpected {other:?}"),
    }
}

#[test]
fn attaching_to_a_port() {
    let mut h = CommandHistory::new();
    let (next, _) = advance_cmds(
        &ControlState::TryAttachPort {
            host: Some("127.0.0.1:1234".to_string()),
        },
        &mut h,
    );
    let (waiting, cmds) = advance_cmds(&next, &mut h);
    assert_eq!(cmds, vec!["target remote 127.0.0.1:1234"]);
    let prologue = read_console_input(waiting, &stdout("~\"Remote debugging\"\n"));
    let (waiting, cmds) = advance_cmds(&prologue, &mut h);
    assert_eq!(cmds, vec!["set disassembly-flavor intel"]);
    let done = read_console_input(waiting, &stdout("^done\n"));
    assert_eq!(done, running_default());
}

#[test]
fn unanswered_batch_times_out() {
    let waiting = ControlState::SendCommand {
        commands: vec!["x".to_string()],
        check: Verifier::NoStderr(Box::new(running_default())),
        sent: true,
    };
    assert!(matches!(on_timeout(waiting), ControlState::Failed { .. }));
    assert_eq!(on_timeout(ControlState::StartGDB), ControlState::StartGDB);
}

#[test]
fn idle_states_ignore_input() {
    let s = read_console_input(ControlState::GDBNothingLoaded, &stdout("^done"));
    assert_eq!(s, ControlState::GDBNothingLoaded);
}
