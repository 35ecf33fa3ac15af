use vstd::prelude::*;
use vstd::string::*;

use crate::mi::{parse_stream, spec_record, Output, Record};
use crate::mi_parse::QueryError;
use crate::mi_types::{copy_opt_text, opt_text, ExecutionState};
use crate::query::{current_file, current_line, spec_current_file, spec_current_line};

verus! {

/// Input for the debugger's console.
#[derive(Debug, Clone)]
pub enum InputCommand {
    StdinInput(String),
}

/// One line that the debugger wrote, by the stream it came on.
#[derive(Debug, Clone)]
pub enum ConsoleOutput {
    Stdout(String),
    Stderr(String),
}

/// Whether the debugged program runs, as far as the session knows.
#[derive(Debug, Clone, Copy, PartialEq, Eq, Structural)]
pub enum GDBExecutionState {
    Running,
    Stopped,
    Unknown,
}

/// How the reply to a batch of commands decides the next state. It is
/// consulted once, on the first line that arrives after the batch was sent.
#[derive(Debug, PartialEq)]
pub enum Verifier {
    /// Ordinary output moves on to the state held; error output fails the session.
    NoStderr(Box<ControlState>),
    /// Ordinary output moves on to the first state, error output to the second.
    OrElse(Box<ControlState>, Box<ControlState>),
}

/// The state of a debugging session.
#[derive(Debug, PartialEq)]
pub enum ControlState {
    /// Probing for a debugger.
    LookingForGDB,
    GDBNotFound,
    /// A debugger was found; start it in machine-interface mode.
    StartGDB,
    GDBNothingLoaded,
    /// Loading a program; `path` is set once the user has named one.
    AttachFileDialog { path: Option<String> },
    /// Attaching to a remote target; `host` is set once the user has named one.
    TryAttachPort { host: Option<String> },
    /// A program is under the debugger: where it is, as far as the output told.
    GDBRunning {
        state: GDBExecutionState,
        line: Option<u32>,
        file: Option<String>,
        last_output: Option<Output>,
    },
    /// A batch of commands to send, and how its reply decides what comes next.
    SendCommand { commands: Vec<String>, check: Verifier, sent: bool },
    /// Restart the debugger, replay every command sent so far, and go back to `prev`.
    RestartAndRecover { sent: bool, prev: Box<ControlState> },
    /// The debugger reported an error that the session cannot go past.
    Failed { reason: String },
}

/// Model of a `Verifier`.
pub ghost enum CheckModel {
    NoStderr(Box<StateModel>),
    OrElse(Box<StateModel>, Box<StateModel>),
}

/// Model of a `ControlState`.
pub ghost enum StateModel {
    LookingForGDB,
    GDBNotFound,
    StartGDB,
    GDBNothingLoaded,
    AttachFileDialog(Option<Seq<char>>),
    TryAttachPort(Option<Seq<char>>),
    GDBRunning(GDBExecutionState, Option<u32>, Option<Seq<char>>, Option<Record>),
    SendCommand(Seq<Seq<char>>, CheckModel, bool),
    RestartAndRecover(bool, Box<StateModel>),
    Failed(Seq<char>),
}

pub open spec fn texts(v: Seq<String>) -> Seq<Seq<char>> {
    v.map_values(|t: String| t@)
}

pub open spec fn opt_record(o: Option<Output>) -> Option<Record> {
    match o {
        Some(r) => Some(r@),
        None => None,
    }
}

impl Verifier {
    pub open spec fn view(&self) -> CheckModel
        decreases self,
    {
        match self {
            Verifier::NoStderr(next) => CheckModel::NoStderr(Box::new((**next).view())),
            Verifier::OrElse(a, b) => CheckModel::OrElse(
                Box::new((**a).view()),
                Box::new((**b).view()),
            ),
        }
    }
}

impl ControlState {
    pub open spec fn view(&self) -> StateModel
        decreases self,
    {
        match self {
            ControlState::LookingForGDB => StateModel::LookingForGDB,
            ControlState::GDBNotFound => StateModel::GDBNotFound,
            ControlState::StartGDB => StateModel::StartGDB,
            ControlState::GDBNothingLoaded => StateModel::GDBNothingLoaded,
            ControlState::AttachFileDialog { path } => StateModel::AttachFileDialog(opt_text(*path)),
            ControlState::TryAttachPort { host } => StateModel::TryAttachPort(opt_text(*host)),
            ControlState::GDBRunning { state, line, file, last_output } => StateModel::GDBRunning(
                *state,
                *line,
                opt_text(*file),
                opt_record(*last_output),
            ),
            ControlState::SendCommand { commands, check, sent } => StateModel::SendCommand(
                texts(commands@),
                check.view(),
                *sent,
            ),
            ControlState::RestartAndRecover { sent, prev } => StateModel::RestartAndRecover(
                *sent,
                Box::new((**prev).view()),
            ),
            ControlState::Failed { reason } => StateModel::Failed(reason@),
        }
    }
}

fn copy_texts(v: &Vec<String>) -> (r: Vec<String>)
    ensures
        texts(r@) == texts(v@),
{
    let mut r: Vec<String> = Vec::new();
    let mut i: usize = 0;
    while i < v.len()
        invariant
            i <= v.len(),
            texts(r@) == texts(v@).subrange(0, i as int),
        decreases v.len() - i,
    {
        let ghost before = r@;
        r.push(v[i].clone());
        assert(texts(r@) =~= texts(before).push(v@[i as int]@));
        assert(texts(v@).subrange(0, i + 1) =~= texts(v@).subrange(0, i as int).push(
            v@[i as int]@,
        ));
        i += 1;
    }
    assert(texts(v@).subrange(0, v.len() as int) =~= texts(v@));
    r
}

fn copy_verifier(v: &Verifier) -> (r: Verifier)
    ensures
        r@ == v@,
    decreases v,
{
    match v {
        Verifier::NoStderr(next) => Verifier::NoStderr(Box::new(copy_state(next))),
        Verifier::OrElse(a, b) => Verifier::OrElse(Box::new(copy_state(a)), Box::new(copy_state(b))),
    }
}

fn copy_state(s: &ControlState) -> (r: ControlState)
    ensures
        r@ == s@,
    decreases s,
{
    match s {
        ControlState::LookingForGDB => ControlState::LookingForGDB,
        ControlState::GDBNotFound => ControlState::GDBNotFound,
        ControlState::StartGDB => ControlState::StartGDB,
        ControlState::GDBNothingLoaded => ControlState::GDBNothingLoaded,
        ControlState::AttachFileDialog { path } => ControlState::AttachFileDialog {
            path: copy_opt_text(path),
        },
        ControlState::TryAttachPort { host } => ControlState::TryAttachPort {
            host: copy_opt_text(host),
        },
        ControlState::GDBRunning { state, line, file, last_output } => ControlState::GDBRunning {
            state: *state,
            line: *line,
            file: copy_opt_text(file),
            last_output: match last_output {
                Some(o) => Some(o.clone()),
                None => None,
            },
        },
        ControlState::SendCommand { commands, check, sent } => ControlState::SendCommand {
            commands: copy_texts(commands),
            check: copy_verifier(check),
            sent: *sent,
        },
        ControlState::RestartAndRecover { sent, prev } => ControlState::RestartAndRecover {
            sent: *sent,
            prev: Box::new(copy_state(prev)),
        },
        ControlState::Failed { reason } => ControlState::Failed { reason: reason.clone() },
    }
}

impl Clone for Verifier {
    fn clone(&self) -> (r: Self)
        ensures
            r@ == self@,
    {
        copy_verifier(self)
    }
}

impl Clone for ControlState {
    fn clone(&self) -> (r: Self)
        ensures
            r@ == self@,
    {
        copy_state(self)
    }
}

/// Every command sent to the debugger during the session, in order. Only the
/// dispatch step of `advance_cmds` adds to it; nothing removes from it.
#[derive(Debug, Clone)]
pub struct CommandHistory {
    commands: Vec<String>,
}

impl CommandHistory {
    pub closed spec fn view(&self) -> Seq<Seq<char>> {
        texts(self.commands@)
    }

    pub fn new() -> (r: CommandHistory)
        ensures
            r@ == Seq::<Seq<char>>::empty(),
    {
        let r = CommandHistory { commands: Vec::new() };
        proof {
            assert(texts(r.commands@) =~= Seq::<Seq<char>>::empty());
        }
        r
    }

    pub fn len(&self) -> (r: usize)
        ensures
            r == self@.len(),
    {
        self.commands.len()
    }

    /// The commands, oldest first.
    pub fn commands(&self) -> (r: Vec<String>)
        ensures
            texts(r@) == self@,
    {
        copy_texts(&self.commands)
    }

    fn record(&mut self, cmds: &Vec<String>)
        ensures
            final(self)@ == old(self)@ + texts(cmds@),
    {
        let ghost start = self@;
        let mut i: usize = 0;
        while i < cmds.len()
            invariant
                i <= cmds.len(),
                self@ == start + texts(cmds@).subrange(0, i as int),
            decreases cmds.len() - i,
        {
            let ghost before = self.commands@;
            self.commands.push(cmds[i].clone());
            proof {
                assert(texts(self.commands@) =~= texts(before).push(cmds@[i as int]@));
                assert(texts(cmds@).subrange(0, i + 1) =~= texts(cmds@).subrange(0, i as int).push(
                    cmds@[i as int]@,
                ));
                assert(start + texts(cmds@).subrange(0, i + 1) =~= (start + texts(cmds@).subrange(
                    0,
                    i as int,
                )).push(cmds@[i as int]@));
            }
            i += 1;
        }
        assert(texts(cmds@).subrange(0, cmds.len() as int) =~= texts(cmds@));
    }
}

pub open spec fn running_default() -> StateModel {
    StateModel::GDBRunning(GDBExecutionState::Unknown, None, None, None)
}

pub open spec fn unsent(cmds: Seq<Seq<char>>, check: CheckModel) -> StateModel {
    StateModel::SendCommand(cmds, check, false)
}

/// Commands sent once a program is loaded or a target attached.
pub open spec fn start_commands() -> Seq<Seq<char>> {
    seq!["set disassembly-flavor intel"@]
}

/// Send `first`, then the start commands, then run.
pub open spec fn attach_then_run(first: Seq<Seq<char>>) -> StateModel {
    unsent(
        first,
        CheckModel::NoStderr(
            Box::new(unsent(start_commands(), CheckModel::NoStderr(Box::new(running_default())))),
        ),
    )
}

/// One scheduling step from state `s` with command history `h`: the next
/// state, the commands to send now, and the history after the step.
pub open spec fn spec_advance(s: StateModel, h: Seq<Seq<char>>) -> (
    StateModel,
    Seq<Seq<char>>,
    Seq<Seq<char>>,
) {
    match s {
        StateModel::LookingForGDB => (
            unsent(
                seq!["gdb --version"@, "which gdb"@],
                CheckModel::OrElse(Box::new(StateModel::StartGDB), Box::new(StateModel::GDBNotFound)),
            ),
            Seq::empty(),
            h,
        ),
        StateModel::StartGDB => (
            unsent(
                seq!["gdb --interpreter=mi3"@],
                CheckModel::NoStderr(Box::new(StateModel::GDBNothingLoaded)),
            ),
            Seq::empty(),
            h,
        ),
        StateModel::AttachFileDialog(Some(p)) => (
            attach_then_run(seq!["file "@ + p, "start"@]),
            Seq::empty(),
            h,
        ),
        StateModel::TryAttachPort(Some(a)) => (
            attach_then_run(seq!["target remote "@ + a]),
            Seq::empty(),
            h,
        ),
        StateModel::SendCommand(cmds, check, false) => (
            StateModel::SendCommand(cmds, check, true),
            cmds,
            h + cmds,
        ),
        StateModel::RestartAndRecover(false, prev) => (*prev, seq!["quit"@, "pwd"@] + h, h),
        _ => (s, Seq::empty(), h),
    }
}

fn text(s: &str) -> (r: String)
    ensures
        r@ == s@,
{
    String::from_str(s)
}

fn send_commands(cmds: Vec<String>, check: Verifier) -> (r: ControlState)
    ensures
        r@ == unsent(texts(cmds@), check@),
{
    ControlState::SendCommand { commands: cmds, check, sent: false }
}

fn running() -> (r: ControlState)
    ensures
        r@ == running_default(),
{
    ControlState::GDBRunning {
        state: GDBExecutionState::Unknown,
        line: None,
        file: None,
        last_output: None,
    }
}

fn attach_then_run_state(first: Vec<String>) -> (r: ControlState)
    ensures
        r@ == attach_then_run(texts(first@)),
{
    let mut start = Vec::new();
    start.push(text("set disassembly-flavor intel"));
    assert(texts(start@) =~= start_commands());
    let then = send_commands(start, Verifier::NoStderr(Box::new(running())));
    send_commands(first, Verifier::NoStderr(Box::new(then)))
}

/// One scheduling step: gives the next state and the commands to send now.
/// Sending a pending batch records it in `history`; recovery replays the
/// whole history after restarting the debugger.
pub fn advance_cmds(state: &ControlState, history: &mut CommandHistory) -> (r: (
    ControlState,
    Vec<String>,
))
    ensures
        (r.0@, texts(r.1@), final(history)@) == spec_advance(state@, old(history)@),
{
    match state {
        ControlState::LookingForGDB => {
            let mut cmds = Vec::new();
            cmds.push(text("gdb --version"));
            cmds.push(text("which gdb"));
            assert(texts(cmds@) =~= seq!["gdb --version"@, "which gdb"@]);
            let check = Verifier::OrElse(
                Box::new(ControlState::StartGDB),
                Box::new(ControlState::GDBNotFound),
            );
            let none: Vec<String> = Vec::new();
            assert(texts(none@) =~= Seq::<Seq<char>>::empty());
            (send_commands(cmds, check), none)
        },
        ControlState::StartGDB => {
            let mut cmds = Vec::new();
            cmds.push(text("gdb --interpreter=mi3"));
            assert(texts(cmds@) =~= seq!["gdb --interpreter=mi3"@]);
            let check = Verifier::NoStderr(Box::new(ControlState::GDBNothingLoaded));
            let none: Vec<String> = Vec::new();
            assert(texts(none@) =~= Seq::<Seq<char>>::empty());
            (send_commands(cmds, check), none)
        },
        ControlState::AttachFileDialog { path: Some(p) } => {
            let mut cmds = Vec::new();
            cmds.push(text("file ").concat(p.as_str()));
            cmds.push(text("start"));
            assert(texts(cmds@) =~= seq!["file "@ + p@, "start"@]);
            let none: Vec<String> = Vec::new();
            assert(texts(none@) =~= Seq::<Seq<char>>::empty());
            (attach_then_run_state(cmds), none)
        },
        ControlState::TryAttachPort { host: Some(h) } => {
            let mut cmds = Vec::new();
            cmds.push(text("target remote ").concat(h.as_str()));
            assert(texts(cmds@) =~= seq!["target remote "@ + h@]);
            let none: Vec<String> = Vec::new();
            assert(texts(none@) =~= Seq::<Seq<char>>::empty());
            (attach_then_run_state(cmds), none)
        },
        ControlState::SendCommand { commands, check, sent: false } => {
            history.record(commands);
            (
                ControlState::SendCommand {
                    commands: copy_texts(commands),
                    check: check.clone(),
                    sent: true,
                },
                copy_texts(commands),
            )
        },
        ControlState::RestartAndRecover { sent: false, prev } => {
            let mut cmds = Vec::new();
            cmds.push(text("quit"));
            cmds.push(text("pwd"));
            let past = history.commands();
            let mut i: usize = 0;
            assert(texts(cmds@) =~= seq!["quit"@, "pwd"@]);
            while i < past.len()
                invariant
                    i <= past.len(),
                    texts(past@) == history@,
                    texts(cmds@) == seq!["quit"@, "pwd"@] + texts(past@).subrange(0, i as int),
                decreases past.len() - i,
            {
                let ghost before = cmds@;
                cmds.push(past[i].clone());
                proof {
                    assert(texts(cmds@) =~= texts(before).push(past@[i as int]@));
                    assert(texts(past@).subrange(0, i + 1) =~= texts(past@).subrange(
                        0,
                        i as int,
                    ).push(past@[i as int]@));
                    assert(seq!["quit"@, "pwd"@] + texts(past@).subrange(0, i + 1) =~= (seq![
                        "quit"@,
                        "pwd"@,
                    ] + texts(past@).subrange(0, i as int)).push(past@[i as int]@));
                }
                i += 1;
            }
            assert(texts(past@).subrange(0, past.len() as int) =~= texts(past@));
            (copy_state(prev), cmds)
        },
        _ => {
            let none: Vec<String> = Vec::new();
            assert(texts(none@) =~= Seq::<Seq<char>>::empty());
            (copy_state(state), none)
        },
    }
}

/// The execution state that a record reports, `Unknown` when it reports none.
pub open spec fn spec_execution_state(o: Record) -> GDBExecutionState {
    match o {
        Record::Exec(ExecutionState::Running, _) => GDBExecutionState::Running,
        Record::Exec(ExecutionState::Connected, _) => GDBExecutionState::Running,
        Record::Exec(ExecutionState::Stopped, _) => GDBExecutionState::Stopped,
        _ => GDBExecutionState::Unknown,
    }
}

pub fn execution_state_from_output(cur: &GDBExecutionState, output: &Output) -> (r: GDBExecutionState)
    ensures
        r == spec_execution_state(output@),
{
    match output {
        Output::ExecAsync(ExecutionState::Running, _) => GDBExecutionState::Running,
        Output::ExecAsync(ExecutionState::Connected, _) => GDBExecutionState::Running,
        Output::ExecAsync(ExecutionState::Stopped, _) => GDBExecutionState::Stopped,
        _ => GDBExecutionState::Unknown,
    }
}

/// A new value where the record gave one, else the old value.
pub open spec fn refreshed<T>(old: Option<T>, r: Result<Option<T>, QueryError>) -> Option<T> {
    match r {
        Ok(Some(x)) => Some(x),
        _ => old,
    }
}

/// What a verifier decides on the line that answers its batch.
pub open spec fn spec_check(k: CheckModel, input: ConsoleOutput) -> StateModel {
    match k {
        CheckModel::NoStderr(next) => match input {
            ConsoleOutput::Stdout(_) => *next,
            ConsoleOutput::Stderr(e) => StateModel::Failed(e@),
        },
        CheckModel::OrElse(a, b) => match input {
            ConsoleOutput::Stdout(_) => *a,
            ConsoleOutput::Stderr(_) => *b,
        },
    }
}

/// The state after one line of debugger output arrives in state `s`.
pub open spec fn spec_on_inbound(s: StateModel, input: ConsoleOutput) -> StateModel {
    match s {
        StateModel::SendCommand(_, k, true) => spec_check(k, input),
        StateModel::GDBRunning(st, line, file, last) => match input {
            ConsoleOutput::Stdout(t) => match spec_record(t@) {
                Some((rec, _)) => StateModel::GDBRunning(
                    if spec_execution_state(rec) != GDBExecutionState::Unknown {
                        spec_execution_state(rec)
                    } else {
                        st
                    },
                    refreshed(line, spec_current_line(rec)),
                    refreshed(file, spec_current_file(rec)),
                    Some(rec),
                ),
                None => s,
            },
            ConsoleOutput::Stderr(e) => StateModel::Failed(e@),
        },
        _ => s,
    }
}

impl Verifier {
    /// Decides the state that the reply `input` leads to.
    pub fn call(self, input: &ConsoleOutput) -> (r: ControlState)
        ensures
            r@ == spec_check(self@, *input),
    {
        match self {
            Verifier::NoStderr(next) => match input {
                ConsoleOutput::Stdout(_) => *next,
                ConsoleOutput::Stderr(e) => ControlState::Failed { reason: e.clone() },
            },
            Verifier::OrElse(a, b) => match input {
                ConsoleOutput::Stdout(_) => *a,
                ConsoleOutput::Stderr(_) => *b,
            },
        }
    }
}

/// The state after one line of debugger output arrives.
pub fn read_console_input(state: ControlState, input: &ConsoleOutput) -> (r: ControlState)
    ensures
        r@ == spec_on_inbound(state@, *input),
{
    match state {
        ControlState::SendCommand { commands, check, sent: true } => check.call(input),
        ControlState::GDBRunning { state, last_output, line, file } => match input {
            ConsoleOutput::Stdout(text) => match parse_stream(text.as_str()) {
                Ok((_, output)) => {
                    let next = execution_state_from_output(&state, &output);
                    let line = match current_line(&output) {
                        Ok(Some(l)) => Some(l),
                        _ => line,
                    };
                    let file = match current_file(&output) {
                        Ok(Some(f)) => Some(f),
                        _ => file,
                    };
                    ControlState::GDBRunning {
                        state: if next != GDBExecutionState::Unknown {
                            next
                        } else {
                            state
                        },
                        last_output: Some(output),
                        line,
                        file,
                    }
                },
                Err(_) => ControlState::GDBRunning { state, last_output, line, file },
            },
            ConsoleOutput::Stderr(e) => ControlState::Failed { reason: e.clone() },
        },
        other => other,
    }
}

/// The state after a batch waited too long for its reply: the session fails.
pub open spec fn spec_on_timeout(s: StateModel) -> StateModel {
    match s {
        StateModel::SendCommand(_, _, true) => StateModel::Failed("no reply from the debugger"@),
        _ => s,
    }
}

/// To be called when a sent batch had no reply within the caller's time limit.
pub fn on_timeout(state: ControlState) -> (r: ControlState)
    ensures
        r@ == spec_on_timeout(state@),
{
    match state {
        ControlState::SendCommand { sent: true, .. } => ControlState::Failed {
            reason: text("no reply from the debugger"),
        },
        other => other,
    }
}

/// The commands that an `advance` step from `s` dispatches and records.
pub open spec fn dispatched(s: StateModel) -> Seq<Seq<char>> {
    match s {
        StateModel::SendCommand(cmds, _, false) => cmds,
        _ => Seq::empty(),
    }
}

/// The history after `advance` steps from the given states, in order.
pub open spec fn history_after(states: Seq<StateModel>, h: Seq<Seq<char>>) -> Seq<Seq<char>>
    decreases states.len(),
{
    if states.len() == 0 {
        h
    } else {
        spec_advance(states.last(), history_after(states.drop_last(), h)).2
    }
}

/// Everything that the dispatch steps among the given states send.
pub open spec fn all_dispatched(states: Seq<StateModel>) -> Seq<Seq<char>>
    decreases states.len(),
{
    if states.len() == 0 {
        Seq::empty()
    } else {
        all_dispatched(states.drop_last()) + dispatched(states.last())
    }
}

/// History is append-only: after any sequence of `advance` steps it is the
/// history before, followed by every command that was dispatched, in order;
/// so its length never decreases and grows by the number of commands sent.
pub proof fn lemma_history_monotone(states: Seq<StateModel>, h: Seq<Seq<char>>)
    ensures
        history_after(states, h) == h + all_dispatched(states),
        history_after(states, h).len() == h.len() + all_dispatched(states).len(),
        forall|k: int|
            0 <= k <= states.len() ==> #[trigger] history_after(states.subrange(0, k), h).len()
                <= history_after(states, h).len(),
    decreases states.len(),
{
    if states.len() == 0 {
        assert(h + Seq::<Seq<char>>::empty() =~= h);
        assert forall|k: int| 0 <= k <= states.len() implies #[trigger] history_after(
            states.subrange(0, k),
            h,
        ).len() <= history_after(states, h).len() by {
            assert(states.subrange(0, k) =~= states);
        }
    } else {
        let init = states.drop_last();
        lemma_history_monotone(init, h);
        let prev = history_after(init, h);
        assert(spec_advance(states.last(), prev).2 == prev + dispatched(states.last()));
        assert(h + all_dispatched(init) + dispatched(states.last()) =~= h + (all_dispatched(init)
            + dispatched(states.last())));
        assert forall|k: int| 0 <= k <= states.len() implies #[trigger] history_after(
            states.subrange(0, k),
            h,
        ).len() <= history_after(states, h).len() by {
            if k == states.len() {
                assert(states.subrange(0, k) =~= states);
            } else {
                assert(states.subrange(0, k) =~= init.subrange(0, k));
                assert(history_after(init.subrange(0, k), h).len() <= prev.len());
            }
        }
    }
}

/// What a button does to the state; it never sends anything itself.
#[derive(Debug, Clone, Copy, PartialEq, Eq, Structural)]
pub enum ButtonAction {
    AttachPort,
    LoadBinary,
    Load,
    Connect,
    Reload,
    Step,
}

/// Whether the action reads the first input field.
pub open spec fn needs_input(a: ButtonAction) -> bool {
    a == ButtonAction::Load || a == ButtonAction::Connect
}

/// The buttons offered in a state, as (label, action).
pub open spec fn spec_buttons(s: StateModel) -> Seq<(Seq<char>, ButtonAction)> {
    match s {
        StateModel::GDBNothingLoaded => seq![
            ("Attach to port (QEMU)"@, ButtonAction::AttachPort),
            ("Load binary"@, ButtonAction::LoadBinary),
        ],
        StateModel::AttachFileDialog(None) => seq![("Load"@, ButtonAction::Load)],
        StateModel::TryAttachPort(None) => seq![("Connect"@, ButtonAction::Connect)],
        StateModel::GDBRunning(..) => seq![
            ("Reload"@, ButtonAction::Reload),
            ("Step"@, ButtonAction::Step),
        ],
        _ => seq![],
    }
}

/// The input fields offered in a state, as (label, default text).
pub open spec fn spec_input_fields(s: StateModel) -> Seq<(Seq<char>, Seq<char>)> {
    match s {
        StateModel::AttachFileDialog(None) => seq![("Filename"@, "./res/a.out"@)],
        StateModel::TryAttachPort(None) => seq![("Host Address"@, "127.0.0.1:1234"@)],
        _ => seq![],
    }
}

/// The state that pressing a button in state `s` with the given field texts leads to.
pub open spec fn spec_apply(a: ButtonAction, s: StateModel, input: Seq<Seq<char>>) -> StateModel {
    match a {
        ButtonAction::AttachPort => StateModel::TryAttachPort(None),
        ButtonAction::LoadBinary => StateModel::AttachFileDialog(None),
        ButtonAction::Load => StateModel::AttachFileDialog(Some(input[0])),
        ButtonAction::Connect => StateModel::TryAttachPort(Some(input[0])),
        ButtonAction::Reload => StateModel::RestartAndRecover(false, Box::new(s)),
        ButtonAction::Step => unsent(
            seq!["-exec-step"@],
            CheckModel::NoStderr(Box::new(running_default())),
        ),
    }
}

pub open spec fn labelled<T>(v: Seq<(&str, T)>) -> Seq<(Seq<char>, T)> {
    v.map_values(|p: (&str, T)| (p.0@, p.1))
}

pub open spec fn labelled_texts(v: Seq<(&str, &str)>) -> Seq<(Seq<char>, Seq<char>)> {
    v.map_values(|p: (&str, &str)| (p.0@, p.1@))
}

impl ButtonAction {
    /// The state that pressing this button leads to; `input` holds the
    /// texts of the state's input fields.
    pub fn apply(self, state: &ControlState, input: &[String]) -> (r: ControlState)
        requires
            needs_input(self) ==> input@.len() > 0,
        ensures
            r@ == spec_apply(self, state@, texts(input@)),
    {
        match self {
            ButtonAction::AttachPort => ControlState::TryAttachPort { host: None },
            ButtonAction::LoadBinary => ControlState::AttachFileDialog { path: None },
            ButtonAction::Load => ControlState::AttachFileDialog { path: Some(input[0].clone()) },
            ButtonAction::Connect => ControlState::TryAttachPort { host: Some(input[0].clone()) },
            ButtonAction::Reload => ControlState::RestartAndRecover {
                sent: false,
                prev: Box::new(state.clone()),
            },
            ButtonAction::Step => {
                let mut cmds = Vec::new();
                cmds.push(text("-exec-step"));
                assert(texts(cmds@) =~= seq!["-exec-step"@]);
                send_commands(cmds, Verifier::NoStderr(Box::new(running())))
            },
        }
    }
}

impl ControlState {
    pub fn new() -> (r: ControlState)
        ensures
            r@ == StateModel::LookingForGDB,
    {
        ControlState::LookingForGDB
    }

    /// The buttons to show in this state.
    pub fn buttons(&self) -> (r: Vec<(&'static str, ButtonAction)>)
        ensures
            labelled(r@) == spec_buttons(self@),
    {
        let mut r = Vec::new();
        match self {
            ControlState::GDBNothingLoaded => {
                r.push(("Attach to port (QEMU)", ButtonAction::AttachPort));
                r.push(("Load binary", ButtonAction::LoadBinary));
            },
            ControlState::AttachFileDialog { path: None } => {
                r.push(("Load", ButtonAction::Load));
            },
            ControlState::TryAttachPort { host: None } => {
                r.push(("Connect", ButtonAction::Connect));
            },
            ControlState::GDBRunning { .. } => {
                r.push(("Reload", ButtonAction::Reload));
                r.push(("Step", ButtonAction::Step));
            },
            _ => {},
        }
        assert(labelled(r@) =~= spec_buttons(self@));
        r
    }

    /// The input fields to show in this state, with the text each defaults to.
    pub fn input_fields(&self) -> (r: Vec<(&'static str, &'static str)>)
        ensures
            labelled_texts(r@) == spec_input_fields(self@),
    {
        let mut r = Vec::new();
        match self {
            ControlState::AttachFileDialog { path: None } => {
                r.push(("Filename", "./res/a.out"));
            },
            ControlState::TryAttachPort { host: None } => {
                r.push(("Host Address", "127.0.0.1:1234"));
            },
            _ => {},
        }
        assert(labelled_texts(r@) =~= spec_input_fields(self@));
        r
    }
}

} // verus!
