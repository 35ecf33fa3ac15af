use vstd::prelude::*;

verus! {

/// The outcome that a result record reports.
#[derive(Debug, PartialEq)]
pub enum MIResult {
    Done,
    Running,
    Connected,
    Error { msg: String, code: Option<String> },
    Exit,
}

/// Model of an `MIResult`.
pub ghost enum ResultKind {
    Done,
    Running,
    Connected,
    Error(Seq<char>, Option<Seq<char>>),
    Exit,
}

pub open spec fn opt_text(o: Option<String>) -> Option<Seq<char>> {
    match o {
        Some(t) => Some(t@),
        None => None,
    }
}

impl MIResult {
    pub open spec fn view(&self) -> ResultKind {
        match self {
            MIResult::Done => ResultKind::Done,
            MIResult::Running => ResultKind::Running,
            MIResult::Connected => ResultKind::Connected,
            MIResult::Error { msg, code } => ResultKind::Error(msg@, opt_text(*code)),
            MIResult::Exit => ResultKind::Exit,
        }
    }
}

/// The state keyword of an execution record.
#[derive(Debug, Clone, Copy, PartialEq, Eq, Structural)]
pub enum ExecutionState {
    Done,
    Running,
    Connected,
    Error,
    Exit,
    Stopped,
}

#[derive(Debug, Clone, PartialEq)]
pub enum AsyncStateStatus {
    Running { thread: String },
    Stopped {
        reason: StoppedReason,
        frame: Option<Frame>,
        thread: String,
        stopped_threads: String,
        core: String,
    },
}

/// Out-of-band notifications, by class.
#[derive(Debug, Clone, PartialEq)]
pub enum AsyncInfo {
    ThreadGroupAdded { id: String },
    ThreadGroupRemoved { id: String },
    ThreadGroupStarted { id: String, pid: String },
    ThreadGroupExited { id: String, exit_code: Option<String> },
    ThreadCreated { id: String, group_id: String },
    ThreadExited { id: String, group_id: String },
    ThreadSelected { id: String, frame: Option<Frame> },
    LibraryLoaded {
        id: String,
        target_name: String,
        host_name: String,
        symbols_loaded: String,
        ranges: String,
        thread_group: Option<String>,
    },
    LibraryUnloaded {
        id: String,
        target_name: String,
        host_name: String,
        thread_group: Option<String>,
    },
    /// Either `num` and `tracepoint` are given, or the trace frame ended.
    TraceframeChanged { num: Option<String>, tracepoint: Option<String> },
    TSVCreated { name: String, initial: String },
    TSVDeleted { name: Option<String> },
    TSVModified { name: String, initial: String, current: Option<String> },
    BreakpointCreated { bkpt: Breakpoint },
    BreakpointModified { bkpt: Breakpoint },
    BreakpointDeleted { id: String },
    RecordStarted { thread_group: String, method: String, format: Option<String> },
    RecordStopped { thread_group: String },
    CmdParamChanged { param: String, value: String },
    MemoryChanged { thread_group: String, addr: u64, len: u32, m_type: Option<String> },
}

#[derive(Debug, Clone, Copy, PartialEq, Eq, Structural)]
pub enum StoppedReason {
    BreakpointHit,
    WatchpointTrigger,
    AccessWatchpointTrigger,
    FunctionFinished,
    LocationReached,
    WatchPointScope,
    EndSteppingRange,
    ExitSignalled,
    Exited,
    ExitedNormally,
    SignalReceived,
    SolibEvent,
    Fork,
    VFork,
    SyscallEntry,
    SyscallReturn,
    Exec,
}

/// One stack frame: the function, its level and, when known, its arguments.
#[derive(Debug, Clone, PartialEq)]
pub struct Frame {
    pub func: String,
    pub level: u32,
    pub args: Option<Vec<String>>,
}

impl Frame {
    /// The names of the fields that a frame record carries.
    pub fn field_names() -> (r: Vec<&'static str>)
        ensures
            r@.map_values(|n: &str| n@) == seq!["func"@, "level"@, "args"@],
    {
        let mut r = Vec::new();
        r.push("func");
        r.push("level");
        r.push("args");
        assert(r@.map_values(|n: &str| n@) =~= seq!["func"@, "level"@, "args"@]);
        r
    }
}

/// Model of a `Frame`.
pub ghost struct FrameModel {
    pub func: Seq<char>,
    pub level: u32,
    pub args: Option<Seq<Seq<char>>>,
}

impl Frame {
    pub open spec fn view(&self) -> FrameModel {
        FrameModel {
            func: self.func@,
            level: self.level,
            args: match self.args {
                Some(a) => Some(a@.map_values(|t: String| t@)),
                None => None,
            },
        }
    }
}

#[derive(Debug, Clone, PartialEq)]
pub struct Breakpoint {
    pub number: String,
    pub b_type: String,
    pub disp: String,
    pub enabled: bool,
    pub addr: u64,
    pub func: String,
    pub file: String,
    pub fullname: String,
    pub line: u32,
    pub thread_groups: Vec<String>,
    pub times: String,
}

pub(crate) fn copy_opt_text(o: &Option<String>) -> (r: Option<String>)
    ensures
        opt_text(r) == opt_text(*o),
{
    match o {
        Some(t) => Some(t.clone()),
        None => None,
    }
}

impl Clone for MIResult {
    fn clone(&self) -> (r: Self)
        ensures
            r@ == self@,
    {
        match self {
            MIResult::Done => MIResult::Done,
            MIResult::Running => MIResult::Running,
            MIResult::Connected => MIResult::Connected,
            MIResult::Error { msg, code } => MIResult::Error { msg: msg.clone(), code: copy_opt_text(code) },
            MIResult::Exit => MIResult::Exit,
        }
    }
}

} // verus!
