//! The debug adapter's side of the Debug Adapter Protocol: which request a
//! client sent, what an `attach` asks of the debug handler, and how stack
//! frames and halts are reported to the client.
use vstd::prelude::*;
use crate::command_table::chars_eq;
use crate::debug_handler::ConfigRequest;
use crate::debugger::stack_frame::StackFrame;
use crate::text::{append_chars, str_chars};

pub use crate::server::{StoppedEventBody, get_content_len, send_data};

verus! {

/// The requests of the protocol that the adapter tells apart.
#[derive(Debug, Clone, Copy, PartialEq, Eq, Structural)]
pub enum DapCommand {
    Launch,
    Attach,
    SetBreakpoints,
    Threads,
    ConfigurationDone,
    Pause,
    StackTrace,
    Disconnect,
    Continue,
    Scopes,
    Source,
    Variables,
    Next,
    StepOut,
    /// A command the adapter does not know.
    Unknown,
}

/// The request that the command name `command` stands for.
pub open spec fn dap_command_of(command: Seq<char>) -> DapCommand {
    if command == "launch"@ {
        DapCommand::Launch
    } else if command == "attach"@ {
        DapCommand::Attach
    } else if command == "setBreakpoints"@ {
        DapCommand::SetBreakpoints
    } else if command == "threads"@ {
        DapCommand::Threads
    } else if command == "configurationDone"@ {
        DapCommand::ConfigurationDone
    } else if command == "pause"@ {
        DapCommand::Pause
    } else if command == "stackTrace"@ {
        DapCommand::StackTrace
    } else if command == "disconnect"@ {
        DapCommand::Disconnect
    } else if command == "continue"@ {
        DapCommand::Continue
    } else if command == "scopes"@ {
        DapCommand::Scopes
    } else if command == "source"@ {
        DapCommand::Source
    } else if command == "variables"@ {
        DapCommand::Variables
    } else if command == "next"@ {
        DapCommand::Next
    } else if command == "stepOut"@ {
        DapCommand::StepOut
    } else {
        DapCommand::Unknown
    }
}

fn is(c: &Vec<char>, name: &str) -> (r: bool)
    ensures
        r == (c@ == name@),
{
    chars_eq(c, &str_chars(name))
}

/// Which request the command name of a client's message stands for.
pub fn dap_command(command: &str) -> (r: DapCommand)
    ensures
        r == dap_command_of(command@),
{
    let c = str_chars(command);
    if is(&c, "launch") {
        DapCommand::Launch
    } else if is(&c, "attach") {
        DapCommand::Attach
    } else if is(&c, "setBreakpoints") {
        DapCommand::SetBreakpoints
    } else if is(&c, "threads") {
        DapCommand::Threads
    } else if is(&c, "configurationDone") {
        DapCommand::ConfigurationDone
    } else if is(&c, "pause") {
        DapCommand::Pause
    } else if is(&c, "stackTrace") {
        DapCommand::StackTrace
    } else if is(&c, "disconnect") {
        DapCommand::Disconnect
    } else if is(&c, "continue") {
        DapCommand::Continue
    } else if is(&c, "scopes") {
        DapCommand::Scopes
    } else if is(&c, "source") {
        DapCommand::Source
    } else if is(&c, "variables") {
        DapCommand::Variables
    } else if is(&c, "next") {
        DapCommand::Next
    } else if is(&c, "stepOut") {
        DapCommand::StepOut
    } else {
        DapCommand::Unknown
    }
}

/// The error for a first request that is not `initialize`.
pub open spec fn not_initialize_message(command: Seq<char>) -> Seq<char> {
    "Error: Expected command initialize got "@ + command
}

/// Checks that the first request of a session is `initialize`.
pub fn verify_init_command(command: &str) -> (r: Result<(), String>)
    ensures
        command@ == "initialize"@ ==> r is Ok,
        command@ != "initialize"@ ==> (r matches Err(m) && m@ == not_initialize_message(command@)),
{
    let c = str_chars(command);
    if is(&c, "initialize") {
        Ok(())
    } else {
        let mut m = "Error: Expected command initialize got ".to_owned();
        append_chars(&mut m, &c);
        Err(m)
    }
}

/// The arguments of an `attach` request.
#[derive(Debug, Clone)]
pub struct AttachRequestArguments {
    pub program: String,
    pub chip: String,
    pub cwd: Option<String>,
    pub reset: Option<bool>,
    pub halt_after_reset: Option<bool>,
    pub flash: Option<bool>,
}

/// How the target is brought up at the end of an `attach`.
#[derive(Debug, Clone, Copy, PartialEq, Eq, Structural)]
pub enum AttachStart {
    /// Flash the binary, then reset (and halt, if asked).
    Flash { reset_and_halt: bool },
    /// Attach to the running core, resetting (and halting) it if asked.
    Attach { reset: bool, reset_and_halt: bool },
}

/// What an `attach` asks of the debug handler, in order: the settings to
/// change, then how to bring up the target.
#[derive(Debug, Clone)]
pub struct AttachPlan {
    pub settings: Vec<ConfigRequest>,
    pub start: AttachStart,
}

/// Whether `r` sets the binary, the chip or the directory to `v`.
pub open spec fn sets(r: ConfigRequest, kind: int, v: Seq<char>) -> bool {
    match r {
        ConfigRequest::SetBinary { path } => kind == 0 && path@ == v,
        ConfigRequest::SetChip { chip } => kind == 1 && chip@ == v,
        ConfigRequest::SetCwd { cwd } => kind == 2 && cwd@ == v,
        ConfigRequest::SetProbeNumber { .. } => false,
    }
}

/// The plan of an `attach`: set the binary to the program, the chip, and the
/// directory if one is given; then flash if asked, else attach. Missing flags
/// count as false.
pub fn attach_requests(args: AttachRequestArguments) -> (p: AttachPlan)
    ensures
        p.settings@.len() == if args.cwd is Some {
            3int
        } else {
            2int
        },
        sets(p.settings@[0], 0, args.program@),
        sets(p.settings@[1], 1, args.chip@),
        args.cwd matches Some(c) ==> sets(p.settings@[2], 2, c@),
        p.start == if args.flash == Some(true) {
            AttachStart::Flash { reset_and_halt: args.halt_after_reset == Some(true) }
        } else {
            AttachStart::Attach {
                reset: args.reset == Some(true),
                reset_and_halt: args.halt_after_reset == Some(true),
            }
        },
{
    let reset_and_halt = match args.halt_after_reset {
        Some(v) => v,
        None => false,
    };
    let start = match args.flash {
        Some(true) => AttachStart::Flash { reset_and_halt },
        _ => AttachStart::Attach {
            reset: match args.reset {
                Some(v) => v,
                None => false,
            },
            reset_and_halt,
        },
    };
    let mut settings: Vec<ConfigRequest> = Vec::new();
    settings.push(ConfigRequest::SetBinary { path: args.program });
    settings.push(ConfigRequest::SetChip { chip: args.chip });
    match args.cwd {
        Some(cwd) => {
            settings.push(ConfigRequest::SetCwd { cwd });
        },
        None => {},
    }
    AttachPlan { settings, start }
}

/// A source as the protocol reports it: its name and its path.
#[derive(Debug, Clone)]
pub struct DapSource {
    pub name: Option<String>,
    pub path: Option<String>,
}

/// A stack frame as the protocol reports it.
#[derive(Debug, Clone)]
pub struct DapStackFrame {
    pub id: i64,
    pub name: String,
    pub source: DapSource,
    pub line: i64,
    pub column: i64,
    pub presentation_hint: String,
}

/// The path of a source: its directory and file joined by `/`, when both
/// are known.
pub open spec fn source_path(directory: Option<String>, file: Option<String>) -> Option<Seq<char>> {
    match (directory, file) {
        (Some(d), Some(f)) => Some(d@ + seq!['/'] + f@),
        _ => None,
    }
}

fn dap_source(directory: &Option<String>, file: &Option<String>) -> (s: DapSource)
    ensures
        s.name == *file,
        match source_path(*directory, *file) {
            Some(p) => s.path matches Some(q) && q@ == p,
            None => s.path is None,
        },
{
    let path = match directory {
        Some(dir) => match file {
            Some(f) => {
                let mut p = dir.clone();
                let mut slash: Vec<char> = Vec::new();
                slash.push('/');
                append_chars(&mut p, &slash);
                append_chars(&mut p, &str_chars(f.as_str()));
                Some(p)
            },
            None => None,
        },
        None => None,
    };
    DapSource { name: file.clone(), path }
}

/// The protocol's report of a stack frame: its number, name and source, its
/// line, its column (0 when unknown) and the `normal` hint.
pub fn dap_stack_frame(s: &StackFrame) -> (f: DapStackFrame)
    requires
        s.source.line is Some,
    ensures
        f.id == s.call_frame.id as i64,
        f.name == s.name,
        f.source.name == s.source.file,
        match source_path(s.source.directory, s.source.file) {
            Some(p) => f.source.path matches Some(q) && q@ == p,
            None => f.source.path is None,
        },
        f.line == s.source.line->Some_0 as i64,
        f.column == match s.source.column {
            Some(c) => c as i64,
            None => 0i64,
        },
        f.presentation_hint@ == "normal"@,
{
    let line = match s.source.line {
        Some(l) => l as i64,
        None => 0,
    };
    let column = match s.source.column {
        Some(c) => c as i64,
        None => 0,
    };
    DapStackFrame {
        id: s.call_frame.id as i64,
        name: s.name.clone(),
        source: dap_source(&s.source.directory, &s.source.file),
        line,
        column,
        presentation_hint: "normal".to_owned(),
    }
}

/// A scope as the protocol reports it: that of a stack frame, whose
/// variables are asked for by the frame's number.
#[derive(Debug, Clone)]
pub struct DapScope {
    pub name: String,
    pub source: DapSource,
    pub line: Option<i64>,
    pub column: Option<i64>,
    pub expensive: bool,
    pub variables_reference: i64,
}

/// The protocol's report of the scope of a stack frame: the frame's name,
/// source, line and column, not expensive, and the frame's number as the
/// reference of its variables.
pub fn dap_scope(s: &StackFrame) -> (c: DapScope)
    ensures
        c.name == s.name,
        c.source.name == s.source.file,
        match source_path(s.source.directory, s.source.file) {
            Some(p) => c.source.path matches Some(q) && q@ == p,
            None => c.source.path is None,
        },
        c.line == match s.source.line {
            Some(l) => Some(l as i64),
            None => None::<i64>,
        },
        c.column == match s.source.column {
            Some(v) => Some(v as i64),
            None => None::<i64>,
        },
        !c.expensive,
        c.variables_reference == s.call_frame.id as i64,
{
    DapScope {
        name: s.name.clone(),
        source: dap_source(&s.source.directory, &s.source.file),
        line: match s.source.line {
            Some(l) => Some(l as i64),
            None => None,
        },
        column: match s.source.column {
            Some(v) => Some(v as i64),
            None => None,
        },
        expensive: false,
        variables_reference: s.call_frame.id as i64,
    }
}

/// The position of the frame numbered `frame_id` among `frames`, the first
/// one if several have that number.
pub fn find_frame(frames: &Vec<StackFrame>, frame_id: i64) -> (r: Option<usize>)
    ensures
        match r {
            Some(i) => i < frames.len() && frames@[i as int].call_frame.id as i64 == frame_id && forall|
                j: int,
            | 0 <= j < i ==> frames@[j].call_frame.id as i64 != frame_id,
            None => forall|j: int| 0 <= j < frames.len() ==> frames@[j].call_frame.id as i64 != frame_id,
        },
{
    let mut i: usize = 0;
    while i < frames.len()
        invariant
            i <= frames.len(),
            forall|j: int| 0 <= j < i ==> frames@[j].call_frame.id as i64 != frame_id,
        decreases frames.len() - i,
    {
        if frames[i].call_frame.id as i64 == frame_id {
            return Some(i);
        }
        i += 1;
    }
    None
}

/// The body of the `stopped` event for a halt: a halt on a breakpoint is
/// reported as such, any other halt by its reason's name; thread 0 stopped.
pub fn stopped_event_body(on_breakpoint: bool, reason: String, hit_breakpoint_ids: Option<Vec<u32>>) -> (b: StoppedEventBody)
    ensures
        on_breakpoint ==> b.reason@ == "breakpoint"@,
        on_breakpoint ==> (b.description matches Some(d) && d@
            == "Target stopped due to breakpoint."@),
        !on_breakpoint ==> b.reason == reason && b.description is None,
        b.thread_id == Some(0i64),
        b.preserve_focus_hint is None,
        b.text is None,
        b.all_threads_stopped is None,
        b.hit_breakpoint_ids == hit_breakpoint_ids,
{
    let (reason, description) = if on_breakpoint {
        ("breakpoint".to_owned(), Some("Target stopped due to breakpoint.".to_owned()))
    } else {
        (reason, None)
    };
    StoppedEventBody {
        reason,
        description,
        thread_id: Some(0),
        preserve_focus_hint: None,
        text: None,
        all_threads_stopped: None,
        hit_breakpoint_ids,
    }
}

#[verifier::external_type_specification]
#[verifier::external_body]
pub struct ExJsonError(serde_json::Error);

/// The `type` field of a protocol message read from its JSON text (none
/// when the text is not a protocol message with a sequence number and a
/// type); it depends on the text alone.
pub uninterp spec fn protocol_message_type_of(content: Seq<u8>) -> Option<Seq<char>>;

/// `serde_json::from_slice` into `debugserver_types::ProtocolMessage`, taking
/// its `type` field: the contract claims only that the outcome is the named
/// function of the bytes.
#[verifier::external_body]
fn protocol_message_type(content: &[u8]) -> (r: Result<String, serde_json::Error>)
    ensures
        match protocol_message_type_of(content@) {
            Some(t) => r matches Ok(s) && s@ == t,
            None => r is Err,
        },
{
    serde_json::from_slice::<debugserver_types::ProtocolMessage>(content).map(|m| m.type_)
}

/// The kinds of protocol messages.
#[derive(Debug, Clone, Copy, PartialEq, Eq, Structural)]
pub enum MessageKind {
    Request,
    Response,
    Event,
}

/// Why a message could not be read.
#[derive(Debug)]
pub enum DapMessageError {
    /// The text is not a protocol message.
    Json(serde_json::Error),
    /// The message's type is none of the three.
    UnknownType { message: String },
}

/// The kind of the message whose type field is `t`, or the error message.
pub open spec fn kind_of_type(t: Seq<char>) -> Result<MessageKind, Seq<char>> {
    if t == "request"@ {
        Ok(MessageKind::Request)
    } else if t == "response"@ {
        Ok(MessageKind::Response)
    } else if t == "event"@ {
        Ok(MessageKind::Event)
    } else {
        Err("Unknown message type: "@ + t)
    }
}

/// The kind of a message whose `type` field is `t`; any other type is
/// answered with the message `Unknown message type: ` and the type.
pub fn kind_of_message_type(t: &str) -> (r: Result<MessageKind, String>)
    ensures
        match kind_of_type(t@) {
            Ok(k) => r matches Ok(k2) && k2 == k,
            Err(m) => r matches Err(message) && message@ == m,
        },
{
    let c = str_chars(t);
    if is(&c, "request") {
        Ok(MessageKind::Request)
    } else if is(&c, "response") {
        Ok(MessageKind::Response)
    } else if is(&c, "event") {
        Ok(MessageKind::Event)
    } else {
        let mut message = "Unknown message type: ".to_owned();
        append_chars(&mut message, &c);
        Err(message)
    }
}

/// The kind of the protocol message in `content`, by its `type` field.
pub fn message_kind(content: &[u8]) -> (r: Result<MessageKind, DapMessageError>)
    ensures
        match protocol_message_type_of(content@) {
            None => r matches Err(DapMessageError::Json(_)),
            Some(t) => match kind_of_type(t) {
                Ok(k) => r matches Ok(k2) && k2 == k,
                Err(m) => r matches Err(DapMessageError::UnknownType { message }) && message@ == m,
            },
        },
{
    match protocol_message_type(content) {
        Err(e) => Err(DapMessageError::Json(e)),
        Ok(t) => match kind_of_message_type(t.as_str()) {
            Ok(k) => Ok(k),
            Err(message) => Err(DapMessageError::UnknownType { message }),
        },
    }
}

} // verus!
