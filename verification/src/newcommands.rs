//! The command line of the debug-adapter client: each line becomes a Debug
//! Adapter Protocol request.
use vstd::prelude::*;
use crate::command_table::{
    CommandInfo, chars_eq, find_command, first_match, help_text, table_entries, table_help,
    table_names, unknown_command, unknown_command_message,
};
use crate::text::{split_words, split_words_exec, str_chars};

pub use crate::commands_temp::commands::parse_u32_from_str;

verus! {

/// The arguments of a request, field by field as the protocol names them.
#[derive(Debug, Clone, Copy, PartialEq, Eq, Structural)]
pub enum DapArguments {
    Disconnect { restart: Option<bool>, terminate_debuggee: Option<bool> },
    Continue { thread_id: i64 },
    Next { thread_id: i64 },
    Pause { thread_id: i64 },
    /// A stack trace request; its `format` is always left out.
    StackTrace { thread_id: i64, levels: Option<i64>, start_frame: Option<i64> },
}

/// A protocol request, before it is serialised.
#[derive(Debug, Clone)]
pub struct DapRequest {
    pub seq: i64,
    pub type_: String,
    pub command: String,
    pub arguments: Option<DapArguments>,
}

/// A [`DapRequest`] with its strings taken as characters.
pub struct DapRequestView {
    pub seq: i64,
    pub type_: Seq<char>,
    pub command: Seq<char>,
    pub arguments: Option<DapArguments>,
}

impl View for DapRequest {
    type V = DapRequestView;

    open spec fn view(&self) -> DapRequestView {
        DapRequestView {
            seq: self.seq,
            type_: self.type_@,
            command: self.command@,
            arguments: self.arguments,
        }
    }
}

/// What a command of this table sends.
#[derive(Debug, Clone, Copy, PartialEq, Eq, Structural)]
pub enum DapKind {
    Disconnect,
    Continue,
    Next,
    Pause,
    StackTrace,
}

/// The commands of the client's command line.
pub struct CommandParser {
    seq: i64,
    commands: Vec<CommandInfo<DapKind>>,
}

/// The table that [`CommandParser::new`] builds.
pub open spec fn dap_table() -> Seq<CommandInfo<DapKind>> {
    seq![
        CommandInfo { name: "exit", description: "Exit debugger", kind: DapKind::Disconnect },
        CommandInfo { name: "continue", description: "Continue the program", kind: DapKind::Continue },
        CommandInfo { name: "next", description: "Step one instruction", kind: DapKind::Next },
        CommandInfo { name: "pause", description: "Halt the core", kind: DapKind::Pause },
        CommandInfo {
            name: "stack-trace",
            description: "Prints the current stack trace",
            kind: DapKind::StackTrace,
        },
    ]
}

/// The request that a command of kind `kind` sends: sequence number 0, type
/// `request`, the protocol's command name and arguments for thread 0.
pub open spec fn dap_request_of(kind: DapKind) -> DapRequestView {
    let (command, arguments) = match kind {
        DapKind::Disconnect => (
            "disconnect"@,
            DapArguments::Disconnect { restart: Some(false), terminate_debuggee: None },
        ),
        DapKind::Continue => ("continue"@, DapArguments::Continue { thread_id: 0 }),
        DapKind::Next => ("next"@, DapArguments::Next { thread_id: 0 }),
        DapKind::Pause => ("pause"@, DapArguments::Pause { thread_id: 0 }),
        DapKind::StackTrace => (
            "stackTrace"@,
            DapArguments::StackTrace { thread_id: 0, levels: None, start_frame: None },
        ),
    };
    DapRequestView { seq: 0, type_: "request"@, command, arguments: Some(arguments) }
}

/// What reading the line `line` with the table `table` gives.
pub open spec fn parse_dap_command(table: Seq<CommandInfo<DapKind>>, line: Seq<char>) -> Result<
    DapRequestView,
    Seq<char>,
> {
    let words = split_words(line, false);
    if words.len() == 0 {
        Err("Empty Command"@)
    } else {
        match first_match(table_names(table), words[0]) {
            Some(i) => Ok(dap_request_of(table[i].kind)),
            None => Err(unknown_command_message(words[0])),
        }
    }
}

/// What `help` prints for `line` with the table `table`, if `line` asks for it.
pub open spec fn dap_help_for(table: Seq<CommandInfo<DapKind>>, line: Seq<char>) -> Option<
    Seq<char>,
> {
    let words = split_words(line, false);
    if words.len() > 0 && words[0] == "help"@ {
        Some(help_text(table_entries(table)))
    } else {
        None
    }
}

fn dap_request(kind: DapKind) -> (r: DapRequest)
    ensures
        r@ == dap_request_of(kind),
{
    let (command, arguments) = match kind {
        DapKind::Disconnect => (
            "disconnect".to_owned(),
            DapArguments::Disconnect { restart: Some(false), terminate_debuggee: None },
        ),
        DapKind::Continue => ("continue".to_owned(), DapArguments::Continue { thread_id: 0 }),
        DapKind::Next => ("next".to_owned(), DapArguments::Next { thread_id: 0 }),
        DapKind::Pause => ("pause".to_owned(), DapArguments::Pause { thread_id: 0 }),
        DapKind::StackTrace => (
            "stackTrace".to_owned(),
            DapArguments::StackTrace { thread_id: 0, levels: None, start_frame: None },
        ),
    };
    DapRequest { seq: 0, type_: "request".to_owned(), command, arguments: Some(arguments) }
}

impl CommandParser {
    /// The commands this parser holds, in order.
    pub closed spec fn table(&self) -> Seq<CommandInfo<DapKind>> {
        self.commands@
    }

    /// The sequence number the parser was made with.
    pub closed spec fn sequence(&self) -> i64 {
        self.seq
    }

    pub fn new() -> (c: CommandParser)
        ensures
            c.table() == dap_table(),
            c.sequence() == 0,
    {
        let commands = vec![
            CommandInfo { name: "exit", description: "Exit debugger", kind: DapKind::Disconnect },
            CommandInfo {
                name: "continue",
                description: "Continue the program",
                kind: DapKind::Continue,
            },
            CommandInfo { name: "next", description: "Step one instruction", kind: DapKind::Next },
            CommandInfo { name: "pause", description: "Halt the core", kind: DapKind::Pause },
            CommandInfo {
                name: "stack-trace",
                description: "Prints the current stack trace",
                kind: DapKind::StackTrace,
            },
        ];
        assert(commands@ =~= dap_table());
        CommandParser { seq: 0, commands }
    }

    /// The list of commands, if the line asks for `help`.
    pub fn check_if_help(&self, line: &str) -> (r: Option<String>)
        ensures
            match dap_help_for(self.table(), line@) {
                Some(h) => r is Some && r->Some_0@ == h,
                None => r is None,
            },
    {
        let chars = str_chars(line);
        let words = split_words_exec(&chars, false);
        if words.len() > 0 {
            assert(words@[0]@ == split_words(line@, false)[0]);
            if chars_eq(&words[0], &str_chars("help")) {
                return Some(table_help(&self.commands));
            }
        }
        None
    }

    /// Reads a command line into the request it sends; arguments after the
    /// command's name are ignored.
    pub fn parse_command(&self, line: &str) -> (r: Result<DapRequest, String>)
        ensures
            match parse_dap_command(self.table(), line@) {
                Ok(v) => r is Ok && r->Ok_0@ == v,
                Err(m) => r is Err && r->Err_0@ == m,
            },
    {
        let chars = str_chars(line);
        let words = split_words_exec(&chars, false);
        if words.len() == 0 {
            return Err("Empty Command".to_owned());
        }
        assert(words@[0]@ == split_words(line@, false)[0]);
        match find_command(&self.commands, &words[0]) {
            Some(i) => {
                assert(self.table()[i as int].kind == self.commands@[i as int].kind);
                Ok(dap_request(self.commands[i].kind))
            },
            None => Err(unknown_command(&words[0])),
        }
    }
}

} // verus!
