//! The command line of the debugger: each line is read as a command name and
//! its arguments and becomes a [`DebugRequest`].
use vstd::prelude::*;
use super::debug_request::{DebugRequest, DebugRequestView};
use crate::command_table::{
    CommandInfo, chars_eq, find_command, first_match, help_text, table_entries, table_help,
    table_names, unknown_command, unknown_command_message,
};
use crate::text::{
    ParseNumberError, lemma_parse_unsigned_range, parse_unsigned, parse_unsigned_exec, split_words, split_words_exec,
    str_chars, string_from_chars, decimal, lemma_decimal_digits, unsigned_digits, digit_value,
};

verus! {

/// What a command of this table turns into.
#[derive(Debug, Clone, Copy, PartialEq, Eq, Structural)]
pub enum RequestKind {
    Exit,
    Continue,
    Halt,
    SetBinary,
}

/// The commands that the debugger's command line knows.
pub struct Commands {
    commands: Vec<CommandInfo<RequestKind>>,
}

/// The table that [`Commands::new`] builds.
pub open spec fn request_table() -> Seq<CommandInfo<RequestKind>> {
    seq![
        CommandInfo { name: "exit", description: "Exit debugger", kind: RequestKind::Exit },
        CommandInfo { name: "continue", description: "Continue the program", kind: RequestKind::Continue },
        CommandInfo { name: "halt", description: "Halt the core", kind: RequestKind::Halt },
        CommandInfo {
            name: "set-binary",
            description: "Set the binary file to debug",
            kind: RequestKind::SetBinary,
        },
    ]
}

/// The request that a command of kind `kind` makes with the arguments `args`,
/// or the message of its error.
pub open spec fn request_of(kind: RequestKind, args: Seq<Seq<char>>) -> Result<
    DebugRequestView,
    Seq<char>,
> {
    match kind {
        RequestKind::Exit => Ok(DebugRequestView::Exit),
        RequestKind::Continue => Ok(DebugRequestView::Continue),
        RequestKind::Halt => Ok(DebugRequestView::Halt),
        RequestKind::SetBinary => if args.len() > 0 {
            Ok(DebugRequestView::SetBinary { path: args[0] })
        } else {
            Err("Requires a path as a argument"@)
        },
    }
}

/// What reading the line `line` with the table `table` gives.
pub open spec fn parse_request(table: Seq<CommandInfo<RequestKind>>, line: Seq<char>) -> Result<
    DebugRequestView,
    Seq<char>,
> {
    let words = split_words(line, false);
    if words.len() == 0 {
        Err("Empty Command"@)
    } else {
        match first_match(table_names(table), words[0]) {
            Some(i) => request_of(table[i].kind, words.drop_first()),
            None => Err(unknown_command_message(words[0])),
        }
    }
}

/// What `help` prints for `line` with the table `table`, if `line` asks for it.
pub open spec fn help_for(table: Seq<CommandInfo<RequestKind>>, line: Seq<char>) -> Option<
    Seq<char>,
> {
    let words = split_words(line, false);
    if words.len() > 0 && words[0] == "help"@ {
        Some(help_text(table_entries(table)))
    } else {
        None
    }
}

/// `r` is the outcome `s`, requests and messages taken by their views.
pub open spec fn request_outcome(
    r: Result<DebugRequest, String>,
    s: Result<DebugRequestView, Seq<char>>,
) -> bool {
    match s {
        Ok(v) => r is Ok && r->Ok_0@ == v,
        Err(m) => r is Err && r->Err_0@ == m,
    }
}

fn request_from_args(kind: RequestKind, args: &Vec<Vec<char>>, first: usize) -> (r: Result<
    DebugRequest,
    String,
>)
    requires
        first <= args.len(),
    ensures
        request_outcome(
            r,
            request_of(kind, Seq::new((args.len() - first) as nat, |j: int| args@[first + j]@)),
        ),
{
    match kind {
        RequestKind::Exit => Ok(DebugRequest::Exit),
        RequestKind::Continue => Ok(DebugRequest::Continue),
        RequestKind::Halt => Ok(DebugRequest::Halt),
        RequestKind::SetBinary => {
            if args.len() > first {
                Ok(DebugRequest::SetBinary { path: string_from_chars(&args[first]) })
            } else {
                Err("Requires a path as a argument".to_owned())
            }
        },
    }
}

impl Commands {
    /// The commands this table holds, in order.
    pub closed spec fn table(&self) -> Seq<CommandInfo<RequestKind>> {
        self.commands@
    }

    pub fn new() -> (c: Commands)
        ensures
            c.table() == request_table(),
    {
        let commands = vec![
            CommandInfo { name: "exit", description: "Exit debugger", kind: RequestKind::Exit },
            CommandInfo {
                name: "continue",
                description: "Continue the program",
                kind: RequestKind::Continue,
            },
            CommandInfo { name: "halt", description: "Halt the core", kind: RequestKind::Halt },
            CommandInfo {
                name: "set-binary",
                description: "Set the binary file to debug",
                kind: RequestKind::SetBinary,
            },
        ];
        assert(commands@ =~= request_table());
        Commands { commands }
    }

    /// Reads a command line: its first word names the command, the others are
    /// its arguments.
    pub fn parse_command(&self, line: &str) -> (r: Result<DebugRequest, String>)
        ensures
            request_outcome(r, parse_request(self.table(), line@)),
    {
        let chars = str_chars(line);
        let words = split_words_exec(&chars, false);
        if words.len() == 0 {
            return Err("Empty Command".to_owned());
        }
        assert(words@[0]@ == split_words(line@, false)[0]);
        match find_command(&self.commands, &words[0]) {
            Some(i) => {
                let r = request_from_args(self.commands[i].kind, &words, 1);
                proof {
                    let w = split_words(line@, false);
                    assert(Seq::new((words.len() - 1) as nat, |j: int| words@[1 + j]@)
                        =~= w.drop_first());
                    assert(first_match(table_names(self.table()), w[0]) == Some(i as int));
                    assert(self.table()[i as int].kind == self.commands@[i as int].kind);
                }
                r
            },
            None => {
                let r = Err(unknown_command(&words[0]));
                assert(first_match(table_names(self.table()), split_words(line@, false)[0]) is None);
                r
            },
        }
    }

    /// The list of commands, if the line asks for `help`.
    pub fn check_if_help(&self, line: &str) -> (r: Option<String>)
        ensures
            match help_for(self.table(), line@) {
                Some(h) => r is Some && r->Some_0@ == h,
                None => r is None,
            },
    {
        let chars = str_chars(line);
        let words = split_words_exec(&chars, false);
        if words.len() > 0 {
            assert(words@[0]@ == split_words(line@, false)[0]);
            if chars_eq(&words[0], &str_chars("help")) {
                return Some(table_help(&self.commands));
            }
        }
        None
    }
}

/// `s` with every leading `0x` taken off (`trim_start_matches("0x")`).
pub open spec fn trim_hex_prefixes(s: Seq<char>) -> Seq<char>
    decreases s.len(),
{
    if s.len() >= 2 && s[0] == '0' && s[1] == 'x' {
        trim_hex_prefixes(s.skip(2))
    } else {
        s
    }
}

/// The number written in `s`: hexadecimal after a `0x` prefix, else decimal.
pub open spec fn parse_u32_spec(s: Seq<char>) -> Result<int, ParseNumberError> {
    if s.len() >= 2 && s[0] == '0' && s[1] == 'x' {
        parse_unsigned(trim_hex_prefixes(s), 16, u32::MAX as int)
    } else {
        parse_unsigned(s, 10, u32::MAX as int)
    }
}

/// Reads a `u32` written in decimal, or in hexadecimal after `0x`.
pub fn parse_u32_from_str(s: &str) -> (r: Result<u32, ParseNumberError>)
    ensures
        match parse_u32_spec(s@) {
            Ok(v) => r == Ok::<u32, ParseNumberError>(v as u32),
            Err(e) => r == Err::<u32, ParseNumberError>(e),
        },
{
    let chars = str_chars(s);
    let hex = chars.len() >= 2 && chars[0] == '0' && chars[1] == 'x';
    let mut start: usize = 0;
    assert(chars@.skip(0) =~= chars@);
    while chars.len() - start >= 2 && chars[start] == '0' && chars[start + 1] == 'x'
        invariant
            start <= chars.len(),
            trim_hex_prefixes(chars@.skip(start as int)) == trim_hex_prefixes(chars@),
        decreases chars.len() - start,
    {
        assert(chars@.skip(start as int).skip(2) =~= chars@.skip(start + 2));
        start += 2;
    }
    let mut rest: Vec<char> = Vec::new();
    let mut j: usize = start;
    while j < chars.len()
        invariant
            start <= j <= chars.len(),
            rest@ == chars@.subrange(start as int, j as int),
        decreases chars.len() - j,
    {
        rest.push(chars[j]);
        j += 1;
    }
    proof {
        assert(chars@.skip(start as int) =~= rest@);
        let t = chars@.skip(start as int);
        if t.len() >= 2 {
            assert(t[0] == chars@[start as int] && t[1] == chars@[start + 1]);
        }
        assert(trim_hex_prefixes(t) == t);
        assert(hex ==> trim_hex_prefixes(s@) == rest@);
        lemma_parse_unsigned_range(rest@, 16, u32::MAX as int);
        lemma_parse_unsigned_range(chars@, 10, u32::MAX as int);
    }
    let r = if hex {
        parse_unsigned_exec(&rest, 16, 0xffff_ffff)
    } else {
        parse_unsigned_exec(&chars, 10, 0xffff_ffff)
    };
    match r {
        Ok(v) => Ok(v as u32),
        Err(e) => Err(e),
    }
}

/// Reading back a written number: the decimal form of any `u32` is read as
/// that number.
pub proof fn lemma_parse_u32_decimal(n: u32)
    ensures
        parse_u32_spec(decimal(n as nat)) == Ok::<int, ParseNumberError>(n as int),
{
    let d = decimal(n as nat);
    lemma_decimal_digits(n as nat);
    if d.len() >= 2 {
        assert(digit_value(d[1], 10) is Some);
    }
    assert(unsigned_digits(d) == d);
}

} // verus!
