//! How the experimental debugger reads a command line: nothing, a request for
//! help, a command with its arguments, or an unknown word.
use vstd::prelude::*;
use crate::command_table::{
    CommandInfo, chars_eq, find_command, first_match, table_entries, table_names,
};
use crate::text::{append_chars, split_words, split_words_exec, str_chars, string_from_chars};

verus! {

/// What a command line asks the debugger to do.
pub enum CliLine<K> {
    /// The line holds no word.
    Nothing,
    /// The line asks for `help`: the text to print.
    Help { text: String },
    /// The line names a command: what it does and the words after its name.
    Run { kind: K, args: Vec<String> },
    /// The first word names no command: the text to print.
    Unknown { text: String },
}

/// What a [`CliLine`] holds, its strings taken as characters.
pub enum CliLineView<K> {
    Nothing,
    Help { text: Seq<char> },
    Run { kind: K, args: Seq<Seq<char>> },
    Unknown { text: Seq<char> },
}

impl<K> View for CliLine<K> {
    type V = CliLineView<K>;

    open spec fn view(&self) -> CliLineView<K> {
        match self {
            CliLine::Nothing => CliLineView::Nothing,
            CliLine::Help { text } => CliLineView::Help { text: text@ },
            CliLine::Run { kind, args } => CliLineView::Run {
                kind: *kind,
                args: Seq::new(args@.len(), |i: int| args@[i]@),
            },
            CliLine::Unknown { text } => CliLineView::Unknown { text: text@ },
        }
    }
}

/// The help printed for the entries `(name, description)`: a heading line,
/// then a line per command.
pub open spec fn help_lines(entries: Seq<(Seq<char>, Seq<char>)>) -> Seq<char>
    decreases entries.len(),
{
    if entries.len() == 0 {
        "Available commands:\n"@
    } else {
        help_lines(entries.drop_last()) + "\t- "@ + entries.last().0 + ": "@ + entries.last().1 + "\n"@
    }
}

/// The text printed for a first word that names no command.
pub open spec fn unknown_lines(word: Seq<char>) -> Seq<char> {
    "Unknown command '"@ + word + "'\nEnter 'help' for a list of commands\n"@
}

/// What the line `line` asks of the debugger with the commands `table`.
pub open spec fn cli_line_spec<K>(table: Seq<CommandInfo<K>>, line: Seq<char>) -> CliLineView<K> {
    let words = split_words(line, false);
    if words.len() == 0 {
        CliLineView::Nothing
    } else if words[0] == "help"@ {
        CliLineView::Help { text: help_lines(table_entries(table)) }
    } else {
        match first_match(table_names(table), words[0]) {
            Some(i) => CliLineView::Run { kind: table[i].kind, args: words.drop_first() },
            None => CliLineView::Unknown { text: unknown_lines(words[0]) },
        }
    }
}

fn help_string<K>(table: &Vec<CommandInfo<K>>) -> (s: String)
    ensures
        s@ == help_lines(table_entries(table@)),
{
    let mut s = "Available commands:\n".to_owned();
    let mut i: usize = 0;
    while i < table.len()
        invariant
            i <= table.len(),
            s@ == help_lines(table_entries(table@).take(i as int)),
        decreases table.len() - i,
    {
        append_chars(&mut s, &str_chars("\t- "));
        append_chars(&mut s, &str_chars(table[i].name));
        append_chars(&mut s, &str_chars(": "));
        append_chars(&mut s, &str_chars(table[i].description));
        append_chars(&mut s, &str_chars("\n"));
        proof {
            let e = table_entries(table@);
            assert(e.take(i + 1).drop_last() =~= e.take(i as int));
        }
        i += 1;
    }
    assert(table_entries(table@).take(table.len() as int) =~= table_entries(table@));
    s
}

/// Reads a command line of the debugger with the commands `table`: the first
/// word names the command, the others are its arguments.
pub fn handle_line<K: Copy>(table: &Vec<CommandInfo<K>>, line: &str) -> (a: CliLine<K>)
    ensures
        a@ == cli_line_spec(table@, line@),
{
    let chars = str_chars(line);
    let words = split_words_exec(&chars, false);
    if words.len() == 0 {
        return CliLine::Nothing;
    }
    assert(words@[0]@ == split_words(line@, false)[0]);
    if chars_eq(&words[0], &str_chars("help")) {
        return CliLine::Help { text: help_string(table) };
    }
    match find_command(table, &words[0]) {
        Some(i) => {
            let mut args: Vec<String> = Vec::new();
            let mut k: usize = 1;
            while k < words.len()
                invariant
                    1 <= k <= words.len(),
                    args@.len() == k - 1,
                    forall|j: int| 0 <= j < k - 1 ==> #[trigger] args@[j]@ == words@[j + 1]@,
                decreases words.len() - k,
            {
                args.push(string_from_chars(&words[k]));
                k += 1;
            }
            let a = CliLine::Run { kind: table[i].kind, args };
            assert(a@->Run_args =~= split_words(line@, false).drop_first());
            a
        },
        None => {
            let mut text = "Unknown command '".to_owned();
            append_chars(&mut text, &words[0]);
            append_chars(&mut text, &str_chars("'\nEnter 'help' for a list of commands\n"));
            CliLine::Unknown { text }
        },
    }
}

} // verus!
