//! How the interactive debugger reads a command line: nothing, a request for
//! help, a command with its arguments, or an unknown word.
use vstd::prelude::*;
use crate::command_table::chars_eq;
use crate::commands::{Command, CommandKind, find_command, names_command};
use crate::text::{append_chars, split_words, split_words_exec, str_chars, string_from_chars};

verus! {

/// What a command line asks the debugger to do.
pub enum LineAction {
    /// The line holds no word.
    Nothing,
    /// The line asks for `help`: the text to print.
    Help { text: String },
    /// The line names a command: what it does and the words after its name.
    Run { kind: CommandKind, args: Vec<String> },
    /// The first word names no command: the text to print.
    Unknown { text: String },
}

/// What a [`LineAction`] holds, its strings taken as characters.
pub enum LineActionView {
    Nothing,
    Help { text: Seq<char> },
    Run { kind: CommandKind, args: Seq<Seq<char>> },
    Unknown { text: Seq<char> },
}

impl View for LineAction {
    type V = LineActionView;

    open spec fn view(&self) -> LineActionView {
        match self {
            LineAction::Nothing => LineActionView::Nothing,
            LineAction::Help { text } => LineActionView::Help { text: text@ },
            LineAction::Run { kind, args } => LineActionView::Run {
                kind: *kind,
                args: Seq::new(args@.len(), |i: int| args@[i]@),
            },
            LineAction::Unknown { text } => LineActionView::Unknown { text: text@ },
        }
    }
}

/// The help the debugger prints: a heading line, then a line per command.
pub open spec fn help_lines(cmds: Seq<Command>) -> Seq<char>
    decreases cmds.len(),
{
    if cmds.len() == 0 {
        "Available commands:\n"@
    } else {
        help_lines(cmds.drop_last()) + "\t- "@ + cmds.last().name@ + ": "@ + cmds.last().description@
            + "\n"@
    }
}

/// The text printed for a first word that names no command.
pub open spec fn unknown_lines(word: Seq<char>) -> Seq<char> {
    "Unknown command '"@ + word + "'\nEnter 'help' for a list of commands\n"@
}

/// The index of the first command that `word` names, if any.
pub open spec fn first_named(cmds: Seq<Command>, word: Seq<char>) -> Option<int>
    decreases cmds.len(),
{
    if cmds.len() == 0 {
        None
    } else {
        match first_named(cmds.drop_last(), word) {
            Some(i) => Some(i),
            None => if names_command(cmds.last(), word) {
                Some(cmds.len() - 1)
            } else {
                None
            },
        }
    }
}

proof fn lemma_first_named(cmds: Seq<Command>, word: Seq<char>, i: int)
    requires
        0 <= i < cmds.len(),
        names_command(cmds[i], word),
        forall|j: int| 0 <= j < i ==> !names_command(#[trigger] cmds[j], word),
    ensures
        first_named(cmds, word) == Some(i),
    decreases cmds.len(),
{
    if i < cmds.len() - 1 {
        lemma_first_named(cmds.drop_last(), word, i);
    } else {
        lemma_none_named(cmds.drop_last(), word);
    }
}

proof fn lemma_none_named(cmds: Seq<Command>, word: Seq<char>)
    requires
        forall|j: int| 0 <= j < cmds.len() ==> !names_command(#[trigger] cmds[j], word),
    ensures
        first_named(cmds, word) is None,
    decreases cmds.len(),
{
    if cmds.len() > 0 {
        lemma_none_named(cmds.drop_last(), word);
    }
}

/// What the line `line` asks of a debugger with the commands `cmds`.
pub open spec fn line_action_spec(cmds: Seq<Command>, line: Seq<char>) -> LineActionView {
    let words = split_words(line, false);
    if words.len() == 0 {
        LineActionView::Nothing
    } else if words[0] == "help"@ {
        LineActionView::Help { text: help_lines(cmds) }
    } else {
        match first_named(cmds, words[0]) {
            Some(i) => LineActionView::Run { kind: cmds[i].kind, args: words.drop_first() },
            None => LineActionView::Unknown { text: unknown_lines(words[0]) },
        }
    }
}

fn help_string(cmds: &Vec<Command>) -> (s: String)
    ensures
        s@ == help_lines(cmds@),
{
    let mut s = "Available commands:\n".to_owned();
    let mut i: usize = 0;
    while i < cmds.len()
        invariant
            i <= cmds.len(),
            s@ == help_lines(cmds@.take(i as int)),
        decreases cmds.len() - i,
    {
        append_chars(&mut s, &str_chars("\t- "));
        append_chars(&mut s, &str_chars(cmds[i].name));
        append_chars(&mut s, &str_chars(": "));
        append_chars(&mut s, &str_chars(cmds[i].description));
        append_chars(&mut s, &str_chars("\n"));
        assert(cmds@.take(i + 1).drop_last() =~= cmds@.take(i as int));
        i += 1;
    }
    assert(cmds@.take(cmds.len() as int) =~= cmds@);
    s
}

/// Reads a command line of the debugger with the commands `cmds`.
pub fn line_action(cmds: &Vec<Command>, line: &str) -> (a: LineAction)
    ensures
        a@ == line_action_spec(cmds@, line@),
{
    let chars = str_chars(line);
    let words = split_words_exec(&chars, false);
    if words.len() == 0 {
        return LineAction::Nothing;
    }
    assert(words@[0]@ == split_words(line@, false)[0]);
    if chars_eq(&words[0], &str_chars("help")) {
        return LineAction::Help { text: help_string(cmds) };
    }
    match find_command(cmds, &words[0]) {
        Some(i) => {
            proof {
                lemma_first_named(cmds@, words@[0]@, i as int);
            }
            let mut args: Vec<String> = Vec::new();
            let mut k: usize = 1;
            while k < words.len()
                invariant
                    1 <= k <= words.len(),
                    args@.len() == k - 1,
                    forall|j: int| 0 <= j < k - 1 ==> #[trigger] args@[j]@ == words@[j + 1]@,
                decreases words.len() - k,
            {
                args.push(string_from_chars(&words[k]));
                k += 1;
            }
            let a = LineAction::Run { kind: cmds[i].kind, args };
            assert(a@->Run_args =~= split_words(line@, false).drop_first());
            a
        },
        None => {
            proof {
                lemma_none_named(cmds@, words@[0]@);
            }
            let mut text = "Unknown command '".to_owned();
            append_chars(&mut text, &words[0]);
            append_chars(&mut text, &str_chars("'\nEnter 'help' for a list of commands\n"));
            LineAction::Unknown { text }
        },
    }
}

} // verus!
