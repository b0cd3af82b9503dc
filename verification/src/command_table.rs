//! Tables of named commands, as the command-line front ends keep them: lookup
//! of a command by its first word, and the text that `help` prints.
use vstd::prelude::*;
use crate::text::{append_chars, str_chars};

verus! {

/// One entry of a command table: its name, the line `help` shows for it, and
/// what the command does.
pub struct CommandInfo<K> {
    pub name: &'static str,
    pub description: &'static str,
    pub kind: K,
}

/// The names of the entries of `table`, in order.
pub open spec fn table_names<K>(table: Seq<CommandInfo<K>>) -> Seq<Seq<char>> {
    Seq::new(table.len(), |i: int| table[i].name@)
}

/// The index of the first of `names` that equals `word`.
pub open spec fn first_match(names: Seq<Seq<char>>, word: Seq<char>) -> Option<int>
    decreases names.len(),
{
    if names.len() == 0 {
        None
    } else if names.last() == word {
        match first_match(names.drop_last(), word) {
            Some(i) => Some(i),
            None => Some(names.len() - 1),
        }
    } else {
        first_match(names.drop_last(), word)
    }
}

/// `first_match` gives the first index that holds `word`, or nothing when no
/// entry does.
pub proof fn lemma_first_match(names: Seq<Seq<char>>, word: Seq<char>)
    ensures
        match first_match(names, word) {
            Some(i) => 0 <= i < names.len() && names[i] == word && forall|j: int|
                0 <= j < i ==> names[j] != word,
            None => forall|j: int| 0 <= j < names.len() ==> names[j] != word,
        },
    decreases names.len(),
{
    if names.len() > 0 {
        lemma_first_match(names.drop_last(), word);
        let prefix = names.drop_last();
        assert forall|j: int| 0 <= j < prefix.len() implies prefix[j] == names[j] by {}
    }
}

/// The text that `help` prints for the entries `(name, description)`.
pub open spec fn help_text(entries: Seq<(Seq<char>, Seq<char>)>) -> Seq<char>
    decreases entries.len(),
{
    if entries.len() == 0 {
        "Available commands:"@
    } else {
        help_text(entries.drop_last()) + "\n\t- "@ + entries.last().0 + ": "@ + entries.last().1
    }
}

/// The `(name, description)` pairs of a table.
pub open spec fn table_entries<K>(table: Seq<CommandInfo<K>>) -> Seq<(Seq<char>, Seq<char>)> {
    Seq::new(table.len(), |i: int| (table[i].name@, table[i].description@))
}

/// The message for a first word that names no command.
pub open spec fn unknown_command_message(word: Seq<char>) -> Seq<char> {
    "Unknown command '"@ + word + "'\n\tEnter 'help' for a list of commands"@
}

/// The message for a first word that names no command.
pub fn unknown_command(word: &Vec<char>) -> (s: String)
    ensures
        s@ == unknown_command_message(word@),
{
    let mut s = "Unknown command '".to_owned();
    append_chars(&mut s, word);
    append_chars(&mut s, &str_chars("'\n\tEnter 'help' for a list of commands"));
    s
}

/// Whether two character sequences are equal.
pub fn chars_eq(a: &Vec<char>, b: &Vec<char>) -> (r: bool)
    ensures
        r == (a@ == b@),
{
    if a.len() != b.len() {
        return false;
    }
    let mut i: usize = 0;
    while i < a.len()
        invariant
            i <= a.len() == b.len(),
            forall|j: int| 0 <= j < i ==> a@[j] == b@[j],
        decreases a.len() - i,
    {
        if a[i] != b[i] {
            return false;
        }
        i += 1;
    }
    assert(a@ =~= b@);
    true
}

/// The index of the first entry of `table` named `word`, if any.
pub fn find_command<K>(table: &Vec<CommandInfo<K>>, word: &Vec<char>) -> (r: Option<usize>)
    ensures
        match first_match(table_names(table@), word@) {
            Some(i) => r == Some(i as usize) && 0 <= i < table.len(),
            None => r is None,
        },
{
    let ghost names = table_names(table@);
    let mut i: usize = 0;
    while i < table.len()
        invariant
            i <= table.len(),
            names == table_names(table@),
            forall|j: int| 0 <= j < i ==> names[j] != word@,
        decreases table.len() - i,
    {
        assert(names[i as int] == table@[i as int].name@);
        let name = str_chars(table[i].name);
        if chars_eq(&name, word) {
            proof {
                assert(names[i as int] == table@[i as int].name@);
                lemma_first_match(names, word@);
            }
            return Some(i);
        }
        i += 1;
    }
    proof {
        lemma_first_match(names, word@);
    }
    None
}

/// The `help` text of a table.
pub fn table_help<K>(table: &Vec<CommandInfo<K>>) -> (s: String)
    ensures
        s@ == help_text(table_entries(table@)),
{
    let mut s = "Available commands:".to_owned();
    let mut i: usize = 0;
    while i < table.len()
        invariant
            i <= table.len(),
            s@ == help_text(table_entries(table@).take(i as int)),
        decreases table.len() - i,
    {
        append_chars(&mut s, &str_chars("\n\t- "));
        append_chars(&mut s, &str_chars(table[i].name));
        append_chars(&mut s, &str_chars(": "));
        append_chars(&mut s, &str_chars(table[i].description));
        proof {
            let e = table_entries(table@);
            assert(e.take(i + 1).drop_last() =~= e.take(i as int));
        }
        i += 1;
    }
    assert(table_entries(table@).take(table.len() as int) =~= table_entries(table@));
    s
}

} // verus!
