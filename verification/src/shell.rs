//! Taking a command line apart and putting a command's output together.

use vstd::prelude::*;
use vstd::string::StringExecFns;
use crate::text::{decimal_digits, split_words, texts, trim, trimmed, unsigned_text, words_of};

verus! {

/// The lower-case form of `s`, as `str::to_lowercase` gives it.
pub uninterp spec fn lowercase(s: Seq<char>) -> Seq<char>;

/// `str::to_lowercase` is a function of the text alone; its result goes by
/// the name [`lowercase`].
pub assume_specification[ str::to_lowercase ](s: &str) -> (lower: String)
    ensures
        lower@ == lowercase(s@),
;

/// A command line taken apart.
#[derive(Clone, Debug, PartialEq, Eq)]
pub struct CommandLine {
    /// The program to run: the first word of the line.
    pub program: String,
    /// The arguments to hand to it: the other words, in order.
    pub args: Vec<String>,
}

/// What to answer to a line that holds no command.
pub open spec fn no_command_text() -> Seq<char> {
    "No command entered."@
}

/// What to answer to a line that holds no command.
pub fn no_command() -> (text: String)
    ensures
        text@ == no_command_text(),
{
    "No command entered.".to_owned()
}

/// The words of a command line: those of the line trimmed of white space at
/// either end.
pub open spec fn command_words(line: Seq<char>) -> Seq<Seq<char>> {
    words_of(trimmed(line))
}

/// Splits a command line at white space into the program, which is its
/// first word, and the arguments, which are the others. A line without a
/// word holds no command.
pub fn parse_command(line: &str) -> (command: Option<CommandLine>)
    ensures
        match command {
            Some(c) => {
                &&& command_words(line@).len() > 0
                &&& c.program@ == command_words(line@)[0]
                &&& texts(c.args@) == command_words(line@).drop_first()
            },
            None => command_words(line@).len() == 0,
        },
{
    let mut words = split_words(trim(line));
    if words.len() == 0 {
        return None;
    }
    let ghost all = texts(words@);
    let program = words.remove(0);
    assert(texts(words@) =~= all.drop_first());
    Some(CommandLine { program, args: words })
}

/// The text shown for a finished command: what it wrote to its standard
/// output, a line break, what it wrote to its standard error, and the whole
/// trimmed of white space at either end.
pub fn combine_output(stdout: &str, stderr: &str) -> (shown: String)
    ensures
        shown@ == trimmed(stdout@ + seq!['\n'] + stderr@),
{
    proof {
        reveal_strlit("\n");
    }
    let joined = stdout.to_owned().concat("\n").concat(stderr);
    assert(joined@ =~= stdout@ + seq!['\n'] + stderr@);
    trim(joined.as_str()).to_owned()
}

/// Whether `command` asks to leave: it is the word `exit`, in any case.
pub fn is_exit(command: &str) -> (leave: bool)
    ensures
        leave == (lowercase(command@) == "exit"@),
{
    command.to_lowercase() == "exit".to_owned()
}

/// The entry that the history keeps of a command and what it showed.
pub fn history_record(command: &str, output: &str) -> (record: String)
    ensures
        record@ == "$ "@ + command@ + seq!['\n'] + output@,
{
    proof {
        reveal_strlit("\n");
    }
    let record = "$ ".to_owned().concat(command).concat("\n").concat(output);
    assert(record@ =~= "$ "@ + command@ + seq!['\n'] + output@);
    record
}

/// A line of the history as it is listed: its number, counted from one,
/// then a colon, a space and the line.
pub fn numbered_line(index: usize, line: &str) -> (listed: String)
    ensures
        listed@ == decimal_digits((index + 1) as nat) + ": "@ + line@,
{
    let number = unsigned_text(index as u128 + 1);
    number.concat(": ").concat(line)
}

} // verus!
