//! The operator's command line: one command per line, words set apart by
//! white space.

use vstd::prelude::*;
use vstd::string::*;
use crate::text::to_chars;

verus! {

/// Whether a character is white space.
pub open spec fn is_space(c: char) -> bool {
    let code = c as int;
    ||| 0x09 <= code <= 0x0d
    ||| code == 0x20
    ||| code == 0x85
    ||| code == 0xa0
    ||| code == 0x1680
    ||| 0x2000 <= code <= 0x200a
    ||| code == 0x2028
    ||| code == 0x2029
    ||| code == 0x202f
    ||| code == 0x205f
    ||| code == 0x3000
}

/// Tells white space from other characters.
pub fn is_white_space(c: char) -> (yes: bool)
    ensures
        yes == is_space(c),
{
    let code = c as u32;
    (0x09 <= code && code <= 0x0d) || code == 0x20 || code == 0x85 || code == 0xa0 || code
        == 0x1680 || (0x2000 <= code && code <= 0x200a) || code == 0x2028 || code == 0x2029
        || code == 0x202f || code == 0x205f || code == 0x3000
}

/// The word that is being read, if it has a character yet.
pub open spec fn finished(current: Seq<char>) -> Seq<Seq<char>> {
    if current.len() > 0 {
        seq![current]
    } else {
        Seq::empty()
    }
}

/// The words of `rest`, where `current` holds the characters already read
/// of the first word.
pub open spec fn words_from(rest: Seq<char>, current: Seq<char>) -> Seq<Seq<char>>
    decreases rest.len(),
{
    if rest.len() == 0 {
        finished(current)
    } else if is_space(rest[0]) {
        finished(current) + words_from(rest.drop_first(), Seq::empty())
    } else {
        words_from(rest.drop_first(), current.push(rest[0]))
    }
}

/// The words of a line: its longest runs of characters that are not white
/// space, in order.
pub open spec fn words(line: Seq<char>) -> Seq<Seq<char>> {
    words_from(line, Seq::empty())
}

/// A word: at least one character, none of them white space.
pub open spec fn is_word_text(word: Seq<char>) -> bool {
    word.len() > 0 && forall|j: int| 0 <= j < word.len() ==> !is_space(#[trigger] word[j])
}

/// Every member of `found` is a word.
pub open spec fn all_words(found: Seq<Seq<char>>) -> bool {
    forall|i: int| 0 <= i < found.len() ==> is_word_text(#[trigger] found[i])
}

/// Reading on from a word without white space gives words only.
proof fn lemma_words_from(rest: Seq<char>, current: Seq<char>)
    requires
        forall|j: int| 0 <= j < current.len() ==> !is_space(#[trigger] current[j]),
    ensures
        all_words(words_from(rest, current)),
    decreases rest.len(),
{
    let found = words_from(rest, current);
    if rest.len() == 0 {
        assert forall|i: int| 0 <= i < found.len() implies is_word_text(#[trigger] found[i]) by {
            assert(found[i] == current);
        }
    } else if is_space(rest[0]) {
        let tail = words_from(rest.drop_first(), Seq::empty());
        lemma_words_from(rest.drop_first(), Seq::empty());
        assert forall|i: int| 0 <= i < found.len() implies is_word_text(#[trigger] found[i]) by {
            if i < finished(current).len() {
                assert(found[i] == current);
            } else {
                assert(found[i] == tail[i - finished(current).len()]);
            }
        }
    } else {
        let longer = current.push(rest[0]);
        assert forall|j: int| 0 <= j < longer.len() implies !is_space(#[trigger] longer[j]) by {
            if j < current.len() {
                assert(longer[j] == current[j]);
            }
        }
        lemma_words_from(rest.drop_first(), longer);
        assert(found == words_from(rest.drop_first(), longer));
    }
}

/// Every word of a line has a character, and none holds white space.
pub proof fn lemma_words_are_words(line: Seq<char>)
    ensures
        all_words(words(line)),
{
    lemma_words_from(line, Seq::empty());
}

/// The views of a sequence of strings, in order.
pub open spec fn strings_view(strings: Seq<String>) -> Seq<Seq<char>> {
    Seq::new(strings.len(), |i: int| strings[i]@)
}

/// Splits a line into its words.
pub fn split_words(line: &str) -> (found: Vec<String>)
    ensures
        strings_view(found@) == words(line@),
{
    let chars = to_chars(line);
    let mut found: Vec<String> = Vec::new();
    let mut current = String::new();
    let mut i: usize = 0;
    proof {
        assert(chars@.skip(0) =~= chars@);
        assert(strings_view(found@) =~= Seq::<Seq<char>>::empty());
        assert(strings_view(found@) + words_from(chars@, current@) =~= words(line@));
    }
    while i < chars.len()
        invariant
            i <= chars@.len(),
            chars@ == line@,
            words(line@) == strings_view(found@) + words_from(chars@.skip(i as int), current@),
        decreases chars@.len() - i,
    {
        let c = chars[i];
        let ghost rest = chars@.skip(i as int);
        let ghost before = strings_view(found@);
        proof {
            assert(rest[0] == c);
            assert(rest.drop_first() =~= chars@.skip(i + 1));
        }
        if is_white_space(c) {
            if !current.as_str().is_empty() {
                let ghost word = current@;
                found.push(current);
                current = String::new();
                proof {
                    assert(strings_view(found@) =~= before + seq![word]);
                    assert(before + (seq![word] + words_from(rest.drop_first(), Seq::empty()))
                        =~= (before + seq![word]) + words_from(rest.drop_first(), Seq::empty()));
                }
            } else {
                proof {
                    assert(finished(current@) + words_from(rest.drop_first(), Seq::empty())
                        =~= words_from(rest.drop_first(), Seq::empty()));
                    assert(current@ =~= Seq::<char>::empty());
                }
            }
        } else {
            current.push(c);
        }
        i += 1;
    }
    proof {
        assert(chars@.skip(i as int) =~= Seq::<char>::empty());
    }
    if !current.as_str().is_empty() {
        let ghost before = strings_view(found@);
        let ghost word = current@;
        found.push(current);
        proof {
            assert(strings_view(found@) =~= before + seq![word]);
        }
    } else {
        proof {
            assert(strings_view(found@) + Seq::<Seq<char>>::empty() =~= strings_view(found@));
        }
    }
    found
}

/// What the operator asks for.
#[derive(Debug)]
pub enum Command {
    /// A line without a word: nothing to do.
    Empty,
    /// `ls`: show the snapshot.
    List,
    /// `lsd`: show the snapshot in full.
    ListDebug,
    /// `get`: pull the directory now.
    Get,
    /// `clear`: clear the screen.
    Clear,
    /// `exit`: end the process.
    Exit,
    /// `help`: show the commands.
    Help,
    /// `send HOST MSG`: originate a message.
    Send {
        /// The destination, as typed.
        host: String,
        /// The message, one word.
        message: String,
    },
    /// `send` with other than two words after it.
    SendUsage,
    /// `add HOST`: publish this node under the address `HOST`.
    Add {
        /// The address to publish, as typed.
        host: String,
    },
    /// `add` with other than one word after it.
    AddUsage,
    /// `log`: show the delivery log.
    Log,
    /// `logd`: show the delivery log in full.
    LogDebug,
    /// `date`: show the time.
    Date,
    /// `flush`: empty the delivery log.
    Flush,
    /// Any other first word.
    Unknown {
        /// The word.
        name: String,
    },
}

/// What a command is to a specification.
pub enum CommandView {
    Empty,
    List,
    ListDebug,
    Get,
    Clear,
    Exit,
    Help,
    Send { host: Seq<char>, message: Seq<char> },
    SendUsage,
    Add { host: Seq<char> },
    AddUsage,
    Log,
    LogDebug,
    Date,
    Flush,
    Unknown { name: Seq<char> },
}

impl View for Command {
    type V = CommandView;

    open spec fn view(&self) -> CommandView {
        match self {
            Command::Empty => CommandView::Empty,
            Command::List => CommandView::List,
            Command::ListDebug => CommandView::ListDebug,
            Command::Get => CommandView::Get,
            Command::Clear => CommandView::Clear,
            Command::Exit => CommandView::Exit,
            Command::Help => CommandView::Help,
            Command::Send { host, message } => CommandView::Send { host: host@, message: message@ },
            Command::SendUsage => CommandView::SendUsage,
            Command::Add { host } => CommandView::Add { host: host@ },
            Command::AddUsage => CommandView::AddUsage,
            Command::Log => CommandView::Log,
            Command::LogDebug => CommandView::LogDebug,
            Command::Date => CommandView::Date,
            Command::Flush => CommandView::Flush,
            Command::Unknown { name } => CommandView::Unknown { name: name@ },
        }
    }
}

/// The command that a line of these words asks for.
pub open spec fn command_of(words: Seq<Seq<char>>) -> CommandView {
    if words.len() == 0 {
        CommandView::Empty
    } else if words[0] == "ls"@ {
        CommandView::List
    } else if words[0] == "lsd"@ {
        CommandView::ListDebug
    } else if words[0] == "get"@ {
        CommandView::Get
    } else if words[0] == "clear"@ {
        CommandView::Clear
    } else if words[0] == "exit"@ {
        CommandView::Exit
    } else if words[0] == "help"@ {
        CommandView::Help
    } else if words[0] == "send"@ {
        if words.len() == 3 {
            CommandView::Send { host: words[1], message: words[2] }
        } else {
            CommandView::SendUsage
        }
    } else if words[0] == "add"@ {
        if words.len() == 2 {
            CommandView::Add { host: words[1] }
        } else {
            CommandView::AddUsage
        }
    } else if words[0] == "log"@ {
        CommandView::Log
    } else if words[0] == "logd"@ {
        CommandView::LogDebug
    } else if words[0] == "date"@ {
        CommandView::Date
    } else if words[0] == "flush"@ {
        CommandView::Flush
    } else {
        CommandView::Unknown { name: words[0] }
    }
}

/// Whether a word is the given one.
fn is_word(word: &String, wanted: &str) -> (same: bool)
    ensures
        same == (word@ == wanted@),
{
    let wanted = String::from_str(wanted);
    *word == wanted
}

/// Reads the operator's command from a line.
pub fn parse_command(line: &str) -> (command: Command)
    ensures
        command@ == command_of(words(line@)),
{
    let found = split_words(line);
    let ghost w = strings_view(found@);
    if found.len() == 0 {
        return Command::Empty;
    }
    let verb = &found[0];
    assert(verb@ == w[0]);
    if is_word(verb, "ls") {
        Command::List
    } else if is_word(verb, "lsd") {
        Command::ListDebug
    } else if is_word(verb, "get") {
        Command::Get
    } else if is_word(verb, "clear") {
        Command::Clear
    } else if is_word(verb, "exit") {
        Command::Exit
    } else if is_word(verb, "help") {
        Command::Help
    } else if is_word(verb, "send") {
        if found.len() == 3 {
            assert(found@[1]@ == w[1] && found@[2]@ == w[2]);
            Command::Send { host: found[1].clone(), message: found[2].clone() }
        } else {
            Command::SendUsage
        }
    } else if is_word(verb, "add") {
        if found.len() == 2 {
            assert(found@[1]@ == w[1]);
            Command::Add { host: found[1].clone() }
        } else {
            Command::AddUsage
        }
    } else if is_word(verb, "log") {
        Command::Log
    } else if is_word(verb, "logd") {
        Command::LogDebug
    } else if is_word(verb, "date") {
        Command::Date
    } else if is_word(verb, "flush") {
        Command::Flush
    } else {
        Command::Unknown { name: verb.clone() }
    }
}

} // verus!
