//! The command router: from a chat message to a command and its argument text.
//!
//! A message is a command when it begins with the configured prefix and the word that
//! follows the prefix is the name of a command. Prefix and name are matched without
//! regard to ASCII case. Every other message is none of the bot's business.

use crate::content::Category;
use crate::sign::same_chars;
use crate::text::{
    chars_of, first_word, fold_range, folded, has_prefix, is_space, lemma_first_word_is_prefix,
    lemma_first_word_of, lower, starts_with_folded, word_end,
};
use vstd::prelude::*;

verus! {

/// What the bot can be asked to do.
#[derive(Clone, Copy, Debug, PartialEq, Eq, Structural)]
pub enum Command {
    /// Show the help text.
    Help,
    /// Tell the user their sign.
    ShowSign,
    /// Put the sign named in the argument on record for the user.
    SetSign,
    /// Show the content of a category for the sign of the user.
    Content(Category),
    /// Forget the sign of the user.
    DeleteMe,
    /// Answer with a fixed word.
    Ping,
    /// Answer with a fixed word.
    Uwu,
}

/// How many command names there are.
pub const COMMAND_COUNT: usize = 9;

impl Command {
    /// The name by which the command is called.
    pub open spec fn word_view(self) -> Seq<char> {
        match self {
            Command::Help => "help"@,
            Command::ShowSign => "sign"@,
            Command::SetSign => "set"@,
            Command::Content(category) => category.word_view(),
            Command::DeleteMe => "deleteme"@,
            Command::Ping => "ping"@,
            Command::Uwu => "uwu"@,
        }
    }

    /// The position of the command in the command table, from 0.
    pub open spec fn index_view(self) -> nat {
        match self {
            Command::Help => 0,
            Command::ShowSign => 1,
            Command::SetSign => 2,
            Command::Content(Category::Car) => 3,
            Command::Content(Category::Track) => 4,
            Command::Content(Category::Monthly) => 5,
            Command::DeleteMe => 6,
            Command::Ping => 7,
            Command::Uwu => 8,
        }
    }

    /// The command at position `i` of the command table; positions past the end give the
    /// last command.
    pub open spec fn at_view(i: nat) -> Command {
        if i == 0 {
            Command::Help
        } else if i == 1 {
            Command::ShowSign
        } else if i == 2 {
            Command::SetSign
        } else if i == 3 {
            Command::Content(Category::Car)
        } else if i == 4 {
            Command::Content(Category::Track)
        } else if i == 5 {
            Command::Content(Category::Monthly)
        } else if i == 6 {
            Command::DeleteMe
        } else if i == 7 {
            Command::Ping
        } else {
            Command::Uwu
        }
    }

    /// The command whose name is exactly `key`, if there is one.
    pub open spec fn named(key: Seq<char>) -> Option<Command> {
        if exists|c: Command| #[trigger] c.word_view() == key {
            Some(choose|c: Command| #[trigger] c.word_view() == key)
        } else {
            None
        }
    }

    /// The name by which the command is called.
    pub fn word(self) -> (r: &'static str)
        ensures
            r@ == self.word_view(),
    {
        match self {
            Command::Help => "help",
            Command::ShowSign => "sign",
            Command::SetSign => "set",
            Command::Content(category) => category.word(),
            Command::DeleteMe => "deleteme",
            Command::Ping => "ping",
            Command::Uwu => "uwu",
        }
    }

    /// The command at position `i` of the command table.
    pub fn at(i: usize) -> (r: Option<Command>)
        ensures
            i < COMMAND_COUNT ==> r == Some(Command::at_view(i as nat)),
            i >= COMMAND_COUNT ==> r is None,
            r matches Some(c) ==> c.index_view() == i,
    {
        if i == 0 {
            Some(Command::Help)
        } else if i == 1 {
            Some(Command::ShowSign)
        } else if i == 2 {
            Some(Command::SetSign)
        } else if i == 3 {
            Some(Command::Content(Category::Car))
        } else if i == 4 {
            Some(Command::Content(Category::Track))
        } else if i == 5 {
            Some(Command::Content(Category::Monthly))
        } else if i == 6 {
            Some(Command::DeleteMe)
        } else if i == 7 {
            Some(Command::Ping)
        } else if i == 8 {
            Some(Command::Uwu)
        } else {
            None
        }
    }
}

/// No two commands share a name.
pub proof fn lemma_words_distinct(a: Command, b: Command)
    ensures
        a.word_view() == b.word_view() <==> a == b,
{
    reveal_strlit("help");
    reveal_strlit("sign");
    reveal_strlit("set");
    reveal_strlit("car");
    reveal_strlit("track");
    reveal_strlit("monthly");
    reveal_strlit("deleteme");
    reveal_strlit("ping");
    reveal_strlit("uwu");
    if a != b && a.word_view() == b.word_view() {
        assert(a.word_view().len() == b.word_view().len());
        assert(a.word_view()[0] == b.word_view()[0]);
        assert(a.word_view()[1] == b.word_view()[1]);
    }
}

/// `named` finds exactly the command whose name the key is.
pub proof fn lemma_command_named_iff(key: Seq<char>, c: Command)
    ensures
        Command::named(key) == Some(c) <==> key == c.word_view(),
{
    if key == c.word_view() {
        let t = choose|t: Command| #[trigger] t.word_view() == key;
        lemma_words_distinct(t, c);
    }
    if Command::named(key) == Some(c) {
        let t = choose|t: Command| #[trigger] t.word_view() == key;
        assert(t == c);
    }
}

/// The command whose name is exactly the text in `key`.
pub fn find_command(key: &Vec<char>) -> (r: Option<Command>)
    ensures
        r == Command::named(key@),
{
    let mut i: usize = 0;
    while i < COMMAND_COUNT
        invariant
            i <= COMMAND_COUNT,
            forall|j: nat| j < i ==> (#[trigger] Command::at_view(j)).word_view() != key@,
        decreases COMMAND_COUNT - i,
    {
        match Command::at(i) {
            Some(command) => {
                let word = chars_of(command.word());
                if same_chars(key, &word) {
                    proof {
                        lemma_command_named_iff(key@, command);
                    }
                    return Some(command);
                }
            },
            None => {},
        }
        i += 1;
    }
    proof {
        assert forall|c: Command| #[trigger] c.word_view() != key@ by {
            assert(Command::at_view(c.index_view()) == c);
        }
    }
    None
}

/// A command together with its argument: the text that followed the name of the command
/// and the one whitespace character that ended it, as it was typed.
#[derive(Clone, Debug, PartialEq, Eq)]
pub struct Invocation {
    pub command: Command,
    pub rest: String,
}

/// The mathematical form of an [`Invocation`].
pub struct InvocationView {
    pub command: Command,
    pub rest: Seq<char>,
}

impl View for Invocation {
    type V = InvocationView;

    open spec fn view(&self) -> InvocationView {
        InvocationView { command: self.command, rest: self.rest@ }
    }
}

/// The argument in `tail`, the text that follows the name of a command: all of it but the
/// one whitespace character that ended the name.
pub open spec fn argument(tail: Seq<char>) -> Seq<char> {
    if tail.len() > 0 {
        tail.skip(1)
    } else {
        tail
    }
}

/// What the message `raw` asks for under `prefix`: the command named by the first word
/// after the prefix, with the text after that word as its argument, untouched; or nothing,
/// where the message lacks the prefix or the word names no command.
pub open spec fn parsed(prefix: Seq<char>, raw: Seq<char>) -> Option<InvocationView> {
    if has_prefix(raw, prefix) {
        let body = raw.skip(prefix.len() as int);
        let word = first_word(body);
        match Command::named(folded(word)) {
            Some(command) => Some(
                InvocationView { command, rest: argument(body.skip(word.len() as int)) },
            ),
            None => None,
        }
    } else {
        None
    }
}

/// The router: it knows the prefix that marks a message as a command.
#[derive(Debug)]
pub struct Router {
    pub prefix: String,
}

impl Router {
    /// A router for the prefix given.
    pub fn new(prefix: String) -> (router: Router)
        ensures
            router.prefix@ == prefix@,
    {
        Router { prefix }
    }

    /// Splits a message into command and argument text.
    ///
    /// Gives nothing for a message without the prefix and for one whose first word names no
    /// command. The argument is handed on as it was typed, whitespace and case included.
    pub fn parse(&self, raw: &str) -> (r: Option<Invocation>)
        ensures
            match r {
                Some(invocation) => parsed(self.prefix@, raw@) == Some(invocation@),
                None => parsed(self.prefix@, raw@) is None,
            },
    {
        let chars = chars_of(raw);
        let prefix = chars_of(self.prefix.as_str());
        if !starts_with_folded(&chars, &prefix) {
            return None;
        }
        let from = prefix.len();
        let end = word_end(&chars, from);
        let key = fold_range(&chars, from, end);
        let ghost body = raw@.skip(from as int);
        let ghost word = first_word(body);
        proof {
            lemma_first_word_is_prefix(body);
            assert(chars@.subrange(from as int, end as int).len() == word.len());
        }
        match find_command(&key) {
            Some(command) => {
                let start = if end < chars.len() {
                    end + 1
                } else {
                    end
                };
                let rest = raw.substring_char(start, chars.len());
                proof {
                    let tail = body.skip(word.len() as int);
                    assert(tail =~= raw@.skip(end as int));
                    assert(rest@ =~= argument(tail));
                }
                Some(Invocation { command, rest: rest.to_owned() })
            },
            None => None,
        }
    }
}

/// Every command name is a non-empty run of the letters `a..=z`.
pub proof fn lemma_words_are_lowercase(c: Command)
    ensures
        c.word_view().len() > 0,
        forall|i: int| 0 <= i < c.word_view().len() ==> 'a' <= #[trigger] c.word_view()[i] <= 'z',
{
    reveal_strlit("help");
    reveal_strlit("sign");
    reveal_strlit("set");
    reveal_strlit("car");
    reveal_strlit("track");
    reveal_strlit("monthly");
    reveal_strlit("deleteme");
    reveal_strlit("ping");
    reveal_strlit("uwu");
}

/// Every spelling of a call is understood: take the prefix, then any text `word` that equals
/// the name of a command up to ASCII case, then nothing or one whitespace character and an
/// argument; the message parses to that command with the argument as it stands.
pub proof fn lemma_call_is_parsed(
    prefix: Seq<char>,
    word: Seq<char>,
    rest: Seq<char>,
    command: Command,
)
    requires
        folded(word) == command.word_view(),
        rest.len() > 0 ==> is_space(rest[0]),
    ensures
        parsed(prefix, prefix + word + rest) == Some(
            InvocationView { command, rest: argument(rest) },
        ),
{
    let raw = prefix + word + rest;
    assert(raw.take(prefix.len() as int) =~= prefix);
    assert(raw.skip(prefix.len() as int) =~= word + rest);
    lemma_words_are_lowercase(command);
    assert forall|i: int| 0 <= i < word.len() implies !is_space(#[trigger] word[i]) by {
        assert(command.word_view()[i] == lower(word[i]));
    }
    lemma_first_word_of(word, rest);
    assert((word + rest).skip(word.len() as int) =~= rest);
    lemma_command_named_iff(folded(word), command);
}

} // verus!
