//! The commands of the service and the grammar by which a message is read
//! as one.

use vstd::prelude::*;
use vstd::string::StrSliceExecFns;
use crate::data::ThreadId;
use crate::data::option_text;
use crate::text::characters;
use crate::text::owned;
use crate::text::same_text;

verus! {

/// What a user asks of the service.
#[derive(Debug, Clone, PartialEq, Eq)]
pub enum Command {
    Start,
    Help,
    Users,
    Threads,
    Random { message_id: i32, text: String },
    Send { thread_id: ThreadId, message_id: i32, text: String },
    Reply { message_id: i32, reply_message_id: i32, text: String },
    Close { thread_id: ThreadId },
    Ban { thread_id: ThreadId },
    Unban { thread_id: ThreadId },
    Banlist,
    Stop,
    Broadcast { text: String },
}

/// The mathematical value of a [`Command`].
pub enum CommandView {
    Start,
    Help,
    Users,
    Threads,
    Random { message_id: i32, text: Seq<char> },
    Send { thread_id: Seq<char>, message_id: i32, text: Seq<char> },
    Reply { message_id: i32, reply_message_id: i32, text: Seq<char> },
    Close { thread_id: Seq<char> },
    Ban { thread_id: Seq<char> },
    Unban { thread_id: Seq<char> },
    Banlist,
    Stop,
    Broadcast { text: Seq<char> },
}

impl View for Command {
    type V = CommandView;

    open spec fn view(&self) -> CommandView {
        match *self {
            Command::Start => CommandView::Start,
            Command::Help => CommandView::Help,
            Command::Users => CommandView::Users,
            Command::Threads => CommandView::Threads,
            Command::Random { message_id, text } => CommandView::Random { message_id, text: text@ },
            Command::Send { thread_id, message_id, text } => CommandView::Send {
                thread_id: thread_id@,
                message_id,
                text: text@,
            },
            Command::Reply { message_id, reply_message_id, text } => CommandView::Reply {
                message_id,
                reply_message_id,
                text: text@,
            },
            Command::Close { thread_id } => CommandView::Close { thread_id: thread_id@ },
            Command::Ban { thread_id } => CommandView::Ban { thread_id: thread_id@ },
            Command::Unban { thread_id } => CommandView::Unban { thread_id: thread_id@ },
            Command::Banlist => CommandView::Banlist,
            Command::Stop => CommandView::Stop,
            Command::Broadcast { text } => CommandView::Broadcast { text: text@ },
        }
    }
}

/// What the transport hands over for one message: its own id, its text if it
/// has any, and the id of the message that it replies to, if it is a reply.
#[derive(Debug, Clone, PartialEq, Eq)]
pub struct IncomingMessage {
    pub id: i32,
    pub text: Option<String>,
    pub reply_to_message_id: Option<i32>,
}

/// The mathematical value of an [`IncomingMessage`].
pub struct IncomingMessageView {
    pub id: i32,
    pub text: Option<Seq<char>>,
    pub reply_to_message_id: Option<i32>,
}

impl View for IncomingMessage {
    type V = IncomingMessageView;

    open spec fn view(&self) -> IncomingMessageView {
        IncomingMessageView {
            id: self.id,
            text: option_text(self.text),
            reply_to_message_id: self.reply_to_message_id,
        }
    }
}

/// Why a message is no command.
#[derive(Debug, Clone, PartialEq, Eq)]
pub enum CommandError {
    /// The message has no text.
    NonText,
    /// Nothing stands where a text is needed.
    EmptyMessage,
    /// The first word is no command; it is kept.
    UnknownCommand(String),
    /// `/send` without a receiver.
    NoReceiver,
    /// `/close`, `/ban` or `/unban` without a thread.
    NoThreadId,
}

/// The mathematical value of a [`CommandError`].
pub enum CommandErrorView {
    NonText,
    EmptyMessage,
    UnknownCommand(Seq<char>),
    NoReceiver,
    NoThreadId,
}

impl View for CommandError {
    type V = CommandErrorView;

    open spec fn view(&self) -> CommandErrorView {
        match *self {
            CommandError::NonText => CommandErrorView::NonText,
            CommandError::EmptyMessage => CommandErrorView::EmptyMessage,
            CommandError::UnknownCommand(word) => CommandErrorView::UnknownCommand(word@),
            CommandError::NoReceiver => CommandErrorView::NoReceiver,
            CommandError::NoThreadId => CommandErrorView::NoThreadId,
        }
    }
}

impl CommandErrorView {
    /// The text shown for this error.
    pub open spec fn message(self) -> Seq<char> {
        match self {
            CommandErrorView::NonText => "non-text messages are not supported"@,
            CommandErrorView::EmptyMessage => "empty message"@,
            CommandErrorView::UnknownCommand(word) => "unknown command: "@ + word,
            CommandErrorView::NoReceiver => "no receiver specified"@,
            CommandErrorView::NoThreadId => "no thread id specified"@,
        }
    }
}

impl CommandError {
    /// The text shown for this error.
    pub fn message(&self) -> (text: String)
        ensures
            text@ == self@.message(),
    {
        match self {
            CommandError::NonText => owned("non-text messages are not supported"),
            CommandError::EmptyMessage => owned("empty message"),
            CommandError::UnknownCommand(word) => {
                let mut text = owned("unknown command: ");
                vstd::string::StringExecFns::append(&mut text, word.as_str());
                text
            },
            CommandError::NoReceiver => owned("no receiver specified"),
            CommandError::NoThreadId => owned("no thread id specified"),
        }
    }
}

/// The code point of a character.
pub open spec fn code(c: char) -> int {
    c as u32 as int
}

/// Whether `c` is white space, as Unicode lists it.
pub open spec fn is_whitespace(c: char) -> bool {
    ||| 0x09 <= code(c) <= 0x0d
    ||| code(c) == 0x20
    ||| code(c) == 0x85
    ||| code(c) == 0xa0
    ||| code(c) == 0x1680
    ||| 0x2000 <= code(c) <= 0x200a
    ||| code(c) == 0x2028
    ||| code(c) == 0x2029
    ||| code(c) == 0x202f
    ||| code(c) == 0x205f
    ||| code(c) == 0x3000
}

/// `s` without the white space that it starts with.
pub open spec fn trimmed_start(s: Seq<char>) -> Seq<char>
    decreases s.len(),
{
    if s.len() > 0 && is_whitespace(s[0]) {
        trimmed_start(s.skip(1))
    } else {
        s
    }
}

/// The length of the first word of `s`: what stands before its first space.
pub open spec fn word_len(s: Seq<char>) -> int
    decreases s.len(),
{
    if s.len() == 0 || s[0] == ' ' {
        0
    } else {
        1 + word_len(s.skip(1))
    }
}

/// The first word of `s`.
pub open spec fn first_word(s: Seq<char>) -> Seq<char> {
    s.take(word_len(s))
}

/// What follows the first word of `s` and the space that ends it; `None`
/// where no space follows the word.
pub open spec fn after_word(s: Seq<char>) -> Option<Seq<char>> {
    if word_len(s) < s.len() {
        Some(s.skip(word_len(s) + 1))
    } else {
        None
    }
}

/// The text that follows the first word of `s`; empty where nothing follows.
pub open spec fn text_after_word(s: Seq<char>) -> Seq<char> {
    match after_word(s) {
        Some(rest) => rest,
        None => Seq::<char>::empty(),
    }
}

/// The command that the line `line`, whose white space at the start is gone,
/// stands for in a message with the id `message_id`.
pub open spec fn parse_line(line: Seq<char>, message_id: i32) -> Result<
    CommandView,
    CommandErrorView,
> {
    let head = first_word(line);
    if line.len() == 0 {
        Err(CommandErrorView::EmptyMessage)
    } else if head == "/start"@ {
        Ok(CommandView::Start)
    } else if head == "/help"@ {
        Ok(CommandView::Help)
    } else if head == "/users"@ {
        Ok(CommandView::Users)
    } else if head == "/threads"@ {
        Ok(CommandView::Threads)
    } else if head == "/banlist"@ {
        Ok(CommandView::Banlist)
    } else if head == "/stop"@ {
        Ok(CommandView::Stop)
    } else if head == "/random"@ {
        if text_after_word(line).len() == 0 {
            Err(CommandErrorView::EmptyMessage)
        } else {
            Ok(CommandView::Random { message_id, text: text_after_word(line) })
        }
    } else if head == "/broadcast"@ {
        if text_after_word(line).len() == 0 {
            Err(CommandErrorView::EmptyMessage)
        } else {
            Ok(CommandView::Broadcast { text: text_after_word(line) })
        }
    } else if head == "/send"@ {
        match after_word(line) {
            None => Err(CommandErrorView::NoReceiver),
            Some(rest) => if text_after_word(rest).len() == 0 {
                Err(CommandErrorView::EmptyMessage)
            } else {
                Ok(
                    CommandView::Send {
                        thread_id: first_word(rest),
                        message_id,
                        text: text_after_word(rest),
                    },
                )
            },
        }
    } else if head == "/close"@ {
        match after_word(line) {
            None => Err(CommandErrorView::NoThreadId),
            Some(rest) => Ok(CommandView::Close { thread_id: first_word(rest) }),
        }
    } else if head == "/ban"@ {
        match after_word(line) {
            None => Err(CommandErrorView::NoThreadId),
            Some(rest) => Ok(CommandView::Ban { thread_id: first_word(rest) }),
        }
    } else if head == "/unban"@ {
        match after_word(line) {
            None => Err(CommandErrorView::NoThreadId),
            Some(rest) => Ok(CommandView::Unban { thread_id: first_word(rest) }),
        }
    } else {
        Err(CommandErrorView::UnknownCommand(head))
    }
}

/// The command that a message stands for. A message without text is none. A
/// reply to another message is a `Reply` with its whole text, whatever its
/// first word. Otherwise the first word after the leading white space
/// selects the command.
pub open spec fn parse(message: IncomingMessageView) -> Result<CommandView, CommandErrorView> {
    match message.text {
        None => Err(CommandErrorView::NonText),
        Some(text) => match message.reply_to_message_id {
            Some(reply_message_id) => Ok(
                CommandView::Reply { message_id: message.id, reply_message_id, text },
            ),
            None => parse_line(trimmed_start(text), message.id),
        },
    }
}

/// Whether a result of parsing has the value `expected`.
pub open spec fn parsed_as(
    result: Result<Command, CommandError>,
    expected: Result<CommandView, CommandErrorView>,
) -> bool {
    match result {
        Ok(command) => expected == Ok::<CommandView, CommandErrorView>(command@),
        Err(error) => expected == Err::<CommandView, CommandErrorView>(error@),
    }
}

/// Whether `c` is white space.
pub fn is_whitespace_char(c: char) -> (yes: bool)
    ensures
        yes == is_whitespace(c),
{
    let n: u32 = c as u32;
    (0x09 <= n && n <= 0x0d) || n == 0x20 || n == 0x85 || n == 0xa0 || n == 0x1680 || (0x2000 <= n
        && n <= 0x200a) || n == 0x2028 || n == 0x2029 || n == 0x202f || n == 0x205f || n == 0x3000
}

/// Where `chars` stops being white space.
fn leading_whitespace(chars: &Vec<char>) -> (at: usize)
    ensures
        at <= chars@.len(),
        chars@.skip(at as int) == trimmed_start(chars@),
{
    let mut at: usize = 0;
    assert(chars@.skip(0) =~= chars@);
    while at < chars.len() && is_whitespace_char(chars[at])
        invariant
            at <= chars@.len(),
            trimmed_start(chars@.skip(at as int)) == trimmed_start(chars@),
        decreases chars@.len() - at,
    {
        assert(chars@.skip(at as int).skip(1) =~= chars@.skip(at + 1));
        at = at + 1;
    }
    at
}

/// Where the word that begins at `from` ends.
fn word_end(chars: &Vec<char>, from: usize) -> (at: usize)
    requires
        from <= chars@.len(),
    ensures
        from <= at <= chars@.len(),
        at - from == word_len(chars@.skip(from as int)),
{
    let mut at: usize = from;
    assert(chars@.skip(from as int).skip(0) =~= chars@.skip(from as int));
    while at < chars.len() && chars[at] != ' '
        invariant
            from <= at <= chars@.len(),
            word_len(chars@.skip(from as int)) == (at - from) + word_len(chars@.skip(at as int)),
        decreases chars@.len() - at,
    {
        assert(chars@.skip(at as int).skip(1) =~= chars@.skip(at + 1));
        at = at + 1;
    }
    at
}

/// The part of `text` from `from` to `to`, as a string of its own.
fn cut(text: &str, from: usize, to: usize) -> (piece: String)
    requires
        from <= to <= text@.len(),
    ensures
        piece@ == text@.subrange(from as int, to as int),
{
    owned(text.substring_char(from, to))
}

impl Command {
    /// Reads the command out of a message.
    pub fn try_from(message: &IncomingMessage) -> (result: Result<Command, CommandError>)
        ensures
            parsed_as(result, parse(message@)),
    {
        let text = match &message.text {
            None => {
                return Err(CommandError::NonText);
            },
            Some(text) => text.as_str(),
        };
        if let Some(reply_message_id) = message.reply_to_message_id {
            return Ok(
                Command::Reply { message_id: message.id, reply_message_id, text: owned(text) },
            );
        }
        let chars = characters(text);
        let n = chars.len();
        let start = leading_whitespace(&chars);
        let ghost line = chars@.skip(start as int);
        if start == n {
            return Err(CommandError::EmptyMessage);
        }
        let head_end = word_end(&chars, start);
        let head = cut(text, start, head_end);
        assert(head@ =~= first_word(line));
        // Where the text after the first word begins, if a space ends the word.
        let ghost rest = chars@.skip(head_end + 1);
        proof {
            if head_end < n {
                assert(line.skip(word_len(line) + 1) =~= rest);
            }
        }
        if same_text(head.as_str(), "/start") {
            Ok(Command::Start)
        } else if same_text(head.as_str(), "/help") {
            Ok(Command::Help)
        } else if same_text(head.as_str(), "/users") {
            Ok(Command::Users)
        } else if same_text(head.as_str(), "/threads") {
            Ok(Command::Threads)
        } else if same_text(head.as_str(), "/banlist") {
            Ok(Command::Banlist)
        } else if same_text(head.as_str(), "/stop") {
            Ok(Command::Stop)
        } else if same_text(head.as_str(), "/random") {
            if head_end >= n || head_end + 1 == n {
                Err(CommandError::EmptyMessage)
            } else {
                let body = cut(text, head_end + 1, n);
                assert(body@ =~= rest);
                Ok(Command::Random { message_id: message.id, text: body })
            }
        } else if same_text(head.as_str(), "/broadcast") {
            if head_end >= n || head_end + 1 == n {
                Err(CommandError::EmptyMessage)
            } else {
                let body = cut(text, head_end + 1, n);
                assert(body@ =~= rest);
                Ok(Command::Broadcast { text: body })
            }
        } else if same_text(head.as_str(), "/send") {
            if head_end >= n {
                Err(CommandError::NoReceiver)
            } else {
                let receiver_end = word_end(&chars, head_end + 1);
                proof {
                    if receiver_end < n {
                        assert(rest.skip(word_len(rest) + 1) =~= chars@.skip(receiver_end + 1));
                    }
                }
                if receiver_end >= n || receiver_end + 1 == n {
                    Err(CommandError::EmptyMessage)
                } else {
                    let thread_id = cut(text, head_end + 1, receiver_end);
                    assert(thread_id@ =~= first_word(rest));
                    let body = cut(text, receiver_end + 1, n);
                    assert(body@ =~= text_after_word(rest));
                    Ok(Command::Send { thread_id, message_id: message.id, text: body })
                }
            }
        } else if same_text(head.as_str(), "/close") {
            if head_end >= n {
                Err(CommandError::NoThreadId)
            } else {
                let id_end = word_end(&chars, head_end + 1);
                let thread_id = cut(text, head_end + 1, id_end);
                assert(thread_id@ =~= first_word(rest));
                Ok(Command::Close { thread_id })
            }
        } else if same_text(head.as_str(), "/ban") {
            if head_end >= n {
                Err(CommandError::NoThreadId)
            } else {
                let id_end = word_end(&chars, head_end + 1);
                let thread_id = cut(text, head_end + 1, id_end);
                assert(thread_id@ =~= first_word(rest));
                Ok(Command::Ban { thread_id })
            }
        } else if same_text(head.as_str(), "/unban") {
            if head_end >= n {
                Err(CommandError::NoThreadId)
            } else {
                let id_end = word_end(&chars, head_end + 1);
                let thread_id = cut(text, head_end + 1, id_end);
                assert(thread_id@ =~= first_word(rest));
                Ok(Command::Unban { thread_id })
            }
        } else {
            Err(CommandError::UnknownCommand(head))
        }
    }
}

} // verus!
