//! Messages for the user, named by their translation key and filled in with
//! named arguments. Translating and printing them is left to the caller.

use vstd::prelude::*;

verus! {

/// One named argument of a message.
pub struct MessageArg {
    pub name: String,
    pub value: String,
}

/// A translatable message: its key in the translation files and the values
/// of the placeholders it holds.
pub struct Message {
    pub key: String,
    pub args: Vec<MessageArg>,
}

/// Where a line of output goes.
pub enum Stream {
    Stdout,
    Stderr,
}

/// One piece of a line of output: a message to translate, or text as it is.
pub enum LogPart {
    Localized(Message),
    Plain(String),
}

/// A line of output: its pieces, printed one after the other with
/// `separator` between them.
pub struct LogLine {
    pub stream: Stream,
    pub parts: Vec<LogPart>,
    pub separator: char,
}

/// `m` has key `key` and exactly the named arguments `args`, in order.
pub open spec fn message_is(m: Message, key: Seq<char>, args: Seq<(Seq<char>, Seq<char>)>) -> bool {
    &&& m.key@ == key
    &&& m.args@.len() == args.len()
    &&& forall|i: int| 0 <= i < args.len() ==> {
        &&& (#[trigger] m.args@[i]).name@ == args[i].0
        &&& m.args@[i].value@ == args[i].1
    }
}

/// `part` is the message `key` with arguments `args`.
pub open spec fn part_is_message(
    part: LogPart,
    key: Seq<char>,
    args: Seq<(Seq<char>, Seq<char>)>,
) -> bool {
    part matches LogPart::Localized(m) && message_is(m, key, args)
}

/// `part` is the text `text` as it is.
pub open spec fn part_is_plain(part: LogPart, text: Seq<char>) -> bool {
    part matches LogPart::Plain(t) && t@ == text
}

/// `line` goes to standard output and holds only the message `key` with `args`.
pub open spec fn is_stdout_message(
    line: LogLine,
    key: Seq<char>,
    args: Seq<(Seq<char>, Seq<char>)>,
) -> bool {
    &&& line.stream is Stdout
    &&& line.parts@.len() == 1
    &&& part_is_message(line.parts@[0], key, args)
}

/// `line` goes to standard error and holds only the message `key` with `args`.
pub open spec fn is_stderr_message(
    line: LogLine,
    key: Seq<char>,
    args: Seq<(Seq<char>, Seq<char>)>,
) -> bool {
    &&& line.stream is Stderr
    &&& line.parts@.len() == 1
    &&& part_is_message(line.parts@[0], key, args)
}

/// A message without arguments.
pub fn message0(key: &str) -> (m: Message)
    ensures
        message_is(m, key@, seq![]),
{
    Message { key: key.to_owned(), args: Vec::new() }
}

/// A message with one argument.
pub fn message1(key: &str, name1: &str, value1: String) -> (m: Message)
    ensures
        message_is(m, key@, seq![(name1@, value1@)]),
{
    let ghost v1 = value1@;
    let mut args: Vec<MessageArg> = Vec::new();
    args.push(MessageArg { name: name1.to_owned(), value: value1 });
    let m = Message { key: key.to_owned(), args };
    assert(m.args@[0].value@ == v1);
    m
}

/// A message with two arguments.
pub fn message2(key: &str, name1: &str, value1: String, name2: &str, value2: String) -> (m:
    Message)
    ensures
        message_is(m, key@, seq![(name1@, value1@), (name2@, value2@)]),
{
    let ghost v1 = value1@;
    let ghost v2 = value2@;
    let mut args: Vec<MessageArg> = Vec::new();
    args.push(MessageArg { name: name1.to_owned(), value: value1 });
    args.push(MessageArg { name: name2.to_owned(), value: value2 });
    let m = Message { key: key.to_owned(), args };
    assert(m.args@[0].value@ == v1);
    assert(m.args@[1].value@ == v2);
    m
}

/// A message with three arguments.
pub fn message3(
    key: &str,
    name1: &str,
    value1: String,
    name2: &str,
    value2: String,
    name3: &str,
    value3: String,
) -> (m: Message)
    ensures
        message_is(m, key@, seq![(name1@, value1@), (name2@, value2@), (name3@, value3@)]),
{
    let ghost v1 = value1@;
    let ghost v2 = value2@;
    let ghost v3 = value3@;
    let mut args: Vec<MessageArg> = Vec::new();
    args.push(MessageArg { name: name1.to_owned(), value: value1 });
    args.push(MessageArg { name: name2.to_owned(), value: value2 });
    args.push(MessageArg { name: name3.to_owned(), value: value3 });
    let m = Message { key: key.to_owned(), args };
    assert(m.args@[0].value@ == v1);
    assert(m.args@[1].value@ == v2);
    assert(m.args@[2].value@ == v3);
    m
}

/// A line holding one message.
pub fn message_line(stream: Stream, message: Message) -> (line: LogLine)
    ensures
        line.stream == stream,
        line.parts@ == seq![LogPart::Localized(message)],
{
    let mut parts: Vec<LogPart> = Vec::new();
    parts.push(LogPart::Localized(message));
    assert(parts@ =~= seq![LogPart::Localized(message)]);
    LogLine { stream, parts, separator: '\n' }
}

} // verus!
