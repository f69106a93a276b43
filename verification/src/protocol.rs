//! The wire protocol: what a client line means and what the server writes.
//!
//! A line is dispatched by its prefix. `/name ` and `/join ` take the rest of
//! the line as their argument, unchanged; `/quit` matches as a prefix; the
//! empty line means nothing; every other line is chat. Lines that the server
//! writes on its own account start with `* `, chat starts with `(`.

use vstd::prelude::*;

verus! {

/// A client line, understood. The view of a command.
pub enum CommandView {
    Rename(Seq<char>),
    Join(Seq<char>),
    Quit,
    Say(Seq<char>),
    Nothing,
}

/// A client line, understood.
#[derive(Debug, PartialEq, Eq)]
pub enum Command {
    /// `/name <newname>`: take `newname` as display name.
    Rename(String),
    /// `/join <room>`: move to `room`.
    Join(String),
    /// `/quit`: leave.
    Quit,
    /// Any other non-empty line: chat for the current room.
    Say(String),
    /// The empty line.
    Nothing,
}

impl View for Command {
    type V = CommandView;

    open spec fn view(&self) -> CommandView {
        match *self {
            Command::Rename(name) => CommandView::Rename(name@),
            Command::Join(room) => CommandView::Join(room@),
            Command::Quit => CommandView::Quit,
            Command::Say(text) => CommandView::Say(text@),
            Command::Nothing => CommandView::Nothing,
        }
    }
}

/// The room every session starts in.
pub open spec fn default_room() -> Seq<char> {
    "main"@
}

/// The meaning of `line`.
pub open spec fn parse(line: Seq<char>) -> CommandView {
    if "/name "@.is_prefix_of(line) {
        CommandView::Rename(line.skip("/name "@.len() as int))
    } else if "/join "@.is_prefix_of(line) {
        CommandView::Join(line.skip("/join "@.len() as int))
    } else if "/quit"@.is_prefix_of(line) {
        CommandView::Quit
    } else if line.len() == 0 {
        CommandView::Nothing
    } else {
        CommandView::Say(line)
    }
}

/// Chat as it is relayed: the text tagged with its author's name.
pub open spec fn chat_line(name: Seq<char>, text: Seq<char>) -> Seq<char> {
    "("@ + name + "): "@ + text
}

/// Told to a client once it is admitted under `name`.
pub open spec fn notice_assigned(name: Seq<char>) -> Seq<char> {
    "* you are "@ + name
}

/// Told to a client whose rename to `name` succeeded.
pub open spec fn notice_renamed(name: Seq<char>) -> Seq<char> {
    "* you are now "@ + name
}

/// Told to a client that asked for a `name` somebody holds.
pub open spec fn notice_name_taken(name: Seq<char>) -> Seq<char> {
    "* name "@ + name + " is taken"@
}

/// Told to a client that asked to join the `room` it is in.
pub open spec fn notice_already_in(room: Seq<char>) -> Seq<char> {
    "* you are already in "@ + room
}

/// Told to a subscriber that fell behind and lost messages.
pub open spec fn notice_missed() -> Seq<char> {
    "* some messages were dropped"@
}

/// Published to a room that `name` enters.
pub open spec fn announce_joined(name: Seq<char>, room: Seq<char>) -> Seq<char> {
    "* "@ + name + " joined "@ + room
}

/// Published to a room that `name` leaves.
pub open spec fn announce_left(name: Seq<char>, room: Seq<char>) -> Seq<char> {
    "* "@ + name + " left "@ + room
}

/// Published to the room of a session that changed its name.
pub open spec fn announce_renamed(before: Seq<char>, after: Seq<char>) -> Seq<char> {
    "* "@ + before + " is now "@ + after
}

/// `/name ` in front of any text is a rename to exactly that text.
pub proof fn law_parse_rename(name: Seq<char>)
    ensures
        parse("/name "@ + name) == CommandView::Rename(name),
{
    assert(("/name "@ + name).skip("/name "@.len() as int) =~= name);
}

/// `/join ` in front of any text is a join of exactly that room.
pub proof fn law_parse_join(room: Seq<char>)
    ensures
        parse("/join "@ + room) == CommandView::Join(room),
{
    reveal_strlit("/name ");
    reveal_strlit("/join ");
    assert("/name "@[1] == 'n');
    assert(("/join "@ + room).skip("/join "@.len() as int) =~= room);
}

/// `/quit` in front of any text is a quit.
pub proof fn law_parse_quit(rest: Seq<char>)
    ensures
        parse("/quit"@ + rest) == CommandView::Quit,
{
    reveal_strlit("/name ");
    reveal_strlit("/join ");
    reveal_strlit("/quit");
    assert("/name "@[1] == 'n');
    assert("/join "@[1] == 'j');
}

/// A line that is not empty and does not start with `/` is chat, whole.
pub proof fn law_parse_chat(line: Seq<char>)
    requires
        line.len() > 0,
        line[0] != '/',
    ensures
        parse(line) == CommandView::Say(line),
{
    reveal_strlit("/name ");
    reveal_strlit("/join ");
    reveal_strlit("/quit");
    assert("/name "@[0] == '/');
    assert("/join "@[0] == '/');
    assert("/quit"@[0] == '/');
}

/// Chat and the server's own lines cannot be mistaken for one another: chat
/// starts with `(`, every notice and announcement with `*`.
pub proof fn law_chat_is_marked(name: Seq<char>, text: Seq<char>, room: Seq<char>)
    ensures
        chat_line(name, text)[0] == '(',
        notice_assigned(name)[0] == '*',
        notice_renamed(name)[0] == '*',
        notice_name_taken(name)[0] == '*',
        notice_already_in(room)[0] == '*',
        notice_missed()[0] == '*',
        announce_joined(name, room)[0] == '*',
        announce_left(name, room)[0] == '*',
        announce_renamed(name, text)[0] == '*',
{
    reveal_strlit("(");
    reveal_strlit("* you are ");
    reveal_strlit("* you are now ");
    reveal_strlit("* name ");
    reveal_strlit("* you are already in ");
    reveal_strlit("* some messages were dropped");
    reveal_strlit("* ");
}

/// Splits `prefix` off the front of `line`: the rest, or nothing when `line`
/// does not start with `prefix`.
pub fn strip_prefix(line: &str, prefix: &str) -> (rest: Option<String>)
    ensures
        match rest {
            Some(tail) => prefix@.is_prefix_of(line@) && tail@ == line@.skip(prefix@.len() as int),
            None => !prefix@.is_prefix_of(line@),
        },
{
    let total: usize = line.unicode_len();
    let width: usize = prefix.unicode_len();
    if total < width {
        return None;
    }
    let mut at: usize = 0;
    while at < width
        invariant
            at <= width <= total,
            total == line@.len(),
            width == prefix@.len(),
            forall|i: int| 0 <= i < at ==> line@[i] == prefix@[i],
        decreases width - at,
    {
        if line.get_char(at) != prefix.get_char(at) {
            return None;
        }
        at = at + 1;
    }
    let tail = line.substring_char(width, total);
    Some(String::from_str(tail))
}

/// Reads one client line.
pub fn parse_line(line: &str) -> (command: Command)
    ensures
        command@ == parse(line@),
{
    match strip_prefix(line, "/name ") {
        Some(name) => {
            return Command::Rename(name);
        },
        None => {},
    }
    match strip_prefix(line, "/join ") {
        Some(room) => {
            return Command::Join(room);
        },
        None => {},
    }
    match strip_prefix(line, "/quit") {
        Some(_) => {
            return Command::Quit;
        },
        None => {},
    }
    if line.unicode_len() == 0 {
        Command::Nothing
    } else {
        Command::Say(String::from_str(line))
    }
}

/// The name of the room every session starts in.
pub fn default_room_name() -> (room: String)
    ensures
        room@ == default_room(),
{
    String::from_str("main")
}

/// Tags `text` with its author's `name`.
pub fn format_chat(name: &str, text: &str) -> (line: String)
    ensures
        line@ == chat_line(name@, text@),
{
    let mut line = String::from_str("(");
    line.append(name);
    line.append("): ");
    line.append(text);
    line
}

/// The line that tells a client its name on admission.
pub fn format_assigned(name: &str) -> (line: String)
    ensures
        line@ == notice_assigned(name@),
{
    let mut line = String::from_str("* you are ");
    line.append(name);
    line
}

/// The line that confirms a rename.
pub fn format_renamed(name: &str) -> (line: String)
    ensures
        line@ == notice_renamed(name@),
{
    let mut line = String::from_str("* you are now ");
    line.append(name);
    line
}

/// The line that rejects a name somebody holds.
pub fn format_name_taken(name: &str) -> (line: String)
    ensures
        line@ == notice_name_taken(name@),
{
    let mut line = String::from_str("* name ");
    line.append(name);
    line.append(" is taken");
    line
}

/// The line that answers a join of the current room.
pub fn format_already_in(room: &str) -> (line: String)
    ensures
        line@ == notice_already_in(room@),
{
    let mut line = String::from_str("* you are already in ");
    line.append(room);
    line
}

/// The line that tells a subscriber it lost messages.
pub fn format_missed() -> (line: String)
    ensures
        line@ == notice_missed(),
{
    String::from_str("* some messages were dropped")
}

/// The announcement of an arrival.
pub fn format_joined(name: &str, room: &str) -> (line: String)
    ensures
        line@ == announce_joined(name@, room@),
{
    let mut line = String::from_str("* ");
    line.append(name);
    line.append(" joined ");
    line.append(room);
    line
}

/// The announcement of a departure.
pub fn format_left(name: &str, room: &str) -> (line: String)
    ensures
        line@ == announce_left(name@, room@),
{
    let mut line = String::from_str("* ");
    line.append(name);
    line.append(" left ");
    line.append(room);
    line
}

/// The announcement of a rename.
pub fn format_rename_announcement(before: &str, after: &str) -> (line: String)
    ensures
        line@ == announce_renamed(before@, after@),
{
    let mut line = String::from_str("* ");
    line.append(before);
    line.append(" is now ");
    line.append(after);
    line
}

} // verus!
