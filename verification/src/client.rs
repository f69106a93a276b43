//! The state of a chat client's window.
//!
//! The window shows the lines that came from the server and has one line of
//! input. What the window does with a line from the server and with the
//! input when it is sent is decided here; drawing and the connection are
//! not. Lines reach the window through a channel that the task reading the
//! connection fills.

use crate::text::{texts, trim, trim_end, trimmed, trimmed_end};
use tokio::sync::mpsc::Receiver;
use vstd::prelude::*;

verus! {

/// What a client window holds: the lines shown, oldest first, and the input
/// as typed so far.
pub struct ChatAppView {
    pub messages: Seq<Seq<char>>,
    pub input: Seq<char>,
}

impl ChatAppView {
    /// The window after `line` came from the server: the line is shown last,
    /// without the line end and other whitespace that closed it.
    pub open spec fn receive(self, line: Seq<char>) -> ChatAppView {
        ChatAppView { messages: self.messages.push(trim_end(line)), ..self }
    }

    /// The window after `lines` came from the server, one after the other.
    pub open spec fn receive_all(self, lines: Seq<Seq<char>>) -> ChatAppView
        decreases lines.len(),
    {
        if lines.len() == 0 {
            self
        } else {
            self.receive_all(lines.drop_last()).receive(lines.last())
        }
    }

    /// What sending the input sends: the input without the whitespace around
    /// it, unless nothing is left of it then.
    pub open spec fn outgoing(self) -> Option<Seq<char>> {
        if trim(self.input).len() == 0 {
            None
        } else {
            Some(trim(self.input))
        }
    }

    /// The window after the input was sent: the input is cleared if
    /// something was sent and stays as it is if not.
    pub open spec fn submit(self) -> ChatAppView {
        if self.outgoing() is Some {
            ChatAppView { input: Seq::empty(), ..self }
        } else {
            self
        }
    }
}

/// Whatever is sent has text at both ends, and the lines shown are never
/// touched by sending.
pub proof fn law_sent_text_is_trimmed(window: ChatAppView)
    ensures
        window.submit().messages == window.messages,
        window.outgoing() matches Some(text) ==> text.len() > 0 && trim(text) == text
            && !crate::text::is_space(text.first()) && !crate::text::is_space(text.last()),
{
    crate::text::law_trim_is_idempotent(window.input);
}

/// Lines that come in are added below the lines shown and change nothing
/// else: the lines shown before stay where they are, the input stays as
/// typed, and each new line is shown without whitespace at its end.
pub proof fn law_received_lines_are_appended(window: ChatAppView, lines: Seq<Seq<char>>)
    ensures
        window.receive_all(lines).input == window.input,
        window.receive_all(lines).messages == window.messages + Seq::new(
            lines.len(),
            |i: int| trim_end(lines[i]),
        ),
    decreases lines.len(),
{
    if lines.len() > 0 {
        law_received_lines_are_appended(window, lines.drop_last());
    }
}

/// The receiving half of a bounded channel of tokio.
#[verifier::external_type_specification]
#[verifier::external_body]
#[verifier::reject_recursive_types(T)]
pub struct ExReceiver<T>(tokio::sync::mpsc::Receiver<T>);

/// Calls `Receiver::try_recv` of tokio, which hands out the value that has
/// waited longest in the channel if one waits, and an error if none does or
/// the channel is closed; the error is dropped here. What waits depends on
/// the tasks that send, so nothing is claimed of the result.
#[verifier::external_body]
fn try_next(inbox: &mut Receiver<String>) -> (line: Option<String>) {
    match inbox.try_recv() {
        Ok(line) => Some(line),
        Err(_) => None,
    }
}

/// The state of a chat client's window.
pub struct ChatApp {
    messages: Vec<String>,
    input: String,
}

impl View for ChatApp {
    type V = ChatAppView;

    closed spec fn view(&self) -> ChatAppView {
        ChatAppView { messages: texts(self.messages@), input: self.input@ }
    }
}

impl ChatApp {
    /// A window that shows nothing and has no input.
    pub fn new() -> (window: ChatApp)
        ensures
            window@ == (ChatAppView { messages: Seq::empty(), input: Seq::empty() }),
    {
        let window = ChatApp { messages: Vec::new(), input: String::new() };
        assert(texts(window.messages@) =~= Seq::empty());
        window
    }

    /// The lines shown, oldest first.
    pub fn messages(&self) -> (lines: &Vec<String>)
        ensures
            texts(lines@) == self@.messages,
    {
        &self.messages
    }

    /// The input as typed so far.
    pub fn input(&self) -> (text: &str)
        ensures
            text@ == self@.input,
    {
        self.input.as_str()
    }

    /// Replaces the input by `text`.
    pub fn set_input(&mut self, text: &str)
        ensures
            final(self)@ == (ChatAppView { input: text@, ..old(self)@ }),
    {
        self.input = String::from_str(text);
    }

    /// Shows a line that came from the server.
    pub fn receive(&mut self, line: &str)
        ensures
            final(self)@ == old(self)@.receive(line@),
    {
        self.messages.push(trimmed_end(line));
        assert(texts(self.messages@) =~= texts(old(self).messages@).push(trim_end(line@)));
    }

    /// Shows every line that waits in `inbox`, in the order in which they
    /// come out of it, and returns how many there were. Whatever lines these
    /// are, the window has received them one after the other.
    pub fn absorb(&mut self, inbox: &mut Receiver<String>) -> (count: usize)
        ensures
            exists|lines: Seq<Seq<char>>|
                lines.len() == count && final(self)@ == #[trigger] old(self)@.receive_all(lines),
    {
        let mut count: usize = 0;
        let ghost mut lines: Seq<Seq<char>> = Seq::empty();
        while count < usize::MAX
            invariant
                lines.len() == count,
                self@ == old(self)@.receive_all(lines),
            decreases usize::MAX - count,
        {
            match try_next(inbox) {
                Some(line) => {
                    self.receive(line.as_str());
                    proof {
                        assert(lines.push(line@).drop_last() =~= lines);
                        lines = lines.push(line@);
                    }
                    count = count + 1;
                },
                None => {
                    break;
                },
            }
        }
        count
    }

    /// Sends the input: returns the text to send to the server, if there is
    /// any, and clears the input then.
    pub fn submit(&mut self) -> (outgoing: Option<String>)
        ensures
            final(self)@ == old(self)@.submit(),
            match outgoing {
                Some(text) => old(self)@.outgoing() == Some(text@),
                None => old(self)@.outgoing() is None,
            },
    {
        let text = trimmed(self.input.as_str());
        if text.as_str().unicode_len() == 0 {
            None
        } else {
            self.input = String::new();
            Some(text)
        }
    }
}

} // verus!
