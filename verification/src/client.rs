//! The interactive client: what becomes of each line that the user types.
//!
//! A line is stripped of the white space around it and gets the user's name
//! in front. The result is either the user's word to leave or a message for
//! the server. It is the word to leave where `:quit` or `:q` occurs anywhere
//! in it, the name included.

use vstd::prelude::*;
use crate::channel::{ChannelView, RelayChannel};
use crate::message::{labelled, spec_labelled};

verus! {

/// Whether `c` is white space: a character with the Unicode property
/// White_Space.
pub open spec fn is_white_space(c: char) -> bool {
    ||| '\u{9}' <= c <= '\u{d}'
    ||| c == ' '
    ||| c == '\u{85}'
    ||| c == '\u{a0}'
    ||| c == '\u{1680}'
    ||| '\u{2000}' <= c <= '\u{200a}'
    ||| c == '\u{2028}'
    ||| c == '\u{2029}'
    ||| c == '\u{202f}'
    ||| c == '\u{205f}'
    ||| c == '\u{3000}'
}

/// `text` from its first character on that is not white space.
pub open spec fn without_leading_space(text: Seq<char>) -> Seq<char>
    decreases text.len(),
{
    if text.len() > 0 && is_white_space(text[0]) {
        without_leading_space(text.drop_first())
    } else {
        text
    }
}

/// `text` up to its last character that is not white space.
pub open spec fn without_trailing_space(text: Seq<char>) -> Seq<char>
    decreases text.len(),
{
    if text.len() > 0 && is_white_space(text.last()) {
        without_trailing_space(text.drop_last())
    } else {
        text
    }
}

/// `text` without the white space in front of it and behind it.
pub open spec fn trimmed(text: Seq<char>) -> Seq<char> {
    without_trailing_space(without_leading_space(text))
}

/// Taking leading white space away cuts the text at the first character that
/// is not white space.
proof fn lemma_leading_cut(text: Seq<char>) -> (from: int)
    ensures
        0 <= from <= text.len(),
        without_leading_space(text) == text.skip(from),
        forall|i: int| 0 <= i < from ==> is_white_space(text[i]),
        from < text.len() ==> !is_white_space(text[from]),
    decreases text.len(),
{
    if text.len() > 0 && is_white_space(text[0]) {
        let rest = text.drop_first();
        let from = lemma_leading_cut(rest);
        assert(rest.skip(from) =~= text.skip(from + 1));
        assert forall|i: int| 0 <= i < from + 1 implies is_white_space(text[i]) by {
            if i > 0 {
                assert(text[i] == rest[i - 1]);
            }
        }
        assert(from < rest.len() ==> text[from + 1] == rest[from]);
        from + 1
    } else {
        assert(text.skip(0) =~= text);
        0
    }
}

/// Taking trailing white space away cuts the text behind the last character
/// that is not white space.
proof fn lemma_trailing_cut(text: Seq<char>) -> (to: int)
    ensures
        0 <= to <= text.len(),
        without_trailing_space(text) == text.take(to),
        forall|i: int| to <= i < text.len() ==> is_white_space(text[i]),
        0 < to ==> !is_white_space(text[to - 1]),
    decreases text.len(),
{
    if text.len() > 0 && is_white_space(text.last()) {
        let front = text.drop_last();
        let to = lemma_trailing_cut(front);
        assert(front.take(to) =~= text.take(to));
        assert forall|i: int| to <= i < text.len() implies is_white_space(text[i]) by {
            if i < front.len() {
                assert(text[i] == front[i]);
            }
        }
        assert(0 < to ==> text[to - 1] == front[to - 1]);
        to
    } else {
        assert(text.take(text.len() as int) =~= text);
        text.len() as int
    }
}

/// What trimming leaves is one contiguous part of the text, with nothing but
/// white space in front of it and behind it, and with no white space at its
/// own start or end.
pub proof fn lemma_trimmed_is_the_inner_part(text: Seq<char>) -> (bounds: (int, int))
    ensures
        0 <= bounds.0 <= bounds.1 <= text.len(),
        trimmed(text) == text.subrange(bounds.0, bounds.1),
        forall|i: int| 0 <= i < bounds.0 ==> is_white_space(text[i]),
        forall|i: int| bounds.1 <= i < text.len() ==> is_white_space(text[i]),
        trimmed(text).len() > 0 ==> !is_white_space(trimmed(text).first()) && !is_white_space(
            trimmed(text).last(),
        ),
{
    let from = lemma_leading_cut(text);
    let inner = text.skip(from);
    let to = lemma_trailing_cut(inner);
    assert(inner.take(to) =~= text.subrange(from, from + to));
    assert forall|i: int| from + to <= i < text.len() implies is_white_space(text[i]) by {
        assert(text[i] == inner[i - from]);
    }
    if to > 0 {
        assert(trimmed(text).first() == text[from]);
        assert(trimmed(text).last() == inner[to - 1]);
    }
    (from, from + to)
}

/// Whether `needle` stands somewhere in `text`, character for character.
pub open spec fn occurs_in(needle: Seq<char>, text: Seq<char>) -> bool {
    exists|start: int|
        0 <= start && start + needle.len() <= text.len() && #[trigger] text.subrange(
            start,
            start + needle.len(),
        ) == needle
}

/// The long form of the word to leave.
pub open spec fn quit_word() -> Seq<char> {
    seq![':', 'q', 'u', 'i', 't']
}

/// The short form of the word to leave.
pub open spec fn quit_short() -> Seq<char> {
    seq![':', 'q']
}

/// Whether `message` is the user's word to leave.
pub open spec fn spec_is_quit(message: Seq<char>) -> bool {
    occurs_in(quit_word(), message) || occurs_in(quit_short(), message)
}

/// What `name` sends for the typed `line`.
pub open spec fn spec_compose(name: Seq<char>, line: Seq<char>) -> Seq<char> {
    spec_labelled(name, trimmed(line))
}

/// `str::trim` returns the part of the string that is left when the white
/// space at its start and at its end is taken away, where white space is
/// what Unicode gives the property White_Space.
#[verifier::external_body]
fn trim(text: &str) -> (inner: &str)
    ensures
        inner@ == trimmed(text@),
{
    text.trim()
}

/// `str::contains` with a string as the pattern says whether the pattern
/// occurs in the string as a contiguous part of it.
#[verifier::external_body]
fn contains(text: &str, needle: &str) -> (found: bool)
    ensures
        found == occurs_in(needle@, text@),
{
    text.contains(needle)
}

/// What is to be done with a typed line.
#[derive(Debug, PartialEq, Eq)]
pub enum ClientAction {
    /// Send this message.
    Send(String),
    /// Leave, and send nothing.
    Quit,
}

/// A `ClientAction`, with the message as a sequence of characters.
pub enum ClientActionView {
    Send(Seq<char>),
    Quit,
}

impl View for ClientAction {
    type V = ClientActionView;

    open spec fn view(&self) -> ClientActionView {
        match self {
            ClientAction::Send(text) => ClientActionView::Send(text@),
            ClientAction::Quit => ClientActionView::Quit,
        }
    }
}

/// What is to be done with `line`, typed by `name`.
pub open spec fn spec_line_action(name: Seq<char>, line: Seq<char>) -> ClientActionView {
    if spec_is_quit(spec_compose(name, line)) {
        ClientActionView::Quit
    } else {
        ClientActionView::Send(spec_compose(name, line))
    }
}

/// Whether the loop that reads the user's lines goes on.
#[derive(Clone, Copy, Debug, PartialEq, Eq, Structural)]
pub enum Control {
    /// Read the next line.
    Continue,
    /// Leave the loop.
    Exit,
}

/// Whether the loop goes on after `line`, typed by `name`, with the channel
/// to the writer in state `channel`.
pub open spec fn spec_submit(name: Seq<char>, line: Seq<char>, channel: ChannelView) -> Control {
    if spec_is_quit(spec_compose(name, line)) || channel.closed {
        Control::Exit
    } else {
        Control::Continue
    }
}

/// The channel to the writer after `line`, typed by `name`.
pub open spec fn spec_submit_channel(
    name: Seq<char>,
    line: Seq<char>,
    channel: ChannelView,
) -> ChannelView {
    if spec_is_quit(spec_compose(name, line)) {
        channel
    } else {
        channel.enqueue(spec_compose(name, line))
    }
}

/// Makes the message that `name` sends for the typed `line`: the name, a
/// colon, a space, and the line without the white space around it.
pub fn compose(name: &str, line: &str) -> (message: String)
    ensures
        message@ == spec_compose(name@, line@),
{
    labelled(name, trim(line))
}

/// Whether `message` is the user's word to leave: whether `:quit` or `:q`
/// occurs in it.
pub fn is_quit(message: &str) -> (quit: bool)
    ensures
        quit == spec_is_quit(message@),
{
    proof {
        reveal_strlit(":quit");
        reveal_strlit(":q");
        assert(":quit"@ =~= quit_word());
        assert(":q"@ =~= quit_short());
    }
    contains(message, ":quit") || contains(message, ":q")
}

/// Decides what to do with `line`, typed by `name`.
pub fn line_action(name: &str, line: &str) -> (action: ClientAction)
    ensures
        action@ == spec_line_action(name@, line@),
{
    let message = compose(name, line);
    if is_quit(message.as_str()) {
        ClientAction::Quit
    } else {
        ClientAction::Send(message)
    }
}

/// Takes one typed line and hands the message that it makes to the writer.
///
/// The loop is to end on the word to leave, with nothing handed on, and
/// where the channel to the writer is closed. Otherwise the message stands
/// at the end of the channel and the loop goes on.
pub fn submit(name: &str, line: &str, channel: &mut RelayChannel) -> (control: Control)
    ensures
        control == spec_submit(name@, line@, old(channel)@),
        final(channel)@ == spec_submit_channel(name@, line@, old(channel)@),
{
    match line_action(name, line) {
        ClientAction::Quit => Control::Exit,
        ClientAction::Send(message) => match channel.enqueue(message) {
            Ok(_) => Control::Continue,
            Err(_) => Control::Exit,
        },
    }
}

} // verus!
