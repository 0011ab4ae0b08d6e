//! Messages: the text that travels in a frame, and the label in front of it.

use vstd::prelude::*;
use vstd::string::StringExecFns;

verus! {

/// Text that a frame carries unchanged: none of its characters is the NUL
/// that a padding byte spells.
pub open spec fn is_message(text: Seq<char>) -> bool {
    forall|i: int| 0 <= i < text.len() ==> text[i] != '\0'
}

/// `text` up to its first NUL, or all of it where it holds none.
pub open spec fn until_nul(text: Seq<char>) -> Seq<char>
    decreases text.len(),
{
    if text.len() == 0 || text[0] == '\0' {
        Seq::empty()
    } else {
        seq![text[0]] + until_nul(text.drop_first())
    }
}

/// A message holds no NUL, so all of it stands in front of its first NUL.
pub proof fn lemma_message_until_nul(text: Seq<char>)
    requires
        is_message(text),
    ensures
        until_nul(text) == text,
    decreases text.len(),
{
    if text.len() > 0 {
        let rest = text.drop_first();
        assert forall|i: int| 0 <= i < rest.len() implies rest[i] != '\0' by {
            assert(rest[i] == text[i + 1]);
        }
        lemma_message_until_nul(rest);
        assert(seq![text[0]] + rest =~= text);
    }
}

/// What stands in front of the first NUL is a message.
pub proof fn lemma_until_nul_is_message(text: Seq<char>)
    ensures
        is_message(until_nul(text)),
    decreases text.len(),
{
    if text.len() > 0 && text[0] != '\0' {
        let rest = until_nul(text.drop_first());
        lemma_until_nul_is_message(text.drop_first());
        assert forall|i: int| 0 <= i < until_nul(text).len() implies until_nul(text)[i]
            != '\0' by {
            if i > 0 {
                assert(until_nul(text)[i] == rest[i - 1]);
            }
        }
    }
}

/// What stands between a label and the text behind it: a colon and a space.
pub open spec fn separator() -> Seq<char> {
    seq![':', ' ']
}

/// `text` with `label` and the separator in front of it.
pub open spec fn spec_labelled(label: Seq<char>, text: Seq<char>) -> Seq<char> {
    label + separator() + text
}

/// A message with a label that is a message itself is a message.
pub proof fn lemma_labelled_is_message(label: Seq<char>, text: Seq<char>)
    requires
        is_message(label),
        is_message(text),
    ensures
        is_message(spec_labelled(label, text)),
{
    let whole = spec_labelled(label, text);
    assert forall|i: int| 0 <= i < whole.len() implies whole[i] != '\0' by {
        if i < label.len() {
            assert(whole[i] == label[i]);
        } else if i < label.len() + 2 {
            assert(whole[i] == separator()[i - label.len()]);
        } else {
            assert(whole[i] == text[i - label.len() - 2]);
        }
    }
}

/// Puts `label`, a colon and a space in front of `text`.
pub fn labelled(label: &str, text: &str) -> (message: String)
    ensures
        message@ == spec_labelled(label@, text@),
{
    let mut message = label.to_owned();
    message.append(": ");
    message.append(text);
    proof {
        reveal_strlit(": ");
        assert(": "@ =~= separator());
    }
    message
}

} // verus!
