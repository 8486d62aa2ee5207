//! The texts of the wire protocol: the fixed lines the server sends, the
//! line a broadcast carries, and the cleanup of what a client sent.

use vstd::prelude::*;

verus! {

/// What the server writes to a fresh connection before it reads the name.
pub const PROMPT: &'static str = "Enter your name: ";

/// What the server writes to a client once it is registered.
pub const WELCOME: &'static str = "Welcome to the chat!\n";

/// The text that lossy UTF-8 decoding makes of `bytes`: the characters the
/// bytes encode, with U+FFFD in place of every ill-formed stretch.
pub uninterp spec fn lossy_text(bytes: Seq<u8>) -> Seq<char>;

/// A message that consists of one newline and nothing else. Such a message is
/// not relayed.
pub open spec fn is_bare_newline(content: Seq<char>) -> bool {
    content == seq!['\n']
}

/// The line that relays `content`, sent by the client named `name`, to the
/// other clients: the name, a colon, a space, and the content as it came.
pub open spec fn relay_text(name: Seq<char>, content: Seq<char>) -> Seq<char> {
    name + seq![':', ' '] + content
}

/// `text` without the newlines at its end: the longest prefix of `text` that
/// does not end in a newline.
pub open spec fn without_trailing_newlines(text: Seq<char>) -> Seq<char>
    decreases text.len(),
{
    if text.len() > 0 && text.last() == '\n' {
        without_trailing_newlines(text.drop_last())
    } else {
        text
    }
}

/// Decodes `bytes` with `String::from_utf8_lossy`. Trusted: the result is
/// taken to be a function of the bytes alone, named [`lossy_text`]; nothing
/// else is claimed of it.
#[verifier::external_body]
pub(crate) fn decode_lossy(bytes: &[u8]) -> (text: String)
    ensures
        text@ == lossy_text(bytes@),
{
    String::from_utf8_lossy(bytes).into_owned()
}

/// Whether `content` is the one message that is never relayed.
pub fn bare_newline(content: &str) -> (bare: bool)
    ensures
        bare == is_bare_newline(content@),
{
    let bare = content.unicode_len() == 1 && content.get_char(0) == '\n';
    proof {
        if bare {
            assert(content@ =~= seq!['\n']);
        }
    }
    bare
}

/// The line that relays `content` on behalf of the client named `name`.
pub fn relay_line(name: &str, content: &str) -> (line: String)
    ensures
        line@ == relay_text(name@, content@),
{
    let mut line = name.to_owned();
    line.append(": ");
    line.append(content);
    proof {
        reveal_strlit(": ");
        assert(": "@ =~= seq![':', ' ']);
    }
    line
}

/// The display name a client chose: its reply to the prompt, without the
/// newlines that end it. Nothing else is checked; the name may be empty.
pub fn display_name(reply: &str) -> (name: String)
    ensures
        name@ == without_trailing_newlines(reply@),
{
    let mut end: usize = reply.unicode_len();
    proof {
        assert(reply@.take(end as int) =~= reply@);
    }
    while end > 0 && reply.get_char(end - 1) == '\n'
        invariant
            end <= reply@.len(),
            without_trailing_newlines(reply@) == without_trailing_newlines(
                reply@.take(end as int),
            ),
        decreases end,
    {
        proof {
            assert(reply@.take(end as int).drop_last() =~= reply@.take(end - 1));
        }
        end -= 1;
    }
    reply.substring_char(0, end).to_owned()
}

/// What the trimming of a name leaves: the start of the text, up to the
/// newlines that end it. Nothing but newlines is cut, and what is left does
/// not end in one.
pub proof fn law_trailing_newlines_cut(text: Seq<char>)
    ensures
        without_trailing_newlines(text).len() <= text.len(),
        without_trailing_newlines(text) == text.take(without_trailing_newlines(text).len() as int),
        without_trailing_newlines(text).len() > 0 ==> without_trailing_newlines(text).last()
            != '\n',
        forall|i: int|
            without_trailing_newlines(text).len() <= i < text.len() ==> #[trigger] text[i]
                == '\n',
    decreases text.len(),
{
    if text.len() > 0 && text.last() == '\n' {
        let shorter = text.drop_last();
        law_trailing_newlines_cut(shorter);
        let kept = without_trailing_newlines(shorter);
        assert(kept == without_trailing_newlines(text));
        assert(shorter.take(kept.len() as int) =~= text.take(kept.len() as int));
        assert forall|i: int| kept.len() <= i < text.len() implies #[trigger] text[i] == '\n' by {
            if i < shorter.len() {
                assert(shorter[i] == '\n');
            }
        }
    } else {
        assert(text.take(text.len() as int) =~= text);
    }
}

} // verus!
