//! The script that a visitor runs on the page of the conferencing service.
//! It asks this service for the code of a room and opens that meeting, or
//! has a meeting made, reports its code and opens it.

use vstd::prelude::*;
use vstd::std_specs::iter::IteratorSpec;
use vstd::string::StringExecFns;
use crate::text::push_char;

verus! {

/// The script as it is written, up to the name of the room.
pub const SCRIPT_HEAD: &'static str = "
javascript:(async function(room, host) {
    if (typeof room !== 'string' || room.length === 0) {
        return alert('invalid room name');
    }
    if (location.origin !== 'https://meet.google.com') {
        return alert('script must be run on https://meet.google.com');
    }

    let resp = await fetch(`${host}/${room}/code`);

    if (resp.ok) {
        const code = await resp.text(),
              suffix = location.search;

        return location.href = `https://meet.google.com/${code}${suffix}`;
    }

    if (resp.status !== 404) {
        return alert(`error ${resp.status}: ${resp.statusText || 'unknown'}`);
    }

    const createMeetingButton = document.querySelector('li[aria-label=\"Create a meeting for later\"]')
                             ?? document.querySelector('li.VfPpkd-rymPhb-ibnC6b');

    createMeetingButton.click();

    let meetingCode;

    for (let i = 0; i < 20; i++) {
        await new Promise((resolve) => setTimeout(resolve, 100));

        const meetingCodeBox = document.querySelector('div.Hayy8b');

        if (meetingCodeBox !== null) {
            meetingCode = /[a-z]{3}-[a-z]{4}-[a-z]{3}/.exec(meetingCodeBox.textContent)[0];
            break;
        }
    }

    if (meetingCode === undefined) {
        return alert('could not find meeting code in page');
    }

    resp = await fetch(`${host}/${room}/code/${meetingCode}`, { method: 'POST' });

    if (!resp.ok) {
        return alert(`error ${resp.status}: ${resp.statusText || 'unknown'}`);
    }

    const code = await resp.text(),
          suffix = location.search;

    return location.href = `https://meet.google.com/${code}${suffix}`;
})('";

/// What stands between the name of the room and the name of the host.
pub const SCRIPT_MIDDLE: &'static str = "', 'https://";

/// What follows the name of the host.
pub const SCRIPT_TAIL: &'static str = "')\n";

/// The script for `room`, served by `host`, as it is written: with its
/// line breaks and its indentation.
pub open spec fn script_source(room: Seq<char>, host: Seq<char>) -> Seq<char> {
    SCRIPT_HEAD@ + room + SCRIPT_MIDDLE@ + host + SCRIPT_TAIL@
}

/// `text` without its pairs of blanks. The pairs are taken from the left and
/// do not overlap, so that of an odd run of blanks the last one stays.
pub open spec fn without_double_blanks(text: Seq<char>) -> Seq<char>
    decreases text.len(),
{
    if text.len() < 2 {
        text
    } else if text[0] == ' ' && text[1] == ' ' {
        without_double_blanks(text.skip(2))
    } else {
        seq![text[0]] + without_double_blanks(text.skip(1))
    }
}

/// The characters that are no line break.
pub open spec fn is_no_newline() -> spec_fn(char) -> bool {
    |c: char| c != '\n'
}

/// `text` without its line breaks.
pub open spec fn without_newlines(text: Seq<char>) -> Seq<char> {
    text.filter(is_no_newline())
}

/// The script as it is sent: the pairs of blanks are taken out of the
/// written script first, then the line breaks. Both are taken out of the
/// names of the room and of the host too.
pub open spec fn script_text(room: Seq<char>, host: Seq<char>) -> Seq<char> {
    without_newlines(without_double_blanks(script_source(room, host)))
}

/// A blank that is held back, if there is one.
spec fn held_blank(held: bool) -> Seq<char> {
    if held {
        seq![' ']
    } else {
        Seq::empty()
    }
}

/// Copies `text` without its pairs of blanks.
pub fn strip_double_blanks(text: &str) -> (out: String)
    ensures
        out@ == without_double_blanks(text@),
{
    let mut out = String::new();
    let mut rest = text.chars();
    let mut held = false;
    loop
        invariant
            without_double_blanks(text@) == out@ + without_double_blanks(
                held_blank(held) + rest.remaining(),
            ),
            rest.decrease() is Some,
        ensures
            out@ == without_double_blanks(text@),
        decreases rest.decrease()->0,
    {
        let ghost before = held_blank(held) + rest.remaining();
        let ghost written = out@;
        match rest.next() {
            Some(c) => {
                let ghost after = rest.remaining();
                if held {
                    assert(before.skip(2) =~= after);
                    assert(before.skip(1) =~= seq![c] + after);
                    if c == ' ' {
                        held = false;
                    } else {
                        proof {
                            lemma_keeps_first(seq![c] + after);
                            assert((seq![c] + after).skip(1) =~= after);
                        }
                        push_char(&mut out, ' ');
                        push_char(&mut out, c);
                        held = false;
                        assert(out@ + without_double_blanks(after) =~= written + (seq![' '] + (
                        seq![c] + without_double_blanks(after))));
                    }
                    assert(held_blank(held) + after =~= after);
                } else {
                    assert(before =~= seq![c] + after);
                    if c == ' ' {
                        held = true;
                    } else {
                        proof {
                            lemma_keeps_first(before);
                            assert(before.skip(1) =~= after);
                        }
                        push_char(&mut out, c);
                        assert(held_blank(held) + after =~= after);
                        assert(out@ + without_double_blanks(after) =~= written + (seq![c]
                            + without_double_blanks(after)));
                    }
                }
            },
            None => {
                assert(before =~= held_blank(held));
                if held {
                    push_char(&mut out, ' ');
                    held = false;
                }
                assert(held_blank(held) + rest.remaining() =~= Seq::<char>::empty());
                assert(out@ =~= without_double_blanks(text@));
                break;
            },
        }
    }
    out
}

/// A character that is no blank is kept, and what follows it is treated on
/// its own.
proof fn lemma_keeps_first(text: Seq<char>)
    requires
        text.len() > 0,
        text[0] != ' ',
    ensures
        without_double_blanks(text) == seq![text[0]] + without_double_blanks(text.skip(1)),
{
    if text.len() < 2 {
        assert(text.skip(1) =~= Seq::<char>::empty());
        assert(text =~= seq![text[0]] + without_double_blanks(text.skip(1)));
    }
}

/// Copies `text` without its line breaks.
pub fn strip_newlines(text: &str) -> (out: String)
    ensures
        out@ == without_newlines(text@),
{
    let mut out = String::new();
    let mut rest = text.chars();
    let ghost mut done: Seq<char> = Seq::empty();
    proof {
        reveal(Seq::filter);
    }
    loop
        invariant
            done + rest.remaining() == text@,
            out@ == without_newlines(done),
            rest.decrease() is Some,
        ensures
            out@ == without_newlines(text@),
        decreases rest.decrease()->0,
    {
        let ghost before = rest.remaining();
        match rest.next() {
            Some(c) => {
                proof {
                    reveal(Seq::filter);
                    assert(done.push(c).drop_last() =~= done);
                    assert(done.push(c) + rest.remaining() =~= done + before);
                    done = done.push(c);
                }
                if c != '\n' {
                    push_char(&mut out, c);
                }
            },
            None => {
                assert(done =~= text@);
                break;
            },
        }
    }
    out
}

/// The script for `room`, to be served by `host`.
pub fn get_script(room: &str, host: &str) -> (script: String)
    ensures
        script@ == script_text(room@, host@),
{
    let mut source = String::from_str(SCRIPT_HEAD);
    source.append(room);
    source.append(SCRIPT_MIDDLE);
    source.append(host);
    source.append(SCRIPT_TAIL);
    let packed = strip_double_blanks(source.as_str());
    strip_newlines(packed.as_str())
}

} // verus!
