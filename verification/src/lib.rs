//! Core logic of a push-to-talk dictation utility.
//!
//! While the user holds a configured trigger, microphone audio is captured;
//! on release it is transcribed, optionally corrected by a remote language
//! model, and injected into the focused window as synthetic keystrokes.
//! This crate holds the verified logic: the trigger state machine, the
//! utterance pipeline, audio sample processing, the configuration and
//! history codecs, and the model management rules. Platform backends
//! (audio capture, the global input hook, keystroke synthesis, HTTP) are
//! driven from outside through the events and actions defined here.

use vstd::prelude::*;

pub mod asr;
pub mod audio;
pub mod codec;
pub mod indicator;
pub mod input;
pub mod llm;
pub mod model;
pub mod pipeline;
pub mod storage;
pub mod text;

verus! {

/// Single-line preview of a text for log output: newlines, carriage
/// returns and tabs become spaces, and at most `max_chars` characters
/// are kept.
pub open spec fn spec_preview(s: Seq<char>, max_chars: nat) -> Seq<char> {
    s.take(if s.len() <= max_chars {
        s.len() as int
    } else {
        max_chars as int
    }).map(|i: int, c: char| if c == '\n' || c == '\r' || c == '\t' {
        ' '
    } else {
        c
    })
}

/// A single-line preview of a text for log output.
pub fn preview_text(s: &str, max_chars: usize) -> (r: String)
    ensures
        r@ == spec_preview(s@, max_chars as nat),
{
    let n = s.unicode_len();
    let limit = if n <= max_chars {
        n
    } else {
        max_chars
    };
    let mut out: Vec<char> = Vec::new();
    let mut i: usize = 0;
    while i < limit
        invariant
            i <= limit <= n,
            n == s@.len(),
            limit == if n <= max_chars {
                n as int
            } else {
                max_chars as int
            },
            out@.len() == i,
            forall|k: int|
                0 <= k < i ==> #[trigger] out@[k] == (if s@[k] == '\n' || s@[k] == '\r' || s@[k]
                    == '\t' {
                    ' '
                } else {
                    s@[k]
                }),
        decreases limit - i,
    {
        let c = s.get_char(i);
        if c == '\n' || c == '\r' || c == '\t' {
            out.push(' ');
        } else {
            out.push(c);
        }
        i = i + 1;
    }
    proof {
        assert(out@ =~= spec_preview(s@, max_chars as nat));
    }
    text::string_from_chars(&out)
}

} // verus!
