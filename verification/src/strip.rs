//! Removal of ANSI/VT escape sequences from one line of text.
//!
//! The stripper is an explicit automaton run in a single left-to-right
//! pass. Ordinary characters are copied; a bare carriage return is
//! dropped; an escape character opens either a CSI sequence (`ESC [`,
//! ended by the first byte in the final range `'@'..='~'`), an OSC
//! sequence (`ESC ]`, ended by BEL or by `ESC \`), or a two-character
//! escape that is discarded whole. Nothing consumed outside the normal
//! state reaches the output.

use vstd::prelude::*;

verus! {

/// State of the escape-stripping automaton between two input characters.
#[derive(Clone, Copy, PartialEq, Eq, Structural)]
pub enum StripState {
    /// Ordinary text; characters are copied to the output.
    Normal,
    /// An escape character was just read.
    EscSeen,
    /// Inside `ESC [`: parameter and intermediate bytes of a CSI sequence.
    CsiParams,
    /// Inside `ESC ]`: the body of an OSC sequence.
    OscBody,
    /// Inside an OSC body, an escape character was just read; a following
    /// backslash terminates the sequence.
    OscEsc,
}

/// One transition of the automaton: the state after reading `c` in state `st`.
pub open spec fn strip_next(st: StripState, c: char) -> StripState {
    match st {
        StripState::Normal => {
            if c == '\x1b' {
                StripState::EscSeen
            } else {
                StripState::Normal
            }
        },
        StripState::EscSeen => {
            if c == '[' {
                StripState::CsiParams
            } else if c == ']' {
                StripState::OscBody
            } else {
                StripState::Normal
            }
        },
        StripState::CsiParams => {
            if '@' <= c && c <= '~' {
                StripState::Normal
            } else {
                StripState::CsiParams
            }
        },
        StripState::OscBody => {
            if c == '\x07' {
                StripState::Normal
            } else if c == '\x1b' {
                StripState::OscEsc
            } else {
                StripState::OscBody
            }
        },
        StripState::OscEsc => {
            if c == '\\' || c == '\x07' {
                StripState::Normal
            } else if c == '\x1b' {
                StripState::OscEsc
            } else {
                StripState::OscBody
            }
        },
    }
}

/// Whether reading `c` in state `st` copies `c` to the output: only an
/// ordinary character in the normal state does, never a carriage return
/// or an escape character.
pub open spec fn strip_emits(st: StripState, c: char) -> bool {
    st == StripState::Normal && c != '\x1b' && c != '\r'
}

/// The characters that the automaton, started in state `st`, emits while
/// consuming all of `s`.
pub open spec fn strip_from(st: StripState, s: Seq<char>) -> Seq<char>
    decreases s.len(),
{
    if s.len() == 0 {
        Seq::empty()
    } else {
        let head = if strip_emits(st, s[0]) {
            seq![s[0]]
        } else {
            Seq::<char>::empty()
        };
        head + strip_from(strip_next(st, s[0]), s.drop_first())
    }
}

/// The visible text of `s`: what remains after removing escape sequences
/// and bare carriage returns, starting from the normal state.
pub open spec fn strip_spec(s: Seq<char>) -> Seq<char> {
    strip_from(StripState::Normal, s)
}

/// Remove ANSI escape sequences and bare carriage returns from `input`
/// in one forward pass.
pub fn strip_ansi_fast(input: &str) -> (r: String)
    ensures
        r@ == strip_spec(input@),
{
    let n = input.unicode_len();
    let mut out = String::new();
    let mut st = StripState::Normal;
    let mut i: usize = 0;
    proof {
        assert(input@.skip(0) =~= input@);
        assert(out@ + strip_spec(input@) =~= strip_spec(input@));
    }
    while i < n
        invariant
            n == input@.len(),
            0 <= i <= n,
            out@ + strip_from(st, input@.skip(i as int)) == strip_spec(input@),
        decreases n - i,
    {
        let c = input.get_char(i);
        proof {
            let suffix = input@.skip(i as int);
            assert(suffix.len() == n - i);
            assert(suffix[0] == c);
            assert(suffix.drop_first() =~= input@.skip(i as int + 1));
            assert(input@.subrange(i as int, i as int + 1) =~= seq![c]);
        }
        let emit = match st {
            StripState::Normal => {
                if c == '\x1b' {
                    st = StripState::EscSeen;
                    false
                } else if c == '\r' {
                    false
                } else {
                    true
                }
            },
            StripState::EscSeen => {
                if c == '[' {
                    st = StripState::CsiParams;
                } else if c == ']' {
                    st = StripState::OscBody;
                } else {
                    st = StripState::Normal;
                }
                false
            },
            StripState::CsiParams => {
                if '@' <= c && c <= '~' {
                    st = StripState::Normal;
                }
                false
            },
            StripState::OscBody => {
                if c == '\x07' {
                    st = StripState::Normal;
                } else if c == '\x1b' {
                    st = StripState::OscEsc;
                }
                false
            },
            StripState::OscEsc => {
                if c == '\\' || c == '\x07' {
                    st = StripState::Normal;
                } else if c == '\x1b' {
                    st = StripState::OscEsc;
                } else {
                    st = StripState::OscBody;
                }
                false
            },
        };
        if emit {
            out.append(input.substring_char(i, i + 1));
        }
        i = i + 1;
    }
    proof {
        assert(input@.skip(n as int) =~= Seq::<char>::empty());
        assert(out@ + Seq::<char>::empty() =~= out@);
    }
    out
}

} // verus!
