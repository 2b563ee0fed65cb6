//! The mathematical model of the TELNET decoder.
//!
//! [`step`] says what one inbound byte does to an abstract decoder state and
//! which reply bytes it produces; [`run`] folds `step` over a whole input
//! sequence. The contracts of [`crate::state::State`] are stated against
//! these functions, and the laws in [`crate::laws`] are proved from them.

use vstd::prelude::*;

use crate::state::{
    Mode, BEL, CHAR_BACK_SPACE, CHAR_CR, CHAR_DELETE, CHAR_ERASE, CHAR_ESCAPE, CHAR_LF,
    CHAR_SPACE, ECHO, ERASE_LINE, IAC, IAC_DO, IAC_DONT, IAC_SUBNEGOTIATION_END,
    IAC_SUBNEGOTIATION_START, IAC_WILL, IAC_WONT,
};

verus! {

/// The abstract decoder state: what [`crate::state::State`] looks like as a
/// mathematical value.
pub ghost struct AbstractState {
    /// Cleaned payload bytes not yet drained by the application
    pub buffer: Seq<u8>,
    /// How the next inbound byte is interpreted
    pub mode: Mode,
    /// Whether accepted data bytes are mirrored back to the peer
    pub echo: bool,
    /// Whether ANSI escape sequences are kept as payload (true) or
    /// discarded with a BEL notice (false); fixed at construction
    pub ansi: bool,
}

/// What feeding a whole byte sequence yields: either the decoder state
/// after the last byte together with the concatenated reply, or the state
/// just before the offending byte together with that byte.
pub ghost enum RunOutcome {
    /// Every byte was accepted.
    Accepted { state: AbstractState, reply: Seq<u8> },
    /// The named byte followed an IAC but is no known command verb; the
    /// state is the one in which that byte arrived.
    Rejected { state: AbstractState, byte: u8 },
}

/// Whether `b` terminates an ANSI CSI escape sequence.
pub open spec fn is_csi_end(b: u8) -> bool {
    ||| b == 65  // 'A'
    ||| b == 66  // 'B'
    ||| b == 67  // 'C'
    ||| b == 68  // 'D'
    ||| b == 69  // 'E'
    ||| b == 70  // 'F'
    ||| b == 71  // 'G'
    ||| b == 72  // 'H'
    ||| b == 74  // 'J'
    ||| b == 75  // 'K'
    ||| b == 83  // 'S'
    ||| b == 84  // 'T'
    ||| b == 102  // 'f'
    ||| b == 109  // 'm'
    ||| b == 105  // 'i'
    ||| b == 110  // 'n'
    ||| b == 115  // 's'
    ||| b == 117  // 'u'
    ||| b == 104  // 'h'
    ||| b == 108  // 'l'
}

/// The visual rub-out reply sent for an editing control under echo.
pub open spec fn rubout_reply() -> Seq<u8> {
    seq![CHAR_BACK_SPACE, CHAR_SPACE, CHAR_BACK_SPACE]
}

/// The ANSI move-to-start-and-clear reply sent for erase-line under echo.
pub open spec fn erase_line_reply() -> Seq<u8> {
    seq![CHAR_ESCAPE, 91u8, 50u8, 75u8, CHAR_CR]
}

/// Erase-current-line: pop bytes from the tail until the buffer either
/// holds fewer than two bytes (then it is cleared entirely) or ends in
/// CR LF (which is preserved).
pub open spec fn erase_line_seq(s: Seq<u8>) -> Seq<u8>
    decreases s.len(),
{
    if s.len() < 2 {
        Seq::empty()
    } else if s[s.len() - 2] == CHAR_CR && s[s.len() - 1] == CHAR_LF {
        s
    } else {
        erase_line_seq(s.drop_last())
    }
}

/// One byte consumed in Idle mode: the resulting state and the reply.
pub open spec fn idle_step(s: AbstractState, b: u8) -> (AbstractState, Seq<u8>) {
    if b == IAC {
        (AbstractState { mode: Mode::Command, ..s }, Seq::empty())
    } else if b == CHAR_DELETE || b == CHAR_BACK_SPACE || b == CHAR_ERASE {
        let popped = if s.buffer.len() == 0 {
            s.buffer
        } else {
            s.buffer.drop_last()
        };
        (
            AbstractState { buffer: popped, ..s },
            if s.echo {
                rubout_reply()
            } else {
                Seq::empty()
            },
        )
    } else if b == ERASE_LINE {
        (
            AbstractState { buffer: erase_line_seq(s.buffer), ..s },
            if s.echo {
                erase_line_reply()
            } else {
                Seq::empty()
            },
        )
    } else if b == CHAR_ESCAPE {
        let buffer = if s.ansi {
            s.buffer.push(b)
        } else {
            s.buffer
        };
        (
            AbstractState { buffer, mode: Mode::AnsiEscapeSequence, ..s },
            if s.echo {
                seq![b]
            } else {
                Seq::empty()
            },
        )
    } else {
        (
            AbstractState { buffer: s.buffer.push(b), ..s },
            if s.echo {
                seq![b]
            } else {
                Seq::empty()
            },
        )
    }
}

/// One byte consumed inside an ANSI CSI escape sequence.
pub open spec fn escape_sequence_step(s: AbstractState, b: u8) -> (AbstractState, Seq<u8>) {
    if s.ansi {
        (
            AbstractState {
                buffer: s.buffer.push(b),
                mode: if is_csi_end(b) {
                    Mode::Idle
                } else {
                    Mode::AnsiEscapeSequence
                },
                ..s
            },
            if s.echo {
                seq![b]
            } else {
                Seq::empty()
            },
        )
    } else if is_csi_end(b) {
        (AbstractState { mode: Mode::Idle, ..s }, seq![BEL])
    } else {
        (s, Seq::empty())
    }
}

/// What one inbound byte does: `None` exactly when `b` follows an IAC and
/// is no known command verb; otherwise the next state and the reply bytes.
pub open spec fn step(s: AbstractState, b: u8) -> Option<(AbstractState, Seq<u8>)> {
    match s.mode {
        Mode::Idle => Some(idle_step(s, b)),
        Mode::Command => {
            if b == IAC_WILL {
                Some(((AbstractState { mode: Mode::CommandWill, ..s }), Seq::empty()))
            } else if b == IAC_WONT {
                Some(((AbstractState { mode: Mode::CommandWont, ..s }), Seq::empty()))
            } else if b == IAC_DO {
                Some(((AbstractState { mode: Mode::CommandDo, ..s }), Seq::empty()))
            } else if b == IAC_DONT {
                Some(((AbstractState { mode: Mode::CommandDont, ..s }), Seq::empty()))
            } else if b == IAC_SUBNEGOTIATION_START {
                Some(((AbstractState { mode: Mode::SubNegotiation, ..s }), Seq::empty()))
            } else {
                None
            }
        },
        Mode::CommandWill => Some(((AbstractState { mode: Mode::Idle, ..s }), Seq::empty())),
        Mode::CommandWont => Some(((AbstractState { mode: Mode::Idle, ..s }), Seq::empty())),
        Mode::CommandDo => {
            if b == ECHO {
                Some(
                    (
                        (AbstractState { mode: Mode::Idle, echo: true, ..s }),
                        seq![IAC, IAC_WILL, ECHO],
                    ),
                )
            } else {
                Some(((AbstractState { mode: Mode::Idle, ..s }), seq![IAC, IAC_WONT, b]))
            }
        },
        Mode::CommandDont => {
            let echo = if b == ECHO {
                false
            } else {
                s.echo
            };
            Some(((AbstractState { mode: Mode::Idle, echo, ..s }), seq![IAC, IAC_WONT, b]))
        },
        Mode::SubNegotiation => {
            if b == IAC_SUBNEGOTIATION_END {
                Some(((AbstractState { mode: Mode::Idle, ..s }), Seq::empty()))
            } else {
                Some((s, Seq::empty()))
            }
        },
        Mode::AnsiEscapeSequence => Some(escape_sequence_step(s, b)),
    }
}

/// Prepends already-produced reply bytes to the outcome of the rest of an
/// input sequence.
pub open spec fn after_reply(out: Seq<u8>, o: RunOutcome) -> RunOutcome {
    match o {
        RunOutcome::Accepted { state, reply } => RunOutcome::Accepted {
            state,
            reply: out + reply,
        },
        RunOutcome::Rejected { .. } => o,
    }
}

/// Folds [`step`] over a whole input sequence, concatenating the replies.
pub open spec fn run(s: AbstractState, input: Seq<u8>) -> RunOutcome
    decreases input.len(),
{
    if input.len() == 0 {
        RunOutcome::Accepted { state: s, reply: Seq::empty() }
    } else {
        match step(s, input[0]) {
            Option::None => RunOutcome::Rejected { state: s, byte: input[0] },
            Option::Some(next) => after_reply(next.1, run(next.0, input.drop_first())),
        }
    }
}

/// Prepending no reply bytes changes nothing.
pub proof fn lemma_after_reply_empty(o: RunOutcome)
    ensures
        after_reply(Seq::empty(), o) == o,
{
    match o {
        RunOutcome::Accepted { state, reply } => {
            assert(Seq::empty() + reply =~= reply);
        },
        RunOutcome::Rejected { .. } => {},
    }
}

/// Two prepended replies amount to prepending their concatenation.
pub proof fn lemma_after_reply_compose(a: Seq<u8>, b: Seq<u8>, o: RunOutcome)
    ensures
        after_reply(a, after_reply(b, o)) == after_reply(a + b, o),
{
    match o {
        RunOutcome::Accepted { state, reply } => {
            assert(a + (b + reply) =~= (a + b) + reply);
        },
        RunOutcome::Rejected { .. } => {},
    }
}

/// The reply bytes carried by the optional value that `State::write` and
/// its helpers return: nothing stands for no reply.
pub open spec fn opt_bytes(o: Option<Vec<u8>>) -> Seq<u8> {
    match o {
        Option::None => Seq::empty(),
        Option::Some(v) => v@,
    }
}

} // verus!
