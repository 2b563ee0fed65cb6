//! The TELNET decoder/encoder state machine.
//!
//! [`State`] consumes raw inbound wire bytes one at a time, demultiplexing
//! user text, IAC command sequences, option sub-negotiations, editing
//! controls and ANSI CSI escape sequences, while emitting the immediate
//! replies the protocol asks for. Cleaned payload accumulates in an output
//! buffer that the application drains with [`State::read`].

use vstd::prelude::*;

use crate::model::{
    after_reply, erase_line_seq, is_csi_end, lemma_after_reply_compose, lemma_after_reply_empty,
    opt_bytes, run, step, AbstractState, RunOutcome,
};

verus! {

/// ECHO option code
pub const ECHO: u8 = 1;
/// Erase-current-line editing control
pub const ERASE_LINE: u8 = 248;

/// Audible bell
pub const BEL: u8 = 7;

/// Backspace
pub const CHAR_BACK_SPACE: u8 = 8;
/// Space, used in the visual rub-out reply
pub const CHAR_SPACE: u8 = 32;
/// ESC, the CSI introducer
pub const CHAR_ESCAPE: u8 = 27;
/// DEL
pub const CHAR_DELETE: u8 = 127;
/// Erase-character editing control
pub const CHAR_ERASE: u8 = 247;
/// Carriage return
pub const CHAR_CR: u8 = 13;
/// Line feed
pub const CHAR_LF: u8 = 10;

/// Interpret-as-command lead-in
pub const IAC: u8 = 255;
/// "IAC SB": sub-negotiation begin
pub const IAC_SUBNEGOTIATION_START: u8 = 250;
/// "IAC SE": sub-negotiation end
pub const IAC_SUBNEGOTIATION_END: u8 = 240;
/// Sender will do option
pub const IAC_WILL: u8 = 251;
/// Sender won't do option
pub const IAC_WONT: u8 = 252;
/// Please do option
pub const IAC_DO: u8 = 253;
/// Please don't do option
pub const IAC_DONT: u8 = 254;

/// Enumeration of overall modes that a TELNET state may have; the mode
/// governs how the next inbound byte is interpreted.
#[derive(Clone, Copy, Debug, PartialEq, Eq)]
pub enum Mode {
    /// Incoming, non-command data (e.g. text)
    Idle,
    /// Incoming command verb, right after an IAC
    Command,
    /// Incoming option byte of a WILL command
    CommandWill,
    /// Incoming option byte of a WONT command
    CommandWont,
    /// Incoming option byte of a DO command
    CommandDo,
    /// Incoming option byte of a DONT command
    CommandDont,
    /// Inside a sub-negotiation body
    SubNegotiation,
    /// Inside an ANSI CSI escape sequence
    AnsiEscapeSequence,
}

/// The one fatal protocol error: an unrecognized command byte right after
/// an IAC. The offending byte is carried along.
#[derive(Clone, Copy, Debug, PartialEq, Eq)]
pub enum TelnetError {
    /// The named byte followed an IAC but is no known command verb.
    InvalidInput(u8),
}

/// Configuration to set up a new [`State`]
#[derive(Default)]
pub struct StateConfig {
    /// If true, ANSI escape sequences will be handled like normal
    /// non-command input. Otherwise, sequences will be ignored and a BEL is
    /// sent back to notice.
    pub handle_ansi_escape_sequences: bool,
}

/// Struct that holds and handles the current state of a TELNET session.
///
/// # Notice
///
/// This struct is independent of any service related input or TCP at all.
/// It is just a bare state machine.
pub struct State {
    /// Buffer of "readable" received data, drained with [`State::read`]
    output_buffer: Vec<u8>,
    /// Current overall mode
    mode: Mode,
    /// Indicates whether every incoming, non-command byte should be echoed
    /// back to the connection
    is_echoing: bool,
    /// If true, ANSI escape sequences will be handled like normal
    /// non-command input. Otherwise, sequences will be ignored and a BEL is
    /// sent back to notice.
    handle_ansi_escape_sequences: bool,
}

impl View for State {
    type V = AbstractState;

    closed spec fn view(&self) -> AbstractState {
        AbstractState {
            buffer: self.output_buffer@,
            mode: self.mode,
            echo: self.is_echoing,
            ansi: self.handle_ansi_escape_sequences,
        }
    }
}

impl State {
    /// Creates a new [`State`] with given configuration: empty output
    /// buffer, Idle mode, echoing off.
    pub fn new(config: &StateConfig) -> (s: State)
        ensures
            s@ == (AbstractState {
                buffer: Seq::<u8>::empty(),
                mode: Mode::Idle,
                echo: false,
                ansi: config.handle_ansi_escape_sequences,
            }),
    {
        State {
            output_buffer: Vec::new(),
            mode: Mode::Idle,
            is_echoing: false,
            handle_ansi_escape_sequences: config.handle_ansi_escape_sequences,
        }
    }

    /// Writes a buffer of incoming TELNET data into the state, returning the
    /// concatenated immediate response to the other side, or nothing where
    /// no byte asked for a reply.
    ///
    /// The whole buffer is consumed _unless_ a byte right after an IAC is no
    /// known command verb: then the error names that byte, replies produced
    /// by earlier bytes are dropped, and the state is the one in which the
    /// offending byte arrived. Such a session should be terminated.
    pub fn write(&mut self, buf: &[u8]) -> (r: Result<Option<Vec<u8>>, TelnetError>)
        ensures
            (match run(old(self)@, buf@) {
                RunOutcome::Accepted { state, reply } => {
                    &&& final(self)@ == state
                    &&& (match r {
                        Ok(Some(v)) => v@ == reply && reply.len() > 0,
                        Ok(None) => reply.len() == 0,
                        Err(_) => false,
                    })
                },
                RunOutcome::Rejected { state, byte } => {
                    &&& final(self)@ == state
                    &&& r == Err::<Option<Vec<u8>>, TelnetError>(TelnetError::InvalidInput(byte))
                },
            }),
    {
        let ghost orig: AbstractState = self@;
        let mut response: Vec<u8> = Vec::new();
        let mut i: usize = 0;

        proof {
            assert(buf@.skip(0) =~= buf@);
            lemma_after_reply_empty(run(orig, buf@));
        }

        #[verifier::loop_isolation(false)]
        while i < buf.len()
            invariant
                i <= buf.len(),
                after_reply(response@, run(self@, buf@.skip(i as int))) == run(orig, buf@),
            decreases buf.len() - i,
        {
            let next = buf[i];
            let ghost pre: AbstractState = self@;
            let ghost rest: Seq<u8> = buf@.skip(i as int);

            proof {
                assert(rest.len() == buf@.len() - i);
                assert(rest[0] == buf@[i as int]);
                assert(rest.drop_first() =~= buf@.skip(i as int + 1));
            }

            let result = match self.mode {
                Mode::Idle => self.next_on_idle(next),
                Mode::Command => self.next_as_command(next),
                Mode::CommandWill => self.next_as_will(next),
                Mode::CommandWont => self.next_as_wont(next),
                Mode::CommandDo => self.next_as_do(next),
                Mode::CommandDont => self.next_as_dont(next),
                Mode::SubNegotiation => self.next_as_sub_negotiation(next),
                Mode::AnsiEscapeSequence => self.next_as_escape_sequence(next),
            };

            match result {
                Ok(o) => {
                    let ghost out = opt_bytes(o);
                    let ghost response_pre = response@;

                    if let Some(reply) = o {
                        append_bytes(&mut response, &reply);
                    }

                    proof {
                        assert(run(pre, rest) == after_reply(
                            out,
                            run(self@, buf@.skip(i as int + 1)),
                        ));
                        lemma_after_reply_compose(
                            response_pre,
                            out,
                            run(self@, buf@.skip(i as int + 1)),
                        );
                        assert(response@ =~= response_pre + out);
                    }

                    i += 1;
                },
                Err(e) => {
                    proof {
                        assert(run(pre, rest) == (RunOutcome::Rejected {
                            state: pre,
                            byte: next,
                        }));
                    }
                    return Err(e);
                },
            }
        }

        proof {
            assert(buf@.skip(buf@.len() as int).len() == 0);
            assert(response@ + Seq::<u8>::empty() =~= response@);
        }

        if !response.is_empty() {
            Ok(Some(response))
        } else {
            Ok(None)
        }
    }

    /// Copies up to `min(dst.len(), output buffer length)` cleaned payload
    /// bytes from the head of the output buffer into the front of `dst`,
    /// removes them from the buffer, and returns the number copied. Never
    /// blocks: zero means no cleaned payload is available.
    pub fn read(&mut self, dst: &mut Vec<u8>) -> (n: usize)
        ensures
            n == if old(dst)@.len() <= old(self)@.buffer.len() {
                old(dst)@.len()
            } else {
                old(self)@.buffer.len()
            },
            final(dst)@ == old(self)@.buffer.take(n as int) + old(dst)@.skip(n as int),
            final(self)@ == (AbstractState {
                buffer: old(self)@.buffer.skip(n as int),
                ..old(self)@
            }),
    {
        let limit = if dst.len() <= self.output_buffer.len() {
            dst.len()
        } else {
            self.output_buffer.len()
        };
        let ghost orig_dst: Seq<u8> = dst@;
        let ghost orig: AbstractState = self@;

        let mut i: usize = 0;
        proof {
            assert(dst@ =~= orig.buffer.take(0) + orig_dst.skip(0));
        }
        while i < limit
            invariant
                i <= limit,
                self@ == orig,
                limit <= orig.buffer.len(),
                limit <= orig_dst.len(),
                dst@.len() == orig_dst.len(),
                dst@ == orig.buffer.take(i as int) + orig_dst.skip(i as int),
            decreases limit - i,
        {
            let b = self.output_buffer[i];
            dst[i] = b;
            proof {
                assert(dst@ =~= orig.buffer.take(i as int + 1) + orig_dst.skip(i as int + 1));
            }
            i += 1;
        }

        let tail = self.output_buffer.split_off(limit);
        self.output_buffer = tail;

        proof {
            assert(self@.buffer =~= orig.buffer.skip(limit as int));
        }

        limit
    }

    /// The cleaned payload collected so far and not yet drained.
    pub fn output_bytes(&self) -> (r: &Vec<u8>)
        ensures
            r@ == self@.buffer,
    {
        &self.output_buffer
    }

    /// Whether accepted data bytes are currently mirrored back to the peer.
    pub fn is_echoing(&self) -> (r: bool)
        ensures
            r == self@.echo,
    {
        self.is_echoing
    }

    /// The mode that governs the interpretation of the next inbound byte.
    pub fn mode(&self) -> (r: Mode)
        ensures
            r == self@.mode,
    {
        self.mode
    }

    /// Erases the current line from given text buffer. According to RFC 854
    /// the last CR LF is kept: only the characters after it are removed, and
    /// a buffer without one is emptied entirely.
    pub fn erase_current_line(buffer: &mut Vec<u8>)
        ensures
            final(buffer)@ == erase_line_seq(old(buffer)@),
    {
        let ghost orig: Seq<u8> = buffer@;

        loop
            invariant
                erase_line_seq(buffer@) == erase_line_seq(orig),
            ensures
                buffer@ == erase_line_seq(orig),
            decreases buffer@.len(),
        {
            let buffer_len = buffer.len();

            /* Remove all bytes until a trailing CR LF is reached */
            if buffer_len < 2 {
                buffer.clear();
                break;
            }

            if buffer[buffer_len - 2] == CHAR_CR && buffer[buffer_len - 1] == CHAR_LF {
                break;
            }

            buffer.pop();
        }
    }

    /// Handles incoming `next` byte when [`State`] is in idle mode
    fn next_on_idle(&mut self, next: u8) -> (r: Result<Option<Vec<u8>>, TelnetError>)
        requires
            old(self)@.mode == Mode::Idle,
        ensures
            (r matches Ok(o) && step(old(self)@, next) == Some((final(self)@, opt_bytes(o)))),
    {
        if next == IAC {
            self.mode = Mode::Command;
            Ok(None)
        } else if next == CHAR_DELETE || next == CHAR_BACK_SPACE || next == CHAR_ERASE {
            self.output_buffer.pop();

            if self.is_echoing {
                /* Return fake backspace on echo mode */
                let mut reply: Vec<u8> = Vec::new();
                reply.push(CHAR_BACK_SPACE);
                reply.push(CHAR_SPACE);
                reply.push(CHAR_BACK_SPACE);
                Ok(Some(reply))
            } else {
                Ok(None)
            }
        } else if next == ERASE_LINE {
            Self::erase_current_line(&mut self.output_buffer);

            if self.is_echoing {
                /* ANSI sequence that moves to the line start and clears it */
                let mut reply: Vec<u8> = Vec::new();
                reply.push(CHAR_ESCAPE);
                reply.push(91);
                reply.push(50);
                reply.push(75);
                reply.push(CHAR_CR);
                Ok(Some(reply))
            } else {
                Ok(None)
            }
        } else if next == CHAR_ESCAPE {
            self.mode = Mode::AnsiEscapeSequence;

            if self.handle_ansi_escape_sequences {
                self.output_buffer.push(next);
            }

            if self.is_echoing {
                let mut reply: Vec<u8> = Vec::new();
                reply.push(next);
                Ok(Some(reply))
            } else {
                Ok(None)
            }
        } else {
            self.output_buffer.push(next);

            if self.is_echoing {
                let mut reply: Vec<u8> = Vec::new();
                reply.push(next);
                Ok(Some(reply))
            } else {
                Ok(None)
            }
        }
    }

    /// Handles incoming `next` byte when [`State`] is in IAC mode
    fn next_as_command(&mut self, next: u8) -> (r: Result<Option<Vec<u8>>, TelnetError>)
        requires
            old(self)@.mode == Mode::Command,
        ensures
            (r matches Ok(o) ==> step(old(self)@, next) == Some((final(self)@, opt_bytes(o)))),
            (r matches Err(e) ==> step(old(self)@, next) is None && final(self)@ == old(self)@
                && e == TelnetError::InvalidInput(next)),
    {
        if next == IAC_WILL {
            self.mode = Mode::CommandWill;
        } else if next == IAC_WONT {
            self.mode = Mode::CommandWont;
        } else if next == IAC_DO {
            self.mode = Mode::CommandDo;
        } else if next == IAC_DONT {
            self.mode = Mode::CommandDont;
        } else if next == IAC_SUBNEGOTIATION_START {
            self.mode = Mode::SubNegotiation;
        } else {
            return Err(TelnetError::InvalidInput(next));
        }

        Ok(None)
    }

    /// Handles incoming `next` byte when [`State`] is in IAC WILL mode
    fn next_as_will(&mut self, next: u8) -> (r: Result<Option<Vec<u8>>, TelnetError>)
        requires
            old(self)@.mode == Mode::CommandWill,
        ensures
            (r matches Ok(o) && step(old(self)@, next) == Some((final(self)@, opt_bytes(o)))),
    {
        /* Ignore message, just go back to idle state */
        self.mode = Mode::Idle;
        Ok(None)
    }

    /// Handles incoming `next` byte when [`State`] is in IAC WONT mode
    fn next_as_wont(&mut self, next: u8) -> (r: Result<Option<Vec<u8>>, TelnetError>)
        requires
            old(self)@.mode == Mode::CommandWont,
        ensures
            (r matches Ok(o) && step(old(self)@, next) == Some((final(self)@, opt_bytes(o)))),
    {
        /* Ignore message, just go back to idle state */
        self.mode = Mode::Idle;
        Ok(None)
    }

    /// Handles incoming `next` byte when [`State`] is in IAC DO mode
    fn next_as_do(&mut self, next: u8) -> (r: Result<Option<Vec<u8>>, TelnetError>)
        requires
            old(self)@.mode == Mode::CommandDo,
        ensures
            (r matches Ok(o) && step(old(self)@, next) == Some((final(self)@, opt_bytes(o)))),
    {
        self.mode = Mode::Idle;

        let mut reply: Vec<u8> = Vec::new();
        reply.push(IAC);

        if next == ECHO {
            self.is_echoing = true;
            reply.push(IAC_WILL);
            reply.push(ECHO);
            return Ok(Some(reply));
        }

        /* Whatever they're asking for, we're not supporting it probably. */
        reply.push(IAC_WONT);
        reply.push(next);
        Ok(Some(reply))
    }

    /// Handles incoming `next` byte when [`State`] is in IAC DONT mode
    fn next_as_dont(&mut self, next: u8) -> (r: Result<Option<Vec<u8>>, TelnetError>)
        requires
            old(self)@.mode == Mode::CommandDont,
        ensures
            (r matches Ok(o) && step(old(self)@, next) == Some((final(self)@, opt_bytes(o)))),
    {
        self.mode = Mode::Idle;

        if next == ECHO {
            self.is_echoing = false;
        }

        /* Whatever they're asking for, we're not supporting it probably.
         * So it's fine to say that we won't do it. */
        let mut reply: Vec<u8> = Vec::new();
        reply.push(IAC);
        reply.push(IAC_WONT);
        reply.push(next);
        Ok(Some(reply))
    }

    /// Handles incoming `next` byte when [`State`] is in IAC SB mode
    fn next_as_sub_negotiation(&mut self, next: u8) -> (r: Result<Option<Vec<u8>>, TelnetError>)
        requires
            old(self)@.mode == Mode::SubNegotiation,
        ensures
            (r matches Ok(o) && step(old(self)@, next) == Some((final(self)@, opt_bytes(o)))),
    {
        /* We're NOT handling sub negotiations right now. */
        if next == IAC_SUBNEGOTIATION_END {
            self.mode = Mode::Idle;
        }

        Ok(None)
    }

    /// Handles incoming `next` byte when [`State`] is in an ANSI escape
    /// sequence
    fn next_as_escape_sequence(&mut self, next: u8) -> (r: Result<Option<Vec<u8>>, TelnetError>)
        requires
            old(self)@.mode == Mode::AnsiEscapeSequence,
        ensures
            (r matches Ok(o) && step(old(self)@, next) == Some((final(self)@, opt_bytes(o)))),
    {
        if self.handle_ansi_escape_sequences {
            self.output_buffer.push(next);

            if csi_end(next) {
                self.mode = Mode::Idle;
            }

            if self.is_echoing {
                let mut reply: Vec<u8> = Vec::new();
                reply.push(next);
                Ok(Some(reply))
            } else {
                Ok(None)
            }
        } else {
            if !csi_end(next) {
                return Ok(None);
            }

            self.mode = Mode::Idle;

            let mut reply: Vec<u8> = Vec::new();
            reply.push(BEL);
            Ok(Some(reply))
        }
    }
}

/// Appends all bytes of `src` to the tail of `dst`.
fn append_bytes(dst: &mut Vec<u8>, src: &Vec<u8>)
    ensures
        final(dst)@ == old(dst)@ + src@,
{
    let ghost orig: Seq<u8> = dst@;
    let mut j: usize = 0;

    proof {
        assert(dst@ =~= orig + src@.take(0));
    }
    while j < src.len()
        invariant
            j <= src@.len(),
            dst@ == orig + src@.take(j as int),
        decreases src@.len() - j,
    {
        dst.push(src[j]);
        proof {
            assert(dst@ =~= orig + src@.take(j as int + 1));
        }
        j += 1;
    }
    proof {
        assert(src@.take(src@.len() as int) =~= src@);
    }
}

/// Whether `next` is a known ending character of ANSI escape sequences
fn csi_end(next: u8) -> (r: bool)
    ensures
        r == is_csi_end(next),
{
    match next {
        65 | 66 | 67 | 68 | 69 | 70 | 71 | 72 | 74 | 75 | 83 | 84 | 102 | 109 | 105 | 110 | 115
            | 117 | 104 | 108 => true,
        _ => false,
    }
}

} // verus!
