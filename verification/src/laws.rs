//! Laws of the TELNET decoder, proved over the model in [`crate::model`].

use vstd::prelude::*;

use crate::model::{erase_line_seq, is_csi_end, run, step, AbstractState, RunOutcome};
use crate::state::{
    Mode, CHAR_BACK_SPACE, CHAR_CR, CHAR_DELETE, CHAR_ERASE, CHAR_ESCAPE, CHAR_LF, ERASE_LINE,
    IAC, IAC_SUBNEGOTIATION_END,
};

verus! {

/// Whether some CR is immediately followed by an LF anywhere in `s`.
pub open spec fn has_crlf(s: Seq<u8>) -> bool {
    exists|i: int| 0 <= i && i + 1 < s.len() && #[trigger] s[i] == CHAR_CR && s[i + 1] == CHAR_LF
}

/// A byte that completes an option command, a sub-negotiation, or an ANSI
/// escape sequence always returns the decoder to Idle.
pub proof fn lemma_completed_command_returns_to_idle(s: AbstractState, b: u8)
    ensures
        (s.mode == Mode::CommandWill || s.mode == Mode::CommandWont || s.mode == Mode::CommandDo
            || s.mode == Mode::CommandDont) ==> (step(s, b) matches Some(p)
            && p.0.mode == Mode::Idle),
        s.mode == Mode::SubNegotiation && b == IAC_SUBNEGOTIATION_END ==> (step(s, b) matches Some(
            p,
        ) && p.0.mode == Mode::Idle),
        s.mode == Mode::AnsiEscapeSequence && is_csi_end(b) ==> (step(s, b) matches Some(p)
            && p.0.mode == Mode::Idle),
{
}

/// Erasing the current line twice yields the same buffer as erasing it
/// once.
pub proof fn lemma_erase_line_idempotent(s: Seq<u8>)
    ensures
        erase_line_seq(erase_line_seq(s)) == erase_line_seq(s),
    decreases s.len(),
{
    if s.len() < 2 {
    } else if s[s.len() - 2] == CHAR_CR && s[s.len() - 1] == CHAR_LF {
    } else {
        lemma_erase_line_idempotent(s.drop_last());
    }
}

/// Without any CR LF pair, erase-current-line empties the buffer.
pub proof fn lemma_erase_line_empties_without_crlf(s: Seq<u8>)
    requires
        !has_crlf(s),
    ensures
        erase_line_seq(s) == Seq::<u8>::empty(),
    decreases s.len(),
{
    if s.len() < 2 {
    } else if s[s.len() - 2] == CHAR_CR && s[s.len() - 1] == CHAR_LF {
        assert(has_crlf(s)) by {
            assert(s[s.len() - 2] == CHAR_CR && s[s.len() - 2 + 1] == CHAR_LF);
        }
    } else {
        let prior = s.drop_last();
        assert(!has_crlf(prior)) by {
            if has_crlf(prior) {
                let i = choose|i: int|
                    0 <= i && i + 1 < prior.len() && #[trigger] prior[i] == CHAR_CR && prior[i + 1]
                        == CHAR_LF;
                assert(s[i] == CHAR_CR && s[i + 1] == CHAR_LF);
            }
        }
        lemma_erase_line_empties_without_crlf(prior);
    }
}

/// With a CR LF pair present, erase-current-line keeps exactly the prefix
/// up to and including the last CR LF of the buffer.
pub proof fn lemma_erase_line_keeps_last_crlf(s: Seq<u8>)
    requires
        has_crlf(s),
    ensures
        ({
            let r = erase_line_seq(s);
            &&& 2 <= r.len() <= s.len()
            &&& r == s.take(r.len() as int)
            &&& s[r.len() - 2] == CHAR_CR && s[r.len() - 1] == CHAR_LF
            &&& forall|i: int|
                r.len() - 1 <= i && i + 1 < s.len() ==> !(#[trigger] s[i] == CHAR_CR && s[i + 1]
                    == CHAR_LF)
        }),
    decreases s.len(),
{
    if s.len() < 2 {
    } else if s[s.len() - 2] == CHAR_CR && s[s.len() - 1] == CHAR_LF {
        assert(erase_line_seq(s) == s);
        assert(s =~= s.take(s.len() as int));
    } else {
        let prior = s.drop_last();
        assert(has_crlf(prior)) by {
            let i = choose|i: int|
                0 <= i && i + 1 < s.len() && #[trigger] s[i] == CHAR_CR && s[i + 1] == CHAR_LF;
            if i + 1 == s.len() - 1 {
                assert(s[s.len() - 2] == CHAR_CR && s[s.len() - 1] == CHAR_LF);
            } else {
                assert(prior[i] == CHAR_CR && prior[i + 1] == CHAR_LF);
            }
        }
        lemma_erase_line_keeps_last_crlf(prior);
        let r = erase_line_seq(prior);
        assert(prior.take(r.len() as int) =~= s.take(r.len() as int));
        assert(s[r.len() - 2] == prior[r.len() - 2]);
        assert(s[r.len() - 1] == prior[r.len() - 1]);
        assert forall|i: int|
            r.len() - 1 <= i && i + 1 < s.len() implies !(#[trigger] s[i] == CHAR_CR && s[i + 1]
            == CHAR_LF) by {
            if i + 1 < s.len() - 1 {
                assert(prior[i] == s[i]);
                assert(prior[i + 1] == s[i + 1]);
            } else {
                assert(i == s.len() - 2);
            }
        }
    }
}

/// Whether `b` means something other than plain data when consumed in Idle
/// mode: the IAC lead-in, the CSI introducer, or an editing control.
pub open spec fn special_in_idle(b: u8) -> bool {
    ||| b == IAC
    ||| b == CHAR_ESCAPE
    ||| b == CHAR_BACK_SPACE
    ||| b == CHAR_DELETE
    ||| b == CHAR_ERASE
    ||| b == ERASE_LINE
}

/// Whether a byte sequence is pure payload: no command lead-in, no escape
/// introducer, no editing control.
pub open spec fn pure_payload(input: Seq<u8>) -> bool {
    forall|i: int| 0 <= i < input.len() ==> !special_in_idle(#[trigger] input[i])
}

/// Pure payload passes through unchanged: an Idle decoder appends it to the
/// output buffer as it is, mirrors it byte for byte when echoing, and
/// replies with nothing otherwise.
pub proof fn lemma_pure_payload_round_trip(s: AbstractState, input: Seq<u8>)
    requires
        s.mode == Mode::Idle,
        pure_payload(input),
    ensures
        run(s, input) == (RunOutcome::Accepted {
            state: (AbstractState { buffer: s.buffer + input, ..s }),
            reply: (if s.echo {
                input
            } else {
                Seq::<u8>::empty()
            }),
        }),
    decreases input.len(),
{
    if input.len() == 0 {
        assert(s.buffer + input =~= s.buffer);
        assert(input =~= Seq::<u8>::empty());
    } else {
        let b = input[0];
        assert(!special_in_idle(b));
        let rest = input.drop_first();
        assert forall|i: int| 0 <= i < rest.len() implies !special_in_idle(
            #[trigger] rest[i],
        ) by {
            assert(rest[i] == input[i + 1]);
        }
        let s2 = AbstractState { buffer: s.buffer.push(b), ..s };
        lemma_pure_payload_round_trip(s2, rest);
        assert(s.buffer.push(b) + rest =~= s.buffer + input);
        if s.echo {
            assert(seq![b] + rest =~= input);
        } else {
            assert(Seq::<u8>::empty() + Seq::<u8>::empty() =~= Seq::<u8>::empty());
        }
    }
}

/// Erase-current-line only ever removes bytes from the tail: the result is
/// a prefix of the buffer it was applied to.
pub proof fn lemma_erase_line_is_prefix(s: Seq<u8>)
    ensures
        erase_line_seq(s).len() <= s.len(),
        erase_line_seq(s) == s.take(erase_line_seq(s).len() as int),
    decreases s.len(),
{
    if s.len() < 2 {
        assert(erase_line_seq(s) =~= s.take(0));
    } else if s[s.len() - 2] == CHAR_CR && s[s.len() - 1] == CHAR_LF {
        assert(s =~= s.take(s.len() as int));
    } else {
        let prior = s.drop_last();
        lemma_erase_line_is_prefix(prior);
        let r = erase_line_seq(prior);
        assert(prior.take(r.len() as int) =~= s.take(r.len() as int));
    }
}

/// A buffer is clean when it holds no IAC byte and, for a decoder that
/// discards ANSI escape sequences, no ESC byte either.
pub open spec fn buffer_clean(s: AbstractState) -> bool {
    forall|i: int|
        0 <= i < s.buffer.len() ==> #[trigger] s.buffer[i] != IAC && s.buffer[i] != CHAR_ESCAPE
}

/// One step keeps a clean buffer clean, as long as the decoder discards
/// ANSI escape sequences. (With escape handling on, the body of a sequence
/// is kept verbatim and may contain any byte, so no such bound holds.)
pub proof fn lemma_step_keeps_buffer_clean(s: AbstractState, b: u8)
    requires
        !s.ansi,
        buffer_clean(s),
    ensures
        step(s, b) matches Some(p) ==> buffer_clean(p.0) && p.0.ansi == s.ansi,
{
    if s.mode == Mode::Idle {
        if b == ERASE_LINE {
            lemma_erase_line_is_prefix(s.buffer);
            let r = erase_line_seq(s.buffer);
            assert forall|i: int| 0 <= i < r.len() implies #[trigger] r[i] != IAC && r[i]
                != CHAR_ESCAPE by {
                assert(r[i] == s.buffer[i]);
            }
        }
    }
}

/// Feeding any byte sequence into a decoder that discards ANSI escape
/// sequences keeps the output buffer free of IAC and ESC bytes, whether or
/// not a malformed command cuts the run short.
pub proof fn lemma_write_keeps_buffer_clean(s: AbstractState, input: Seq<u8>)
    requires
        !s.ansi,
        buffer_clean(s),
    ensures
        (match run(s, input) {
            RunOutcome::Accepted { state, .. } => buffer_clean(state),
            RunOutcome::Rejected { state, .. } => buffer_clean(state),
        }),
    decreases input.len(),
{
    if input.len() > 0 {
        match step(s, input[0]) {
            Option::None => {},
            Option::Some(p) => {
                lemma_step_keeps_buffer_clean(s, input[0]);
                lemma_write_keeps_buffer_clean(p.0, input.drop_first());
            },
        }
    }
}

/// The choice whether ANSI escape sequences are handled is made at
/// construction and no input ever changes it.
pub proof fn lemma_ansi_handling_is_fixed(s: AbstractState, input: Seq<u8>)
    ensures
        (match run(s, input) {
            RunOutcome::Accepted { state, .. } => state.ansi == s.ansi,
            RunOutcome::Rejected { state, .. } => state.ansi == s.ansi,
        }),
    decreases input.len(),
{
    if input.len() > 0 {
        match step(s, input[0]) {
            Option::None => {},
            Option::Some(p) => {
                lemma_ansi_handling_is_fixed(p.0, input.drop_first());
            },
        }
    }
}

/// With echoing off, pure payload draws no response bytes at all.
pub proof fn lemma_no_echo_no_reply(s: AbstractState, input: Seq<u8>)
    requires
        s.mode == Mode::Idle,
        !s.echo,
        pure_payload(input),
    ensures
        run(s, input) matches RunOutcome::Accepted { reply, .. } && reply == Seq::<u8>::empty(),
{
    lemma_pure_payload_round_trip(s, input);
}

} // verus!
