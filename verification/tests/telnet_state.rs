use telnet_server::state::{Mode, State, StateConfig, TelnetError};

fn fresh_state() -> State {
    State::new(&StateConfig::default())
}

#[test]
fn erase_current_line_should_work() {
    let mut buffer = vec![b'a', b'b', b'c', b'\r', b'\n', b'd', b'e', b'f'];
    State::erase_current_line(&mut buffer);
    /* RFC-854: 'The recipient should delete characters from the data stream
     * back to, but not including, the last "CR LF" sequence sent over the
     * TELNET connection.' */
    assert_eq!(buffer, [b'a', b'b', b'c', b'\r', b'\n']);

    State::erase_current_line(&mut buffer);
    assert_eq!(buffer, [b'a', b'b', b'c', b'\r', b'\n']);

    let mut buffer = vec![b'a', b'b', b'c', b'd', b'e', b'f'];
    State::erase_current_line(&mut buffer);
    assert!(buffer.is_empty());
}

#[test]
fn echo_negotiation() {
    let mut state = fresh_state();

    let reply = state.write(&[255, 253, 1]).unwrap();

    assert_eq!(reply, Some(vec![255, 251, 1]));
    assert!(state.is_echoing());
    assert!(state.output_bytes().is_empty());
}

#[test]
fn echo_of_data() {
    let mut state = fresh_state();
    state.write(&[255, 253, 1]).unwrap();

    let reply = state.write(&[b'h', b'i']).unwrap();

    assert_eq!(reply, Some(vec![b'h', b'i']));
    assert_eq!(state.output_bytes(), &vec![b'h', b'i']);
}

#[test]
fn backspace_with_echo() {
    let mut state = fresh_state();
    state.write(&[255, 253, 1]).unwrap();
    state.write(&[b'h', b'i']).unwrap();

    let reply = state.write(&[127]).unwrap();

    assert_eq!(reply, Some(vec![8, 32, 8]));
    assert_eq!(state.output_bytes(), &vec![b'h']);
}

#[test]
fn unknown_do_is_refused() {
    let mut state = fresh_state();

    let reply = state.write(&[255, 253, 42]).unwrap();

    assert_eq!(reply, Some(vec![255, 252, 42]));
    assert!(!state.is_echoing());
}

#[test]
fn sub_negotiation_is_discarded() {
    let mut state = fresh_state();

    let reply = state.write(&[255, 250, 24, 0, b'X', 255, 240, b'A']).unwrap();

    assert_eq!(reply, None);
    assert_eq!(state.output_bytes(), &vec![b'A']);
}

#[test]
fn erase_line_preserves_trailing_crlf() {
    let mut state = fresh_state();
    let reply = state.write(&[b'a', b'b', b'c', b'\r', b'\n', b'd', b'e', b'f']).unwrap();
    assert_eq!(reply, None);

    let reply = state.write(&[248]).unwrap();

    assert_eq!(reply, None);
    assert_eq!(state.output_bytes(), &vec![b'a', b'b', b'c', b'\r', b'\n']);
}

#[test]
fn ignored_csi_rings_the_bell() {
    let config = StateConfig { handle_ansi_escape_sequences: false };
    let mut state = State::new(&config);

    let reply = state.write(&[27, b'[', b'3', b'1', b'm']).unwrap();

    assert_eq!(reply, Some(vec![7]));
    assert!(state.output_bytes().is_empty());
    assert_eq!(state.mode(), Mode::Idle);
}

#[test]
fn malformed_command_is_an_error() {
    let mut state = fresh_state();

    let result = state.write(&[255, 99]);

    assert_eq!(result, Err(TelnetError::InvalidInput(99)));
}

#[test]
fn malformed_command_keeps_earlier_payload() {
    let mut state = fresh_state();

    let result = state.write(&[b'a', 255, 99]);

    assert_eq!(result, Err(TelnetError::InvalidInput(99)));
    assert_eq!(state.output_bytes(), &vec![b'a']);
}

#[test]
fn pure_payload_round_trips() {
    let mut state = fresh_state();
    let payload = b"hi there\n";

    let reply = state.write(payload).unwrap();
    assert_eq!(reply, None);

    let mut drained = vec![0u8; payload.len()];
    let n = state.read(&mut drained);

    assert_eq!(n, payload.len());
    assert_eq!(drained, payload);
    assert!(state.output_bytes().is_empty());
}

#[test]
fn read_drains_from_the_head() {
    let mut state = fresh_state();
    state.write(b"hello").unwrap();

    let mut first = vec![0u8; 3];
    let n = state.read(&mut first);
    assert_eq!(n, 3);
    assert_eq!(first, b"hel");

    let mut second = vec![0u8; 10];
    let n = state.read(&mut second);
    assert_eq!(n, 2);
    assert_eq!(&second[..2], b"lo");
    assert_eq!(&second[2..], [0u8; 8]);
}

#[test]
fn read_of_empty_buffer_returns_zero() {
    let mut state = fresh_state();

    let mut dst = vec![0u8; 4];
    let n = state.read(&mut dst);

    assert_eq!(n, 0);
    assert_eq!(dst, [0u8; 4]);
}

#[test]
fn empty_write_has_no_reply() {
    let mut state = fresh_state();

    let reply = state.write(&[]).unwrap();

    assert_eq!(reply, None);
    assert_eq!(state.mode(), Mode::Idle);
}

#[test]
fn erase_line_with_echo_replies_with_clear_sequence() {
    let mut state = fresh_state();
    state.write(&[255, 253, 1]).unwrap();
    state.write(&[b'a', b'b']).unwrap();

    let reply = state.write(&[248]).unwrap();

    assert_eq!(reply, Some(vec![27, 91, 50, 75, 13]));
    assert!(state.output_bytes().is_empty());
}

#[test]
fn backspace_on_empty_buffer_is_harmless() {
    let mut state = fresh_state();

    let reply = state.write(&[127]).unwrap();

    assert_eq!(reply, None);
    assert!(state.output_bytes().is_empty());
}

#[test]
fn erase_character_controls_pop_one_byte() {
    let mut state = fresh_state();
    state.write(&[b'a', b'b']).unwrap();

    state.write(&[8]).unwrap();
    assert_eq!(state.output_bytes(), &vec![b'a']);

    state.write(&[247]).unwrap();
    assert!(state.output_bytes().is_empty());
}

#[test]
fn handled_csi_is_kept_as_payload() {
    let config = StateConfig { handle_ansi_escape_sequences: true };
    let mut state = State::new(&config);

    let reply = state.write(&[27, b'[', b'3', b'1', b'm', b'x']).unwrap();

    assert_eq!(reply, None);
    assert_eq!(state.output_bytes(), &vec![27, 91, 51, 49, 109, b'x']);
    assert_eq!(state.mode(), Mode::Idle);
}

#[test]
fn dont_echo_turns_echoing_off() {
    let mut state = fresh_state();
    state.write(&[255, 253, 1]).unwrap();
    assert!(state.is_echoing());

    let reply = state.write(&[255, 254, 1]).unwrap();

    assert_eq!(reply, Some(vec![255, 252, 1]));
    assert!(!state.is_echoing());
}

#[test]
fn will_and_wont_are_ignored() {
    let mut state = fresh_state();

    let reply = state.write(&[255, 251, 5, 255, 252, 6, b'z']).unwrap();

    assert_eq!(reply, None);
    assert_eq!(state.output_bytes(), &vec![b'z']);
    assert_eq!(state.mode(), Mode::Idle);
}

#[test]
fn escape_is_echoed_while_a_sequence_starts() {
    let mut state = fresh_state();
    state.write(&[255, 253, 1]).unwrap();

    let reply = state.write(&[27]).unwrap();

    assert_eq!(reply, Some(vec![27]));
    assert!(state.output_bytes().is_empty());
    assert_eq!(state.mode(), Mode::AnsiEscapeSequence);
}

#[test]
fn escape_is_kept_and_echoed_when_ansi_is_handled() {
    let config = StateConfig { handle_ansi_escape_sequences: true };
    let mut state = State::new(&config);
    state.write(&[255, 253, 1]).unwrap();

    let reply = state.write(&[27]).unwrap();

    assert_eq!(reply, Some(vec![27]));
    assert_eq!(state.output_bytes(), &vec![27]);
    assert_eq!(state.mode(), Mode::AnsiEscapeSequence);
}

#[test]
fn iac_alone_waits_for_a_command() {
    let mut state = fresh_state();

    let reply = state.write(&[255]).unwrap();

    assert_eq!(reply, None);
    assert_eq!(state.mode(), Mode::Command);
    assert!(state.output_bytes().is_empty());
}
