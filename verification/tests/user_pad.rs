use std::str::FromStr;

use xotpad::pad_params::PadParams;
use xotpad::user_pad::{
    call_address, command_key, data_input, ensure_command, handle_char_delete,
    handle_command_input, handle_line_delete, handle_line_display, in_escape_sequence,
    is_data_ready_to_send, is_exit, is_general_help, queue_and_send_data_if_ready, read_params,
    set_params, trim_complete_escape_sequence, CommandKey, PadLocalState,
};
use xotpad::x25::X25Params;
use xotpad::user_x3::{UserPadParams, X3CharDelete, X3LineDelete, X3LineDisplay};
use xotpad::x121::X121Addr;
use xotpad::x28::X28Selection;
use xotpad::x3::{X3Echo, X3Editing, X3Forward, X3Idle, X3LfInsert, X3Params};

fn params(echo: u8, lf_insert: u8, editing: u8) -> PadParams<UserPadParams> {
    PadParams {
        echo: X3Echo::try_from(echo).unwrap(),
        forward: X3Forward::try_from(126).unwrap(),
        idle: X3Idle::from(0),
        lf_insert: X3LfInsert::try_from(lf_insert).unwrap(),
        editing: X3Editing::try_from(editing).unwrap(),
        delegate: Some(UserPadParams {
            char_delete: X3CharDelete::try_from(127).unwrap(),
            line_delete: X3LineDelete::try_from(24).unwrap(),
            line_display: X3LineDisplay::try_from(18).unwrap(),
        }),
    }
}

#[test]
fn call_address_wants_one_full_address_and_nothing_else() {
    let selection = X28Selection::from_str("12345").unwrap();
    assert_eq!(
        call_address(&selection),
        Some(X121Addr::from_str("12345").unwrap())
    );
    for other in ["12345,678", ".name", "R-12345", "12345*data", "-12345Dx"] {
        let selection = X28Selection::from_str(other).unwrap();
        assert_eq!(call_address(&selection), None, "{other}");
    }
    assert!(call_address(&X28Selection::from_str("-12345").unwrap()).is_some());
}

#[test]
fn local_read_shows_values_or_nothing() {
    let params = params(1, 0, 0);
    assert_eq!(
        read_params(&params, &[2, 1, 17]),
        vec![(2, Some(1)), (1, None), (17, Some(24))]
    );
    assert_eq!(
        read_params(&params, &[]),
        vec![
            (2, Some(1)),
            (3, Some(126)),
            (4, Some(0)),
            (13, Some(0)),
            (15, Some(0)),
            (16, Some(127)),
            (17, Some(24)),
            (18, Some(18)),
        ]
    );
}

#[test]
fn local_set_shows_what_became_of_each_setting() {
    let mut params = params(1, 0, 0);
    assert_eq!(
        set_params(&mut params, &[(2, 0), (3, 128), (9, 1), (18, 5), (2, 1)]),
        vec![(2, Some(0)), (3, None), (9, None), (18, Some(5)), (2, Some(1))]
    );
    assert_eq!(params.get(2), Some(1));
    assert_eq!(params.get(3), Some(126));
    assert_eq!(params.get(18), Some(5));
    assert_eq!(set_params(&mut params, &[]), vec![]);
}

#[test]
fn char_delete_rubs_out() {
    let mut buf = b"ab".to_vec();
    assert_eq!(handle_char_delete(&mut buf), [0x08, 0x20, 0x08]);
    assert_eq!(buf, b"a");
    assert_eq!(handle_char_delete(&mut buf), [0x08, 0x20, 0x08]);
    assert!(buf.is_empty());
    assert!(handle_char_delete(&mut buf).is_empty());
    assert!(buf.is_empty());
}

#[test]
fn line_delete_and_display() {
    let mut buf = b"abc".to_vec();
    assert_eq!(handle_line_display(&buf), b"\r\nabc");
    assert_eq!(handle_line_delete(&mut buf), b"XXX\r\n");
    assert!(buf.is_empty());
    assert!(handle_line_delete(&mut buf).is_empty());
    assert_eq!(handle_line_display(&buf), b"\r\n");
}

#[test]
fn escape_sequences_are_taken_off_the_line() {
    assert!(!in_escape_sequence(&b"abc".to_vec()));
    assert!(in_escape_sequence(&b"a\x1bc".to_vec()));
    assert!(!in_escape_sequence(&vec![]));

    let mut buf = b"ab\x1b[A".to_vec();
    assert!(trim_complete_escape_sequence(&mut buf));
    assert_eq!(buf, b"ab");
    assert!(!trim_complete_escape_sequence(&mut buf));
    assert_eq!(buf, b"ab");

    // After "ESC O" one more character is awaited; the sequence of four
    // that this starts is not taken off.
    let mut buf = b"x\x1bOP".to_vec();
    assert!(!trim_complete_escape_sequence(&mut buf));
    assert_eq!(buf, b"x\x1bOP");
    let mut buf = b"\x1bOPQ".to_vec();
    assert!(!trim_complete_escape_sequence(&mut buf));

    let mut buf = b"\x1b[".to_vec();
    assert!(!trim_complete_escape_sequence(&mut buf));
}

#[test]
fn command_input_builds_the_line() {
    let mut buf = Vec::new();
    for &byte in b"stat" {
        let input = handle_command_input(&mut buf, byte, false);
        assert_eq!(input.line, None);
        assert_eq!(input.output, [byte]);
    }
    // Control characters are passed over.
    for byte in [0x00, 0x07, 0x0a, 0x1f] {
        let input = handle_command_input(&mut buf, byte, false);
        assert_eq!(input.line, None);
        assert!(input.output.is_empty());
    }
    assert_eq!(buf, b"stat");
    // Delete rubs out.
    let input = handle_command_input(&mut buf, 0x7f, false);
    assert_eq!(input.output, [0x08, 0x20, 0x08]);
    assert_eq!(buf, b"sta");
    // Bytes above ASCII join the line.
    let input = handle_command_input(&mut buf, 0xc3, false);
    assert_eq!(input.output, [0xc3]);
    // An escape sequence is not echoed and is taken off once complete.
    assert!(handle_command_input(&mut buf, 0x1b, false).output.is_empty());
    assert!(handle_command_input(&mut buf, b'[', false).output.is_empty());
    assert_eq!(buf, b"sta\xc3\x1b[");
    assert!(handle_command_input(&mut buf, b'A', false).output.is_empty());
    assert_eq!(buf, b"sta\xc3");
    // Carriage return ends the line.
    let input = handle_command_input(&mut buf, 0x0d, false);
    assert_eq!(input.line, Some(b"sta\xc3".to_vec()));
    assert_eq!(input.output, b"\r\n");
    assert!(buf.is_empty());
    let input = handle_command_input(&mut buf, 0x0d, false);
    assert_eq!(input.line, Some(vec![]));
}

#[test]
fn backspace_rubs_out_where_the_system_sends_it() {
    let mut buf = b"ab".to_vec();
    // Where only DEL deletes, backspace is a control character like others.
    let input = handle_command_input(&mut buf, 0x08, false);
    assert!(input.output.is_empty());
    assert_eq!(buf, b"ab");
    let input = handle_command_input(&mut buf, 0x08, true);
    assert_eq!(input.output, [0x08, 0x20, 0x08]);
    assert_eq!(buf, b"a");
    let input = handle_command_input(&mut buf, 0x7f, true);
    assert_eq!(input.output, [0x08, 0x20, 0x08]);
    assert!(buf.is_empty());
    let CommandKey::Input(input) = command_key(&mut buf, 0x08, false, true) else {
        panic!();
    };
    assert!(input.output.is_empty());
    assert_eq!(input.line, None);
}

#[test]
fn command_keys() {
    let mut buf = Vec::new();
    assert!(matches!(command_key(&mut buf, 0x03, true, false), CommandKey::Quit));
    assert!(matches!(command_key(&mut buf, 0x10, true, false), CommandKey::Resume));
    assert!(matches!(command_key(&mut buf, 0x10, false, false), CommandKey::Ignored));
    let CommandKey::Input(input) = command_key(&mut buf, b'a', false, false) else {
        panic!();
    };
    assert_eq!(input.output, b"a");
    assert_eq!(buf, b"a");
    assert!(matches!(command_key(&mut buf, 0x10, true, false), CommandKey::Ignored));
    assert_eq!(buf, b"a");
    assert!(matches!(command_key(&mut buf, 0x03, true, false), CommandKey::Cancelled));
    assert!(buf.is_empty());
}

#[test]
fn data_input_without_editing_sends_each_key() {
    let mut line = Vec::new();
    let input = data_input(b'a', &params(1, 0, 0), &mut line);
    assert_eq!(input.send, Some(vec![b'a']));
    assert!(input.output.is_empty());
    let input = data_input(0x7f, &params(1, 0, 0), &mut line);
    assert_eq!(input.send, Some(vec![0x7f]));
    assert!(line.is_empty());
}

#[test]
fn data_input_with_editing_works_on_the_line() {
    let params = params(1, 4, 1);
    let mut line = Vec::new();
    for &byte in b"abc" {
        let input = data_input(byte, &params, &mut line);
        assert_eq!(input.send, None);
        assert_eq!(input.output, [byte]);
    }
    // Character delete.
    let input = data_input(127, &params, &mut line);
    assert_eq!(input.output, [0x08, 0x20, 0x08]);
    assert_eq!(line, b"ab");
    // Line display (control-R).
    let input = data_input(18, &params, &mut line);
    assert_eq!(input.output, b"\r\nab");
    assert_eq!(input.send, None);
    // Carriage return sends the line; the echo gets a line feed.
    let input = data_input(0x0d, &params, &mut line);
    assert_eq!(input.output, b"\r\n");
    assert_eq!(input.send, Some(b"ab\r".to_vec()));
    assert!(line.is_empty());
    // Line delete (control-X).
    data_input(b'x', &params, &mut line);
    let input = data_input(24, &params, &mut line);
    assert_eq!(input.output, b"XXX\r\n");
    assert!(line.is_empty());
    let input = data_input(24, &params, &mut line);
    assert!(input.output.is_empty());
}

#[test]
fn data_input_with_editing_and_no_echo_is_silent() {
    let params = params(0, 4, 1);
    let mut line = Vec::new();
    let input = data_input(b'a', &params, &mut line);
    assert!(input.output.is_empty());
    let input = data_input(0x0d, &params, &mut line);
    assert!(input.output.is_empty());
    assert_eq!(input.send, Some(b"a\r".to_vec()));
}

#[test]
fn ensure_command_shows_the_prompt_once() {
    let mut state = PadLocalState::Data;
    assert_eq!(ensure_command(&mut state, true), b"\r\n*");
    assert_eq!(state, PadLocalState::Command);
    assert!(ensure_command(&mut state, true).is_empty());
    let mut state = PadLocalState::Data;
    assert_eq!(ensure_command(&mut state, false), b"*");
}

#[test]
fn exit_and_help_words_are_taken_in_upper_case() {
    assert!(is_exit("exit"));
    assert!(is_exit("EXIT"));
    assert!(is_exit("eXiT"));
    assert!(!is_exit("exit "));
    assert!(!is_exit("quit"));
    assert!(!is_exit(""));
    assert!(is_general_help(""));
    assert!(is_general_help("help"));
    assert!(is_general_help("HELP"));
    assert!(!is_general_help("call"));
    assert!(!is_general_help(" "));
}

#[test]
fn every_key_is_sent_by_a_pad_that_forwards_all() {
    let params = X25Params::with_addr(X121Addr::null());
    let mut buf = Vec::new();
    assert!(!is_data_ready_to_send(&buf, &params));
    assert_eq!(
        queue_and_send_data_if_ready(&mut buf, &params, b'a'),
        Some(vec![b'a'])
    );
    assert!(buf.is_empty());
    buf.push(b'x');
    assert!(is_data_ready_to_send(&buf, &params));
    assert_eq!(
        queue_and_send_data_if_ready(&mut buf, &params, b'y'),
        Some(vec![b'x', b'y'])
    );
}
