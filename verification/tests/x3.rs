use xotpad::pad_params::{read_params, set_params, set_read_params, PadParams};
use xotpad::user_x3::{is_char_delete, UserPadParams, X3CharDelete, X3LineDelete, X3LineDisplay};
use xotpad::x29::X29PadMessage;
use xotpad::x3::{
    X3Echo, X3Editing, X3Forward, X3Idle, X3LfInsert, X3ParamError, X3Params,
};

fn user_params() -> UserPadParams {
    UserPadParams {
        char_delete: X3CharDelete::try_from(127).unwrap(),
        line_delete: X3LineDelete::try_from(24).unwrap(),
        line_display: X3LineDisplay::try_from(18).unwrap(),
    }
}

fn pad_params(delegate: Option<UserPadParams>) -> PadParams<UserPadParams> {
    PadParams {
        echo: X3Echo::try_from(1).unwrap(),
        forward: X3Forward::try_from(126).unwrap(),
        idle: X3Idle::from(0),
        lf_insert: X3LfInsert::try_from(0).unwrap(),
        editing: X3Editing::try_from(0).unwrap(),
        delegate,
    }
}

/// A store that claims parameter 2 too, with a value of its own.
#[derive(Clone, Debug, PartialEq)]
struct Shadowing(u8, u8);

impl X3Params for Shadowing {
    fn get(&self, param: u8) -> Option<u8> {
        match param {
            2 => Some(self.0),
            99 => Some(self.1),
            _ => None,
        }
    }

    fn set(&mut self, param: u8, value: u8) -> Result<(), X3ParamError> {
        match param {
            2 => self.0 = value,
            99 => self.1 = value,
            _ => return Err(X3ParamError::Unsupported),
        }
        Ok(())
    }

    fn all(&self) -> Vec<(u8, u8)> {
        vec![(2, self.0), (99, self.1)]
    }
}

fn in_class(class: u8, byte: u8) -> bool {
    match class {
        1 => byte.is_ascii_alphanumeric(),
        2 => byte == 0x0d,
        4 => [0x1b, 0x07, 0x05, 0x06].contains(&byte),
        8 => [0x7f, 0x18, 0x12].contains(&byte),
        16 => [0x04, 0x03].contains(&byte),
        32 => [0x09, 0x0a, 0x0b, 0x0c].contains(&byte),
        64 => [
            0x00, 0x01, 0x02, 0x08, 0x0e, 0x0f, 0x10, 0x11, 0x13, 0x14, 0x15, 0x16, 0x17, 0x19,
            0x1a, 0x1c, 0x1d, 0x1e, 0x1f,
        ]
        .contains(&byte),
        _ => false,
    }
}

#[test]
fn forward_matches_the_classes_of_its_bits() {
    for mask in 0..=127u8 {
        let forward = X3Forward::try_from(mask).unwrap();
        for byte in 0..=255u8 {
            let expected = [1u8, 2, 4, 8, 16, 32, 64]
                .iter()
                .any(|&class| mask & class != 0 && in_class(class, byte));
            assert_eq!(forward.is_match(byte), expected, "mask {mask} byte {byte}");
        }
    }
}

#[test]
fn forward_default_mask_matches_controls_and_not_letters() {
    let forward = X3Forward::try_from(126).unwrap();
    assert!(forward.is_match(0x0d));
    assert!(forward.is_match(0x00));
    assert!(forward.is_match(0x7f));
    assert!(!forward.is_match(b'a'));
    assert!(!forward.is_match(b' '));
    assert!(!forward.is_match(0x80));
    assert!(X3Forward::try_from(1).unwrap().is_match(b'z'));
    assert!(!X3Forward::try_from(0).unwrap().is_match(0x0d));
}

#[test]
fn parameter_values_are_validated() {
    assert_eq!(*X3Echo::try_from(0).unwrap(), 0);
    assert_eq!(*X3Echo::try_from(1).unwrap(), 1);
    assert_eq!(X3Echo::try_from(2).unwrap_err(), X3ParamError::InvalidValue);
    assert!(X3Echo::try_from(1).unwrap().is_enabled());
    assert!(!X3Echo::try_from(0).unwrap().is_enabled());

    assert_eq!(*X3Forward::try_from(127).unwrap(), 127);
    assert_eq!(X3Forward::try_from(128).unwrap_err(), X3ParamError::InvalidValue);

    assert_eq!(*X3Idle::from(255), 255);

    assert_eq!(*X3LfInsert::try_from(7).unwrap(), 7);
    assert_eq!(X3LfInsert::try_from(8).unwrap_err(), X3ParamError::InvalidValue);

    assert_eq!(*X3Editing::try_from(1).unwrap(), 1);
    assert_eq!(X3Editing::try_from(2).unwrap_err(), X3ParamError::InvalidValue);
    assert!(X3Editing::try_from(1).unwrap().is_enabled());

    assert_eq!(*X3CharDelete::try_from(127).unwrap(), 127);
    assert_eq!(X3CharDelete::try_from(8).unwrap_err(), X3ParamError::InvalidValue);
    assert_eq!(*X3LineDelete::try_from(0).unwrap(), 0);
    assert_eq!(X3LineDelete::try_from(128).unwrap_err(), X3ParamError::InvalidValue);
    assert_eq!(*X3LineDisplay::try_from(127).unwrap(), 127);
    assert_eq!(X3LineDisplay::try_from(200).unwrap_err(), X3ParamError::InvalidValue);
}

#[test]
fn idle_delay_is_fifty_milliseconds_a_unit() {
    assert_eq!(X3Idle::from(0).delay(), None);
    assert_eq!(X3Idle::from(1).delay(), Some(50));
    assert_eq!(X3Idle::from(20).delay(), Some(1000));
    assert_eq!(X3Idle::from(255).delay(), Some(12750));
}

#[test]
fn lf_insert_bits() {
    for value in 0..=7u8 {
        let lf = X3LfInsert::try_from(value).unwrap();
        assert_eq!(lf.after_recv(0x0d), value & 1 != 0);
        assert_eq!(lf.after_send(0x0d), value & 2 != 0);
        assert_eq!(lf.after_echo(0x0d), value & 4 != 0);
        assert!(!lf.after_recv(0x0a));
        assert!(!lf.after_send(b'a'));
        assert!(!lf.after_echo(0x00));
    }
}

#[test]
fn editing_characters_match_themselves() {
    let params = user_params();
    assert!(params.char_delete.is_match(127));
    assert!(!params.char_delete.is_match(8));
    assert!(params.line_delete.is_match(24));
    assert!(!params.line_delete.is_match(25));
    assert!(params.line_display.is_match(18));
    assert!(!params.line_display.is_match(0));
    for backspace_deletes in [false, true] {
        assert!(is_char_delete(0x7f, backspace_deletes));
        assert_eq!(is_char_delete(0x08, backspace_deletes), backspace_deletes);
        assert!(!is_char_delete(b'a', backspace_deletes));
        assert!(!is_char_delete(0x00, backspace_deletes));
    }
}

#[test]
fn user_pad_params_store() {
    let mut params = user_params();
    assert_eq!(params.get(16), Some(127));
    assert_eq!(params.get(17), Some(24));
    assert_eq!(params.get(18), Some(18));
    assert_eq!(params.get(2), None);
    assert_eq!(params.all(), vec![(16, 127), (17, 24), (18, 18)]);

    assert_eq!(params.set(17, 21), Ok(()));
    assert_eq!(params.get(17), Some(21));
    assert_eq!(params.set(16, 8), Err(X3ParamError::InvalidValue));
    assert_eq!(params.set(18, 128), Err(X3ParamError::InvalidValue));
    assert_eq!(params.set(2, 0), Err(X3ParamError::Unsupported));
    assert_eq!(params.all(), vec![(16, 127), (17, 21), (18, 18)]);
}

#[test]
fn pad_params_store_hands_unknown_parameters_on() {
    let mut params = pad_params(Some(user_params()));
    assert_eq!(params.get(2), Some(1));
    assert_eq!(params.get(3), Some(126));
    assert_eq!(params.get(4), Some(0));
    assert_eq!(params.get(13), Some(0));
    assert_eq!(params.get(15), Some(0));
    assert_eq!(params.get(16), Some(127));
    assert_eq!(params.get(1), None);
    assert_eq!(
        params.all(),
        vec![
            (2, 1),
            (3, 126),
            (4, 0),
            (13, 0),
            (15, 0),
            (16, 127),
            (17, 24),
            (18, 18)
        ]
    );

    assert_eq!(params.set(2, 0), Ok(()));
    assert_eq!(params.set(2, 2), Err(X3ParamError::InvalidValue));
    assert_eq!(params.set(3, 128), Err(X3ParamError::InvalidValue));
    assert_eq!(params.set(4, 200), Ok(()));
    assert_eq!(params.set(13, 8), Err(X3ParamError::InvalidValue));
    assert_eq!(params.set(15, 1), Ok(()));
    assert_eq!(params.set(17, 1), Ok(()));
    assert_eq!(params.set(17, 128), Err(X3ParamError::InvalidValue));
    assert_eq!(params.set(1, 0), Err(X3ParamError::Unsupported));
    assert_eq!(params.get(2), Some(0));
    assert_eq!(params.get(4), Some(200));
    assert_eq!(params.get(15), Some(1));
    assert_eq!(params.get(17), Some(1));
    assert_eq!(params.get(3), Some(126));

    let mut alone = pad_params(None);
    assert_eq!(alone.get(16), None);
    assert_eq!(alone.set(16, 127), Err(X3ParamError::Unsupported));
    assert_eq!(alone.all().len(), 5);
}

#[test]
fn pad_params_own_parameters_hide_the_delegates() {
    let mut params = PadParams {
        echo: X3Echo::try_from(1).unwrap(),
        forward: X3Forward::try_from(0).unwrap(),
        idle: X3Idle::from(0),
        lf_insert: X3LfInsert::try_from(0).unwrap(),
        editing: X3Editing::try_from(0).unwrap(),
        delegate: Some(Shadowing(55, 66)),
    };
    assert_eq!(params.get(2), Some(1));
    assert_eq!(params.get(99), Some(66));
    assert_eq!(
        params.all(),
        vec![(2, 1), (3, 0), (4, 0), (13, 0), (15, 0), (99, 66)]
    );
    assert_eq!(params.set(2, 0), Ok(()));
    assert_eq!(params.delegate, Some(Shadowing(55, 66)));
    assert_eq!(params.set(99, 1), Ok(()));
    assert_eq!(params.delegate, Some(Shadowing(55, 1)));
}

#[test]
fn read_request_is_answered_with_values() {
    let params = pad_params(Some(user_params()));
    assert_eq!(
        read_params(&params, &[2, 1, 16]),
        X29PadMessage::Indicate(vec![
            (2, Ok(1)),
            (1, Err(X3ParamError::Unsupported)),
            (16, Ok(127))
        ])
    );
    assert_eq!(
        read_params(&params, &[]),
        X29PadMessage::Indicate(vec![
            (2, Ok(1)),
            (3, Ok(126)),
            (4, Ok(0)),
            (13, Ok(0)),
            (15, Ok(0)),
            (16, Ok(127)),
            (17, Ok(24)),
            (18, Ok(18)),
        ])
    );
}

#[test]
fn set_request_is_answered_with_failures_only() {
    let mut params = pad_params(Some(user_params()));
    assert_eq!(set_params(&mut params, &[(2, 0), (4, 10)]), Ok(None));
    assert_eq!(params.get(2), Some(0));
    assert_eq!(params.get(4), Some(10));

    assert_eq!(
        set_params(&mut params, &[(2, 5), (3, 1), (1, 1), (16, 1), (2, 1)]),
        Ok(Some(X29PadMessage::Indicate(vec![
            (2, Err(X3ParamError::InvalidValue)),
            (1, Err(X3ParamError::Unsupported)),
            (16, Err(X3ParamError::InvalidValue)),
        ])))
    );
    assert_eq!(params.get(2), Some(1));
    assert_eq!(params.get(3), Some(1));
}

#[test]
fn set_read_request_is_answered_with_every_parameter() {
    let mut params = pad_params(Some(user_params()));
    assert_eq!(
        set_read_params(&mut params, &[(2, 0), (3, 200), (17, 3), (50, 0), (2, 1)]),
        Ok(X29PadMessage::Indicate(vec![
            (2, Ok(0)),
            (3, Err(X3ParamError::InvalidValue)),
            (17, Ok(3)),
            (50, Err(X3ParamError::Unsupported)),
            (2, Ok(1)),
        ]))
    );
    assert_eq!(params.get(2), Some(1));
    assert_eq!(params.get(3), Some(126));
    assert_eq!(params.get(17), Some(3));
}

#[test]
fn empty_set_requests_are_rejected() {
    let mut params = pad_params(Some(user_params()));
    assert_eq!(set_params(&mut params, &[]), Err(X3ParamError::InvalidValue));
    assert_eq!(
        set_read_params(&mut params, &[]),
        Err(X3ParamError::InvalidValue)
    );
    assert_eq!(params.all(), pad_params(Some(user_params())).all());
}

#[test]
fn echo_is_suppressed_only_when_editing() {
    let mut params = pad_params(None);
    assert!(params.should_echo_write(false));
    assert!(params.should_echo_write(true));
    params.set(15, 1).unwrap();
    assert!(params.should_echo_write(false));
    assert!(!params.should_echo_write(true));
    params.set(2, 0).unwrap();
    assert!(!params.should_echo_write(false));
    assert!(!params.should_echo_write(true));
}
