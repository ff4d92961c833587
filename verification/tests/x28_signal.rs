use xotpad::x28::X28Signal;
use xotpad::x3::X3ParamError;

#[test]
fn fmt_cleared_local() {
    let signal = X28Signal::Cleared(None);

    assert_eq!(signal.to_string(), "CLR CONF");
}

#[test]
fn fmt_cleared_remote() {
    let signal = X28Signal::Cleared(Some((0, 0)));

    assert_eq!(signal.to_string(), "CLR TODO C:0 D:0");
}

#[test]
fn fmt_local_params() {
    let signal = X28Signal::LocalParams(vec![
        (1, Ok(1)),
        (2, Err(X3ParamError::Unsupported)),
        (3, Ok(3)),
    ]);

    assert_eq!(signal.to_string(), "PAR 1:1, 2:INV, 3:3");
}

#[test]
fn fmt_remote_params() {
    let signal = X28Signal::RemoteParams(vec![
        (1, Ok(1)),
        (2, Err(X3ParamError::Unsupported)),
        (3, Ok(3)),
    ]);

    assert_eq!(signal.to_string(), "RPAR 1:1, 2:INV, 3:3");
}

#[test]
fn fmt_other_signals() {
    assert_eq!(X28Signal::Connected(None).to_string(), "COM");
    assert_eq!(X28Signal::Free.to_string(), "FREE");
    assert_eq!(X28Signal::Engaged.to_string(), "ENGAGED");
    assert_eq!(X28Signal::Error.to_string(), "ERR");
    assert_eq!(X28Signal::LocalParams(vec![]).to_string(), "PAR ");
    assert_eq!(
        X28Signal::Cleared(Some((19, 255))).to_string(),
        "CLR TODO C:19 D:255"
    );
    assert_eq!(
        X28Signal::RemoteParams(vec![(127, Ok(100)), (10, Err(X3ParamError::Other))]).to_string(),
        "RPAR 127:100, 10:INV"
    );
}
