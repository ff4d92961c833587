//! X.28 service signals: what the PAD tells the user.

use crate::text::{push_decimal, spec_decimal};
use crate::x25::packet::X25CallRequest;
use crate::x3::X3ParamError;
use vstd::prelude::*;
use vstd::string::*;

verus! {

/// A service signal.
pub enum X28Signal {
    /// A call is connected: one that came in, with its call request, or
    /// one that was placed.
    Connected(Option<X25CallRequest>),
    /// The call is cleared: by the remote party, with its cause and
    /// diagnostic codes, or on the user's command.
    Cleared(Option<(u8, u8)>),
    Free,
    Engaged,
    LocalParams(Vec<(u8, Result<u8, X3ParamError>)>),
    RemoteParams(Vec<(u8, Result<u8, X3ParamError>)>),
    Error,
}

/// The word that names a clear cause. Every cause has the same name so far.
pub open spec fn spec_clear_cause(code: u8) -> Seq<char> {
    "TODO"@
}

/// One parameter as a signal shows it: `number:value`, or `number:INV` for
/// one that has no value.
pub open spec fn param_text(entry: (u8, Result<u8, X3ParamError>)) -> Seq<char> {
    spec_decimal(entry.0 as nat) + ":"@ + match entry.1 {
        Ok(value) => spec_decimal(value as nat),
        Err(_) => "INV"@,
    }
}

/// The parameters as a signal shows them, with a comma and a space between
/// one and the next.
pub open spec fn spec_format_params(params: Seq<(u8, Result<u8, X3ParamError>)>) -> Seq<char>
    decreases params.len(),
{
    if params.len() == 0 {
        Seq::empty()
    } else if params.len() == 1 {
        param_text(params[0])
    } else {
        spec_format_params(params.drop_last()) + ", "@ + param_text(params.last())
    }
}

impl X28Signal {
    /// The text of the signal.
    pub open spec fn spec_text(&self) -> Seq<char> {
        match self {
            X28Signal::Connected(_) => "COM"@,
            X28Signal::Cleared(Some((cause_code, diagnostic_code))) => "CLR "@ + spec_clear_cause(
                *cause_code,
            ) + " C:"@ + spec_decimal(*cause_code as nat) + " D:"@ + spec_decimal(
                *diagnostic_code as nat,
            ),
            X28Signal::Cleared(None) => "CLR CONF"@,
            X28Signal::Free => "FREE"@,
            X28Signal::Engaged => "ENGAGED"@,
            X28Signal::LocalParams(params) => "PAR "@ + spec_format_params(params@),
            X28Signal::RemoteParams(params) => "RPAR "@ + spec_format_params(params@),
            X28Signal::Error => "ERR"@,
        }
    }

    /// The text of the signal.
    pub fn to_string(&self) -> (text: String)
        ensures
            text@ == self.spec_text(),
    {
        match self {
            X28Signal::Connected(_) => "COM".to_owned(),
            X28Signal::Cleared(Some((cause_code, diagnostic_code))) => {
                let mut text = "CLR ".to_owned();
                text.append(clear_cause(*cause_code));
                text.append(" C:");
                push_decimal(&mut text, *cause_code as usize);
                text.append(" D:");
                push_decimal(&mut text, *diagnostic_code as usize);
                text
            },
            X28Signal::Cleared(None) => "CLR CONF".to_owned(),
            X28Signal::Free => "FREE".to_owned(),
            X28Signal::Engaged => "ENGAGED".to_owned(),
            X28Signal::LocalParams(params) => {
                let mut text = "PAR ".to_owned();
                text.append(format_params(params.as_slice()).as_str());
                text
            },
            X28Signal::RemoteParams(params) => {
                let mut text = "RPAR ".to_owned();
                text.append(format_params(params.as_slice()).as_str());
                text
            },
            X28Signal::Error => "ERR".to_owned(),
        }
    }
}

/// The word that names a clear cause.
pub fn clear_cause(code: u8) -> (name: &'static str)
    ensures
        name@ == spec_clear_cause(code),
{
    "TODO"
}

/// The parameters as a signal shows them.
pub fn format_params(params: &[(u8, Result<u8, X3ParamError>)]) -> (text: String)
    ensures
        text@ == spec_format_params(params@),
{
    let mut text = String::new();
    let mut i: usize = 0;
    proof {
        assert(params@.take(0) =~= Seq::empty());
    }
    while i < params.len()
        invariant
            i <= params.len(),
            text@ == spec_format_params(params@.take(i as int)),
        decreases params.len() - i,
    {
        let ghost before = text@;
        let ghost done = params@.take(i as int);
        let ghost next = params@.take(i as int + 1);
        proof {
            assert(next.drop_last() =~= done);
            assert(next.last() == params@[i as int]);
            if i == 0 {
                assert(next[0] == params@[0]);
            }
        }
        if i > 0 {
            text.append(", ");
        }
        let (param, value) = params[i];
        push_decimal(&mut text, param as usize);
        text.append(":");
        match value {
            Ok(value) => {
                push_decimal(&mut text, value as usize);
            },
            Err(_) => {
                text.append("INV");
            },
        }
        proof {
            if i == 0 {
                assert(before =~= Seq::empty());
                assert(text@ =~= param_text(params@[0]));
            } else {
                assert(text@ =~= before + ", "@ + param_text(params@[i as int]));
            }
        }
        i += 1;
    }
    proof {
        assert(params@.take(params.len() as int) =~= params@);
    }
    text
}

} // verus!
