//! X.3 parameters of the user-facing PAD: the local editing characters.

use crate::x3::{X3ParamError, X3Params};
use vstd::prelude::*;

verus! {

/// Number of the character delete parameter.
pub const PARAM_CHAR_DELETE: u8 = 16;

/// Number of the line delete parameter.
pub const PARAM_LINE_DELETE: u8 = 17;

/// Number of the line display parameter.
pub const PARAM_LINE_DISPLAY: u8 = 18;

/// Parameter 16: the character that deletes the last character of the line.
#[derive(Clone, Copy, Debug)]
pub struct X3CharDelete(u8);

impl X3CharDelete {
    pub closed spec fn spec_value(self) -> u8 {
        self.0
    }

    pub open spec fn valid(value: u8) -> bool {
        value == 127
    }

    #[verifier::type_invariant]
    spec fn inv(self) -> bool {
        Self::valid(self.0)
    }

    /// Accepts DEL, 127, alone.
    pub fn new(value: u8) -> (result: Result<X3CharDelete, X3ParamError>)
        ensures
            Self::valid(value) ==> result is Ok && result->Ok_0.spec_value() == value,
            !Self::valid(value) ==> result == Err::<X3CharDelete, X3ParamError>(
                X3ParamError::InvalidValue,
            ),
    {
        if value == 127 {
            Ok(X3CharDelete(value))
        } else {
            Err(X3ParamError::InvalidValue)
        }
    }

    pub fn value(&self) -> (value: u8)
        ensures
            value == self.spec_value(),
            Self::valid(value),
    {
        proof {
            use_type_invariant(self);
        }
        self.0
    }

    /// Whether `byte` is the character the parameter names.
    pub fn is_match(&self, byte: u8) -> (matches: bool)
        ensures
            matches == (byte == self.spec_value()),
    {
        byte == self.0
    }
}

impl TryFrom<u8> for X3CharDelete {
    type Error = X3ParamError;

    fn try_from(value: u8) -> (result: Result<X3CharDelete, X3ParamError>) {
        X3CharDelete::new(value)
    }
}

impl vstd::std_specs::convert::TryFromSpecImpl<u8> for X3CharDelete {
    open spec fn obeys_try_from_spec() -> bool {
        true
    }

    closed spec fn try_from_spec(value: u8) -> Result<X3CharDelete, X3ParamError> {
        if X3CharDelete::valid(value) {
            Ok(X3CharDelete(value))
        } else {
            Err(X3ParamError::InvalidValue)
        }
    }
}

/// What `try_from` makes of a value: the parameter with that value, or an
/// invalid value error for a value that the parameter does not take.
pub proof fn lemma_x3_char_delete_try_from(value: u8)
    ensures
        match <X3CharDelete as vstd::std_specs::convert::TryFromSpec<u8>>::try_from_spec(value) {
            Ok(param) => X3CharDelete::valid(value) && param.spec_value() == value,
            Err(err) => !X3CharDelete::valid(value) && err == X3ParamError::InvalidValue,
        },
{
}

impl core::ops::Deref for X3CharDelete {
    type Target = u8;

    fn deref(&self) -> (value: &u8)
        ensures
            *value == self.spec_value(),
    {
        &self.0
    }
}

/// Parameter 17: the character that deletes the line.
#[derive(Clone, Copy, Debug)]
pub struct X3LineDelete(u8);

impl X3LineDelete {
    pub closed spec fn spec_value(self) -> u8 {
        self.0
    }

    pub open spec fn valid(value: u8) -> bool {
        value <= 127
    }

    #[verifier::type_invariant]
    spec fn inv(self) -> bool {
        Self::valid(self.0)
    }

    /// Accepts the 7-bit characters, 0 to 127.
    pub fn new(value: u8) -> (result: Result<X3LineDelete, X3ParamError>)
        ensures
            Self::valid(value) ==> result is Ok && result->Ok_0.spec_value() == value,
            !Self::valid(value) ==> result == Err::<X3LineDelete, X3ParamError>(
                X3ParamError::InvalidValue,
            ),
    {
        if value <= 127 {
            Ok(X3LineDelete(value))
        } else {
            Err(X3ParamError::InvalidValue)
        }
    }

    pub fn value(&self) -> (value: u8)
        ensures
            value == self.spec_value(),
            Self::valid(value),
    {
        proof {
            use_type_invariant(self);
        }
        self.0
    }

    /// Whether `byte` is the character the parameter names.
    pub fn is_match(&self, byte: u8) -> (matches: bool)
        ensures
            matches == (byte == self.spec_value()),
    {
        byte == self.0
    }
}

impl TryFrom<u8> for X3LineDelete {
    type Error = X3ParamError;

    fn try_from(value: u8) -> (result: Result<X3LineDelete, X3ParamError>) {
        X3LineDelete::new(value)
    }
}

impl vstd::std_specs::convert::TryFromSpecImpl<u8> for X3LineDelete {
    open spec fn obeys_try_from_spec() -> bool {
        true
    }

    closed spec fn try_from_spec(value: u8) -> Result<X3LineDelete, X3ParamError> {
        if X3LineDelete::valid(value) {
            Ok(X3LineDelete(value))
        } else {
            Err(X3ParamError::InvalidValue)
        }
    }
}

/// What `try_from` makes of a value: the parameter with that value, or an
/// invalid value error for a value that the parameter does not take.
pub proof fn lemma_x3_line_delete_try_from(value: u8)
    ensures
        match <X3LineDelete as vstd::std_specs::convert::TryFromSpec<u8>>::try_from_spec(value) {
            Ok(param) => X3LineDelete::valid(value) && param.spec_value() == value,
            Err(err) => !X3LineDelete::valid(value) && err == X3ParamError::InvalidValue,
        },
{
}

impl core::ops::Deref for X3LineDelete {
    type Target = u8;

    fn deref(&self) -> (value: &u8)
        ensures
            *value == self.spec_value(),
    {
        &self.0
    }
}

/// Parameter 18: the character that displays the line again.
#[derive(Clone, Copy, Debug)]
pub struct X3LineDisplay(u8);

impl X3LineDisplay {
    pub closed spec fn spec_value(self) -> u8 {
        self.0
    }

    pub open spec fn valid(value: u8) -> bool {
        value <= 127
    }

    #[verifier::type_invariant]
    spec fn inv(self) -> bool {
        Self::valid(self.0)
    }

    /// Accepts the 7-bit characters, 0 to 127.
    pub fn new(value: u8) -> (result: Result<X3LineDisplay, X3ParamError>)
        ensures
            Self::valid(value) ==> result is Ok && result->Ok_0.spec_value() == value,
            !Self::valid(value) ==> result == Err::<X3LineDisplay, X3ParamError>(
                X3ParamError::InvalidValue,
            ),
    {
        if value <= 127 {
            Ok(X3LineDisplay(value))
        } else {
            Err(X3ParamError::InvalidValue)
        }
    }

    pub fn value(&self) -> (value: u8)
        ensures
            value == self.spec_value(),
            Self::valid(value),
    {
        proof {
            use_type_invariant(self);
        }
        self.0
    }

    /// Whether `byte` is the character the parameter names.
    pub fn is_match(&self, byte: u8) -> (matches: bool)
        ensures
            matches == (byte == self.spec_value()),
    {
        byte == self.0
    }
}

impl TryFrom<u8> for X3LineDisplay {
    type Error = X3ParamError;

    fn try_from(value: u8) -> (result: Result<X3LineDisplay, X3ParamError>) {
        X3LineDisplay::new(value)
    }
}

impl vstd::std_specs::convert::TryFromSpecImpl<u8> for X3LineDisplay {
    open spec fn obeys_try_from_spec() -> bool {
        true
    }

    closed spec fn try_from_spec(value: u8) -> Result<X3LineDisplay, X3ParamError> {
        if X3LineDisplay::valid(value) {
            Ok(X3LineDisplay(value))
        } else {
            Err(X3ParamError::InvalidValue)
        }
    }
}

/// What `try_from` makes of a value: the parameter with that value, or an
/// invalid value error for a value that the parameter does not take.
pub proof fn lemma_x3_line_display_try_from(value: u8)
    ensures
        match <X3LineDisplay as vstd::std_specs::convert::TryFromSpec<u8>>::try_from_spec(value) {
            Ok(param) => X3LineDisplay::valid(value) && param.spec_value() == value,
            Err(err) => !X3LineDisplay::valid(value) && err == X3ParamError::InvalidValue,
        },
{
}

impl core::ops::Deref for X3LineDisplay {
    type Target = u8;

    fn deref(&self) -> (value: &u8)
        ensures
            *value == self.spec_value(),
    {
        &self.0
    }
}

/// The parameters that the user-facing PAD keeps for itself.
#[derive(Debug)]
pub struct UserPadParams {
    pub char_delete: X3CharDelete,
    pub line_delete: X3LineDelete,
    pub line_display: X3LineDisplay,
}

impl Clone for UserPadParams {
    fn clone(&self) -> (copy: Self)
        ensures
            copy == *self,
    {
        UserPadParams {
            char_delete: self.char_delete,
            line_delete: self.line_delete,
            line_display: self.line_display,
        }
    }
}

impl X3Params for UserPadParams {
    open spec fn spec_get(&self, param: u8) -> Option<u8> {
        if param == PARAM_CHAR_DELETE {
            Some(self.char_delete.spec_value())
        } else if param == PARAM_LINE_DELETE {
            Some(self.line_delete.spec_value())
        } else if param == PARAM_LINE_DISPLAY {
            Some(self.line_display.spec_value())
        } else {
            None
        }
    }

    open spec fn spec_refusal(&self, param: u8, value: u8) -> Option<X3ParamError> {
        if param == PARAM_CHAR_DELETE {
            if X3CharDelete::valid(value) {
                None
            } else {
                Some(X3ParamError::InvalidValue)
            }
        } else if param == PARAM_LINE_DELETE {
            if X3LineDelete::valid(value) {
                None
            } else {
                Some(X3ParamError::InvalidValue)
            }
        } else if param == PARAM_LINE_DISPLAY {
            if X3LineDisplay::valid(value) {
                None
            } else {
                Some(X3ParamError::InvalidValue)
            }
        } else {
            Some(X3ParamError::Unsupported)
        }
    }

    open spec fn spec_all(&self) -> Seq<(u8, u8)> {
        seq![
            (PARAM_CHAR_DELETE, self.char_delete.spec_value()),
            (PARAM_LINE_DELETE, self.line_delete.spec_value()),
            (PARAM_LINE_DISPLAY, self.line_display.spec_value()),
        ]
    }

    fn get(&self, param: u8) -> (value: Option<u8>) {
        if param == PARAM_CHAR_DELETE {
            Some(self.char_delete.value())
        } else if param == PARAM_LINE_DELETE {
            Some(self.line_delete.value())
        } else if param == PARAM_LINE_DISPLAY {
            Some(self.line_display.value())
        } else {
            None
        }
    }

    fn set(&mut self, param: u8, value: u8) -> (result: Result<(), X3ParamError>) {
        if param == PARAM_CHAR_DELETE {
            match X3CharDelete::new(value) {
                Ok(char_delete) => {
                    self.char_delete = char_delete;
                    Ok(())
                },
                Err(err) => Err(err),
            }
        } else if param == PARAM_LINE_DELETE {
            match X3LineDelete::new(value) {
                Ok(line_delete) => {
                    self.line_delete = line_delete;
                    Ok(())
                },
                Err(err) => Err(err),
            }
        } else if param == PARAM_LINE_DISPLAY {
            match X3LineDisplay::new(value) {
                Ok(line_display) => {
                    self.line_display = line_display;
                    Ok(())
                },
                Err(err) => Err(err),
            }
        } else {
            Err(X3ParamError::Unsupported)
        }
    }

    fn all(&self) -> (list: Vec<(u8, u8)>) {
        let mut list: Vec<(u8, u8)> = Vec::new();
        list.push((PARAM_CHAR_DELETE, self.char_delete.value()));
        list.push((PARAM_LINE_DELETE, self.line_delete.value()));
        list.push((PARAM_LINE_DISPLAY, self.line_display.value()));
        proof {
            assert(list@ =~= self.spec_all());
        }
        list
    }
}

/// Whether `byte` is what the key that deletes a character sends: DEL,
/// and backspace too on a system whose terminals send that, as Windows
/// does.
pub open spec fn spec_is_char_delete(byte: u8, backspace_deletes: bool) -> bool {
    byte == 0x7f || (backspace_deletes && byte == 0x08)
}

/// Whether `byte` is what the key that deletes a character sends: DEL,
/// and backspace too where `backspace_deletes` says that the system's
/// terminals send that, as those of Windows do.
pub fn is_char_delete(byte: u8, backspace_deletes: bool) -> (is_delete: bool)
    ensures
        is_delete == spec_is_char_delete(byte, backspace_deletes),
{
    if backspace_deletes && byte == 0x08 {
        return true;
    }
    byte == 0x7f
}

} // verus!
