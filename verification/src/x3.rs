//! X.3 PAD parameters.

use vstd::prelude::*;

verus! {

/// Why a parameter could not be read or set.
#[derive(Clone, Copy, Debug, PartialEq, Eq, Structural)]
pub enum X3ParamError {
    /// The store has no such parameter.
    Unsupported,
    /// The parameter does not take that value.
    InvalidValue,
    Other,
}

/// A store of X.3 parameters, each a number with an 8-bit value.
///
/// The three `spec_` functions are the model of a store, and the contracts of
/// `get`, `set` and `all` hold a store to it. The stores of this library
/// define the model and are verified against it. A store written elsewhere
/// may leave the model as it stands here, unknown; what is proved of code
/// that uses such a store then rests on its methods doing what the
/// contracts say.
pub trait X3Params: Sized {
    /// The value of `param`, or `None` where the store has no such
    /// parameter.
    open spec fn spec_get(&self, param: u8) -> Option<u8> {
        arbitrary()
    }

    /// Why `param` cannot be set to `value`, or `None` where it can.
    open spec fn spec_refusal(&self, param: u8, value: u8) -> Option<X3ParamError> {
        arbitrary()
    }

    /// The parameters of the store with their values, in the store's order.
    open spec fn spec_all(&self) -> Seq<(u8, u8)> {
        arbitrary()
    }

    fn get(&self, param: u8) -> (value: Option<u8>)
        ensures
            value == self.spec_get(param),
    ;

    /// Sets `param` to `value`. A value that is refused leaves the store as
    /// it was; one that is accepted changes no other parameter, and does not
    /// change which values any parameter takes.
    fn set(&mut self, param: u8, value: u8) -> (result: Result<(), X3ParamError>)
        ensures
            match old(self).spec_refusal(param, value) {
                Some(err) => result == Err::<(), X3ParamError>(err) && *final(self) == *old(self),
                None => {
                    &&& result is Ok
                    &&& final(self).spec_get(param) == Some(value)
                    &&& forall|other: u8|
                        other != param ==> final(self).spec_get(other) == old(self).spec_get(
                            other,
                        )
                    &&& forall|p: u8, v: u8|
                        final(self).spec_refusal(p, v) == old(self).spec_refusal(p, v)
                },
            },
    ;

    fn all(&self) -> (list: Vec<(u8, u8)>)
        ensures
            list@ == self.spec_all(),
    ;
}

/// Parameter 2: whether the PAD echoes what the terminal sends.
#[derive(Clone, Copy, Debug)]
pub struct X3Echo(u8);

impl X3Echo {
    pub closed spec fn spec_value(self) -> u8 {
        self.0
    }

    pub open spec fn valid(value: u8) -> bool {
        value == 0 || value == 1
    }

    #[verifier::type_invariant]
    spec fn inv(self) -> bool {
        Self::valid(self.0)
    }

    /// Accepts 0 (off) and 1 (on).
    pub fn new(value: u8) -> (echo: Result<X3Echo, X3ParamError>)
        ensures
            Self::valid(value) ==> echo is Ok && echo->Ok_0.spec_value() == value,
            !Self::valid(value) ==> echo == Err::<X3Echo, X3ParamError>(X3ParamError::InvalidValue),
    {
        if value == 0 || value == 1 {
            Ok(X3Echo(value))
        } else {
            Err(X3ParamError::InvalidValue)
        }
    }

    pub fn value(&self) -> (value: u8)
        ensures
            value == self.spec_value(),
            Self::valid(value),
    {
        proof {
            use_type_invariant(self);
        }
        self.0
    }

    pub fn is_enabled(&self) -> (enabled: bool)
        ensures
            enabled == (self.spec_value() == 1),
    {
        self.0 == 1
    }
}

impl TryFrom<u8> for X3Echo {
    type Error = X3ParamError;

    fn try_from(value: u8) -> (result: Result<X3Echo, X3ParamError>) {
        X3Echo::new(value)
    }
}

impl vstd::std_specs::convert::TryFromSpecImpl<u8> for X3Echo {
    open spec fn obeys_try_from_spec() -> bool {
        true
    }

    closed spec fn try_from_spec(value: u8) -> Result<X3Echo, X3ParamError> {
        if X3Echo::valid(value) {
            Ok(X3Echo(value))
        } else {
            Err(X3ParamError::InvalidValue)
        }
    }
}

/// What `try_from` makes of a value: the parameter with that value, or an
/// invalid value error for a value that the parameter does not take.
pub proof fn lemma_x3_echo_try_from(value: u8)
    ensures
        match <X3Echo as vstd::std_specs::convert::TryFromSpec<u8>>::try_from_spec(value) {
            Ok(param) => X3Echo::valid(value) && param.spec_value() == value,
            Err(err) => !X3Echo::valid(value) && err == X3ParamError::InvalidValue,
        },
{
}

impl core::ops::Deref for X3Echo {
    type Target = u8;

    fn deref(&self) -> (value: &u8)
        ensures
            *value == self.spec_value(),
    {
        &self.0
    }
}

/// Whether `byte` is in the class of forwarding characters that bit
/// `class` of parameter 3 selects.
pub open spec fn in_forward_class(class: u8, byte: u8) -> bool {
    if class == 1 {
        (0x30 <= byte <= 0x39) || (0x41 <= byte <= 0x5a) || (0x61 <= byte <= 0x7a)
    } else if class == 2 {
        byte == 0x0d
    } else if class == 4 {
        byte == 0x1b || byte == 0x07 || byte == 0x05 || byte == 0x06
    } else if class == 8 {
        byte == 0x7f || byte == 0x18 || byte == 0x12
    } else if class == 16 {
        byte == 0x04 || byte == 0x03
    } else if class == 32 {
        byte == 0x09 || byte == 0x0a || byte == 0x0b || byte == 0x0c
    } else if class == 64 {
        byte == 0x00 || byte == 0x01 || byte == 0x02 || byte == 0x08 || byte == 0x0e || byte
            == 0x0f || byte == 0x10 || byte == 0x11 || byte == 0x13 || byte == 0x14 || byte
            == 0x15 || byte == 0x16 || byte == 0x17 || byte == 0x19 || byte == 0x1a || byte
            == 0x1c || byte == 0x1d || byte == 0x1e || byte == 0x1f
    } else {
        false
    }
}

/// Whether `byte` forwards under the mask `forward`: whether it is in the
/// class of one of the mask's bits.
pub open spec fn forward_matches(forward: u8, byte: u8) -> bool {
    ||| forward & 1 == 1 && in_forward_class(1, byte)
    ||| forward & 2 == 2 && in_forward_class(2, byte)
    ||| forward & 4 == 4 && in_forward_class(4, byte)
    ||| forward & 8 == 8 && in_forward_class(8, byte)
    ||| forward & 16 == 16 && in_forward_class(16, byte)
    ||| forward & 32 == 32 && in_forward_class(32, byte)
    ||| forward & 64 == 64 && in_forward_class(64, byte)
}

/// Parameter 3: the characters on which queued data is forwarded, a mask of
/// seven character classes.
#[derive(Clone, Copy, Debug)]
pub struct X3Forward(u8);

impl X3Forward {
    pub closed spec fn spec_value(self) -> u8 {
        self.0
    }

    pub open spec fn valid(value: u8) -> bool {
        value <= 127
    }

    #[verifier::type_invariant]
    spec fn inv(self) -> bool {
        Self::valid(self.0)
    }

    /// Accepts the 7-bit masks, 0 to 127.
    pub fn new(value: u8) -> (forward: Result<X3Forward, X3ParamError>)
        ensures
            Self::valid(value) ==> forward is Ok && forward->Ok_0.spec_value() == value,
            !Self::valid(value) ==> forward == Err::<X3Forward, X3ParamError>(
                X3ParamError::InvalidValue,
            ),
    {
        if value > 127 {
            Err(X3ParamError::InvalidValue)
        } else {
            Ok(X3Forward(value))
        }
    }

    pub fn value(&self) -> (value: u8)
        ensures
            value == self.spec_value(),
            Self::valid(value),
    {
        proof {
            use_type_invariant(self);
        }
        self.0
    }

    /// Whether `byte` is a forwarding character.
    pub fn is_match(&self, byte: u8) -> (matches: bool)
        ensures
            matches == forward_matches(self.spec_value(), byte),
    {
        let forward: u8 = self.0;
        if forward & 1 == 1 && ((0x30 <= byte && byte <= 0x39) || (0x41 <= byte && byte <= 0x5a)
            || (0x61 <= byte && byte <= 0x7a)) {
            return true;
        }
        if forward & 2 == 2 && byte == 0x0d {
            return true;
        }
        if forward & 4 == 4 && (byte == 0x1b || byte == 0x07 || byte == 0x05 || byte == 0x06) {
            return true;
        }
        if forward & 8 == 8 && (byte == 0x7f || byte == 0x18 || byte == 0x12) {
            return true;
        }
        if forward & 16 == 16 && (byte == 0x04 || byte == 0x03) {
            return true;
        }
        if forward & 32 == 32 && (byte == 0x09 || byte == 0x0a || byte == 0x0b || byte == 0x0c) {
            return true;
        }
        if forward & 64 == 64 && (byte == 0x00 || byte == 0x01 || byte == 0x02 || byte == 0x08
            || byte == 0x0e || byte == 0x0f || byte == 0x10 || byte == 0x11 || byte == 0x13
            || byte == 0x14 || byte == 0x15 || byte == 0x16 || byte == 0x17 || byte == 0x19
            || byte == 0x1a || byte == 0x1c || byte == 0x1d || byte == 0x1e || byte == 0x1f) {
            return true;
        }
        false
    }
}

impl TryFrom<u8> for X3Forward {
    type Error = X3ParamError;

    fn try_from(value: u8) -> (result: Result<X3Forward, X3ParamError>) {
        X3Forward::new(value)
    }
}

impl vstd::std_specs::convert::TryFromSpecImpl<u8> for X3Forward {
    open spec fn obeys_try_from_spec() -> bool {
        true
    }

    closed spec fn try_from_spec(value: u8) -> Result<X3Forward, X3ParamError> {
        if X3Forward::valid(value) {
            Ok(X3Forward(value))
        } else {
            Err(X3ParamError::InvalidValue)
        }
    }
}

/// What `try_from` makes of a value: the parameter with that value, or an
/// invalid value error for a value that the parameter does not take.
pub proof fn lemma_x3_forward_try_from(value: u8)
    ensures
        match <X3Forward as vstd::std_specs::convert::TryFromSpec<u8>>::try_from_spec(value) {
            Ok(param) => X3Forward::valid(value) && param.spec_value() == value,
            Err(err) => !X3Forward::valid(value) && err == X3ParamError::InvalidValue,
        },
{
}

impl core::ops::Deref for X3Forward {
    type Target = u8;

    fn deref(&self) -> (value: &u8)
        ensures
            *value == self.spec_value(),
    {
        &self.0
    }
}

/// The classes do not overlap, none holds a byte above 0x7f, together they
/// hold every control character, DEL, the digits and the letters, and a
/// mask with none of the seven bits matches nothing.
pub proof fn lemma_forward_classes(byte: u8)
    ensures
        forall|a: u8, b: u8|
            a != b && in_forward_class(a, byte) ==> !in_forward_class(b, byte),
        byte > 0x7f ==> forall|m: u8| !forward_matches(m, byte),
        forward_matches(127, byte) <==> (byte < 0x20 || byte == 0x7f || in_forward_class(
            1,
            byte,
        )),
        forall|m: u8| !forward_matches(0, byte) && (m & 127 == 0 ==> !forward_matches(m, byte)),
{
    assert(127u8 & 1 == 1 && 127u8 & 2 == 2 && 127u8 & 4 == 4 && 127u8 & 8 == 8 && 127u8 & 16
        == 16 && 127u8 & 32 == 32 && 127u8 & 64 == 64) by (bit_vector);
    assert(0u8 & 1 == 0 && 0u8 & 2 == 0 && 0u8 & 4 == 0 && 0u8 & 8 == 0 && 0u8 & 16 == 0 && 0u8
        & 32 == 0 && 0u8 & 64 == 0) by (bit_vector);
    assert forall|m: u8| m & 127 == 0 implies !forward_matches(m, byte) by {
        assert(m & 127 == 0 ==> m & 1 == 0 && m & 2 == 0 && m & 4 == 0 && m & 8 == 0 && m & 16
            == 0 && m & 32 == 0 && m & 64 == 0) by (bit_vector);
    }
}

/// Parameter 4: the idle time after which queued data is forwarded.
#[derive(Clone, Copy, Debug)]
pub struct X3Idle(u8);

impl X3Idle {
    pub closed spec fn spec_value(self) -> u8 {
        self.0
    }

    /// The delay in milliseconds, 50 for each unit; `None` when the timer
    /// is off.
    pub open spec fn spec_delay(self) -> Option<u64> {
        if self.spec_value() == 0 {
            None
        } else {
            Some((self.spec_value() * 50) as u64)
        }
    }

    /// Every value is accepted; 0 switches the timer off.
    pub fn new(value: u8) -> (idle: X3Idle)
        ensures
            idle.spec_value() == value,
    {
        X3Idle(value)
    }

    pub fn value(&self) -> (value: u8)
        ensures
            value == self.spec_value(),
    {
        self.0
    }

    pub fn delay(&self) -> (delay: Option<u64>)
        ensures
            delay == self.spec_delay(),
    {
        if self.0 == 0 {
            None
        } else {
            let units: u64 = self.0 as u64;
            Some(units * 50)
        }
    }
}

impl From<u8> for X3Idle {
    fn from(value: u8) -> (idle: X3Idle) {
        X3Idle::new(value)
    }
}

impl vstd::std_specs::convert::FromSpecImpl<u8> for X3Idle {
    open spec fn obeys_from_spec() -> bool {
        true
    }

    closed spec fn from_spec(value: u8) -> X3Idle {
        X3Idle(value)
    }
}

/// What `from` makes of a value: the parameter with that value.
pub proof fn lemma_x3_idle_from(value: u8)
    ensures
        <X3Idle as vstd::std_specs::convert::FromSpec<u8>>::from_spec(value).spec_value()
            == value,
{
}

impl core::ops::Deref for X3Idle {
    type Target = u8;

    fn deref(&self) -> (value: &u8)
        ensures
            *value == self.spec_value(),
    {
        &self.0
    }
}

/// Carriage return.
pub const CR: u8 = 0x0d;

/// Line feed.
pub const LF: u8 = 0x0a;

/// Parameter 13: where a line feed is inserted after a carriage return.
#[derive(Clone, Copy, Debug)]
pub struct X3LfInsert(u8);

impl X3LfInsert {
    pub closed spec fn spec_value(self) -> u8 {
        self.0
    }

    pub open spec fn valid(value: u8) -> bool {
        value <= 7
    }

    #[verifier::type_invariant]
    spec fn inv(self) -> bool {
        Self::valid(self.0)
    }

    pub open spec fn spec_after_recv(self, byte: u8) -> bool {
        byte == CR && self.spec_value() & 1 == 1
    }

    pub open spec fn spec_after_send(self, byte: u8) -> bool {
        byte == CR && self.spec_value() & 2 == 2
    }

    pub open spec fn spec_after_echo(self, byte: u8) -> bool {
        byte == CR && self.spec_value() & 4 == 4
    }

    /// Accepts the 3-bit masks, 0 to 7.
    pub fn new(value: u8) -> (lf_insert: Result<X3LfInsert, X3ParamError>)
        ensures
            Self::valid(value) ==> lf_insert is Ok && lf_insert->Ok_0.spec_value() == value,
            !Self::valid(value) ==> lf_insert == Err::<X3LfInsert, X3ParamError>(
                X3ParamError::InvalidValue,
            ),
    {
        if value > 7 {
            Err(X3ParamError::InvalidValue)
        } else {
            Ok(X3LfInsert(value))
        }
    }

    pub fn value(&self) -> (value: u8)
        ensures
            value == self.spec_value(),
            Self::valid(value),
    {
        proof {
            use_type_invariant(self);
        }
        self.0
    }

    /// Whether a line feed follows `byte` when it is received from the
    /// remote party.
    pub fn after_recv(&self, byte: u8) -> (insert: bool)
        ensures
            insert == self.spec_after_recv(byte),
    {
        byte == CR && (self.0 & 1 == 1)
    }

    /// Whether a line feed follows `byte` when it is sent to the remote
    /// party.
    pub fn after_send(&self, byte: u8) -> (insert: bool)
        ensures
            insert == self.spec_after_send(byte),
    {
        byte == CR && (self.0 & 2 == 2)
    }

    /// Whether a line feed follows `byte` when it is echoed to the terminal.
    pub fn after_echo(&self, byte: u8) -> (insert: bool)
        ensures
            insert == self.spec_after_echo(byte),
    {
        byte == CR && (self.0 & 4 == 4)
    }
}

impl TryFrom<u8> for X3LfInsert {
    type Error = X3ParamError;

    fn try_from(value: u8) -> (result: Result<X3LfInsert, X3ParamError>) {
        X3LfInsert::new(value)
    }
}

impl vstd::std_specs::convert::TryFromSpecImpl<u8> for X3LfInsert {
    open spec fn obeys_try_from_spec() -> bool {
        true
    }

    closed spec fn try_from_spec(value: u8) -> Result<X3LfInsert, X3ParamError> {
        if X3LfInsert::valid(value) {
            Ok(X3LfInsert(value))
        } else {
            Err(X3ParamError::InvalidValue)
        }
    }
}

/// What `try_from` makes of a value: the parameter with that value, or an
/// invalid value error for a value that the parameter does not take.
pub proof fn lemma_x3_lf_insert_try_from(value: u8)
    ensures
        match <X3LfInsert as vstd::std_specs::convert::TryFromSpec<u8>>::try_from_spec(value) {
            Ok(param) => X3LfInsert::valid(value) && param.spec_value() == value,
            Err(err) => !X3LfInsert::valid(value) && err == X3ParamError::InvalidValue,
        },
{
}

impl core::ops::Deref for X3LfInsert {
    type Target = u8;

    fn deref(&self) -> (value: &u8)
        ensures
            *value == self.spec_value(),
    {
        &self.0
    }
}

/// Parameter 15: whether the PAD edits lines locally.
#[derive(Clone, Copy, Debug)]
pub struct X3Editing(u8);

impl X3Editing {
    pub closed spec fn spec_value(self) -> u8 {
        self.0
    }

    pub open spec fn valid(value: u8) -> bool {
        value == 0 || value == 1
    }

    #[verifier::type_invariant]
    spec fn inv(self) -> bool {
        Self::valid(self.0)
    }

    /// Accepts 0 (off) and 1 (on).
    pub fn new(value: u8) -> (editing: Result<X3Editing, X3ParamError>)
        ensures
            Self::valid(value) ==> editing is Ok && editing->Ok_0.spec_value() == value,
            !Self::valid(value) ==> editing == Err::<X3Editing, X3ParamError>(
                X3ParamError::InvalidValue,
            ),
    {
        if value == 0 || value == 1 {
            Ok(X3Editing(value))
        } else {
            Err(X3ParamError::InvalidValue)
        }
    }

    pub fn value(&self) -> (value: u8)
        ensures
            value == self.spec_value(),
            Self::valid(value),
    {
        proof {
            use_type_invariant(self);
        }
        self.0
    }

    pub fn is_enabled(&self) -> (enabled: bool)
        ensures
            enabled == (self.spec_value() == 1),
    {
        self.0 == 1
    }
}

impl TryFrom<u8> for X3Editing {
    type Error = X3ParamError;

    fn try_from(value: u8) -> (result: Result<X3Editing, X3ParamError>) {
        X3Editing::new(value)
    }
}

impl vstd::std_specs::convert::TryFromSpecImpl<u8> for X3Editing {
    open spec fn obeys_try_from_spec() -> bool {
        true
    }

    closed spec fn try_from_spec(value: u8) -> Result<X3Editing, X3ParamError> {
        if X3Editing::valid(value) {
            Ok(X3Editing(value))
        } else {
            Err(X3ParamError::InvalidValue)
        }
    }
}

/// What `try_from` makes of a value: the parameter with that value, or an
/// invalid value error for a value that the parameter does not take.
pub proof fn lemma_x3_editing_try_from(value: u8)
    ensures
        match <X3Editing as vstd::std_specs::convert::TryFromSpec<u8>>::try_from_spec(value) {
            Ok(param) => X3Editing::valid(value) && param.spec_value() == value,
            Err(err) => !X3Editing::valid(value) && err == X3ParamError::InvalidValue,
        },
{
}

impl core::ops::Deref for X3Editing {
    type Target = u8;

    fn deref(&self) -> (value: &u8)
        ensures
            *value == self.spec_value(),
    {
        &self.0
    }
}

} // verus!
