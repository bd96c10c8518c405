//! The tagged 64-bit representation of runtime values.
//!
//! An encoded word keeps a type tag in its high 11 bits and a payload in its
//! low 53 bits.  An integer payload is a sign bit followed by a 52-bit
//! magnitude, a boolean payload is `0` or `1`, and a string payload is the
//! address of the heap box that owns the string.

use vstd::prelude::*;

verus! {

/// Number of payload bits in an encoded word.
pub const VALUE_BITS: u64 = 53;

/// Mask of the payload bits.
pub const VALUE_MASK: u64 = 0x001F_FFFF_FFFF_FFFF;

/// Mask of the tag bits.
pub const TYPE_MASK: u64 = 0xFFE0_0000_0000_0000;

/// The sign bit of an integer payload.
pub const SIGN_BIT: u64 = 0x0010_0000_0000_0000;

/// Mask of the magnitude bits of an integer payload.
pub const MAGNITUDE_MASK: u64 = 0x000F_FFFF_FFFF_FFFF;

#[derive(Clone, Copy, Debug, PartialEq, Eq, Structural)]
pub enum ValueEncodeError {
    Overflow,
}

#[derive(Clone, Copy, Debug, PartialEq, Eq, Structural)]
pub enum ValueDecodeError {
    UnknownType(u64),
    InvalidBoolean(u64),
}

#[derive(Clone, Copy, Debug, PartialEq, Eq, Structural)]
pub enum ValueType {
    Integer,
    String,
    Boolean,
}

impl ValueType {
    /// The tag that stands for this type in an encoded word.
    pub open spec fn spec_code(self) -> u64 {
        match self {
            ValueType::Integer => 0,
            ValueType::String => 1,
            ValueType::Boolean => 2,
        }
    }

    /// The type that a tag stands for, if any.
    pub open spec fn spec_from_code(type_number: u64) -> Result<ValueType, ValueDecodeError> {
        if type_number == 0 {
            Ok(ValueType::Integer)
        } else if type_number == 1 {
            Ok(ValueType::String)
        } else if type_number == 2 {
            Ok(ValueType::Boolean)
        } else {
            Err(ValueDecodeError::UnknownType(type_number))
        }
    }

    pub fn code(self) -> (code: u64)
        ensures
            code == self.spec_code(),
    {
        match self {
            ValueType::Integer => 0,
            ValueType::String => 1,
            ValueType::Boolean => 2,
        }
    }

    pub fn from_code(type_number: u64) -> (result: Result<ValueType, ValueDecodeError>)
        ensures
            result == Self::spec_from_code(type_number),
    {
        match type_number {
            0 => Ok(ValueType::Integer),
            1 => Ok(ValueType::String),
            2 => Ok(ValueType::Boolean),
            _ => Err(ValueDecodeError::UnknownType(type_number)),
        }
    }
}

/// A runtime value.
#[derive(Debug, PartialEq, Eq)]
pub enum Value {
    Integer(i64),
    String(String),
    Boolean(bool),
}

/// The mathematical content of a [`Value`].
pub enum ValueView {
    Integer(i64),
    String(Seq<char>),
    Boolean(bool),
}

impl View for Value {
    type V = ValueView;

    open spec fn view(&self) -> ValueView {
        match self {
            Value::Integer(n) => ValueView::Integer(*n),
            Value::String(s) => ValueView::String(s@),
            Value::Boolean(b) => ValueView::Boolean(*b),
        }
    }
}

impl Clone for Value {
    fn clone(&self) -> (copy: Self)
        ensures
            copy == *self,
    {
        match self {
            Value::Integer(n) => Value::Integer(*n),
            Value::String(s) => Value::String(s.clone()),
            Value::Boolean(b) => Value::Boolean(*b),
        }
    }
}

/// A value as it crosses the boundary to generated code: a string is
/// represented by the address of the heap box that owns it.
#[derive(Clone, Copy, Debug, PartialEq, Eq, Structural)]
pub enum RawValue {
    Integer(i64),
    String(u64),
    Boolean(bool),
}

impl RawValue {
    pub open spec fn spec_value_type(self) -> ValueType {
        match self {
            RawValue::Integer(_) => ValueType::Integer,
            RawValue::String(_) => ValueType::String,
            RawValue::Boolean(_) => ValueType::Boolean,
        }
    }

    /// Whether the payload of this value leaves the tag bits free.  Integers
    /// must have a magnitude below 2^52, string addresses must be below 2^53.
    pub open spec fn encodable(self) -> bool {
        match self {
            RawValue::Integer(n) => -0x10_0000_0000_0000 < n < 0x10_0000_0000_0000,
            RawValue::String(address) => address < 0x20_0000_0000_0000,
            RawValue::Boolean(_) => true,
        }
    }

    /// The 53-bit payload that stands for this value.
    pub open spec fn payload(self) -> int {
        match self {
            RawValue::Integer(n) => if n >= 0 {
                n as int
            } else {
                0x10_0000_0000_0000 - n
            },
            RawValue::String(address) => address as int,
            RawValue::Boolean(b) => if b {
                1
            } else {
                0
            },
        }
    }

    /// The word that encodes this value: the tag above the payload.
    pub open spec fn encoding(self) -> int {
        self.spec_value_type().spec_code() * 0x20_0000_0000_0000 + self.payload()
    }

    pub fn value_type(&self) -> (value_type: ValueType)
        ensures
            value_type == self.spec_value_type(),
    {
        match self {
            RawValue::Integer(_) => ValueType::Integer,
            RawValue::String(_) => ValueType::String,
            RawValue::Boolean(_) => ValueType::Boolean,
        }
    }

    /// The value that this raw value stands for, where the heap box at a
    /// string's address owns `string`.
    pub open spec fn spec_into_value(self, string: Seq<char>) -> ValueView {
        match self {
            RawValue::Integer(n) => ValueView::Integer(n),
            RawValue::String(_) => ValueView::String(string),
            RawValue::Boolean(b) => ValueView::Boolean(b),
        }
    }

    /// The value that this raw value stands for, given the string that the
    /// heap box at a string's address owns.
    pub fn into_value(self, string: String) -> (value: Value)
        ensures
            value@ == self.spec_into_value(string@),
    {
        match self {
            RawValue::Integer(n) => Value::Integer(n),
            RawValue::String(_) => Value::String(string),
            RawValue::Boolean(b) => Value::Boolean(b),
        }
    }
}

impl Value {
    pub open spec fn spec_value_type(self) -> ValueType {
        match self {
            Value::Integer(_) => ValueType::Integer,
            Value::String(_) => ValueType::String,
            Value::Boolean(_) => ValueType::Boolean,
        }
    }

    /// The raw form of a value view whose string, if it is one, is boxed at
    /// `string_address`.
    pub open spec fn spec_to_raw(view: ValueView, string_address: u64) -> RawValue {
        match view {
            ValueView::Integer(n) => RawValue::Integer(n),
            ValueView::String(_) => RawValue::String(string_address),
            ValueView::Boolean(b) => RawValue::Boolean(b),
        }
    }

    pub fn value_type(&self) -> (value_type: ValueType)
        ensures
            value_type == self.spec_value_type(),
    {
        match self {
            Value::Integer(_) => ValueType::Integer,
            Value::String(_) => ValueType::String,
            Value::Boolean(_) => ValueType::Boolean,
        }
    }

    /// The raw form of this value.  `string_address` is the address of the
    /// heap box that holds a copy of the string, and is ignored for the other
    /// types.
    pub fn to_raw(&self, string_address: u64) -> (raw: RawValue)
        ensures
            raw == Self::spec_to_raw(self@, string_address),
    {
        match self {
            Value::Integer(n) => RawValue::Integer(*n),
            Value::String(_) => RawValue::String(string_address),
            Value::Boolean(b) => RawValue::Boolean(*b),
        }
    }
}

/// What a word decodes to.
pub open spec fn spec_decode(word: u64) -> Result<RawValue, ValueDecodeError> {
    let type_number = (word as int / 0x20_0000_0000_0000) as u64;
    let payload = (word as int % 0x20_0000_0000_0000) as u64;
    match ValueType::spec_from_code(type_number) {
        Err(error) => Err(error),
        Ok(ValueType::Integer) => if payload < 0x10_0000_0000_0000 {
            Ok(RawValue::Integer(payload as i64))
        } else {
            Ok(RawValue::Integer((0x10_0000_0000_0000 - payload) as i64))
        },
        Ok(ValueType::String) => Ok(RawValue::String(payload)),
        Ok(ValueType::Boolean) => if payload == 0 {
            Ok(RawValue::Boolean(false))
        } else if payload == 1 {
            Ok(RawValue::Boolean(true))
        } else {
            Err(ValueDecodeError::InvalidBoolean(payload))
        },
    }
}

/// A tagged 64-bit word.
///
/// A word with the string tag stands for the one owner of the heap box at
/// its payload address, so the type is neither `Clone` nor `Copy`: whoever
/// holds the word decodes it exactly once.
#[derive(Debug)]
pub struct EncodedValue(u64);

impl View for EncodedValue {
    type V = u64;

    closed spec fn view(&self) -> u64 {
        self.0
    }
}

impl EncodedValue {
    /// Wraps a word that generated code returned.
    pub fn from_word(word: u64) -> (encoded: EncodedValue)
        ensures
            encoded@ == word,
    {
        EncodedValue(word)
    }

    /// Gives up the word.  Whoever takes it has to see that it is decoded
    /// exactly once.
    pub fn encoded_value(self) -> (word: u64)
        ensures
            word == self@,
    {
        self.0
    }

    /// Encodes a value, or reports `Overflow` when its payload would reach
    /// into the tag bits.
    pub fn encode(raw: &RawValue) -> (result: Result<EncodedValue, ValueEncodeError>)
        ensures
            raw.encodable() ==> result is Ok && result->Ok_0@ == raw.encoding(),
            !raw.encodable() ==> result == Err::<EncodedValue, _>(ValueEncodeError::Overflow),
    {
        let payload: u64 = match raw {
            RawValue::Integer(n) => {
                let n: i64 = *n;
                if n >= 0 {
                    if n as u64 & !MAGNITUDE_MASK != 0 {
                        assert(n >= 0x10_0000_0000_0000) by (bit_vector)
                            requires
                                n >= 0,
                                n as u64 & !MAGNITUDE_MASK != 0,
                        ;
                        return Err(ValueEncodeError::Overflow);
                    }
                    assert(n < 0x10_0000_0000_0000) by (bit_vector)
                        requires
                            n >= 0,
                            n as u64 & !MAGNITUDE_MASK == 0,
                    ;
                    n as u64
                } else {
                    if n <= -0x10_0000_0000_0000 {
                        return Err(ValueEncodeError::Overflow);
                    }
                    let magnitude: u64 = (-n) as u64;
                    assert(SIGN_BIT | magnitude == 0x10_0000_0000_0000 + magnitude) by (bit_vector)
                        requires
                            magnitude < 0x10_0000_0000_0000,
                    ;
                    SIGN_BIT | magnitude
                }
            },
            RawValue::String(address) => {
                let address: u64 = *address;
                if address & TYPE_MASK != 0 {
                    assert(address >= 0x20_0000_0000_0000) by (bit_vector)
                        requires
                            address & TYPE_MASK != 0,
                    ;
                    return Err(ValueEncodeError::Overflow);
                }
                assert(address < 0x20_0000_0000_0000) by (bit_vector)
                    requires
                        address & TYPE_MASK == 0,
                ;
                address
            },
            RawValue::Boolean(true) => 1,
            RawValue::Boolean(false) => 0,
        };
        let type_number: u64 = raw.value_type().code();
        let type_code: u64 = type_number << VALUE_BITS;
        let encoded: u64 = payload | type_code;
        assert(encoded == type_number * 0x20_0000_0000_0000 + payload) by (bit_vector)
            requires
                type_number <= 2,
                payload < 0x20_0000_0000_0000,
                type_code == type_number << 53,
                encoded == payload | type_code,
        ;
        Ok(EncodedValue(encoded))
    }

    /// Decodes the word.  A tag that names no type is `UnknownType`, and a
    /// boolean payload other than `0` and `1` is `InvalidBoolean`.
    pub fn decode(self) -> (result: Result<RawValue, ValueDecodeError>)
        ensures
            result == spec_decode(self@),
    {
        let word: u64 = self.0;
        let type_number: u64 = word >> VALUE_BITS;
        let payload: u64 = word & VALUE_MASK;
        assert(type_number == word / 0x20_0000_0000_0000 && payload == word
            % 0x20_0000_0000_0000) by (bit_vector)
            requires
                type_number == word >> 53,
                payload == word & 0x001F_FFFF_FFFF_FFFF,
        ;
        match ValueType::from_code(type_number) {
            Err(error) => Err(error),
            Ok(ValueType::Integer) => {
                if payload & SIGN_BIT == 0 {
                    assert(payload < 0x10_0000_0000_0000) by (bit_vector)
                        requires
                            payload < 0x20_0000_0000_0000,
                            payload & SIGN_BIT == 0,
                    ;
                    Ok(RawValue::Integer(payload as i64))
                } else {
                    let magnitude: u64 = payload & MAGNITUDE_MASK;
                    assert(payload >= 0x10_0000_0000_0000 && magnitude == payload
                        - 0x10_0000_0000_0000) by (bit_vector)
                        requires
                            payload < 0x20_0000_0000_0000,
                            payload & SIGN_BIT != 0,
                            magnitude == payload & MAGNITUDE_MASK,
                    ;
                    Ok(RawValue::Integer(-(magnitude as i64)))
                }
            },
            Ok(ValueType::String) => Ok(RawValue::String(payload)),
            Ok(ValueType::Boolean) => match payload {
                0 => Ok(RawValue::Boolean(false)),
                1 => Ok(RawValue::Boolean(true)),
                _ => Err(ValueDecodeError::InvalidBoolean(payload)),
            },
        }
    }
}

/// Decoding the encoding of a value gives the value back.
pub proof fn lemma_encode_decode_round_trip(raw: RawValue)
    requires
        raw.encodable(),
    ensures
        0 <= raw.encoding() <= u64::MAX,
        spec_decode(raw.encoding() as u64) == Ok::<_, ValueDecodeError>(raw),
{
    let tag = raw.spec_value_type().spec_code() as int;
    let payload = raw.payload();
    assert(0 <= payload < 0x20_0000_0000_0000);
    assert(0 <= tag <= 2);
    let word = tag * 0x20_0000_0000_0000 + payload;
    assert(word / 0x20_0000_0000_0000 == tag && word % 0x20_0000_0000_0000 == payload) by {
        vstd::arithmetic::div_mod::lemma_fundamental_div_mod_converse(
            word,
            0x20_0000_0000_0000,
            tag,
            payload,
        );
    }
}

/// Every integer of magnitude below 2^52 can be encoded, and decodes to
/// itself.
pub proof fn lemma_small_integers_round_trip(n: i64)
    requires
        -0x10_0000_0000_0000 < n < 0x10_0000_0000_0000,
    ensures
        RawValue::Integer(n).encodable(),
        spec_decode(RawValue::Integer(n).encoding() as u64) == Ok::<_, ValueDecodeError>(
            RawValue::Integer(n),
        ),
{
    lemma_encode_decode_round_trip(RawValue::Integer(n));
}

/// The string of a value, if it is one.
pub open spec fn string_of(value: ValueView) -> Seq<char> {
    match value {
        ValueView::String(string) => string,
        _ => Seq::empty(),
    }
}

/// A value that can be encoded comes back from its encoding.
///
/// The word that encodes the raw form of a value decodes to that raw form,
/// and the raw form stands for the value again, where the box at a string's
/// address still owns the string.
pub proof fn lemma_value_round_trip(value: ValueView, string_address: u64)
    requires
        Value::spec_to_raw(value, string_address).encodable(),
    ensures
        spec_decode(Value::spec_to_raw(value, string_address).encoding() as u64) == Ok::<
            _,
            ValueDecodeError,
        >(Value::spec_to_raw(value, string_address)),
        Value::spec_to_raw(value, string_address).spec_into_value(string_of(value)) == value,
{
    lemma_encode_decode_round_trip(Value::spec_to_raw(value, string_address));
}

} // verus!
