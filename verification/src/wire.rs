//! The wire format of one location report: ten hexadecimal digits, four for
//! the longitude, four for the latitude and two for the battery level.

use vstd::prelude::*;
use vstd::string::StringExecFns;
use crate::decimal::{append_decimal, decimal};
use crate::hex::{
    all_hex_digits, append_hex, hex_digits, hex_value, is_hex_digit, lemma_hex_value_bound,
    lemma_lower_value, lemma_pow16_small, lemma_read_then_write, lemma_write_then_read, lower,
    parse_hex,
};

verus! {

/// The number of characters of a payload.
pub const PAYLOAD_LEN: usize = 10;

/// One of the three fixed slices of a payload.
#[derive(Clone, Copy, Debug, PartialEq, Eq, Structural)]
pub enum PayloadSlice {
    /// Characters 0 to 3.
    Longitude,
    /// Characters 4 to 7.
    Latitude,
    /// Characters 8 and 9.
    Battery,
}

/// Why a payload was rejected.
#[derive(Clone, Copy, Debug, PartialEq, Eq, Structural)]
pub enum DecodeError {
    /// The payload does not have `expected` characters, but `actual`.
    WrongLength { expected: usize, actual: usize },
    /// The first slice that holds a character which is no hexadecimal digit.
    InvalidHex { slice: PayloadSlice },
}

impl PayloadSlice {
    /// The name of the field that the slice holds.
    pub open spec fn name_spec(self) -> Seq<char> {
        match self {
            PayloadSlice::Longitude => "longitude"@,
            PayloadSlice::Latitude => "latitude"@,
            PayloadSlice::Battery => "battery"@,
        }
    }

    /// The name of the field that the slice holds.
    pub fn name(&self) -> (s: &'static str)
        ensures
            s@ == self.name_spec(),
    {
        match self {
            PayloadSlice::Longitude => "longitude",
            PayloadSlice::Latitude => "latitude",
            PayloadSlice::Battery => "battery",
        }
    }
}

impl DecodeError {
    /// The reason in words, with the lengths or the field at fault.
    pub open spec fn message_spec(self) -> Seq<char> {
        match self {
            DecodeError::WrongLength { expected, actual } => "Payload must be exactly "@ + decimal(
                expected as nat,
            ) + " characters long, got "@ + decimal(actual as nat),
            DecodeError::InvalidHex { slice } => "invalid digit found in the "@
                + slice.name_spec() + " field"@,
        }
    }

    /// The reason in words, for the sender of the payload.
    pub fn message(&self) -> (text: String)
        ensures
            text@ == self.message_spec(),
    {
        match self {
            DecodeError::WrongLength { expected, actual } => {
                let mut text = String::from_str("Payload must be exactly ");
                append_decimal(&mut text, *expected as u64);
                text.append(" characters long, got ");
                append_decimal(&mut text, *actual as u64);
                text
            },
            DecodeError::InvalidHex { slice } => {
                let mut text = String::from_str("invalid digit found in the ");
                text.append(slice.name());
                text.append(" field");
                text
            },
        }
    }
}

/// The characters of `p` that make up `slice`.
pub open spec fn slice_of(p: Seq<char>, slice: PayloadSlice) -> Seq<char> {
    match slice {
        PayloadSlice::Longitude => p.subrange(0, 4),
        PayloadSlice::Latitude => p.subrange(4, 8),
        PayloadSlice::Battery => p.subrange(8, 10),
    }
}

/// What a payload decodes to: all three fields, or the first reason to
/// reject it. The length is tested first, then the slices from left to right.
pub open spec fn decode_spec(p: Seq<char>) -> Result<(u16, u16, u8), DecodeError> {
    if p.len() != PAYLOAD_LEN {
        Err(DecodeError::WrongLength { expected: PAYLOAD_LEN, actual: p.len() as usize })
    } else if !all_hex_digits(slice_of(p, PayloadSlice::Longitude)) {
        Err(DecodeError::InvalidHex { slice: PayloadSlice::Longitude })
    } else if !all_hex_digits(slice_of(p, PayloadSlice::Latitude)) {
        Err(DecodeError::InvalidHex { slice: PayloadSlice::Latitude })
    } else if !all_hex_digits(slice_of(p, PayloadSlice::Battery)) {
        Err(DecodeError::InvalidHex { slice: PayloadSlice::Battery })
    } else {
        Ok(
            (
                hex_value(slice_of(p, PayloadSlice::Longitude)) as u16,
                hex_value(slice_of(p, PayloadSlice::Latitude)) as u16,
                hex_value(slice_of(p, PayloadSlice::Battery)) as u8,
            ),
        )
    }
}

/// Decodes a payload into longitude, latitude and battery level. It
/// succeeds exactly on ten hexadecimal digits, in either case, and then the
/// three fields written back give the payload in lower case.
pub fn decode(payload: &str) -> (r: Result<(u16, u16, u8), DecodeError>)
    ensures
        r == decode_spec(payload@),
        r is Ok <==> payload@.len() == PAYLOAD_LEN && all_hex_digits(payload@),
        r matches Ok((longitude, latitude, battery)) ==> encode_spec(longitude, latitude, battery)
            == lower(payload@),
{
    proof {
        lemma_decode_accepts(payload@);
        if payload@.len() == PAYLOAD_LEN && all_hex_digits(payload@) {
            lemma_decode_then_encode(payload@);
        }
    }
    let n = payload.unicode_len();
    if n != PAYLOAD_LEN {
        return Err(DecodeError::WrongLength { expected: PAYLOAD_LEN, actual: n });
    }
    let longitude = match parse_hex(payload, 0, 4) {
        Some(v) => v,
        None => {
            return Err(DecodeError::InvalidHex { slice: PayloadSlice::Longitude });
        },
    };
    let latitude = match parse_hex(payload, 4, 8) {
        Some(v) => v,
        None => {
            return Err(DecodeError::InvalidHex { slice: PayloadSlice::Latitude });
        },
    };
    let battery = match parse_hex(payload, 8, 10) {
        Some(v) => v,
        None => {
            return Err(DecodeError::InvalidHex { slice: PayloadSlice::Battery });
        },
    };
    proof {
        lemma_hex_value_bound(payload@.subrange(8, 10));
        lemma_pow16_small();
    }
    Ok((longitude, latitude, battery as u8))
}

/// The payload that stands for the three fields: each written in lower-case
/// hexadecimal at its fixed width, padded with zeros.
pub open spec fn encode_spec(longitude: u16, latitude: u16, battery: u8) -> Seq<char> {
    hex_digits(longitude as nat, 4) + hex_digits(latitude as nat, 4) + hex_digits(
        battery as nat,
        2,
    )
}

/// Writes the three fields as a payload, which decodes to them again.
pub fn encode(longitude: u16, latitude: u16, battery: u8) -> (r: String)
    ensures
        r@ == encode_spec(longitude, latitude, battery),
        decode_spec(r@) == Ok::<(u16, u16, u8), DecodeError>((longitude, latitude, battery)),
{
    proof {
        lemma_encode_then_decode(longitude, latitude, battery);
    }
    let mut out = String::new();
    append_hex(&mut out, longitude, 4);
    append_hex(&mut out, latitude, 4);
    append_hex(&mut out, battery as u16, 2);
    assert(out@ =~= encode_spec(longitude, latitude, battery));
    out
}

/// A payload is accepted exactly when it is ten hexadecimal digits.
pub proof fn lemma_decode_accepts(p: Seq<char>)
    ensures
        decode_spec(p) is Ok <==> p.len() == PAYLOAD_LEN && all_hex_digits(p),
{
    if p.len() == PAYLOAD_LEN {
        let a = slice_of(p, PayloadSlice::Longitude);
        let b = slice_of(p, PayloadSlice::Latitude);
        let c = slice_of(p, PayloadSlice::Battery);
        if all_hex_digits(p) {
            assert forall|i: int| 0 <= i < a.len() implies is_hex_digit(#[trigger] a[i]) by {
                assert(a[i] == p[i]);
            }
            assert forall|i: int| 0 <= i < b.len() implies is_hex_digit(#[trigger] b[i]) by {
                assert(b[i] == p[i + 4]);
            }
            assert forall|i: int| 0 <= i < c.len() implies is_hex_digit(#[trigger] c[i]) by {
                assert(c[i] == p[i + 8]);
            }
        }
        if all_hex_digits(a) && all_hex_digits(b) && all_hex_digits(c) {
            assert forall|i: int| 0 <= i < p.len() implies is_hex_digit(#[trigger] p[i]) by {
                if i < 4 {
                    assert(a[i] == p[i]);
                } else if i < 8 {
                    assert(b[i - 4] == p[i]);
                } else {
                    assert(c[i - 8] == p[i]);
                }
            }
        }
    }
}

/// Round trip from the wire: every payload of ten hexadecimal digits
/// decodes, and writing the three decoded fields back at their widths gives
/// the payload again, in lower case.
pub proof fn lemma_decode_then_encode(p: Seq<char>)
    requires
        p.len() == PAYLOAD_LEN,
        all_hex_digits(p),
    ensures
        decode_spec(p) matches Ok((longitude, latitude, battery)) && encode_spec(
            longitude,
            latitude,
            battery,
        ) == lower(p),
{
    let a = slice_of(p, PayloadSlice::Longitude);
    let b = slice_of(p, PayloadSlice::Latitude);
    let c = slice_of(p, PayloadSlice::Battery);
    lemma_decode_accepts(p);
    lemma_pow16_small();
    lemma_hex_value_bound(a);
    lemma_hex_value_bound(b);
    lemma_hex_value_bound(c);
    lemma_read_then_write(a);
    lemma_read_then_write(b);
    lemma_read_then_write(c);
    assert(lower(a) + lower(b) + lower(c) =~= lower(p));
}

/// Round trip to the wire: the payload written for three fields decodes to
/// those fields.
pub proof fn lemma_encode_then_decode(longitude: u16, latitude: u16, battery: u8)
    ensures
        decode_spec(encode_spec(longitude, latitude, battery)) == Ok::<
            (u16, u16, u8),
            DecodeError,
        >((longitude, latitude, battery)),
{
    let a = hex_digits(longitude as nat, 4);
    let b = hex_digits(latitude as nat, 4);
    let c = hex_digits(battery as nat, 2);
    let p = encode_spec(longitude, latitude, battery);
    lemma_pow16_small();
    lemma_write_then_read(longitude as nat, 4);
    lemma_write_then_read(latitude as nat, 4);
    lemma_write_then_read(battery as nat, 2);
    assert(slice_of(p, PayloadSlice::Longitude) =~= a);
    assert(slice_of(p, PayloadSlice::Latitude) =~= b);
    assert(slice_of(p, PayloadSlice::Battery) =~= c);
}

/// Decoding ignores case: two payloads that differ only in the case of
/// their letters decode to the same result.
pub proof fn lemma_decode_ignores_case(p: Seq<char>, q: Seq<char>)
    requires
        lower(p) == lower(q),
    ensures
        decode_spec(p) == decode_spec(q),
{
    lemma_decode_lower(p);
    lemma_decode_lower(q);
}

/// A payload decodes as its lower-case form does.
pub proof fn lemma_decode_lower(p: Seq<char>)
    ensures
        decode_spec(lower(p)) == decode_spec(p),
{
    if p.len() == PAYLOAD_LEN {
        let l = lower(p);
        let a = slice_of(p, PayloadSlice::Longitude);
        let b = slice_of(p, PayloadSlice::Latitude);
        let c = slice_of(p, PayloadSlice::Battery);
        assert(slice_of(l, PayloadSlice::Longitude) =~= lower(a));
        assert(slice_of(l, PayloadSlice::Latitude) =~= lower(b));
        assert(slice_of(l, PayloadSlice::Battery) =~= lower(c));
        lemma_lower_value(a);
        lemma_lower_value(b);
        lemma_lower_value(c);
    }
}

} // verus!
