//! Field encodings shared by all commands: single data bytes, numbers of
//! fourteen bits split over two data bytes, and text.

use vstd::prelude::*;
use vstd::slice::slice_to_vec;
use vstd::string::StringSliceAdditionalSpecFns;
use vstd::utf8::{decode_utf8, encode_utf8, valid_utf8};

verus! {

/// Largest value that one MIDI data byte carries.
pub const DATA_BYTE_MAX: u8 = 127;

/// Largest value that two MIDI data bytes carry.
pub const U14_MAX: u16 = 16383;

/// Why a payload could not be read.
#[derive(Debug, Clone, Copy, PartialEq, Eq, Structural)]
pub enum ParseError {
    /// The message is no System Exclusive message of Behringer's.
    NotBehringer,
    /// The buffer holds no byte at all.
    NoData,
    /// The payload ends before the field that the command requires.
    UnexpectedEnd,
    /// The device byte is neither 0 to 15 nor the "any" marker.
    InvalidDevice(u8),
    /// The model byte names no known model.
    BadModel(u8),
    /// The command byte names no known command.
    InvalidCommand(u8),
    /// A data byte has its top bit set.
    ByteOverflow,
    /// A text field is not UTF-8.
    InvalidString,
    /// A preset byte is neither a slot, "all" nor "temporary".
    BadPresetIndex(u8),
}

/// The number that the data bytes `msb`, `lsb` stand for.
pub open spec fn spec_u14(msb: u8, lsb: u8) -> int {
    msb as int * 128 + lsb as int
}

/// Reading one data byte from the front of `m`.
pub open spec fn spec_u8_from_midi(m: Seq<u8>) -> Result<u8, ParseError> {
    if m.len() == 0 {
        Err(ParseError::UnexpectedEnd)
    } else if m[0] > 127 {
        Err(ParseError::ByteOverflow)
    } else {
        Ok(m[0])
    }
}

/// Reading a fourteen-bit number from the front of `m`.
pub open spec fn spec_u14_from_midi(m: Seq<u8>) -> Result<u16, ParseError> {
    if m.len() < 2 {
        Err(ParseError::UnexpectedEnd)
    } else if m[0] > 127 || m[1] > 127 {
        Err(ParseError::ByteOverflow)
    } else {
        Ok(spec_u14(m[0], m[1]) as u16)
    }
}

/// The two data bytes that stand for `n`, most significant first.
pub open spec fn spec_u14_to_midi(n: u16) -> Seq<u8> {
    seq![(n / 128) as u8, (n % 128) as u8]
}

/// Reads one data byte from the front of `m`.
pub fn u8_from_midi(m: &[u8]) -> (r: Result<u8, ParseError>)
    ensures
        r == spec_u8_from_midi(m@),
{
    if m.len() == 0 {
        Err(ParseError::UnexpectedEnd)
    } else if m[0] > DATA_BYTE_MAX {
        Err(ParseError::ByteOverflow)
    } else {
        Ok(m[0])
    }
}

/// Reads a fourteen-bit number, most significant byte first, from the
/// front of `m`.
pub fn u14_from_midi_msb_lsb(m: &[u8]) -> (r: Result<u16, ParseError>)
    ensures
        r == spec_u14_from_midi(m@),
        r matches Ok(n) ==> n <= U14_MAX,
{
    if m.len() < 2 {
        Err(ParseError::UnexpectedEnd)
    } else {
        let msb: u8 = m[0];
        let lsb: u8 = m[1];
        if lsb > DATA_BYTE_MAX || msb > DATA_BYTE_MAX {
            Err(ParseError::ByteOverflow)
        } else {
            let hi: u16 = msb as u16;
            let lo: u16 = lsb as u16;
            Ok(hi * 128 + lo)
        }
    }
}

/// Appends the two data bytes of `n` to `m`, most significant first.
///
/// A number above [`U14_MAX`] has no such encoding and is not accepted.
pub fn u14_to_midi_msb_lsb(n: u16, m: &mut Vec<u8>)
    requires
        n <= U14_MAX,
    ensures
        final(m)@ == old(m)@ + spec_u14_to_midi(n),
{
    let msb: u16 = (n & 0x3f80) >> 7;
    let lsb: u16 = n & 0x007f;
    assert(msb == n / 128 && lsb == n % 128 && msb <= 127) by (bit_vector)
        requires
            n <= 16383,
            msb == (n & 0x3f80) >> 7,
            lsb == n & 0x007f,
    ;
    m.push(msb as u8);
    m.push(lsb as u8);
    assert(m@ =~= old(m)@ + spec_u14_to_midi(n));
}

/// Reading a fourteen-bit number back from its own encoding gives the
/// number, for every number that has an encoding.
pub proof fn lemma_u14_round_trip(n: u16)
    requires
        n <= U14_MAX,
    ensures
        spec_u14_from_midi(spec_u14_to_midi(n)) == Ok::<u16, ParseError>(n),
        spec_u14_to_midi(n).len() == 2,
        spec_u14_to_midi(n)[0] <= 127,
        spec_u14_to_midi(n)[1] <= 127,
{
}

/// Reading the whole of `m` as text.
pub open spec fn spec_string_from_midi(m: Seq<u8>) -> Result<Seq<char>, ParseError> {
    if valid_utf8(m) {
        Ok(decode_utf8(m))
    } else {
        Err(ParseError::InvalidString)
    }
}

/// `String::from_utf8` of the standard library: it accepts exactly the
/// byte sequences that are UTF-8, and the text it returns is the one that
/// those bytes encode.
#[verifier::external_body]
fn string_from_utf8(bytes: Vec<u8>) -> (r: Option<String>)
    ensures
        r is Some <==> valid_utf8(bytes@),
        r matches Some(s) ==> s@ == decode_utf8(bytes@),
{
    match String::from_utf8(bytes) {
        Ok(s) => Some(s),
        Err(_) => None,
    }
}

/// Reads the whole of `m` as UTF-8 text.
pub fn string_from_midi(m: &[u8]) -> (r: Result<String, ParseError>)
    ensures
        r is Ok <==> valid_utf8(m@),
        r matches Ok(s) ==> s@ == decode_utf8(m@),
        r matches Err(e) ==> e == ParseError::InvalidString,
{
    match string_from_utf8(slice_to_vec(m)) {
        Some(s) => Ok(s),
        None => Err(ParseError::InvalidString),
    }
}

/// Appends the UTF-8 bytes of `text` to `v`.
pub fn extend_midi_from_string(text: &str, v: &mut Vec<u8>)
    ensures
        final(v)@ == old(v)@ + encode_utf8(text@),
{
    let bytes = text.as_bytes();
    let n: usize = bytes.len();
    let mut i: usize = 0;
    while i < n
        invariant
            i <= n,
            n == bytes@.len(),
            bytes@ == encode_utf8(text@),
            v@ == old(v)@ + bytes@.subrange(0, i as int),
        decreases n - i,
    {
        v.push(bytes[i]);
        i = i + 1;
        assert(v@ =~= old(v)@ + bytes@.subrange(0, i as int));
    }
    assert(bytes@.subrange(0, n as int) =~= bytes@);
}

} // verus!
