//! How the scalars and text travel: the building blocks of every payload.
//!
//! | type             | bytes                                              |
//! |------------------|----------------------------------------------------|
//! | `u8`             | the byte itself                                    |
//! | `u32`, `i32`     | four, least significant first                      |
//! | `u64`, `i64`     | eight, least significant first                     |
//! | `bool`           | the 32-bit word 0 or 1; any other word reads `true`|
//! | `String`         | a 32-bit count of UTF-16 code units, then the units|

use vstd::prelude::*;
use crate::ipc_conn::error::Error;
use crate::ipc_conn::parcel::{Deserialize, Parsed, Serialize, Wire};
use crate::ipc_conn::scalar::{
    get_u32, get_u64, i32_to_word, i32_word, i64_to_word, i64_word, lemma_u32_round_trip,
    lemma_u64_round_trip, put_u32, put_u64, u32_at, u32_wire, u64_at, u64_wire, word_i32,
    word_i64, word_to_i32, word_to_i64,
};
use crate::ipc_conn::utf16::{
    decode_utf16, encode_utf16, get_text, lemma_units_round_trip, lemma_utf16_round_trip,
    put_units, units_at, units_count, units_wire, MAX_UNITS,
};

verus! {

/// The 32-bit word at `pos`, or the failure of a buffer that ends before it.
pub open spec fn word_at(data: Seq<u8>, pos: int) -> Parsed<u32> {
    if pos + 4 <= data.len() {
        Ok((u32_at(data, pos), pos + 4))
    } else {
        Err(Error::ReadMsgParcelFailed)
    }
}

/// The 64-bit word at `pos`, or the failure of a buffer that ends before it.
pub open spec fn long_at(data: Seq<u8>, pos: int) -> Parsed<u64> {
    if pos + 8 <= data.len() {
        Ok((u64_at(data, pos), pos + 8))
    } else {
        Err(Error::ReadMsgParcelFailed)
    }
}

impl Serialize for u8 {
    open spec fn wire(v: u8) -> Seq<u8> {
        seq![v]
    }

    open spec fn fits(v: u8) -> bool {
        true
    }

    fn serialize(&self, out: &mut Vec<u8>) -> (r: Result<(), Error>) {
        out.push(*self);
        assert(out@ =~= old(out)@ + seq![*self]);
        assert(out@.subrange(0, old(out)@.len() as int) =~= old(out)@);
        Ok(())
    }
}

impl Deserialize for u8 {
    open spec fn parse(data: Seq<u8>, pos: int) -> Parsed<u8> {
        if pos + 1 <= data.len() {
            Ok((data[pos], pos + 1))
        } else {
            Err(Error::ReadMsgParcelFailed)
        }
    }

    proof fn lemma_parse_bounds(data: Seq<u8>, pos: int) {
    }

    fn deserialize(data: &[u8], pos: usize) -> (r: Result<(u8, usize), Error>) {
        if pos < data.len() {
            Ok((data[pos], pos + 1))
        } else {
            Err(Error::ReadMsgParcelFailed)
        }
    }
}

impl Wire for u8 {
    proof fn lemma_round_trip(pre: Seq<u8>, v: u8, rest: Seq<u8>) {
    }
}

impl Serialize for u32 {
    open spec fn wire(v: u32) -> Seq<u8> {
        u32_wire(v)
    }

    open spec fn fits(v: u32) -> bool {
        true
    }

    fn serialize(&self, out: &mut Vec<u8>) -> (r: Result<(), Error>) {
        put_u32(out, *self);
        assert(out@.subrange(0, old(out)@.len() as int) =~= old(out)@);
        Ok(())
    }
}

impl Deserialize for u32 {
    open spec fn parse(data: Seq<u8>, pos: int) -> Parsed<u32> {
        word_at(data, pos)
    }

    proof fn lemma_parse_bounds(data: Seq<u8>, pos: int) {
    }

    fn deserialize(data: &[u8], pos: usize) -> (r: Result<(u32, usize), Error>) {
        match get_u32(data, pos) {
            Ok(w) => Ok((w, pos + 4)),
            Err(e) => Err(e),
        }
    }
}

impl Wire for u32 {
    proof fn lemma_round_trip(pre: Seq<u8>, v: u32, rest: Seq<u8>) {
        lemma_u32_round_trip(pre, v, rest);
    }
}

impl Serialize for i32 {
    open spec fn wire(v: i32) -> Seq<u8> {
        u32_wire(i32_word(v))
    }

    open spec fn fits(v: i32) -> bool {
        true
    }

    fn serialize(&self, out: &mut Vec<u8>) -> (r: Result<(), Error>) {
        put_u32(out, i32_to_word(*self));
        assert(out@.subrange(0, old(out)@.len() as int) =~= old(out)@);
        Ok(())
    }
}

impl Deserialize for i32 {
    open spec fn parse(data: Seq<u8>, pos: int) -> Parsed<i32> {
        match word_at(data, pos) {
            Ok((w, end)) => Ok((word_i32(w), end)),
            Err(e) => Err(e),
        }
    }

    proof fn lemma_parse_bounds(data: Seq<u8>, pos: int) {
    }

    fn deserialize(data: &[u8], pos: usize) -> (r: Result<(i32, usize), Error>) {
        match get_u32(data, pos) {
            Ok(w) => Ok((word_to_i32(w), pos + 4)),
            Err(e) => Err(e),
        }
    }
}

impl Wire for i32 {
    proof fn lemma_round_trip(pre: Seq<u8>, v: i32, rest: Seq<u8>) {
        lemma_u32_round_trip(pre, i32_word(v), rest);
    }
}

impl Serialize for u64 {
    open spec fn wire(v: u64) -> Seq<u8> {
        u64_wire(v)
    }

    open spec fn fits(v: u64) -> bool {
        true
    }

    fn serialize(&self, out: &mut Vec<u8>) -> (r: Result<(), Error>) {
        put_u64(out, *self);
        assert(out@.subrange(0, old(out)@.len() as int) =~= old(out)@);
        Ok(())
    }
}

impl Deserialize for u64 {
    open spec fn parse(data: Seq<u8>, pos: int) -> Parsed<u64> {
        long_at(data, pos)
    }

    proof fn lemma_parse_bounds(data: Seq<u8>, pos: int) {
    }

    fn deserialize(data: &[u8], pos: usize) -> (r: Result<(u64, usize), Error>) {
        match get_u64(data, pos) {
            Ok(w) => Ok((w, pos + 8)),
            Err(e) => Err(e),
        }
    }
}

impl Wire for u64 {
    proof fn lemma_round_trip(pre: Seq<u8>, v: u64, rest: Seq<u8>) {
        lemma_u64_round_trip(pre, v, rest);
    }
}

impl Serialize for i64 {
    open spec fn wire(v: i64) -> Seq<u8> {
        u64_wire(i64_word(v))
    }

    open spec fn fits(v: i64) -> bool {
        true
    }

    fn serialize(&self, out: &mut Vec<u8>) -> (r: Result<(), Error>) {
        put_u64(out, i64_to_word(*self));
        assert(out@.subrange(0, old(out)@.len() as int) =~= old(out)@);
        Ok(())
    }
}

impl Deserialize for i64 {
    open spec fn parse(data: Seq<u8>, pos: int) -> Parsed<i64> {
        match long_at(data, pos) {
            Ok((w, end)) => Ok((word_i64(w), end)),
            Err(e) => Err(e),
        }
    }

    proof fn lemma_parse_bounds(data: Seq<u8>, pos: int) {
    }

    fn deserialize(data: &[u8], pos: usize) -> (r: Result<(i64, usize), Error>) {
        match get_u64(data, pos) {
            Ok(w) => Ok((word_to_i64(w), pos + 8)),
            Err(e) => Err(e),
        }
    }
}

impl Wire for i64 {
    proof fn lemma_round_trip(pre: Seq<u8>, v: i64, rest: Seq<u8>) {
        lemma_u64_round_trip(pre, i64_word(v), rest);
    }
}

impl Serialize for bool {
    open spec fn wire(v: bool) -> Seq<u8> {
        u32_wire(if v { 1u32 } else { 0u32 })
    }

    open spec fn fits(v: bool) -> bool {
        true
    }

    fn serialize(&self, out: &mut Vec<u8>) -> (r: Result<(), Error>) {
        let word: u32 = if *self { 1 } else { 0 };
        put_u32(out, word);
        assert(out@.subrange(0, old(out)@.len() as int) =~= old(out)@);
        Ok(())
    }
}

impl Deserialize for bool {
    open spec fn parse(data: Seq<u8>, pos: int) -> Parsed<bool> {
        match word_at(data, pos) {
            Ok((w, end)) => Ok((w != 0, end)),
            Err(e) => Err(e),
        }
    }

    proof fn lemma_parse_bounds(data: Seq<u8>, pos: int) {
    }

    fn deserialize(data: &[u8], pos: usize) -> (r: Result<(bool, usize), Error>) {
        match get_u32(data, pos) {
            Ok(w) => Ok((w != 0, pos + 4)),
            Err(e) => Err(e),
        }
    }
}

impl Wire for bool {
    proof fn lemma_round_trip(pre: Seq<u8>, v: bool, rest: Seq<u8>) {
        lemma_u32_round_trip(pre, if v { 1u32 } else { 0u32 }, rest);
    }
}

/// The bytes of the text `s`: the count of its code units, then the units.
pub open spec fn text_wire(s: Seq<char>) -> Seq<u8> {
    u32_wire(encode_utf16(s).len() as u32) + units_wire(encode_utf16(s))
}

/// Whether the text `s` has few enough code units for the count field.
pub open spec fn text_fits(s: Seq<char>) -> bool {
    encode_utf16(s).len() <= MAX_UNITS
}

/// The text at `pos`.
///
/// The buffer must hold the count and as many code units as it announces
/// ([`Error::ReadMsgParcelFailed`] otherwise); the count must not be negative
/// and the units must be well-formed UTF-16 ([`Error::MalformedValue`]).
pub open spec fn text_parse(data: Seq<u8>, pos: int) -> Parsed<Seq<char>> {
    if pos + 4 > data.len() {
        Err(Error::ReadMsgParcelFailed)
    } else {
        let count = word_i32(u32_at(data, pos));
        if count < 0 {
            Err(Error::MalformedValue)
        } else if pos + 4 + 2 * count > data.len() {
            Err(Error::ReadMsgParcelFailed)
        } else {
            match decode_utf16(units_at(data, pos + 4, count as nat)) {
                Some(s) => Ok((s, pos + 4 + 2 * count)),
                None => Err(Error::MalformedValue),
            }
        }
    }
}

/// A text that fits is read back as it was written.
pub proof fn lemma_text_round_trip(pre: Seq<u8>, s: Seq<char>, rest: Seq<u8>)
    requires
        text_fits(s),
    ensures
        text_parse(pre + text_wire(s) + rest, pre.len() as int) == Ok::<(Seq<char>, int), Error>(
            (s, (pre.len() + text_wire(s).len()) as int),
        ),
        text_wire(s).len() == 4 + 2 * encode_utf16(s).len(),
{
    let units = encode_utf16(s);
    let count = units.len() as u32;
    let data = pre + text_wire(s) + rest;
    lemma_u32_round_trip(pre, count, units_wire(units) + rest);
    assert(data =~= pre + u32_wire(count) + (units_wire(units) + rest));
    lemma_units_round_trip(pre + u32_wire(count), units, rest);
    assert(data =~= (pre + u32_wire(count)) + units_wire(units) + rest);
    lemma_utf16_round_trip(s);
    assert(word_i32(count) == count);
}

/// Appends the bytes of the text `s` to `out`, if it fits.
pub fn put_text(out: &mut Vec<u8>, s: &str) -> (r: Result<(), Error>)
    ensures
        text_fits(s@) ==> r is Ok && final(out)@ == old(out)@ + text_wire(s@),
        !text_fits(s@) ==> r == Err::<(), Error>(Error::WriteMsgParcelFailed) && final(out)@
            == old(out)@,
{
    match units_count(s) {
        Some(count) => {
            put_u32(out, count);
            put_units(out, s);
            assert(out@ =~= old(out)@ + text_wire(s@));
            Ok(())
        },
        None => Err(Error::WriteMsgParcelFailed),
    }
}

/// Reads the text at `pos`.
pub fn get_string(data: &[u8], pos: usize) -> (r: Result<(String, usize), Error>)
    ensures
        match text_parse(data@, pos as int) {
            Ok((v, end)) => r matches Ok((x, p)) && x@ == v && p == end,
            Err(e) => r matches Err(f) && f == e,
        },
{
    let word = match get_u32(data, pos) {
        Ok(w) => w,
        Err(e) => {
            return Err(e);
        },
    };
    let count = word_to_i32(word);
    if count < 0 {
        return Err(Error::MalformedValue);
    }
    let start = pos + 4;
    let room = data.len() - start;
    let units = count as usize;
    if units > room / 2 {
        return Err(Error::ReadMsgParcelFailed);
    }
    match get_text(data, start, units) {
        Some(text) => Ok((text, start + 2 * units)),
        None => Err(Error::MalformedValue),
    }
}

impl Serialize for String {
    open spec fn wire(v: Seq<char>) -> Seq<u8> {
        text_wire(v)
    }

    open spec fn fits(v: Seq<char>) -> bool {
        text_fits(v)
    }

    fn serialize(&self, out: &mut Vec<u8>) -> (r: Result<(), Error>) {
        let r = put_text(out, self.as_str());
        assert(out@.subrange(0, old(out)@.len() as int) =~= old(out)@);
        r
    }
}

impl Deserialize for String {
    open spec fn parse(data: Seq<u8>, pos: int) -> Parsed<Seq<char>> {
        text_parse(data, pos)
    }

    proof fn lemma_parse_bounds(data: Seq<u8>, pos: int) {
    }

    fn deserialize(data: &[u8], pos: usize) -> (r: Result<(String, usize), Error>) {
        get_string(data, pos)
    }
}

impl Wire for String {
    proof fn lemma_round_trip(pre: Seq<u8>, v: Seq<char>, rest: Seq<u8>) {
        lemma_text_round_trip(pre, v, rest);
    }
}

/// A text that travels as UTF-16 code units.
#[derive(Clone, Debug, PartialEq, Eq)]
pub struct String16 {
    text: String,
}

impl View for String16 {
    type V = Seq<char>;

    closed spec fn view(&self) -> Seq<char> {
        self.text@
    }
}

impl DeepView for String16 {
    type V = Seq<char>;

    open spec fn deep_view(&self) -> Seq<char> {
        self@
    }
}

impl String16 {
    /// The wide form of `value`.
    pub fn new(value: &str) -> (r: String16)
        ensures
            r@ == value@,
    {
        String16 { text: value.to_owned() }
    }

    /// The text, as an ordinary string.
    pub fn get_string(&self) -> (r: String)
        ensures
            r@ == self@,
    {
        self.text.clone()
    }
}

impl Serialize for String16 {
    open spec fn wire(v: Seq<char>) -> Seq<u8> {
        text_wire(v)
    }

    open spec fn fits(v: Seq<char>) -> bool {
        text_fits(v)
    }

    fn serialize(&self, out: &mut Vec<u8>) -> (r: Result<(), Error>) {
        let r = put_text(out, self.text.as_str());
        assert(out@.subrange(0, old(out)@.len() as int) =~= old(out)@);
        r
    }
}

impl Deserialize for String16 {
    open spec fn parse(data: Seq<u8>, pos: int) -> Parsed<Seq<char>> {
        text_parse(data, pos)
    }

    proof fn lemma_parse_bounds(data: Seq<u8>, pos: int) {
    }

    fn deserialize(data: &[u8], pos: usize) -> (r: Result<(String16, usize), Error>) {
        match get_string(data, pos) {
            Ok((text, end)) => Ok((String16 { text }, end)),
            Err(e) => Err(e),
        }
    }
}

impl Wire for String16 {
    proof fn lemma_round_trip(pre: Seq<u8>, v: Seq<char>, rest: Seq<u8>) {
        lemma_text_round_trip(pre, v, rest);
    }
}

} // verus!
