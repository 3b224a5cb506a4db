//! Fixed-width scalars on the wire: little-endian, 32 or 64 bits wide.
//!
//! Signed numbers travel in two's complement and a `bool` as a 32-bit word that
//! is 0 or 1. The model works on plain arithmetic: byte `k` of a number
//! is its `k`-th digit in base 256.

use vstd::prelude::*;
use crate::ipc_conn::error::Error;

verus! {

/// The four bytes of `x`, least significant first.
#[verifier::opaque]
pub open spec fn u32_wire(x: u32) -> Seq<u8> {
    seq![
        (x % 256) as u8,
        (x / 256 % 256) as u8,
        (x / 65536 % 256) as u8,
        (x / 16777216) as u8,
    ]
}

/// The number that the four bytes of `data` from `pos` on spell out.
#[verifier::opaque]
pub open spec fn u32_at(data: Seq<u8>, pos: int) -> u32 {
    (data[pos] + 256 * data[pos + 1] + 65536 * data[pos + 2] + 16777216 * data[pos + 3]) as u32
}

/// The eight bytes of `x`, least significant first.
#[verifier::opaque]
pub open spec fn u64_wire(x: u64) -> Seq<u8> {
    u32_wire((x % 4294967296) as u32) + u32_wire((x / 4294967296) as u32)
}

/// The number that the eight bytes of `data` from `pos` on spell out.
#[verifier::opaque]
pub open spec fn u64_at(data: Seq<u8>, pos: int) -> u64 {
    (u32_at(data, pos) + 4294967296 * u32_at(data, pos + 4)) as u64
}

/// The 32-bit word that carries `x` in two's complement.
pub open spec fn i32_word(x: i32) -> u32 {
    if x >= 0 {
        x as u32
    } else {
        (x + 4294967296) as u32
    }
}

/// The signed number that the word `w` carries in two's complement.
pub open spec fn word_i32(w: u32) -> i32 {
    if w < 2147483648 {
        w as i32
    } else {
        (w - 4294967296) as i32
    }
}

/// The 64-bit word that carries `x` in two's complement.
pub open spec fn i64_word(x: i64) -> u64 {
    if x >= 0 {
        x as u64
    } else {
        (x + 18446744073709551616) as u64
    }
}

/// The signed number that the word `w` carries in two's complement.
pub open spec fn word_i64(w: u64) -> i64 {
    if w < 9223372036854775808 {
        w as i64
    } else {
        (w - 18446744073709551616) as i64
    }
}

/// Reading back the bytes of `x` gives `x`, wherever they stand in a buffer.
pub proof fn lemma_u32_round_trip(pre: Seq<u8>, x: u32, rest: Seq<u8>)
    ensures
        u32_wire(x).len() == 4,
        u32_at(pre + u32_wire(x) + rest, pre.len() as int) == x,
{
    reveal(u32_wire);
    reveal(u32_at);
    let data = pre + u32_wire(x) + rest;
    let p = pre.len() as int;
    assert(data[p] == u32_wire(x)[0]);
    assert(data[p + 1] == u32_wire(x)[1]);
    assert(data[p + 2] == u32_wire(x)[2]);
    assert(data[p + 3] == u32_wire(x)[3]);
}

/// Reading back the bytes of `x` gives `x`, wherever they stand in a buffer.
pub proof fn lemma_u64_round_trip(pre: Seq<u8>, x: u64, rest: Seq<u8>)
    ensures
        u64_wire(x).len() == 8,
        u64_at(pre + u64_wire(x) + rest, pre.len() as int) == x,
{
    reveal(u64_wire);
    reveal(u64_at);
    let lo = (x % 4294967296) as u32;
    let hi = (x / 4294967296) as u32;
    let data = pre + u64_wire(x) + rest;
    lemma_u32_round_trip(pre, lo, u32_wire(hi) + rest);
    lemma_u32_round_trip(pre + u32_wire(lo), hi, rest);
    assert(data =~= pre + u32_wire(lo) + (u32_wire(hi) + rest));
    assert(data =~= (pre + u32_wire(lo)) + u32_wire(hi) + rest);
}

/// The two's complement word of a signed number carries that number, and back.
pub proof fn lemma_words_are_inverse(x: i32, w: u32, y: i64, v: u64)
    ensures
        word_i32(i32_word(x)) == x,
        i32_word(word_i32(w)) == w,
        word_i64(i64_word(y)) == y,
        i64_word(word_i64(v)) == v,
{
}

/// Appends the four bytes of `x` to `out`.
pub fn put_u32(out: &mut Vec<u8>, x: u32)
    ensures
        final(out)@ == old(out)@ + u32_wire(x),
{
    out.push((x % 256) as u8);
    out.push((x / 256 % 256) as u8);
    out.push((x / 65536 % 256) as u8);
    out.push((x / 16777216) as u8);
    proof {
        reveal(u32_wire);
    }
    assert(out@ =~= old(out)@ + u32_wire(x));
}

/// Appends the eight bytes of `x` to `out`.
pub fn put_u64(out: &mut Vec<u8>, x: u64)
    ensures
        final(out)@ == old(out)@ + u64_wire(x),
{
    put_u32(out, (x % 4294967296) as u32);
    put_u32(out, (x / 4294967296) as u32);
    proof {
        reveal(u64_wire);
    }
    assert(out@ =~= old(out)@ + u64_wire(x));
}

/// Reads the 32-bit number at `pos`, if four bytes stand there.
pub fn get_u32(data: &[u8], pos: usize) -> (r: Result<u32, Error>)
    ensures
        pos + 4 <= data@.len() ==> r == Ok::<u32, Error>(u32_at(data@, pos as int)),
        pos + 4 > data@.len() ==> r == Err::<u32, Error>(Error::ReadMsgParcelFailed),
        data@.len() <= usize::MAX,
{
    if pos > data.len() || data.len() - pos < 4 {
        return Err(Error::ReadMsgParcelFailed);
    }
    proof {
        reveal(u32_at);
    }
    let b0: u32 = data[pos] as u32;
    let b1: u32 = data[pos + 1] as u32;
    let b2: u32 = data[pos + 2] as u32;
    let b3: u32 = data[pos + 3] as u32;
    Ok(b0 + 256 * b1 + 65536 * b2 + 16777216 * b3)
}

/// Reads the 64-bit number at `pos`, if eight bytes stand there.
pub fn get_u64(data: &[u8], pos: usize) -> (r: Result<u64, Error>)
    ensures
        pos + 8 <= data@.len() ==> r == Ok::<u64, Error>(u64_at(data@, pos as int)),
        pos + 8 > data@.len() ==> r == Err::<u64, Error>(Error::ReadMsgParcelFailed),
        data@.len() <= usize::MAX,
{
    if pos > data.len() || data.len() - pos < 8 {
        return Err(Error::ReadMsgParcelFailed);
    }
    proof {
        reveal(u64_at);
    }
    let lo: u32 = match get_u32(data, pos) {
        Ok(w) => w,
        Err(e) => { return Err(e); },
    };
    let hi: u32 = match get_u32(data, pos + 4) {
        Ok(w) => w,
        Err(e) => { return Err(e); },
    };
    Ok(lo as u64 + 4294967296 * (hi as u64))
}

/// The word that carries `x` in two's complement.
pub fn i32_to_word(x: i32) -> (w: u32)
    ensures
        w == i32_word(x),
{
    if x >= 0 {
        x as u32
    } else {
        ((x + 1 + 2147483647) as u32) + 2147483648
    }
}

/// The signed number that `w` carries in two's complement.
pub fn word_to_i32(w: u32) -> (x: i32)
    ensures
        x == word_i32(w),
{
    if w < 2147483648 {
        w as i32
    } else {
        ((w - 2147483648) as i32) - 2147483647 - 1
    }
}

/// The word that carries `x` in two's complement.
pub fn i64_to_word(x: i64) -> (w: u64)
    ensures
        w == i64_word(x),
{
    if x >= 0 {
        x as u64
    } else {
        ((x + 1 + 9223372036854775807) as u64) + 9223372036854775808
    }
}

/// The signed number that `w` carries in two's complement.
pub fn word_to_i64(w: u64) -> (x: i64)
    ensures
        x == word_i64(w),
{
    if w < 9223372036854775808 {
        w as i64
    } else {
        ((w - 9223372036854775808) as i64) - 9223372036854775807 - 1
    }
}

} // verus!
