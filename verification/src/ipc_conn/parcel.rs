//! The message buffer, and what it takes for a type to travel in it.
//!
//! A type says in [`Serialize`] which bytes stand for a value and in
//! [`Deserialize`] which value a run of bytes stands for. Both speak of the
//! value's mathematical model, its deep view. [`Wire`] is the promise that the
//! two agree: what was written is read back.

use vstd::prelude::*;
use crate::ipc_conn::error::Error;

verus! {

/// What reading a value gives: its model and the position behind its last byte, or the failure.
pub type Parsed<V> = Result<(V, int), Error>;

/// A type whose values can be written to the wire.
pub trait Serialize: DeepView {
    /// The bytes that stand for the value with model `v`.
    spec fn wire(v: Self::V) -> Seq<u8>;

    /// Whether the value with model `v` can be written: every count in it
    /// fits the 32-bit field that announces it.
    spec fn fits(v: Self::V) -> bool;

    /// Appends the bytes of `self` to `out`.
    ///
    /// Fails with [`Error::WriteMsgParcelFailed`] exactly where the value
    /// does not fit; `out` then still begins with what it held before.
    fn serialize(&self, out: &mut Vec<u8>) -> (r: Result<(), Error>)
        ensures
            Self::fits(self.deep_view()) ==> r is Ok && final(out)@ == old(out)@ + Self::wire(
                self.deep_view(),
            ),
            !Self::fits(self.deep_view()) ==> r == Err::<(), Error>(Error::WriteMsgParcelFailed),
            old(out)@.len() <= final(out)@.len(),
            final(out)@.subrange(0, old(out)@.len() as int) == old(out)@,
    ;
}

/// A type whose values can be read from the wire.
pub trait Deserialize: DeepView + Sized {
    /// The model of the value that the bytes of `data` from `pos` on stand
    /// for, with the position behind it; or why they stand for none.
    spec fn parse(data: Seq<u8>, pos: int) -> Parsed<Self::V>;

    /// A value ends behind where it starts, and inside the buffer.
    proof fn lemma_parse_bounds(data: Seq<u8>, pos: int)
        requires
            0 <= pos,
        ensures
            Self::parse(data, pos) matches Ok((_, end)) ==> pos <= end <= data.len(),
    ;

    /// Reads the value that starts at `pos`.
    fn deserialize(data: &[u8], pos: usize) -> (r: Result<(Self, usize), Error>)
        ensures
            match Self::parse(data@, pos as int) {
                Ok((v, end)) => r matches Ok((x, p)) && x.deep_view() == v && p == end,
                Err(e) => r matches Err(f) && f == e,
            },
    ;
}

/// A type that is read back as it was written.
pub trait Wire: Serialize + Deserialize {
    /// The bytes of a value that fits, wherever they stand in a buffer, are
    /// read as that value, and reading stops right behind them.
    proof fn lemma_round_trip(pre: Seq<u8>, v: Self::V, rest: Seq<u8>)
        requires
            Self::fits(v),
        ensures
            Self::parse(pre + Self::wire(v) + rest, pre.len() as int) == Ok::<
                (Self::V, int),
                Error,
            >((v, (pre.len() + Self::wire(v).len()) as int)),
    ;
}

/// A value that fits and is written at the end of a buffer is read back
/// from where the buffer ended, and reading stops at the new end.
pub proof fn lemma_written_is_read_back<T: Wire>(before: Seq<u8>, v: T::V)
    requires
        T::fits(v),
    ensures
        T::parse(before + T::wire(v), before.len() as int) == Ok::<(T::V, int), Error>(
            (v, (before + T::wire(v)).len() as int),
        ),
{
    T::lemma_round_trip(before, v, Seq::empty());
    assert(before + T::wire(v) + Seq::<u8>::empty() =~= before + T::wire(v));
}

/// A reference is written as what it points to.
impl<T: Serialize> Serialize for &T {
    open spec fn wire(v: T::V) -> Seq<u8> {
        T::wire(v)
    }

    open spec fn fits(v: T::V) -> bool {
        T::fits(v)
    }

    fn serialize(&self, out: &mut Vec<u8>) -> (r: Result<(), Error>) {
        (**self).serialize(out)
    }
}

/// A buffer of bytes that is written at its end and read from a cursor.
pub struct MsgParcel {
    data: Vec<u8>,
    cursor: usize,
}

impl MsgParcel {
    /// The cursor stands inside the buffer. Every buffer made and changed by
    /// the functions of this type is so.
    pub open spec fn wf(&self) -> bool {
        0 <= self.position() <= self.bytes().len()
    }

    /// All bytes of the buffer, read or not.
    pub closed spec fn bytes(&self) -> Seq<u8> {
        self.data@
    }

    /// How many bytes have been read.
    pub closed spec fn position(&self) -> int {
        self.cursor as int
    }

    /// How many bytes the buffer holds.
    pub fn len(&self) -> (r: usize)
        ensures
            r == self.bytes().len(),
    {
        self.data.len()
    }

    /// How many bytes have been read.
    pub fn read_position(&self) -> (r: usize)
        ensures
            r == self.position(),
    {
        self.cursor
    }

    /// An empty buffer.
    pub fn new() -> (r: MsgParcel)
        ensures
            r.bytes() == Seq::<u8>::empty(),
            r.position() == 0,
            r.wf(),
    {
        MsgParcel { data: Vec::new(), cursor: 0 }
    }

    /// A buffer that holds `data`, none of it read yet.
    pub fn from_bytes(data: Vec<u8>) -> (r: MsgParcel)
        ensures
            r.bytes() == data@,
            r.position() == 0,
            r.wf(),
    {
        MsgParcel { data, cursor: 0 }
    }

    /// The bytes of the buffer.
    pub fn as_bytes(&self) -> (r: &[u8])
        ensures
            r@ == self.bytes(),
    {
        self.data.as_slice()
    }

    /// Gives the bytes of the buffer away.
    pub fn into_bytes(self) -> (r: Vec<u8>)
        ensures
            r@ == self.bytes(),
    {
        self.data
    }

    /// Writes `value` at the end of the buffer.
    ///
    /// Where the value does not fit, the buffer is left as it was.
    pub fn write<T: Serialize>(&mut self, value: &T) -> (r: Result<(), Error>)
        ensures
            final(self).position() == old(self).position(),
            old(self).wf() ==> final(self).wf(),
            T::fits(value.deep_view()) ==> r is Ok && final(self).bytes() == old(self).bytes()
                + T::wire(value.deep_view()),
            !T::fits(value.deep_view()) ==> r == Err::<(), Error>(Error::WriteMsgParcelFailed)
                && final(self).bytes() == old(self).bytes(),
    {
        let mark = self.data.len();
        let r = value.serialize(&mut self.data);
        if r.is_err() {
            self.data.truncate(mark);
        }
        r
    }

    /// Reads the value at the cursor and moves the cursor behind it.
    ///
    /// Where no value can be read, the cursor stays.
    pub fn read<T: Deserialize>(&mut self) -> (r: Result<T, Error>)
        ensures
            final(self).bytes() == old(self).bytes(),
            old(self).wf() ==> final(self).wf(),
            match T::parse(old(self).bytes(), old(self).position()) {
                Ok((v, end)) => r matches Ok(x) && x.deep_view() == v && final(self).position()
                    == end,
                Err(e) => r matches Err(f) && f == e && final(self).position() == old(
                    self,
                ).position(),
            },
    {
        proof {
            T::lemma_parse_bounds(self.data@, self.cursor as int);
        }
        match T::deserialize(self.data.as_slice(), self.cursor) {
            Ok((value, end)) => {
                self.cursor = end;
                Ok(value)
            },
            Err(e) => Err(e),
        }
    }
}

} // verus!
