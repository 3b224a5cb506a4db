//! Failures of the codec and of the exchanges with the service.

use vstd::prelude::*;
use crate::ipc_conn::parcel::{Deserialize, Parsed};

verus! {

/// Why an operation of this crate failed.
///
/// The first three variants are failures of the transport, reported by the
/// caller who drives it. The others are found by this crate while it writes or
/// reads a buffer, except [`Error::Service`], which the service itself reports.
#[derive(Clone, Copy, Debug, PartialEq, Eq, Structural)]
pub enum Error {
    /// No buffer for a request could be had.
    CreateMsgParcelFailed,
    /// No handle on the remote service could be had for the user.
    GetProxyObjectFailed,
    /// The request could not be sent, or no reply came back.
    SendRequestFailed,
    /// A buffer ended before the value being read was complete.
    ReadMsgParcelFailed,
    /// A value holds more items than a 32-bit count can announce.
    WriteMsgParcelFailed,
    /// A tag, a status code, a count or a text is outside what the format allows.
    MalformedValue,
    /// A map names one key twice.
    DuplicateKey,
    /// A number stands for no field type.
    InvalidFieldType,
    /// The service reported a failure; the code is the one it sent.
    Service(i32),
}

impl View for Error {
    type V = Error;

    open spec fn view(&self) -> Error {
        *self
    }
}

impl DeepView for Error {
    type V = Error;

    open spec fn deep_view(&self) -> Error {
        *self
    }
}

/// A failure on the wire is the code that the service gave it.
impl Deserialize for Error {
    open spec fn parse(data: Seq<u8>, pos: int) -> Parsed<Error> {
        match i32::parse(data, pos) {
            Err(e) => Err(e),
            Ok((code, end)) => Ok((Error::Service(code), end)),
        }
    }

    proof fn lemma_parse_bounds(data: Seq<u8>, pos: int) {
        i32::lemma_parse_bounds(data, pos);
    }

    fn deserialize(data: &[u8], pos: usize) -> (r: Result<(Error, usize), Error>) {
        match i32::deserialize(data, pos) {
            Ok((code, end)) => Ok((Error::Service(code), end)),
            Err(e) => Err(e),
        }
    }
}

/// Several failures reported together.
#[derive(Clone, Debug, PartialEq, Eq)]
pub struct Errors(pub Vec<Error>);

impl View for Errors {
    type V = Seq<Error>;

    open spec fn view(&self) -> Seq<Error> {
        self.0@
    }
}

impl DeepView for Errors {
    type V = Seq<Error>;

    open spec fn deep_view(&self) -> Seq<Error> {
        self@
    }
}

impl Default for Errors {
    fn default() -> (r: Errors)
        ensures
            r@ == Seq::<Error>::empty(),
    {
        Errors(Vec::new())
    }
}

impl Deserialize for Errors {
    open spec fn parse(data: Seq<u8>, pos: int) -> Parsed<Seq<Error>> {
        Vec::<Error>::parse(data, pos)
    }

    proof fn lemma_parse_bounds(data: Seq<u8>, pos: int) {
        Vec::<Error>::lemma_parse_bounds(data, pos);
    }

    fn deserialize(data: &[u8], pos: usize) -> (r: Result<(Errors, usize), Error>) {
        match Vec::<Error>::deserialize(data, pos) {
            Ok((list, end)) => {
                proof {
                    assert(list.deep_view() =~= list@);
                }
                Ok((Errors(list), end))
            },
            Err(e) => Err(e),
        }
    }
}

impl Errors {
    /// A list that holds the one failure `error`.
    pub fn single(error: Error) -> (r: Errors)
        ensures
            r@ == seq![error],
    {
        let mut list: Vec<Error> = Vec::new();
        list.push(error);
        Errors(list)
    }
}

} // verus!
