//! Registering for changes in the cloud, and cancelling registrations.
//!
//! To register, the caller sends the request built here and hands the reply
//! back: a status, and behind the status 0 the registrations that were made.
//! To cancel, likewise; the reply to a cancellation is empty unless something
//! failed, in which case it lists the failures.

use vstd::prelude::*;
use crate::ipc_conn::error::{Error, Errors};
use crate::ipc_conn::function::{CloudServiceFunc, Request};
use crate::ipc_conn::parcel::{Deserialize, Parsed, Serialize};
use crate::ipc_conn::primitive::String16;
use crate::ipc_conn::schema::{DatabaseView, Databases};
use crate::ipc_conn::string_map::StringMap;

verus! {

/// The registrations made for one database: for each table its alias and
/// the identity of the registration.
#[derive(Clone, Debug, PartialEq)]
pub struct SubscriptionResultValue(pub Vec<(String, String)>);

impl View for SubscriptionResultValue {
    type V = Seq<(Seq<char>, Seq<char>)>;

    open spec fn view(&self) -> Seq<(Seq<char>, Seq<char>)> {
        self.0.deep_view()
    }
}

impl DeepView for SubscriptionResultValue {
    type V = Seq<(Seq<char>, Seq<char>)>;

    open spec fn deep_view(&self) -> Seq<(Seq<char>, Seq<char>)> {
        self@
    }
}

impl Default for SubscriptionResultValue {
    fn default() -> (r: SubscriptionResultValue)
        ensures
            r@ == Seq::<(Seq<char>, Seq<char>)>::empty(),
    {
        let r = SubscriptionResultValue(Vec::new());
        assert(r.0.deep_view() =~= Seq::<(Seq<char>, Seq<char>)>::empty());
        r
    }
}

impl Deserialize for SubscriptionResultValue {
    open spec fn parse(data: Seq<u8>, pos: int) -> Parsed<Seq<(Seq<char>, Seq<char>)>> {
        Vec::<(String, String)>::parse(data, pos)
    }

    proof fn lemma_parse_bounds(data: Seq<u8>, pos: int) {
        Vec::<(String, String)>::lemma_parse_bounds(data, pos);
    }

    fn deserialize(data: &[u8], pos: usize) -> (r: Result<
        (SubscriptionResultValue, usize),
        Error,
    >) {
        match Vec::<(String, String)>::deserialize(data, pos) {
            Ok((pairs, end)) => Ok((SubscriptionResultValue(pairs), end)),
            Err(e) => Err(e),
        }
    }
}

/// The mathematical model of a [`SubscriptionResult`]: the interval, and
/// the registrations under the aliases of their databases.
pub type SubscriptionResultView = (i64, Seq<(Seq<char>, Seq<(Seq<char>, Seq<char>)>)>);

/// What registering gave: the interval after which to register again, and
/// the registrations made, under the aliases of their databases.
#[derive(Debug)]
pub struct SubscriptionResult(pub (i64, StringMap<SubscriptionResultValue>));

impl View for SubscriptionResult {
    type V = SubscriptionResultView;

    open spec fn view(&self) -> SubscriptionResultView {
        (self.0.0, self.0.1@)
    }
}

impl DeepView for SubscriptionResult {
    type V = SubscriptionResultView;

    open spec fn deep_view(&self) -> SubscriptionResultView {
        self@
    }
}

impl Default for SubscriptionResult {
    fn default() -> (r: SubscriptionResult)
        ensures
            r@ == (0i64, Seq::<(Seq<char>, Seq<(Seq<char>, Seq<char>)>)>::empty()),
    {
        SubscriptionResult((0, StringMap::new()))
    }
}

impl Deserialize for SubscriptionResult {
    open spec fn parse(data: Seq<u8>, pos: int) -> Parsed<SubscriptionResultView> {
        <(i64, StringMap<SubscriptionResultValue>)>::parse(data, pos)
    }

    proof fn lemma_parse_bounds(data: Seq<u8>, pos: int) {
        <(i64, StringMap<SubscriptionResultValue>)>::lemma_parse_bounds(data, pos);
    }

    fn deserialize(data: &[u8], pos: usize) -> (r: Result<(SubscriptionResult, usize), Error>) {
        match <(i64, StringMap<SubscriptionResultValue>)>::deserialize(data, pos) {
            Ok((found, end)) => Ok((SubscriptionResult(found), end)),
            Err(e) => Err(e),
        }
    }
}

/// The registrations to cancel: under the name of each bundle, their identities.
#[derive(Clone, Debug)]
pub struct UnsubscriptionInfo(pub StringMap<Vec<String>>);

impl View for UnsubscriptionInfo {
    type V = Seq<(Seq<char>, Seq<Seq<char>>)>;

    open spec fn view(&self) -> Seq<(Seq<char>, Seq<Seq<char>>)> {
        self.0@
    }
}

impl DeepView for UnsubscriptionInfo {
    type V = Seq<(Seq<char>, Seq<Seq<char>>)>;

    open spec fn deep_view(&self) -> Seq<(Seq<char>, Seq<Seq<char>>)> {
        self@
    }
}

impl Default for UnsubscriptionInfo {
    fn default() -> (r: UnsubscriptionInfo)
        ensures
            r@ == Seq::<(Seq<char>, Seq<Seq<char>>)>::empty(),
    {
        UnsubscriptionInfo(StringMap::new())
    }
}

impl Serialize for UnsubscriptionInfo {
    open spec fn wire(v: Seq<(Seq<char>, Seq<Seq<char>>)>) -> Seq<u8> {
        StringMap::<Vec<String>>::wire(v)
    }

    open spec fn fits(v: Seq<(Seq<char>, Seq<Seq<char>>)>) -> bool {
        StringMap::<Vec<String>>::fits(v)
    }

    fn serialize(&self, out: &mut Vec<u8>) -> (r: Result<(), Error>) {
        self.0.serialize(out)
    }
}

/// The payload of a request to register: the time at which the
/// registration ends, the bundle, and the databases.
pub open spec fn subscribe_wire(
    expiration: i64,
    bundle_name: Seq<char>,
    databases: Seq<DatabaseView>,
) -> Seq<u8> {
    <(i64, (String16, Databases))>::wire((expiration, (bundle_name, databases)))
}

/// Whether a request to register can be written.
pub open spec fn subscribe_fits(
    expiration: i64,
    bundle_name: Seq<char>,
    databases: Seq<DatabaseView>,
) -> bool {
    <(i64, (String16, Databases))>::fits((expiration, (bundle_name, databases)))
}

/// What the reply `data` to a request to register holds: a status, and
/// behind the status 0 what registering gave. Any other status, and a reply
/// that cannot be read, is nothing but a failure.
pub open spec fn subscribe_parse(data: Seq<u8>) -> Option<SubscriptionResultView> {
    match i32::parse(data, 0) {
        Err(_) => None,
        Ok((status, pos)) => if status == 0 {
            match SubscriptionResult::parse(data, pos) {
                Err(_) => None,
                Ok((result, _)) => Some(result),
            }
        } else {
            None
        },
    }
}

/// What the reply `data` to a request to cancel holds: the failures it
/// lists. A reply that lists none, or that cannot be read as a list, tells
/// of no failure.
pub open spec fn unsubscribe_parse(data: Seq<u8>) -> Seq<Error> {
    match Errors::parse(data, 0) {
        Err(_) => Seq::empty(),
        Ok((errors, _)) => errors,
    }
}

/// Registering and cancelling.
#[derive(Clone, Copy, Debug, Default)]
pub struct Subscription;

impl Subscription {
    /// Builds the request that registers for the changes of `databases`
    /// until `expiration`.
    ///
    /// Fails with the one failure [`Error::WriteMsgParcelFailed`] exactly
    /// where a text or a sequence is too long for its count.
    pub fn subscribe_request(expiration: i64, bundle_name: &str, databases: &Databases) -> (r:
        Result<Request, Errors>)
        ensures
            subscribe_fits(expiration, bundle_name@, databases@) ==> (r matches Ok(request)
                && request.code == CloudServiceFunc::Subscribe.spec_code() && request.data@
                == subscribe_wire(expiration, bundle_name@, databases@)),
            !subscribe_fits(expiration, bundle_name@, databases@) ==> (r matches Err(errors)
                && errors@ == seq![Error::WriteMsgParcelFailed]),
    {
        let bundle_name = String16::new(bundle_name);
        let mut data: Vec<u8> = Vec::new();
        match (&expiration, (&bundle_name, databases)).serialize(&mut data) {
            Ok(()) => {
                assert(data@ =~= subscribe_wire(expiration, bundle_name@, databases@));
                Ok(Request { code: CloudServiceFunc::Subscribe.code(), data })
            },
            Err(e) => Err(Errors::single(e)),
        }
    }

    /// Reads from `reply` what registering gave.
    ///
    /// Fails with the one failure [`Error::ReadMsgParcelFailed`] where the
    /// status is not 0 or the reply cannot be read.
    pub fn subscribe_result(reply: &[u8]) -> (r: Result<SubscriptionResult, Errors>)
        ensures
            match subscribe_parse(reply@) {
                Some(v) => r matches Ok(x) && x@ == v,
                None => r matches Err(errors) && errors@ == seq![Error::ReadMsgParcelFailed],
            },
    {
        let (status, pos) = match i32::deserialize(reply, 0) {
            Ok(found) => found,
            Err(_) => {
                return Err(Errors::single(Error::ReadMsgParcelFailed));
            },
        };
        if status == 0 {
            match SubscriptionResult::deserialize(reply, pos) {
                Ok((result, _)) => {
                    return Ok(result);
                },
                Err(_) => {},
            }
        }
        Err(Errors::single(Error::ReadMsgParcelFailed))
    }

    /// Takes what the exchange with the service gave, the reply or the
    /// failure of the transport, and tells what registering gave.
    pub fn subscribe(exchanged: Result<Vec<u8>, Error>) -> (r: Result<SubscriptionResult, Errors>)
        ensures
            match exchanged {
                Err(e) => r matches Err(errors) && errors@ == seq![e],
                Ok(reply) => match subscribe_parse(reply@) {
                    Some(v) => r matches Ok(x) && x@ == v,
                    None => r matches Err(errors) && errors@ == seq![Error::ReadMsgParcelFailed],
                },
            },
    {
        match exchanged {
            Err(e) => Err(Errors::single(e)),
            Ok(reply) => Subscription::subscribe_result(reply.as_slice()),
        }
    }

    /// Builds the request that cancels the registrations that `info` names.
    ///
    /// Fails with the one failure [`Error::WriteMsgParcelFailed`] exactly
    /// where a text or a sequence is too long for its count.
    pub fn unsubscribe_request(info: &UnsubscriptionInfo) -> (r: Result<Request, Errors>)
        ensures
            UnsubscriptionInfo::fits(info@) ==> (r matches Ok(request) && request.code
                == CloudServiceFunc::Unsubscribe.spec_code() && request.data@
                == UnsubscriptionInfo::wire(info@)),
            !UnsubscriptionInfo::fits(info@) ==> (r matches Err(errors) && errors@
                == seq![Error::WriteMsgParcelFailed]),
    {
        let mut data: Vec<u8> = Vec::new();
        match info.serialize(&mut data) {
            Ok(()) => {
                assert(data@ =~= UnsubscriptionInfo::wire(info@));
                Ok(Request { code: CloudServiceFunc::Unsubscribe.code(), data })
            },
            Err(e) => Err(Errors::single(e)),
        }
    }

    /// Reads from `reply` whether cancelling went through.
    ///
    /// Fails with the failures that the reply lists, where it lists any.
    pub fn unsubscribe_result(reply: &[u8]) -> (r: Result<(), Errors>)
        ensures
            unsubscribe_parse(reply@).len() == 0 ==> r is Ok,
            unsubscribe_parse(reply@).len() > 0 ==> (r matches Err(errors) && errors@
                == unsubscribe_parse(reply@)),
    {
        match Errors::deserialize(reply, 0) {
            Ok((errors, _)) => {
                if errors.0.len() > 0 {
                    Err(errors)
                } else {
                    Ok(())
                }
            },
            Err(_) => Ok(()),
        }
    }

    /// Takes what the exchange with the service gave, the reply or the
    /// failure of the transport, and tells whether cancelling went through.
    pub fn unsubscribe(exchanged: Result<Vec<u8>, Error>) -> (r: Result<(), Errors>)
        ensures
            match exchanged {
                Err(e) => r matches Err(errors) && errors@ == seq![e],
                Ok(reply) => {
                    &&& unsubscribe_parse(reply@).len() == 0 ==> r is Ok
                    &&& unsubscribe_parse(reply@).len() > 0 ==> (r matches Err(errors) && errors@
                        == unsubscribe_parse(reply@))
                },
            },
    {
        match exchanged {
            Err(e) => Err(Errors::single(e)),
            Ok(reply) => Subscription::unsubscribe_result(reply.as_slice()),
        }
    }
}

} // verus!
