//! What the cloud service tells about applications, and the exchanges that ask for it.

use std::collections::HashMap;
use vstd::prelude::*;
use crate::ipc_conn::error::Error;
use crate::ipc_conn::function::{CloudServiceFunc, Request};
use crate::ipc_conn::info::{
    app_infos_reply_parse, service_info_reply_parse, AppInfoView, AppInfos, ServiceInfo,
    ServiceInfoView,
};
use crate::ipc_conn::parcel::{Deserialize, Parsed, Serialize, Wire};
use crate::ipc_conn::primitive::String16;
use crate::ipc_conn::schema::{schema_reply_parse, Schema, SchemaView};

verus! {

/// The state of an asset with respect to the cloud.
#[derive(Clone, Copy, Debug, PartialEq, Eq, Structural)]
pub enum AssetStatus {
    /// Everything is in order.
    Normal,
    /// The asset is about to be inserted.
    Insert,
    /// The asset is about to be updated.
    Update,
    /// The asset is about to be deleted.
    Delete,
    /// Something is wrong with the asset.
    Abnormal,
    /// The asset is being downloaded.
    Downloading,
}

impl Default for AssetStatus {
    fn default() -> (r: AssetStatus)
        ensures
            r == AssetStatus::Normal,
    {
        AssetStatus::Normal
    }
}

impl View for AssetStatus {
    type V = AssetStatus;

    open spec fn view(&self) -> AssetStatus {
        *self
    }
}

impl DeepView for AssetStatus {
    type V = AssetStatus;

    open spec fn deep_view(&self) -> AssetStatus {
        *self
    }
}

impl AssetStatus {
    /// The number that stands for the status on the wire.
    pub open spec fn spec_code(self) -> i32 {
        match self {
            AssetStatus::Normal => 0,
            AssetStatus::Insert => 1,
            AssetStatus::Update => 2,
            AssetStatus::Delete => 3,
            AssetStatus::Abnormal => 4,
            AssetStatus::Downloading => 5,
        }
    }

    /// The status that `code` stands for, if it stands for one.
    pub open spec fn spec_from_code(code: i32) -> Option<AssetStatus> {
        if code == 0 {
            Some(AssetStatus::Normal)
        } else if code == 1 {
            Some(AssetStatus::Insert)
        } else if code == 2 {
            Some(AssetStatus::Update)
        } else if code == 3 {
            Some(AssetStatus::Delete)
        } else if code == 4 {
            Some(AssetStatus::Abnormal)
        } else if code == 5 {
            Some(AssetStatus::Downloading)
        } else {
            None
        }
    }

    /// The number that stands for the status on the wire.
    #[verifier::when_used_as_spec(spec_code)]
    pub fn code(self) -> (r: i32)
        ensures
            r == self.spec_code(),
    {
        match self {
            AssetStatus::Normal => 0,
            AssetStatus::Insert => 1,
            AssetStatus::Update => 2,
            AssetStatus::Delete => 3,
            AssetStatus::Abnormal => 4,
            AssetStatus::Downloading => 5,
        }
    }

    /// The status that `code` stands for, if it stands for one.
    #[verifier::when_used_as_spec(spec_from_code)]
    pub fn from_code(code: i32) -> (r: Option<AssetStatus>)
        ensures
            r == AssetStatus::spec_from_code(code),
    {
        match code {
            0 => Some(AssetStatus::Normal),
            1 => Some(AssetStatus::Insert),
            2 => Some(AssetStatus::Update),
            3 => Some(AssetStatus::Delete),
            4 => Some(AssetStatus::Abnormal),
            5 => Some(AssetStatus::Downloading),
            _ => None,
        }
    }
}

impl Serialize for AssetStatus {
    open spec fn wire(v: AssetStatus) -> Seq<u8> {
        i32::wire(v.spec_code())
    }

    open spec fn fits(v: AssetStatus) -> bool {
        true
    }

    fn serialize(&self, out: &mut Vec<u8>) -> (r: Result<(), Error>) {
        self.code().serialize(out)
    }
}

impl Deserialize for AssetStatus {
    open spec fn parse(data: Seq<u8>, pos: int) -> Parsed<AssetStatus> {
        match i32::parse(data, pos) {
            Err(e) => Err(e),
            Ok((code, end)) => match AssetStatus::spec_from_code(code) {
                Some(status) => Ok((status, end)),
                None => Err(Error::MalformedValue),
            },
        }
    }

    proof fn lemma_parse_bounds(data: Seq<u8>, pos: int) {
        i32::lemma_parse_bounds(data, pos);
    }

    fn deserialize(data: &[u8], pos: usize) -> (r: Result<(AssetStatus, usize), Error>) {
        let (code, end) = match i32::deserialize(data, pos) {
            Ok(found) => found,
            Err(e) => {
                return Err(e);
            },
        };
        match AssetStatus::from_code(code) {
            Some(status) => Ok((status, end)),
            None => Err(Error::MalformedValue),
        }
    }
}

impl Wire for AssetStatus {
    proof fn lemma_round_trip(pre: Seq<u8>, v: AssetStatus, rest: Seq<u8>) {
        i32::lemma_round_trip(pre, v.spec_code(), rest);
    }
}

/// Whether the cloud is switched on for an application.
#[derive(Clone, Copy, Debug, PartialEq, Eq, Structural)]
pub enum SwitchStatus {
    /// Switched off.
    Close,
    /// Switched on.
    Open,
    /// The cloud is not enabled at all.
    NotEnable,
}

impl Default for SwitchStatus {
    fn default() -> (r: SwitchStatus)
        ensures
            r == SwitchStatus::Close,
    {
        SwitchStatus::Close
    }
}

impl View for SwitchStatus {
    type V = SwitchStatus;

    open spec fn view(&self) -> SwitchStatus {
        *self
    }
}

impl DeepView for SwitchStatus {
    type V = SwitchStatus;

    open spec fn deep_view(&self) -> SwitchStatus {
        *self
    }
}

impl SwitchStatus {
    /// The number that stands for the status on the wire.
    pub open spec fn spec_code(self) -> u32 {
        match self {
            SwitchStatus::Close => 0,
            SwitchStatus::Open => 1,
            SwitchStatus::NotEnable => 2,
        }
    }

    /// The status that `code` stands for, if it stands for one.
    pub open spec fn spec_from_code(code: u32) -> Option<SwitchStatus> {
        if code == 0 {
            Some(SwitchStatus::Close)
        } else if code == 1 {
            Some(SwitchStatus::Open)
        } else if code == 2 {
            Some(SwitchStatus::NotEnable)
        } else {
            None
        }
    }

    /// The number that stands for the status on the wire.
    #[verifier::when_used_as_spec(spec_code)]
    pub fn code(self) -> (r: u32)
        ensures
            r == self.spec_code(),
    {
        match self {
            SwitchStatus::Close => 0,
            SwitchStatus::Open => 1,
            SwitchStatus::NotEnable => 2,
        }
    }
}

impl Serialize for SwitchStatus {
    open spec fn wire(v: SwitchStatus) -> Seq<u8> {
        u32::wire(v.spec_code())
    }

    open spec fn fits(v: SwitchStatus) -> bool {
        true
    }

    fn serialize(&self, out: &mut Vec<u8>) -> (r: Result<(), Error>) {
        self.code().serialize(out)
    }
}

impl Deserialize for SwitchStatus {
    open spec fn parse(data: Seq<u8>, pos: int) -> Parsed<SwitchStatus> {
        match u32::parse(data, pos) {
            Err(e) => Err(e),
            Ok((code, end)) => match SwitchStatus::spec_from_code(code) {
                Some(status) => Ok((status, end)),
                None => Err(Error::MalformedValue),
            },
        }
    }

    proof fn lemma_parse_bounds(data: Seq<u8>, pos: int) {
        u32::lemma_parse_bounds(data, pos);
    }

    fn deserialize(data: &[u8], pos: usize) -> (r: Result<(SwitchStatus, usize), Error>) {
        let (code, end) = match u32::deserialize(data, pos) {
            Ok(found) => found,
            Err(e) => {
                return Err(e);
            },
        };
        match code {
            0 => Ok((SwitchStatus::Close, end)),
            1 => Ok((SwitchStatus::Open, end)),
            2 => Ok((SwitchStatus::NotEnable, end)),
            _ => Err(Error::MalformedValue),
        }
    }
}

impl Wire for SwitchStatus {
    proof fn lemma_round_trip(pre: Seq<u8>, v: SwitchStatus, rest: Seq<u8>) {
        u32::lemma_round_trip(pre, v.spec_code(), rest);
    }
}

/// What a device answers when it is asked who it is.
#[derive(Clone, Debug, PartialEq)]
pub struct Response {
    /// When the answer was given.
    pub time: u64,
    /// The name of the device.
    pub device_name: String,
    /// The identity of the application.
    pub app_id: String,
}

/// The mathematical model of a [`Response`].
pub struct ResponseView {
    pub time: u64,
    pub device_name: Seq<char>,
    pub app_id: Seq<char>,
}

impl View for Response {
    type V = ResponseView;

    open spec fn view(&self) -> ResponseView {
        ResponseView { time: self.time, device_name: self.device_name@, app_id: self.app_id@ }
    }
}

impl DeepView for Response {
    type V = ResponseView;

    open spec fn deep_view(&self) -> ResponseView {
        self@
    }
}

impl Default for Response {
    fn default() -> (r: Response)
        ensures
            r@ == (ResponseView { time: 0, device_name: Seq::empty(), app_id: Seq::empty() }),
    {
        Response { time: 0, device_name: String::new(), app_id: String::new() }
    }
}

/// The parts of a response in the order in which they travel.
pub type ResponseParts = (u64, (String, String));

impl Serialize for Response {
    open spec fn wire(v: ResponseView) -> Seq<u8> {
        ResponseParts::wire((v.time, (v.device_name, v.app_id)))
    }

    open spec fn fits(v: ResponseView) -> bool {
        ResponseParts::fits((v.time, (v.device_name, v.app_id)))
    }

    fn serialize(&self, out: &mut Vec<u8>) -> (r: Result<(), Error>) {
        (&self.time, (&self.device_name, &self.app_id)).serialize(out)
    }
}

impl Deserialize for Response {
    open spec fn parse(data: Seq<u8>, pos: int) -> Parsed<ResponseView> {
        match ResponseParts::parse(data, pos) {
            Err(e) => Err(e),
            Ok((f, end)) => Ok(
                (ResponseView { time: f.0, device_name: f.1.0, app_id: f.1.1 }, end),
            ),
        }
    }

    proof fn lemma_parse_bounds(data: Seq<u8>, pos: int) {
        ResponseParts::lemma_parse_bounds(data, pos);
    }

    fn deserialize(data: &[u8], pos: usize) -> (r: Result<(Response, usize), Error>) {
        match ResponseParts::deserialize(data, pos) {
            Ok(((time, (device_name, app_id)), end)) => Ok(
                (Response { time, device_name, app_id }, end),
            ),
            Err(e) => Err(e),
        }
    }
}

impl Wire for Response {
    proof fn lemma_round_trip(pre: Seq<u8>, v: ResponseView, rest: Seq<u8>) {
        ResponseParts::lemma_round_trip(pre, (v.time, (v.device_name, v.app_id)), rest);
    }
}

/// What is kept for one user: three slots, each holding what the service
/// last told.
#[derive(Debug)]
pub struct Infos {
    /// The brief information on the applications.
    pub app_infos: AppInfos,
    /// The state of the cloud account.
    pub service_info: ServiceInfo,
    /// The schema that was fetched last.
    pub app_schema: Schema,
}

/// The mathematical model of an [`Infos`].
pub struct InfosView {
    pub app_infos: Seq<(Seq<char>, AppInfoView)>,
    pub service_info: ServiceInfoView,
    pub app_schema: SchemaView,
}

impl InfosView {
    /// The three slots as they are before the service has told anything.
    pub open spec fn empty() -> InfosView {
        InfosView {
            app_infos: Seq::empty(),
            service_info: ServiceInfoView {
                enable_cloud: false,
                account_id: Seq::empty(),
                total_space: 0,
                remain_space: 0,
                user: 0,
            },
            app_schema: SchemaView {
                version: 0,
                bundle_name: Seq::empty(),
                databases: Seq::empty(),
            },
        }
    }
}

impl View for Infos {
    type V = InfosView;

    open spec fn view(&self) -> InfosView {
        InfosView {
            app_infos: self.app_infos@,
            service_info: self.service_info@,
            app_schema: self.app_schema@,
        }
    }
}

impl Default for Infos {
    fn default() -> (r: Infos)
        ensures
            r@ == InfosView::empty(),
    {
        Infos {
            app_infos: AppInfos::default(),
            service_info: ServiceInfo::default(),
            app_schema: Schema::default(),
        }
    }
}

/// The slots `before` with the brief information replaced by what
/// `exchanged` holds, where it holds any.
pub open spec fn with_app_infos(before: InfosView, exchanged: Result<Vec<u8>, Error>) -> InfosView {
    match exchanged {
        Ok(reply) => match app_infos_reply_parse(reply@) {
            Ok(v) => InfosView { app_infos: v, ..before },
            Err(_) => before,
        },
        Err(_) => before,
    }
}

/// The slots `before` with the state of the account replaced by what
/// `exchanged` holds, where it holds any.
pub open spec fn with_service_info(
    before: InfosView,
    exchanged: Result<Vec<u8>, Error>,
) -> InfosView {
    match exchanged {
        Ok(reply) => match service_info_reply_parse(reply@) {
            Ok(v) => InfosView { service_info: v, ..before },
            Err(_) => before,
        },
        Err(_) => before,
    }
}

/// The slots `before` with the schema replaced by what `exchanged` holds,
/// where it holds any.
pub open spec fn with_app_schema(before: InfosView, exchanged: Result<Vec<u8>, Error>) -> InfosView {
    match exchanged {
        Ok(reply) => match schema_reply_parse(reply@) {
            Ok(v) => InfosView { app_schema: v, ..before },
            Err(_) => before,
        },
        Err(_) => before,
    }
}

/// What asking the service gave, where it gave nothing to keep: the failure
/// of the transport, or of reading the reply.
pub open spec fn refresh_failure<V>(
    exchanged: Result<Vec<u8>, Error>,
    parsed: spec_fn(Seq<u8>) -> Result<V, Error>,
) -> Option<Error> {
    match exchanged {
        Err(e) => Some(e),
        Ok(reply) => match parsed(reply@) {
            Err(e) => Some(e),
            Ok(_) => None,
        },
    }
}

/// What the service told last, kept for each user apart.
///
/// Each refresh asks the service anew. What it tells replaces what was kept,
/// as a whole; where asking fails, what was kept stays.
pub struct Connect {
    infos: HashMap<i32, Infos>,
}

impl Connect {
    /// The slots of the users that were asked for so far.
    pub closed spec fn slots(&self) -> Map<i32, InfosView> {
        Map::new(|user: i32| self.infos@.contains_key(user), |user: i32| self.infos@[user]@)
    }

    /// The slots of `user_id`; those of a user never asked for are empty.
    pub open spec fn slot(&self, user_id: i32) -> InfosView {
        if self.slots().contains_key(user_id) {
            self.slots()[user_id]
        } else {
            InfosView::empty()
        }
    }

    /// A store that keeps nothing yet.
    pub fn new() -> (r: Connect)
        ensures
            r.slots() == Map::<i32, InfosView>::empty(),
    {
        let r = Connect { infos: HashMap::new() };
        assert(r.slots() =~= Map::<i32, InfosView>::empty());
        r
    }

    /// The request that asks for the brief information on the applications.
    pub fn app_brief_info_request() -> (r: Request)
        ensures
            r.code == CloudServiceFunc::GetAppBriefInfo.spec_code(),
            r.data@ == Seq::<u8>::empty(),
    {
        Request { code: CloudServiceFunc::GetAppBriefInfo.code(), data: Vec::new() }
    }

    /// The request that asks for the state of the cloud account.
    pub fn service_info_request() -> (r: Request)
        ensures
            r.code == CloudServiceFunc::GetServiceInfo.spec_code(),
            r.data@ == Seq::<u8>::empty(),
    {
        Request { code: CloudServiceFunc::GetServiceInfo.code(), data: Vec::new() }
    }

    /// The request that asks for the schema of the bundle `bundle_name`.
    ///
    /// Fails with [`Error::WriteMsgParcelFailed`] exactly where the name is
    /// too long for its count.
    pub fn app_schema_request(bundle_name: &str) -> (r: Result<Request, Error>)
        ensures
            String16::fits(bundle_name@) ==> (r matches Ok(request) && request.code
                == CloudServiceFunc::GetAppSchema.spec_code() && request.data@ == String16::wire(
                bundle_name@,
            )),
            !String16::fits(bundle_name@) ==> r == Err::<Request, Error>(
                Error::WriteMsgParcelFailed,
            ),
    {
        let bundle_name = String16::new(bundle_name);
        let mut data: Vec<u8> = Vec::new();
        match bundle_name.serialize(&mut data) {
            Ok(()) => {
                assert(data@ =~= String16::wire(bundle_name@));
                Ok(Request { code: CloudServiceFunc::GetAppSchema.code(), data })
            },
            Err(e) => Err(e),
        }
    }

    /// Takes the slots of `user_id` out of the store, or empty ones where
    /// the user was never asked for.
    fn take(&mut self, user_id: i32) -> (r: Infos)
        ensures
            r@ == old(self).slot(user_id),
            final(self).slots() == old(self).slots().remove(user_id),
    {
        broadcast use vstd::std_specs::hash::group_hash_axioms;

        let r = match self.infos.remove(&user_id) {
            Some(found) => found,
            None => Infos::default(),
        };
        assert(self.slots() =~= old(self).slots().remove(user_id));
        r
    }

    /// Puts `infos` into the store as the slots of `user_id`.
    fn put(&mut self, user_id: i32, infos: Infos)
        ensures
            final(self).slots() == old(self).slots().insert(user_id, infos@),
    {
        broadcast use vstd::std_specs::hash::group_hash_axioms;

        self.infos.insert(user_id, infos);
        assert(self.slots() =~= old(self).slots().insert(user_id, infos@));
    }

    /// Refreshes the brief information kept for `user_id` with what the
    /// exchange with the service gave: the reply, or the failure of the
    /// transport.
    ///
    /// What the reply holds replaces what was kept, as a whole. Where the
    /// exchange failed or the reply cannot be read, what was kept stays, and
    /// the failure is told. The two other slots of the user, and the slots
    /// of every other user, stay as they are. A user asked for for the first
    /// time gets empty slots first.
    pub fn get_app_brief_info(&mut self, user_id: i32, exchanged: Result<Vec<u8>, Error>) -> (r:
        Result<(), Error>)
        ensures
            final(self).slots() == old(self).slots().insert(
                user_id,
                with_app_infos(old(self).slot(user_id), exchanged),
            ),
            match refresh_failure(exchanged, |reply: Seq<u8>| app_infos_reply_parse(reply)) {
                Some(e) => r == Err::<(), Error>(e),
                None => r is Ok,
            },
    {
        let mut infos = self.take(user_id);
        let r = match exchanged {
            Err(e) => Err(e),
            Ok(reply) => infos.app_infos.read(reply.as_slice()),
        };
        self.put(user_id, infos);
        proof {
            assert(self.slots() =~= old(self).slots().insert(
                user_id,
                with_app_infos(old(self).slot(user_id), exchanged),
            ));
        }
        r
    }

    /// Refreshes the state of the account kept for `user_id` with what the
    /// exchange with the service gave.
    ///
    /// As [`Connect::get_app_brief_info`], for the second slot.
    pub fn get_service_info(&mut self, user_id: i32, exchanged: Result<Vec<u8>, Error>) -> (r:
        Result<(), Error>)
        ensures
            final(self).slots() == old(self).slots().insert(
                user_id,
                with_service_info(old(self).slot(user_id), exchanged),
            ),
            match refresh_failure(exchanged, |reply: Seq<u8>| service_info_reply_parse(reply)) {
                Some(e) => r == Err::<(), Error>(e),
                None => r is Ok,
            },
    {
        let mut infos = self.take(user_id);
        let r = match exchanged {
            Err(e) => Err(e),
            Ok(reply) => infos.service_info.read(reply.as_slice()),
        };
        self.put(user_id, infos);
        proof {
            assert(self.slots() =~= old(self).slots().insert(
                user_id,
                with_service_info(old(self).slot(user_id), exchanged),
            ));
        }
        r
    }

    /// Refreshes the schema kept for `user_id` with what the exchange with
    /// the service gave.
    ///
    /// As [`Connect::get_app_brief_info`], for the third slot.
    pub fn get_app_schema(&mut self, user_id: i32, exchanged: Result<Vec<u8>, Error>) -> (r:
        Result<(), Error>)
        ensures
            final(self).slots() == old(self).slots().insert(
                user_id,
                with_app_schema(old(self).slot(user_id), exchanged),
            ),
            match refresh_failure(exchanged, |reply: Seq<u8>| schema_reply_parse(reply)) {
                Some(e) => r == Err::<(), Error>(e),
                None => r is Ok,
            },
    {
        let mut infos = self.take(user_id);
        let r = match exchanged {
            Err(e) => Err(e),
            Ok(reply) => infos.app_schema.read(reply.as_slice()),
        };
        self.put(user_id, infos);
        proof {
            assert(self.slots() =~= old(self).slots().insert(
                user_id,
                with_app_schema(old(self).slot(user_id), exchanged),
            ));
        }
        r
    }

    /// What is kept for `user_id`, if the user was ever asked for.
    pub fn infos(&self, user_id: i32) -> (r: Option<&Infos>)
        ensures
            match r {
                Some(found) => self.slots().contains_key(user_id) && found@ == self.slots()[user_id],
                None => !self.slots().contains_key(user_id),
            },
    {
        broadcast use vstd::std_specs::hash::group_hash_axioms;

        self.infos.get(&user_id)
    }
}

/// A refresh that fails leaves what was kept for the user as it was.
pub proof fn lemma_failed_refresh_keeps(before: InfosView, exchanged: Result<Vec<u8>, Error>)
    ensures
        refresh_failure(exchanged, |reply: Seq<u8>| app_infos_reply_parse(reply)) is Some
            ==> with_app_infos(before, exchanged) == before,
        refresh_failure(exchanged, |reply: Seq<u8>| service_info_reply_parse(reply)) is Some
            ==> with_service_info(before, exchanged) == before,
        refresh_failure(exchanged, |reply: Seq<u8>| schema_reply_parse(reply)) is Some
            ==> with_app_schema(before, exchanged) == before,
{
}

/// A refresh that fails for a user who was asked for before leaves the
/// whole store as it was: a read that follows finds what was kept.
pub proof fn lemma_failed_refresh_keeps_store(
    store: Connect,
    user_id: i32,
    exchanged: Result<Vec<u8>, Error>,
)
    requires
        store.slots().contains_key(user_id),
    ensures
        refresh_failure(exchanged, |reply: Seq<u8>| app_infos_reply_parse(reply)) is Some
            ==> store.slots().insert(user_id, with_app_infos(store.slot(user_id), exchanged))
            == store.slots(),
        refresh_failure(exchanged, |reply: Seq<u8>| service_info_reply_parse(reply)) is Some
            ==> store.slots().insert(user_id, with_service_info(store.slot(user_id), exchanged))
            == store.slots(),
        refresh_failure(exchanged, |reply: Seq<u8>| schema_reply_parse(reply)) is Some
            ==> store.slots().insert(user_id, with_app_schema(store.slot(user_id), exchanged))
            == store.slots(),
{
    assert(store.slots().insert(user_id, store.slot(user_id)) =~= store.slots());
}

/// A refresh for one user leaves what is kept for every other user.
pub proof fn lemma_refresh_keeps_other_users(
    store: Connect,
    user_id: i32,
    other: i32,
    after: InfosView,
)
    requires
        other != user_id,
    ensures
        store.slots().insert(user_id, after).contains_key(other) == store.slots().contains_key(
            other,
        ),
        store.slots().insert(user_id, after)[other] == store.slots()[other],
{
}

/// A refresh of one slot leaves the two other slots of the user as they were.
pub proof fn lemma_refresh_touches_one_slot(before: InfosView, exchanged: Result<Vec<u8>, Error>)
    ensures
        with_app_infos(before, exchanged).service_info == before.service_info,
        with_app_infos(before, exchanged).app_schema == before.app_schema,
        with_service_info(before, exchanged).app_infos == before.app_infos,
        with_service_info(before, exchanged).app_schema == before.app_schema,
        with_app_schema(before, exchanged).app_infos == before.app_infos,
        with_app_schema(before, exchanged).service_info == before.service_info,
{
}

} // verus!
