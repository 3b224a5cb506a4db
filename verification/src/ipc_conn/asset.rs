//! Assets: files that are kept in step with the cloud, and the exchange that moves them.
//!
//! An asset travels as its fields in a fixed order: name, uri, local path,
//! creation time, modification time, size, status, id, hash. To move a batch
//! of assets the caller sends the request built here and hands the reply
//! back; the reply tells for each asset of the batch, in order, how it fared.

use vstd::prelude::*;
use crate::ipc_conn::connect::AssetStatus;
use crate::ipc_conn::error::Error;
use crate::ipc_conn::function::{AssetLoaderFunc, Request};
use crate::ipc_conn::parcel::{Deserialize, Parsed, Serialize, Wire};
use crate::ipc_conn::primitive::String16;

verus! {

/// A file that is kept in step with the cloud.
#[derive(Clone, Debug, PartialEq)]
pub struct CloudAsset {
    /// The identity of the asset.
    pub asset_id: String,
    /// The name under which the asset is shown.
    pub asset_name: String,
    /// The hash of the content.
    pub hash: String,
    /// The path that points to the asset.
    pub uri: String,
    /// The path of the asset inside the sandbox of the application.
    pub sub_path: String,
    /// When the asset was created.
    pub create_time: String,
    /// When the asset was last changed.
    pub modify_time: String,
    /// The size of the asset, in kilobytes.
    pub size: String,
    /// The state of the asset with respect to the cloud.
    pub status: AssetStatus,
}

/// The mathematical model of a [`CloudAsset`].
pub struct CloudAssetView {
    pub asset_id: Seq<char>,
    pub asset_name: Seq<char>,
    pub hash: Seq<char>,
    pub uri: Seq<char>,
    pub sub_path: Seq<char>,
    pub create_time: Seq<char>,
    pub modify_time: Seq<char>,
    pub size: Seq<char>,
    pub status: AssetStatus,
}

/// The fields of an asset in the order in which they travel.
pub type AssetFields = (
    String,
    (String, (String, (String, (String, (String, (AssetStatus, (String, String))))))),
);

/// The models of the fields of an asset in the order in which they travel.
pub type AssetFieldsView = (
    Seq<char>,
    (
        Seq<char>,
        (Seq<char>, (Seq<char>, (Seq<char>, (Seq<char>, (AssetStatus, (Seq<char>, Seq<char>)))))),
    ),
);

impl CloudAssetView {
    /// The fields in the order in which they travel.
    pub open spec fn fields(self) -> AssetFieldsView {
        (
            self.asset_name,
            (
                self.uri,
                (
                    self.sub_path,
                    (
                        self.create_time,
                        (self.modify_time, (self.size, (self.status, (self.asset_id, self.hash)))),
                    ),
                ),
            ),
        )
    }

    /// The asset whose fields, in the order in which they travel, are `f`.
    pub open spec fn from_fields(f: AssetFieldsView) -> CloudAssetView {
        CloudAssetView {
            asset_name: f.0,
            uri: f.1.0,
            sub_path: f.1.1.0,
            create_time: f.1.1.1.0,
            modify_time: f.1.1.1.1.0,
            size: f.1.1.1.1.1.0,
            status: f.1.1.1.1.1.1.0,
            asset_id: f.1.1.1.1.1.1.1.0,
            hash: f.1.1.1.1.1.1.1.1,
        }
    }
}

impl View for CloudAsset {
    type V = CloudAssetView;

    open spec fn view(&self) -> CloudAssetView {
        CloudAssetView {
            asset_id: self.asset_id@,
            asset_name: self.asset_name@,
            hash: self.hash@,
            uri: self.uri@,
            sub_path: self.sub_path@,
            create_time: self.create_time@,
            modify_time: self.modify_time@,
            size: self.size@,
            status: self.status,
        }
    }
}

impl DeepView for CloudAsset {
    type V = CloudAssetView;

    open spec fn deep_view(&self) -> CloudAssetView {
        self@
    }
}

impl Default for CloudAsset {
    fn default() -> (r: CloudAsset)
        ensures
            r@ == (CloudAssetView {
                asset_id: Seq::empty(),
                asset_name: Seq::empty(),
                hash: Seq::empty(),
                uri: Seq::empty(),
                sub_path: Seq::empty(),
                create_time: Seq::empty(),
                modify_time: Seq::empty(),
                size: Seq::empty(),
                status: AssetStatus::Normal,
            }),
    {
        CloudAsset {
            asset_id: String::new(),
            asset_name: String::new(),
            hash: String::new(),
            uri: String::new(),
            sub_path: String::new(),
            create_time: String::new(),
            modify_time: String::new(),
            size: String::new(),
            status: AssetStatus::Normal,
        }
    }
}

impl CloudAsset {
    /// The identity of the asset.
    pub fn id(&self) -> (r: &str)
        ensures
            r@ == self@.asset_id,
    {
        self.asset_id.as_str()
    }

    /// The name under which the asset is shown.
    pub fn name(&self) -> (r: &str)
        ensures
            r@ == self@.asset_name,
    {
        self.asset_name.as_str()
    }

    /// The path that points to the asset.
    pub fn uri(&self) -> (r: &str)
        ensures
            r@ == self@.uri,
    {
        self.uri.as_str()
    }

    /// The path of the asset inside the sandbox of the application.
    pub fn local_path(&self) -> (r: &str)
        ensures
            r@ == self@.sub_path,
    {
        self.sub_path.as_str()
    }

    /// When the asset was created.
    pub fn create_time(&self) -> (r: &str)
        ensures
            r@ == self@.create_time,
    {
        self.create_time.as_str()
    }

    /// When the asset was last changed.
    pub fn modify_time(&self) -> (r: &str)
        ensures
            r@ == self@.modify_time,
    {
        self.modify_time.as_str()
    }

    /// The size of the asset, in kilobytes.
    pub fn size(&self) -> (r: &str)
        ensures
            r@ == self@.size,
    {
        self.size.as_str()
    }

    /// The hash of the content.
    pub fn hash(&self) -> (r: &str)
        ensures
            r@ == self@.hash,
    {
        self.hash.as_str()
    }

    /// Gives the asset the identity `id`.
    pub fn set_id(&mut self, id: String)
        ensures
            final(self)@ == (CloudAssetView { asset_id: id@, ..old(self)@ }),
    {
        self.asset_id = id;
    }

    /// Gives the asset the name `name`.
    pub fn set_name(&mut self, name: String)
        ensures
            final(self)@ == (CloudAssetView { asset_name: name@, ..old(self)@ }),
    {
        self.asset_name = name;
    }

    /// Lets `uri` point to the asset.
    pub fn set_uri(&mut self, uri: String)
        ensures
            final(self)@ == (CloudAssetView { uri: uri@, ..old(self)@ }),
    {
        self.uri = uri;
    }

    /// Puts the asset at `local_path` inside the sandbox of the application.
    pub fn set_local_path(&mut self, local_path: String)
        ensures
            final(self)@ == (CloudAssetView { sub_path: local_path@, ..old(self)@ }),
    {
        self.sub_path = local_path;
    }

    /// Records that the asset was created at `create_time`.
    pub fn set_create_time(&mut self, create_time: String)
        ensures
            final(self)@ == (CloudAssetView { create_time: create_time@, ..old(self)@ }),
    {
        self.create_time = create_time;
    }

    /// Records that the asset was last changed at `modify_time`.
    pub fn set_modify_time(&mut self, modify_time: String)
        ensures
            final(self)@ == (CloudAssetView { modify_time: modify_time@, ..old(self)@ }),
    {
        self.modify_time = modify_time;
    }

    /// Records that the asset has the size `size`, in kilobytes.
    pub fn set_size(&mut self, size: String)
        ensures
            final(self)@ == (CloudAssetView { size: size@, ..old(self)@ }),
    {
        self.size = size;
    }

    /// Records that the content has the hash `hash`.
    pub fn set_hash(&mut self, hash: String)
        ensures
            final(self)@ == (CloudAssetView { hash: hash@, ..old(self)@ }),
    {
        self.hash = hash;
    }
}

/// The bytes of the asset `v`: its fields in the order in which they travel.
#[verifier::opaque]
pub open spec fn asset_wire(v: CloudAssetView) -> Seq<u8> {
    AssetFields::wire(v.fields())
}

/// Whether the asset `v` can be written: each of its texts fits.
#[verifier::opaque]
pub open spec fn asset_fits(v: CloudAssetView) -> bool {
    AssetFields::fits(v.fields())
}

/// The asset at `pos`: its fields in the order in which they travel.
#[verifier::opaque]
pub open spec fn asset_parse(data: Seq<u8>, pos: int) -> Parsed<CloudAssetView> {
    match AssetFields::parse(data, pos) {
        Err(e) => Err(e),
        Ok((f, end)) => Ok((CloudAssetView::from_fields(f), end)),
    }
}

impl Serialize for CloudAsset {
    open spec fn wire(v: CloudAssetView) -> Seq<u8> {
        asset_wire(v)
    }

    open spec fn fits(v: CloudAssetView) -> bool {
        asset_fits(v)
    }

    fn serialize(&self, out: &mut Vec<u8>) -> (r: Result<(), Error>) {
        proof {
            reveal(asset_wire);
            reveal(asset_fits);
        }
        (
            &self.asset_name,
            (
                &self.uri,
                (
                    &self.sub_path,
                    (
                        &self.create_time,
                        (
                            &self.modify_time,
                            (&self.size, (&self.status, (&self.asset_id, &self.hash))),
                        ),
                    ),
                ),
            ),
        ).serialize(out)
    }
}

impl Deserialize for CloudAsset {
    open spec fn parse(data: Seq<u8>, pos: int) -> Parsed<CloudAssetView> {
        asset_parse(data, pos)
    }

    proof fn lemma_parse_bounds(data: Seq<u8>, pos: int) {
        reveal(asset_parse);
        AssetFields::lemma_parse_bounds(data, pos);
    }

    fn deserialize(data: &[u8], pos: usize) -> (r: Result<(CloudAsset, usize), Error>) {
        proof {
            reveal(asset_parse);
        }
        let (f, end) = match AssetFields::deserialize(data, pos) {
            Ok(found) => found,
            Err(e) => {
                return Err(e);
            },
        };
        let (
            asset_name,
            (uri, (sub_path, (create_time, (modify_time, (size, (status, (asset_id, hash))))))),
        ) = f;
        Ok(
            (
                CloudAsset {
                    asset_id,
                    asset_name,
                    hash,
                    uri,
                    sub_path,
                    create_time,
                    modify_time,
                    size,
                    status,
                },
                end,
            ),
        )
    }
}

impl Wire for CloudAsset {
    proof fn lemma_round_trip(pre: Seq<u8>, v: CloudAssetView, rest: Seq<u8>) {
        reveal(asset_wire);
        reveal(asset_fits);
        reveal(asset_parse);
        AssetFields::lemma_round_trip(pre, v.fields(), rest);
    }
}

/// A batch of assets. Their order matters: the service answers in the same order.
#[derive(Clone, Debug, PartialEq)]
pub struct CloudAssets(pub Vec<CloudAsset>);

impl View for CloudAssets {
    type V = Seq<CloudAssetView>;

    open spec fn view(&self) -> Seq<CloudAssetView> {
        self.0.deep_view()
    }
}

impl DeepView for CloudAssets {
    type V = Seq<CloudAssetView>;

    open spec fn deep_view(&self) -> Seq<CloudAssetView> {
        self@
    }
}

impl Default for CloudAssets {
    fn default() -> (r: CloudAssets)
        ensures
            r@ == Seq::<CloudAssetView>::empty(),
    {
        let r = CloudAssets(Vec::new());
        assert(r.0.deep_view() =~= Seq::<CloudAssetView>::empty());
        r
    }
}

impl Serialize for CloudAssets {
    open spec fn wire(v: Seq<CloudAssetView>) -> Seq<u8> {
        Vec::<CloudAsset>::wire(v)
    }

    open spec fn fits(v: Seq<CloudAssetView>) -> bool {
        Vec::<CloudAsset>::fits(v)
    }

    fn serialize(&self, out: &mut Vec<u8>) -> (r: Result<(), Error>) {
        self.0.serialize(out)
    }
}

impl Deserialize for CloudAssets {
    open spec fn parse(data: Seq<u8>, pos: int) -> Parsed<Seq<CloudAssetView>> {
        Vec::<CloudAsset>::parse(data, pos)
    }

    proof fn lemma_parse_bounds(data: Seq<u8>, pos: int) {
        Vec::<CloudAsset>::lemma_parse_bounds(data, pos);
    }

    fn deserialize(data: &[u8], pos: usize) -> (r: Result<(CloudAssets, usize), Error>) {
        match Vec::<CloudAsset>::deserialize(data, pos) {
            Ok((assets, end)) => Ok((CloudAssets(assets), end)),
            Err(e) => Err(e),
        }
    }
}

impl Wire for CloudAssets {
    proof fn lemma_round_trip(pre: Seq<u8>, v: Seq<CloudAssetView>, rest: Seq<u8>) {
        Vec::<CloudAsset>::lemma_round_trip(pre, v, rest);
    }
}

/// What the service tells of one asset of a batch: the asset as it is after
/// the move, or the code of the failure.
pub type Outcome = Result<CloudAsset, Error>;

/// The mathematical model of an [`Outcome`].
pub type OutcomeView = Result<CloudAssetView, Error>;

/// The model of `outcome`.
pub open spec fn outcome_view(outcome: Outcome) -> OutcomeView {
    match outcome {
        Ok(asset) => Ok(asset@),
        Err(e) => Err(e),
    }
}

/// The models of `outcomes`, in order.
pub open spec fn outcomes_view(outcomes: Seq<Outcome>) -> Seq<OutcomeView> {
    Seq::new(outcomes.len(), |i: int| outcome_view(outcomes[i]))
}

/// The payload of a request to move `assets`: table, group and prefix, then the batch.
pub open spec fn transfer_wire(
    table: Seq<char>,
    gid: Seq<char>,
    prefix: Seq<char>,
    assets: Seq<CloudAssetView>,
) -> Seq<u8> {
    <(String16, (String16, (String16, CloudAssets)))>::wire((table, (gid, (prefix, assets))))
}

/// Whether a request to move `assets` can be written.
pub open spec fn transfer_fits(
    table: Seq<char>,
    gid: Seq<char>,
    prefix: Seq<char>,
    assets: Seq<CloudAssetView>,
) -> bool {
    <(String16, (String16, (String16, CloudAssets)))>::fits((table, (gid, (prefix, assets))))
}

/// The outcome at `pos`: a code, and behind the code 0, which tells of
/// success, the asset. Any other code is the failure of this one asset.
pub open spec fn outcome_parse(data: Seq<u8>, pos: int) -> Parsed<OutcomeView> {
    match i32::parse(data, pos) {
        Err(e) => Err(e),
        Ok((code, mid)) => if code == 0 {
            match CloudAsset::parse(data, mid) {
                Err(e) => Err(e),
                Ok((asset, end)) => Ok((Ok(asset), end)),
            }
        } else {
            Ok((Err(Error::Service(code)), mid))
        },
    }
}

/// The `count` outcomes that stand one after the other from `pos` on; or the
/// failure of the first that cannot be read.
pub open spec fn outcomes_parse(data: Seq<u8>, pos: int, count: nat) -> Parsed<Seq<OutcomeView>>
    decreases count,
{
    if count == 0 {
        Ok((Seq::empty(), pos))
    } else {
        match outcomes_parse(data, pos, (count - 1) as nat) {
            Err(e) => Err(e),
            Ok((head, mid)) => match outcome_parse(data, mid) {
                Err(e) => Err(e),
                Ok((outcome, end)) => Ok((head.push(outcome), end)),
            },
        }
    }
}

/// What the reply `data` tells: a count, then that many outcomes. A count
/// below zero announces none. What follows the outcomes is not looked at.
pub open spec fn transfer_parse(data: Seq<u8>) -> Result<Seq<OutcomeView>, Error> {
    match i32::parse(data, 0) {
        Err(e) => Err(e),
        Ok((count, pos)) => match outcomes_parse(
            data,
            pos,
            if count > 0 {
                count as nat
            } else {
                0
            },
        ) {
            Err(e) => Err(e),
            Ok((outcomes, _)) => Ok(outcomes),
        },
    }
}

/// Once an outcome cannot be read, no longer run of outcomes can.
pub proof fn lemma_outcomes_parse_failure_stays(data: Seq<u8>, pos: int, short: nat, long: nat)
    requires
        short <= long,
        outcomes_parse(data, pos, short) is Err,
    ensures
        outcomes_parse(data, pos, long) == outcomes_parse(data, pos, short),
    decreases long,
{
    if short < long {
        lemma_outcomes_parse_failure_stays(data, pos, short, (long - 1) as nat);
    }
}

/// A reply tells of as many assets as its count announces, and what it tells
/// of one asset does not depend on what follows that asset in the reply.
pub proof fn lemma_outcomes_are_independent(data: Seq<u8>, pos: int, short: nat, long: nat)
    requires
        short <= long,
        outcomes_parse(data, pos, long) is Ok,
    ensures
        outcomes_parse(data, pos, short) is Ok,
        outcomes_parse(data, pos, long)->Ok_0.0.len() == long,
        outcomes_parse(data, pos, short)->Ok_0.0 == outcomes_parse(data, pos, long)->Ok_0.0.take(
            short as int,
        ),
    decreases long,
{
    if short < long {
        lemma_outcomes_are_independent(data, pos, short, (long - 1) as nat);
        lemma_outcomes_are_independent(data, pos, (long - 1) as nat, (long - 1) as nat);
        let head = outcomes_parse(data, pos, (long - 1) as nat)->Ok_0.0;
        let all = outcomes_parse(data, pos, long)->Ok_0.0;
        assert(all.take(short as int) =~= head.take(short as int));
    } else {
        if long > 0 {
            lemma_outcomes_are_independent(data, pos, (long - 1) as nat, (long - 1) as nat);
        }
        let all = outcomes_parse(data, pos, long)->Ok_0.0;
        assert(all.take(long as int) =~= all);
    }
}

/// Whether a reply can tell `outcome`: an asset that fits, or a failure of
/// the service with a code other than 0.
pub open spec fn outcome_told(outcome: OutcomeView) -> bool {
    match outcome {
        Ok(asset) => CloudAsset::fits(asset),
        Err(Error::Service(code)) => code != 0,
        Err(_) => false,
    }
}

/// The bytes with which a reply tells `outcome`: the code 0 and the asset,
/// or the code of the failure alone.
pub open spec fn outcome_wire(outcome: OutcomeView) -> Seq<u8> {
    match outcome {
        Ok(asset) => i32::wire(0) + CloudAsset::wire(asset),
        Err(Error::Service(code)) => i32::wire(code),
        Err(_) => Seq::empty(),
    }
}

/// The bytes of `outcomes`, one after the other, without a count.
pub open spec fn outcomes_wire(outcomes: Seq<OutcomeView>) -> Seq<u8>
    decreases outcomes.len(),
{
    if outcomes.len() == 0 {
        Seq::empty()
    } else {
        outcomes_wire(outcomes.drop_last()) + outcome_wire(outcomes.last())
    }
}

/// The reply that tells `outcomes`: their number, then each in turn.
pub open spec fn reply_wire(outcomes: Seq<OutcomeView>) -> Seq<u8> {
    i32::wire(outcomes.len() as i32) + outcomes_wire(outcomes)
}

/// The bytes that tell an outcome, wherever they stand in a buffer, are
/// read as that outcome.
pub proof fn lemma_outcome_round_trip(pre: Seq<u8>, outcome: OutcomeView, rest: Seq<u8>)
    requires
        outcome_told(outcome),
    ensures
        outcome_parse(pre + outcome_wire(outcome) + rest, pre.len() as int) == Ok::<
            (OutcomeView, int),
            Error,
        >((outcome, (pre.len() + outcome_wire(outcome).len()) as int)),
{
    let data = pre + outcome_wire(outcome) + rest;
    match outcome {
        Ok(asset) => {
            i32::lemma_round_trip(pre, 0, CloudAsset::wire(asset) + rest);
            assert(data =~= pre + i32::wire(0) + (CloudAsset::wire(asset) + rest));
            CloudAsset::lemma_round_trip(pre + i32::wire(0), asset, rest);
            assert(data =~= (pre + i32::wire(0)) + CloudAsset::wire(asset) + rest);
        },
        Err(Error::Service(code)) => {
            i32::lemma_round_trip(pre, code, rest);
        },
        Err(_) => {},
    }
}

/// The bytes that tell outcomes one after the other are read as those
/// outcomes, each for itself: a failure among them changes nothing about
/// the others.
pub proof fn lemma_outcomes_round_trip(pre: Seq<u8>, outcomes: Seq<OutcomeView>, rest: Seq<u8>)
    requires
        forall|i: int| 0 <= i < outcomes.len() ==> outcome_told(#[trigger] outcomes[i]),
    ensures
        outcomes_parse(pre + outcomes_wire(outcomes) + rest, pre.len() as int, outcomes.len())
            == Ok::<(Seq<OutcomeView>, int), Error>(
            (outcomes, (pre.len() + outcomes_wire(outcomes).len()) as int),
        ),
    decreases outcomes.len(),
{
    let data = pre + outcomes_wire(outcomes) + rest;
    if outcomes.len() == 0 {
        assert(outcomes =~= Seq::<OutcomeView>::empty());
    } else {
        let head = outcomes.drop_last();
        let last = outcomes.last();
        assert forall|i: int| 0 <= i < head.len() implies outcome_told(#[trigger] head[i]) by {
            assert(head[i] == outcomes[i]);
        }
        assert(outcome_told(last)) by {
            assert(last == outcomes[outcomes.len() - 1]);
        }
        lemma_outcomes_round_trip(pre, head, outcome_wire(last) + rest);
        assert(data =~= pre + outcomes_wire(head) + (outcome_wire(last) + rest));
        lemma_outcome_round_trip(pre + outcomes_wire(head), last, rest);
        assert(data =~= (pre + outcomes_wire(head)) + outcome_wire(last) + rest);
        assert(head.push(last) =~= outcomes);
        assert((outcomes.len() - 1) as nat == head.len());
        assert(outcomes_parse(data, pre.len() as int, head.len()) == Ok::<
            (Seq<OutcomeView>, int),
            Error,
        >((head, (pre.len() + outcomes_wire(head).len()) as int)));
        assert(outcome_parse(data, (pre.len() + outcomes_wire(head).len()) as int) == Ok::<
            (OutcomeView, int),
            Error,
        >((last, (pre.len() + outcomes_wire(head).len() + outcome_wire(last).len()) as int)));
    }
}

/// A reply that tells a mix of moved assets and failures is read as just
/// that mix, in its order and whatever follows it: the failure of one asset
/// is no failure of the batch.
pub proof fn lemma_reply_round_trip(outcomes: Seq<OutcomeView>, rest: Seq<u8>)
    requires
        outcomes.len() <= i32::MAX,
        forall|i: int| 0 <= i < outcomes.len() ==> outcome_told(#[trigger] outcomes[i]),
    ensures
        transfer_parse(reply_wire(outcomes) + rest) == Ok::<Seq<OutcomeView>, Error>(outcomes),
{
    let count = outcomes.len() as i32;
    let data = reply_wire(outcomes) + rest;
    let none = Seq::<u8>::empty();
    i32::lemma_round_trip(none, count, outcomes_wire(outcomes) + rest);
    assert(data =~= none + i32::wire(count) + (outcomes_wire(outcomes) + rest));
    lemma_outcomes_round_trip(none + i32::wire(count), outcomes, rest);
    assert(data =~= (none + i32::wire(count)) + outcomes_wire(outcomes) + rest);
}

/// Reads the outcome at `pos`.
fn read_outcome(data: &[u8], pos: usize) -> (r: Result<(Outcome, usize), Error>)
    ensures
        match outcome_parse(data@, pos as int) {
            Ok((v, end)) => r matches Ok((x, p)) && outcome_view(x) == v && p == end,
            Err(e) => r matches Err(f) && f == e,
        },
{
    let (code, mid) = match i32::deserialize(data, pos) {
        Ok(found) => found,
        Err(e) => {
            return Err(e);
        },
    };
    if code == 0 {
        match CloudAsset::deserialize(data, mid) {
            Ok((asset, end)) => Ok((Ok(asset), end)),
            Err(e) => Err(e),
        }
    } else {
        Ok((Err(Error::Service(code)), mid))
    }
}

/// Builds the request that asks the service to move `assets` in `direction`.
///
/// Fails with [`Error::WriteMsgParcelFailed`] exactly where a text or the
/// batch is too long for its count.
pub fn transfer_request(
    direction: AssetLoaderFunc,
    table: &str,
    gid: &str,
    prefix: &str,
    assets: &CloudAssets,
) -> (r: Result<Request, Error>)
    ensures
        transfer_fits(table@, gid@, prefix@, assets@) ==> (r matches Ok(request)
            && request.code == direction.spec_code()
            && request.data@ == transfer_wire(table@, gid@, prefix@, assets@)),
        !transfer_fits(table@, gid@, prefix@, assets@) ==> r == Err::<Request, Error>(
            Error::WriteMsgParcelFailed,
        ),
{
    let table = String16::new(table);
    let gid = String16::new(gid);
    let prefix = String16::new(prefix);
    let mut data: Vec<u8> = Vec::new();
    match (&table, (&gid, (&prefix, assets))).serialize(&mut data) {
        Ok(()) => {
            assert(data@ =~= transfer_wire(table@, gid@, prefix@, assets@));
            Ok(Request { code: direction.code(), data })
        },
        Err(e) => Err(e),
    }
}

/// Builds the request that asks the service to fetch `assets` from the cloud.
pub fn download_request(table: &str, gid: &str, prefix: &str, assets: &CloudAssets) -> (r: Result<
    Request,
    Error,
>)
    ensures
        transfer_fits(table@, gid@, prefix@, assets@) ==> (r matches Ok(request)
            && request.code == AssetLoaderFunc::Download.spec_code()
            && request.data@ == transfer_wire(table@, gid@, prefix@, assets@)),
        !transfer_fits(table@, gid@, prefix@, assets@) ==> r == Err::<Request, Error>(
            Error::WriteMsgParcelFailed,
        ),
{
    transfer_request(AssetLoaderFunc::Download, table, gid, prefix, assets)
}

/// Builds the request that asks the service to bring `assets` to the cloud.
pub fn upload_request(table: &str, gid: &str, prefix: &str, assets: &CloudAssets) -> (r: Result<
    Request,
    Error,
>)
    ensures
        transfer_fits(table@, gid@, prefix@, assets@) ==> (r matches Ok(request)
            && request.code == AssetLoaderFunc::Upload.spec_code()
            && request.data@ == transfer_wire(table@, gid@, prefix@, assets@)),
        !transfer_fits(table@, gid@, prefix@, assets@) ==> r == Err::<Request, Error>(
            Error::WriteMsgParcelFailed,
        ),
{
    transfer_request(AssetLoaderFunc::Upload, table, gid, prefix, assets)
}

/// Reads from `reply` how each asset of a batch fared, in the order of the batch.
///
/// A failure told of one asset is the outcome of that asset and leaves the
/// others as they are. A reply that cannot be read to its end gives no
/// outcome at all, but the failure of the reading.
pub fn transfer_results(reply: &[u8]) -> (r: Result<Vec<Outcome>, Error>)
    ensures
        match transfer_parse(reply@) {
            Ok(v) => r matches Ok(x) && outcomes_view(x@) == v,
            Err(e) => r matches Err(f) && f == e,
        },
{
    let (announced, start) = match i32::deserialize(reply, 0) {
        Ok(found) => found,
        Err(e) => {
            return Err(e);
        },
    };
    let count: usize = if announced > 0 {
        announced as usize
    } else {
        0
    };
    let mut outcomes: Vec<Outcome> = Vec::new();
    let mut cur = start;
    let mut i: usize = 0;
    proof {
        assert(outcomes_view(outcomes@) =~= Seq::<OutcomeView>::empty());
    }
    while i < count
        invariant
            i <= count,
            i32::parse(reply@, 0) == Ok::<(i32, int), Error>((announced, start as int)),
            count == (if announced > 0 {
                announced as nat
            } else {
                0
            }),
            outcomes_parse(reply@, start as int, i as nat) == Ok::<(Seq<OutcomeView>, int), Error>(
                (outcomes_view(outcomes@), cur as int),
            ),
        decreases count - i,
    {
        let ghost so_far = outcomes_view(outcomes@);
        match read_outcome(reply, cur) {
            Ok((outcome, end)) => {
                outcomes.push(outcome);
                proof {
                    assert(outcomes_view(outcomes@) =~= so_far.push(outcome_view(outcome)));
                    assert(((i + 1) - 1) as nat == i as nat);
                }
                cur = end;
            },
            Err(e) => {
                proof {
                    assert(((i + 1) - 1) as nat == i as nat);
                    assert(outcomes_parse(reply@, start as int, (i + 1) as nat) == Err::<
                        (Seq<OutcomeView>, int),
                        Error,
                    >(e));
                    lemma_outcomes_parse_failure_stays(
                        reply@,
                        start as int,
                        (i + 1) as nat,
                        count as nat,
                    );
                }
                return Err(e);
            },
        }
        i = i + 1;
    }
    Ok(outcomes)
}

/// Takes what the exchange with the service gave, the reply or the failure of
/// the transport, and tells how each asset of the batch fared.
///
/// A failure of the transport is the failure of the whole batch.
pub fn finish_transfer(exchanged: Result<Vec<u8>, Error>) -> (r: Result<Vec<Outcome>, Error>)
    ensures
        match exchanged {
            Err(e) => r matches Err(f) && f == e,
            Ok(reply) => match transfer_parse(reply@) {
                Ok(v) => r matches Ok(x) && outcomes_view(x@) == v,
                Err(e) => r matches Err(f) && f == e,
            },
        },
{
    match exchanged {
        Err(e) => Err(e),
        Ok(reply) => transfer_results(reply.as_slice()),
    }
}

} // verus!
