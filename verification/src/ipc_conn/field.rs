//! Field values of any type, and rows of them.
//!
//! A value says what it is: it starts with a 32-bit tag, and what follows
//! depends on the tag.
//!
//! | tag | value           | what follows the tag               |
//! |-----|-----------------|------------------------------------|
//! | 0   | null            | nothing                            |
//! | 1   | number          | a signed 64-bit number             |
//! | 2   | real            | the 64 bits of a double            |
//! | 3   | text            | a text                             |
//! | 4   | bool            | a bool                             |
//! | 5   | blob            | a sequence of bytes                |
//! | 6   | asset           | an asset                           |
//! | 7   | list of assets  | a sequence of assets               |
//!
//! Any other tag makes the value, and whatever holds it, malformed.

use vstd::prelude::*;
use vstd::std_specs::convert::FromSpecImpl;
use crate::ipc_conn::asset::{CloudAsset, CloudAssetView, CloudAssets};
use crate::ipc_conn::error::Error;
use crate::ipc_conn::parcel::{Deserialize, Parsed, Serialize, Wire};
use crate::ipc_conn::string_map::{lemma_map_round_trip, keys_distinct, StringMap};

verus! {

/// A field value of a type that is known only when the value is at hand.
///
/// A real number is held as the 64 bits of its double-precision form, so that
/// it travels without any change.
#[derive(Clone, Debug)]
pub enum FieldRaw {
    /// No value.
    Null,
    /// A whole number.
    Number(i64),
    /// A real number, as the bits of a double.
    Real(u64),
    /// A text.
    Text(String),
    /// A truth value.
    Bool(bool),
    /// Bytes.
    Blob(Vec<u8>),
    /// An asset.
    Asset(CloudAsset),
    /// A list of assets.
    Assets(CloudAssets),
}

/// The mathematical model of a [`FieldRaw`].
pub enum FieldRawView {
    Null,
    Number(i64),
    Real(u64),
    Text(Seq<char>),
    Bool(bool),
    Blob(Seq<u8>),
    Asset(CloudAssetView),
    Assets(Seq<CloudAssetView>),
}

impl FieldRawView {
    /// The tag that announces a value of this kind.
    pub open spec fn tag(self) -> u32 {
        match self {
            FieldRawView::Null => 0,
            FieldRawView::Number(_) => 1,
            FieldRawView::Real(_) => 2,
            FieldRawView::Text(_) => 3,
            FieldRawView::Bool(_) => 4,
            FieldRawView::Blob(_) => 5,
            FieldRawView::Asset(_) => 6,
            FieldRawView::Assets(_) => 7,
        }
    }
}

impl View for FieldRaw {
    type V = FieldRawView;

    open spec fn view(&self) -> FieldRawView {
        match self {
            FieldRaw::Null => FieldRawView::Null,
            FieldRaw::Number(n) => FieldRawView::Number(*n),
            FieldRaw::Real(bits) => FieldRawView::Real(*bits),
            FieldRaw::Text(s) => FieldRawView::Text(s@),
            FieldRaw::Bool(b) => FieldRawView::Bool(*b),
            FieldRaw::Blob(bytes) => FieldRawView::Blob(bytes@),
            FieldRaw::Asset(asset) => FieldRawView::Asset(asset@),
            FieldRaw::Assets(assets) => FieldRawView::Assets(assets@),
        }
    }
}

impl DeepView for FieldRaw {
    type V = FieldRawView;

    open spec fn deep_view(&self) -> FieldRawView {
        self@
    }
}

impl FieldRaw {
    /// The tag that announces a value of this kind, as a small number.
    pub fn tag(&self) -> (r: u8)
        ensures
            r == self@.tag(),
    {
        match self {
            FieldRaw::Null => 0,
            FieldRaw::Number(_) => 1,
            FieldRaw::Real(_) => 2,
            FieldRaw::Text(_) => 3,
            FieldRaw::Bool(_) => 4,
            FieldRaw::Blob(_) => 5,
            FieldRaw::Asset(_) => 6,
            FieldRaw::Assets(_) => 7,
        }
    }
}

/// The tag of a value, as [`FieldRaw::tag`] gives it.
impl From<FieldRaw> for u8 {
    fn from(value: FieldRaw) -> (r: u8) {
        value.tag()
    }
}

impl FromSpecImpl<FieldRaw> for u8 {
    open spec fn obeys_from_spec() -> bool {
        true
    }

    open spec fn from_spec(value: FieldRaw) -> u8 {
        value@.tag() as u8
    }
}

impl Serialize for FieldRaw {
    open spec fn wire(v: FieldRawView) -> Seq<u8> {
        match v {
            FieldRawView::Null => u32::wire(0),
            FieldRawView::Number(n) => <(u32, i64)>::wire((1, n)),
            FieldRawView::Real(bits) => <(u32, u64)>::wire((2, bits)),
            FieldRawView::Text(s) => <(u32, String)>::wire((3, s)),
            FieldRawView::Bool(b) => <(u32, bool)>::wire((4, b)),
            FieldRawView::Blob(bytes) => <(u32, Vec<u8>)>::wire((5, bytes)),
            FieldRawView::Asset(asset) => <(u32, CloudAsset)>::wire((6, asset)),
            FieldRawView::Assets(assets) => <(u32, CloudAssets)>::wire((7, assets)),
        }
    }

    open spec fn fits(v: FieldRawView) -> bool {
        match v {
            FieldRawView::Text(s) => String::fits(s),
            FieldRawView::Blob(bytes) => Vec::<u8>::fits(bytes),
            FieldRawView::Asset(asset) => CloudAsset::fits(asset),
            FieldRawView::Assets(assets) => CloudAssets::fits(assets),
            _ => true,
        }
    }

    fn serialize(&self, out: &mut Vec<u8>) -> (r: Result<(), Error>) {
        proof {
            assert(self.deep_view() == self@);
        }
        match self {
            FieldRaw::Null => 0u32.serialize(out),
            FieldRaw::Number(n) => (0u32 + 1, n).serialize(out),
            FieldRaw::Real(bits) => (0u32 + 2, bits).serialize(out),
            FieldRaw::Text(s) => (0u32 + 3, s).serialize(out),
            FieldRaw::Bool(b) => (0u32 + 4, b).serialize(out),
            FieldRaw::Blob(bytes) => {
                proof {
                    assert(bytes.deep_view() =~= bytes@);
                }
                (0u32 + 5, bytes).serialize(out)
            },
            FieldRaw::Asset(asset) => (0u32 + 6, asset).serialize(out),
            FieldRaw::Assets(assets) => (0u32 + 7, assets).serialize(out),
        }
    }
}

impl Deserialize for FieldRaw {
    open spec fn parse(data: Seq<u8>, pos: int) -> Parsed<FieldRawView> {
        match u32::parse(data, pos) {
            Err(e) => Err(e),
            Ok((tag, mid)) => if tag == 0 {
                Ok((FieldRawView::Null, mid))
            } else if tag == 1 {
                match i64::parse(data, mid) {
                    Err(e) => Err(e),
                    Ok((n, end)) => Ok((FieldRawView::Number(n), end)),
                }
            } else if tag == 2 {
                match u64::parse(data, mid) {
                    Err(e) => Err(e),
                    Ok((bits, end)) => Ok((FieldRawView::Real(bits), end)),
                }
            } else if tag == 3 {
                match String::parse(data, mid) {
                    Err(e) => Err(e),
                    Ok((s, end)) => Ok((FieldRawView::Text(s), end)),
                }
            } else if tag == 4 {
                match bool::parse(data, mid) {
                    Err(e) => Err(e),
                    Ok((b, end)) => Ok((FieldRawView::Bool(b), end)),
                }
            } else if tag == 5 {
                match Vec::<u8>::parse(data, mid) {
                    Err(e) => Err(e),
                    Ok((bytes, end)) => Ok((FieldRawView::Blob(bytes), end)),
                }
            } else if tag == 6 {
                match CloudAsset::parse(data, mid) {
                    Err(e) => Err(e),
                    Ok((asset, end)) => Ok((FieldRawView::Asset(asset), end)),
                }
            } else if tag == 7 {
                match CloudAssets::parse(data, mid) {
                    Err(e) => Err(e),
                    Ok((assets, end)) => Ok((FieldRawView::Assets(assets), end)),
                }
            } else {
                Err(Error::MalformedValue)
            },
        }
    }

    proof fn lemma_parse_bounds(data: Seq<u8>, pos: int) {
        u32::lemma_parse_bounds(data, pos);
        if let Ok((tag, mid)) = u32::parse(data, pos) {
            i64::lemma_parse_bounds(data, mid);
            u64::lemma_parse_bounds(data, mid);
            String::lemma_parse_bounds(data, mid);
            bool::lemma_parse_bounds(data, mid);
            Vec::<u8>::lemma_parse_bounds(data, mid);
            CloudAsset::lemma_parse_bounds(data, mid);
            CloudAssets::lemma_parse_bounds(data, mid);
        }
    }

    fn deserialize(data: &[u8], pos: usize) -> (r: Result<(FieldRaw, usize), Error>) {
        let (tag, mid) = match u32::deserialize(data, pos) {
            Ok(found) => found,
            Err(e) => {
                return Err(e);
            },
        };
        match tag {
            0 => Ok((FieldRaw::Null, mid)),
            1 => match i64::deserialize(data, mid) {
                Ok((n, end)) => Ok((FieldRaw::Number(n), end)),
                Err(e) => Err(e),
            },
            2 => match u64::deserialize(data, mid) {
                Ok((bits, end)) => Ok((FieldRaw::Real(bits), end)),
                Err(e) => Err(e),
            },
            3 => match String::deserialize(data, mid) {
                Ok((s, end)) => Ok((FieldRaw::Text(s), end)),
                Err(e) => Err(e),
            },
            4 => match bool::deserialize(data, mid) {
                Ok((b, end)) => Ok((FieldRaw::Bool(b), end)),
                Err(e) => Err(e),
            },
            5 => match Vec::<u8>::deserialize(data, mid) {
                Ok((bytes, end)) => {
                    proof {
                        assert(bytes.deep_view() =~= bytes@);
                    }
                    Ok((FieldRaw::Blob(bytes), end))
                },
                Err(e) => Err(e),
            },
            6 => match CloudAsset::deserialize(data, mid) {
                Ok((asset, end)) => Ok((FieldRaw::Asset(asset), end)),
                Err(e) => Err(e),
            },
            7 => match CloudAssets::deserialize(data, mid) {
                Ok((assets, end)) => Ok((FieldRaw::Assets(assets), end)),
                Err(e) => Err(e),
            },
            _ => Err(Error::MalformedValue),
        }
    }
}

/// A tag followed by a value that fits is read as that tag and that value.
proof fn lemma_tagged_round_trip<T: Wire>(pre: Seq<u8>, tag: u32, v: T::V, rest: Seq<u8>)
    requires
        T::fits(v),
    ensures
        u32::parse(pre + (u32::wire(tag) + T::wire(v)) + rest, pre.len() as int) == Ok::<
            (u32, int),
            Error,
        >((tag, (pre.len() + 4) as int)),
        T::parse(pre + (u32::wire(tag) + T::wire(v)) + rest, (pre.len() + 4) as int) == Ok::<
            (T::V, int),
            Error,
        >((v, (pre.len() + 4 + T::wire(v).len()) as int)),
        (u32::wire(tag) + T::wire(v)).len() == 4 + T::wire(v).len(),
{
    let data = pre + (u32::wire(tag) + T::wire(v)) + rest;
    u32::lemma_round_trip(pre, tag, T::wire(v) + rest);
    assert(data =~= pre + u32::wire(tag) + (T::wire(v) + rest));
    T::lemma_round_trip(pre + u32::wire(tag), v, rest);
    assert(data =~= (pre + u32::wire(tag)) + T::wire(v) + rest);
}

impl Wire for FieldRaw {
    proof fn lemma_round_trip(pre: Seq<u8>, v: FieldRawView, rest: Seq<u8>) {
        match v {
            FieldRawView::Null => u32::lemma_round_trip(pre, 0, rest),
            FieldRawView::Number(n) => lemma_tagged_round_trip::<i64>(pre, 1, n, rest),
            FieldRawView::Real(bits) => lemma_tagged_round_trip::<u64>(pre, 2, bits, rest),
            FieldRawView::Text(s) => lemma_tagged_round_trip::<String>(pre, 3, s, rest),
            FieldRawView::Bool(b) => lemma_tagged_round_trip::<bool>(pre, 4, b, rest),
            FieldRawView::Blob(bytes) => lemma_tagged_round_trip::<Vec<u8>>(pre, 5, bytes, rest),
            FieldRawView::Asset(asset) => lemma_tagged_round_trip::<CloudAsset>(
                pre,
                6,
                asset,
                rest,
            ),
            FieldRawView::Assets(assets) => lemma_tagged_round_trip::<CloudAssets>(
                pre,
                7,
                assets,
                rest,
            ),
        }
    }
}

/// A value whose tag is none of the eight is read as malformed, whatever follows the tag.
pub proof fn lemma_unknown_tag_is_malformed(data: Seq<u8>, pos: int)
    requires
        u32::parse(data, pos) matches Ok((tag, _)) && tag > 7,
    ensures
        FieldRaw::parse(data, pos) == Err::<(FieldRawView, int), Error>(Error::MalformedValue),
{
}

/// A row: the values of its fields under their names.
#[derive(Clone, Debug)]
pub struct ValueBucket(pub StringMap<FieldRaw>);

impl View for ValueBucket {
    type V = Seq<(Seq<char>, FieldRawView)>;

    open spec fn view(&self) -> Seq<(Seq<char>, FieldRawView)> {
        self.0@
    }
}

impl DeepView for ValueBucket {
    type V = Seq<(Seq<char>, FieldRawView)>;

    open spec fn deep_view(&self) -> Seq<(Seq<char>, FieldRawView)> {
        self@
    }
}

impl Default for ValueBucket {
    fn default() -> (r: ValueBucket)
        ensures
            r@ == Seq::<(Seq<char>, FieldRawView)>::empty(),
            r.0.wf(),
    {
        ValueBucket(StringMap::new())
    }
}

impl Serialize for ValueBucket {
    open spec fn wire(v: Seq<(Seq<char>, FieldRawView)>) -> Seq<u8> {
        StringMap::<FieldRaw>::wire(v)
    }

    open spec fn fits(v: Seq<(Seq<char>, FieldRawView)>) -> bool {
        StringMap::<FieldRaw>::fits(v)
    }

    fn serialize(&self, out: &mut Vec<u8>) -> (r: Result<(), Error>) {
        self.0.serialize(out)
    }
}

impl Deserialize for ValueBucket {
    open spec fn parse(data: Seq<u8>, pos: int) -> Parsed<Seq<(Seq<char>, FieldRawView)>> {
        StringMap::<FieldRaw>::parse(data, pos)
    }

    proof fn lemma_parse_bounds(data: Seq<u8>, pos: int) {
        StringMap::<FieldRaw>::lemma_parse_bounds(data, pos);
    }

    fn deserialize(data: &[u8], pos: usize) -> (r: Result<(ValueBucket, usize), Error>) {
        match StringMap::<FieldRaw>::deserialize(data, pos) {
            Ok((map, end)) => Ok((ValueBucket(map), end)),
            Err(e) => Err(e),
        }
    }
}

/// A row that fits and names no field twice is read back as it was written.
pub proof fn lemma_value_bucket_round_trip(
    pre: Seq<u8>,
    v: Seq<(Seq<char>, FieldRawView)>,
    rest: Seq<u8>,
)
    requires
        ValueBucket::fits(v),
        keys_distinct(v),
    ensures
        ValueBucket::parse(pre + ValueBucket::wire(v) + rest, pre.len() as int) == Ok::<
            (Seq<(Seq<char>, FieldRawView)>, int),
            Error,
        >((v, (pre.len() + ValueBucket::wire(v).len()) as int)),
{
    lemma_map_round_trip::<FieldRaw>(pre, v, rest);
}

/// Rows, in order.
#[derive(Clone, Debug)]
pub struct ValueBuckets(pub Vec<ValueBucket>);

impl View for ValueBuckets {
    type V = Seq<Seq<(Seq<char>, FieldRawView)>>;

    open spec fn view(&self) -> Seq<Seq<(Seq<char>, FieldRawView)>> {
        self.0.deep_view()
    }
}

impl DeepView for ValueBuckets {
    type V = Seq<Seq<(Seq<char>, FieldRawView)>>;

    open spec fn deep_view(&self) -> Seq<Seq<(Seq<char>, FieldRawView)>> {
        self@
    }
}

impl Default for ValueBuckets {
    fn default() -> (r: ValueBuckets)
        ensures
            r@ == Seq::<Seq<(Seq<char>, FieldRawView)>>::empty(),
    {
        let r = ValueBuckets(Vec::new());
        assert(r.0.deep_view() =~= Seq::<Seq<(Seq<char>, FieldRawView)>>::empty());
        r
    }
}

impl Serialize for ValueBuckets {
    open spec fn wire(v: Seq<Seq<(Seq<char>, FieldRawView)>>) -> Seq<u8> {
        Vec::<ValueBucket>::wire(v)
    }

    open spec fn fits(v: Seq<Seq<(Seq<char>, FieldRawView)>>) -> bool {
        Vec::<ValueBucket>::fits(v)
    }

    fn serialize(&self, out: &mut Vec<u8>) -> (r: Result<(), Error>) {
        self.0.serialize(out)
    }
}

impl Deserialize for ValueBuckets {
    open spec fn parse(data: Seq<u8>, pos: int) -> Parsed<Seq<Seq<(Seq<char>, FieldRawView)>>> {
        Vec::<ValueBucket>::parse(data, pos)
    }

    proof fn lemma_parse_bounds(data: Seq<u8>, pos: int) {
        Vec::<ValueBucket>::lemma_parse_bounds(data, pos);
    }

    fn deserialize(data: &[u8], pos: usize) -> (r: Result<(ValueBuckets, usize), Error>) {
        match Vec::<ValueBucket>::deserialize(data, pos) {
            Ok((rows, end)) => Ok((ValueBuckets(rows), end)),
            Err(e) => Err(e),
        }
    }
}

/// One page of rows: the rows, whether more follow, and where to go on.
#[derive(Clone, Debug)]
pub struct CloudData {
    /// Where the next page starts; its meaning is the service's own.
    pub next_cursor: String,
    /// Whether more rows can be had.
    pub has_more: bool,
    /// The rows of this page.
    pub values: ValueBuckets,
}

/// The mathematical model of a [`CloudData`].
pub struct CloudDataView {
    pub next_cursor: Seq<char>,
    pub has_more: bool,
    pub values: Seq<Seq<(Seq<char>, FieldRawView)>>,
}

impl View for CloudData {
    type V = CloudDataView;

    open spec fn view(&self) -> CloudDataView {
        CloudDataView {
            next_cursor: self.next_cursor@,
            has_more: self.has_more,
            values: self.values@,
        }
    }
}

impl DeepView for CloudData {
    type V = CloudDataView;

    open spec fn deep_view(&self) -> CloudDataView {
        self@
    }
}

impl Default for CloudData {
    fn default() -> (r: CloudData)
        ensures
            r@ == (CloudDataView {
                next_cursor: Seq::empty(),
                has_more: false,
                values: Seq::empty(),
            }),
    {
        CloudData { next_cursor: String::new(), has_more: false, values: ValueBuckets::default() }
    }
}

impl Deserialize for CloudData {
    open spec fn parse(data: Seq<u8>, pos: int) -> Parsed<CloudDataView> {
        match <(String, (bool, ValueBuckets))>::parse(data, pos) {
            Err(e) => Err(e),
            Ok((f, end)) => Ok(
                (CloudDataView { next_cursor: f.0, has_more: f.1.0, values: f.1.1 }, end),
            ),
        }
    }

    proof fn lemma_parse_bounds(data: Seq<u8>, pos: int) {
        <(String, (bool, ValueBuckets))>::lemma_parse_bounds(data, pos);
    }

    fn deserialize(data: &[u8], pos: usize) -> (r: Result<(CloudData, usize), Error>) {
        match <(String, (bool, ValueBuckets))>::deserialize(data, pos) {
            Ok(((next_cursor, (has_more, values)), end)) => Ok(
                (CloudData { next_cursor, has_more, values }, end),
            ),
            Err(e) => Err(e),
        }
    }
}

} // verus!
