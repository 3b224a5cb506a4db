//! Pairs, and maps from text to values, on the wire.
//!
//! A pair is its first part followed by its second. A map is the sequence of
//! its entries, each a key followed by its value. The order of the entries
//! carries no meaning, but no key may come twice: a reader that meets a key
//! for the second time rejects the whole map.

use vstd::prelude::*;
use crate::ipc_conn::error::Error;
use crate::ipc_conn::parcel::{Deserialize, Parsed, Serialize, Wire};
use crate::ipc_conn::sequence::{lemma_seq_round_trip, seq_fits, seq_parse, seq_wire};

verus! {

impl<A: Serialize, B: Serialize> Serialize for (A, B) {
    open spec fn wire(v: (A::V, B::V)) -> Seq<u8> {
        A::wire(v.0) + B::wire(v.1)
    }

    open spec fn fits(v: (A::V, B::V)) -> bool {
        A::fits(v.0) && B::fits(v.1)
    }

    fn serialize(&self, out: &mut Vec<u8>) -> (r: Result<(), Error>) {
        let first = self.0.serialize(out);
        let ghost mid = out@;
        if first.is_err() {
            return first;
        }
        let second = self.1.serialize(out);
        proof {
            assert(out@.subrange(0, old(out)@.len() as int) =~= old(out)@) by {
                assert forall|k: int| 0 <= k < old(out)@.len() implies out@[k] == old(out)@[k] by {
                    assert(out@.subrange(0, mid.len() as int)[k] == out@[k]);
                    assert(mid.subrange(0, old(out)@.len() as int)[k] == mid[k]);
                }
            }
            if second is Ok {
                assert(out@ =~= old(out)@ + (A::wire(self.0.deep_view()) + B::wire(
                    self.1.deep_view(),
                )));
            }
        }
        second
    }
}

impl<A: Deserialize, B: Deserialize> Deserialize for (A, B) {
    open spec fn parse(data: Seq<u8>, pos: int) -> Parsed<(A::V, B::V)> {
        match A::parse(data, pos) {
            Err(e) => Err(e),
            Ok((first, mid)) => match B::parse(data, mid) {
                Err(e) => Err(e),
                Ok((second, end)) => Ok(((first, second), end)),
            },
        }
    }

    proof fn lemma_parse_bounds(data: Seq<u8>, pos: int) {
        A::lemma_parse_bounds(data, pos);
        if let Ok((first, mid)) = A::parse(data, pos) {
            B::lemma_parse_bounds(data, mid);
        }
    }

    fn deserialize(data: &[u8], pos: usize) -> (r: Result<((A, B), usize), Error>) {
        let (first, mid) = match A::deserialize(data, pos) {
            Ok(found) => found,
            Err(e) => {
                return Err(e);
            },
        };
        let (second, end) = match B::deserialize(data, mid) {
            Ok(found) => found,
            Err(e) => {
                return Err(e);
            },
        };
        Ok(((first, second), end))
    }
}

impl<A: Wire, B: Wire> Wire for (A, B) {
    proof fn lemma_round_trip(pre: Seq<u8>, v: (A::V, B::V), rest: Seq<u8>) {
        let data = pre + (A::wire(v.0) + B::wire(v.1)) + rest;
        A::lemma_round_trip(pre, v.0, B::wire(v.1) + rest);
        assert(data =~= pre + A::wire(v.0) + (B::wire(v.1) + rest));
        B::lemma_round_trip(pre + A::wire(v.0), v.1, rest);
        assert(data =~= (pre + A::wire(v.0)) + B::wire(v.1) + rest);
    }
}

/// Whether no key comes twice among `entries`.
pub open spec fn keys_distinct<M>(entries: Seq<(Seq<char>, M)>) -> bool {
    forall|i: int, j: int|
        0 <= i < j < entries.len() ==> (#[trigger] entries[i]).0 != (#[trigger] entries[j]).0
}

/// Whether `key` is the key of one of `entries`.
pub open spec fn has_key<M>(entries: Seq<(Seq<char>, M)>, key: Seq<char>) -> bool {
    exists|i: int| 0 <= i < entries.len() && (#[trigger] entries[i]).0 == key
}

/// The map that `entries` spell out: each key with its value. Where a key
/// comes twice, an unspecified one of its values.
pub open spec fn entries_map<M>(entries: Seq<(Seq<char>, M)>) -> Map<Seq<char>, M> {
    Map::new(
        |key: Seq<char>| has_key(entries, key),
        |key: Seq<char>|
            entries[choose|i: int| 0 <= i < entries.len() && (#[trigger] entries[i]).0 == key].1,
    )
}

/// With distinct keys, each entry is found in the map under its key.
pub proof fn lemma_entries_map_holds<M>(entries: Seq<(Seq<char>, M)>, i: int)
    requires
        keys_distinct(entries),
        0 <= i < entries.len(),
    ensures
        entries_map(entries).dom().contains(entries[i].0),
        entries_map(entries)[entries[i].0] == entries[i].1,
{
    let key = entries[i].0;
    let j = choose|j: int| 0 <= j < entries.len() && (#[trigger] entries[j]).0 == key;
    assert(has_key(entries, key));
    if i < j {
        assert(entries[i].0 != entries[j].0);
    } else if j < i {
        assert(entries[j].0 != entries[i].0);
    }
}

/// With distinct keys, the map depends on which entries there are and not
/// on the order in which they stand.
pub proof fn lemma_entries_map_ignores_order<M>(a: Seq<(Seq<char>, M)>, b: Seq<(Seq<char>, M)>)
    requires
        keys_distinct(a),
        keys_distinct(b),
        forall|i: int| 0 <= i < a.len() ==> b.contains(#[trigger] a[i]),
        forall|j: int| 0 <= j < b.len() ==> a.contains(#[trigger] b[j]),
    ensures
        entries_map(a) == entries_map(b),
{
    assert forall|key: Seq<char>| has_key(a, key) implies has_key(b, key) && entries_map(a)[key]
        == entries_map(b)[key] by {
        let i = choose|i: int| 0 <= i < a.len() && (#[trigger] a[i]).0 == key;
        assert(b.contains(a[i]));
        let j = choose|j: int| 0 <= j < b.len() && b[j] == a[i];
        assert(b[j].0 == key);
        lemma_entries_map_holds(a, i);
        lemma_entries_map_holds(b, j);
    }
    assert forall|key: Seq<char>| has_key(b, key) implies has_key(a, key) by {
        let j = choose|j: int| 0 <= j < b.len() && (#[trigger] b[j]).0 == key;
        assert(a.contains(b[j]));
        let i = choose|i: int| 0 <= i < a.len() && a[i] == b[j];
        assert(a[i].0 == key);
    }
    assert(entries_map(a) =~= entries_map(b));
}

/// The map at `pos`: a sequence of entries in which no key comes twice
/// ([`Error::DuplicateKey`] otherwise).
pub open spec fn map_parse<V: Deserialize>(data: Seq<u8>, pos: int) -> Parsed<
    Seq<(Seq<char>, V::V)>,
> {
    match seq_parse::<(String, V)>(data, pos) {
        Err(e) => Err(e),
        Ok((entries, end)) => if keys_distinct(entries) {
            Ok((entries, end))
        } else {
            Err(Error::DuplicateKey)
        },
    }
}

/// A map from text to values that keeps its entries in the order in which
/// their keys first came.
#[derive(Clone, Debug)]
pub struct StringMap<V> {
    entries: Vec<(String, V)>,
}

impl<V: DeepView> DeepView for StringMap<V> {
    type V = Seq<(Seq<char>, V::V)>;

    closed spec fn deep_view(&self) -> Seq<(Seq<char>, V::V)> {
        self.entries.deep_view()
    }
}

impl<V: DeepView> View for StringMap<V> {
    type V = Seq<(Seq<char>, V::V)>;

    open spec fn view(&self) -> Seq<(Seq<char>, V::V)> {
        self.deep_view()
    }
}

impl<V: DeepView> StringMap<V> {
    /// No key comes twice. Every map made and changed by the functions of
    /// this type is so.
    pub open spec fn wf(&self) -> bool {
        keys_distinct(self@)
    }

    /// The map as a mathematical map.
    pub open spec fn map(&self) -> Map<Seq<char>, V::V> {
        entries_map(self@)
    }

    /// The empty map.
    pub fn new() -> (r: StringMap<V>)
        ensures
            r@ == Seq::<(Seq<char>, V::V)>::empty(),
            r.wf(),
    {
        let r = StringMap { entries: Vec::new() };
        assert(r.entries.deep_view() =~= Seq::<(Seq<char>, V::V)>::empty());
        r
    }

    /// The number of entries.
    pub fn len(&self) -> (r: usize)
        ensures
            r == self@.len(),
    {
        self.entries.len()
    }

    /// Whether the map has no entry.
    pub fn is_empty(&self) -> (r: bool)
        ensures
            r == (self@.len() == 0),
    {
        self.entries.len() == 0
    }

    /// Where `key` stands among the entries: the first index that holds it.
    fn position(&self, key: &str) -> (r: Option<usize>)
        ensures
            match r {
                Some(i) => i < self@.len() && self@[i as int].0 == key@ && forall|k: int|
                    0 <= k < i ==> (#[trigger] self@[k]).0 != key@,
                None => !has_key(self@, key@),
            },
    {
        let n = self.entries.len();
        let wanted: String = key.to_owned();
        let mut i: usize = 0;
        while i < n
            invariant
                i <= n,
                n == self.entries@.len(),
                self@.len() == n,
                wanted@ == key@,
                forall|k: int| 0 <= k < i ==> (#[trigger] self@[k]).0 != key@,
            decreases n - i,
        {
            proof {
                assert(self@[i as int].0 == self.entries@[i as int].0@);
            }
            if self.entries[i].0 == wanted {
                return Some(i);
            }
            i = i + 1;
        }
        None
    }

    /// Whether the map has an entry under `key`.
    pub fn contains_key(&self, key: &str) -> (r: bool)
        ensures
            r == has_key(self@, key@),
    {
        self.position(key).is_some()
    }

    /// The value under `key`, if there is one.
    pub fn get(&self, key: &str) -> (r: Option<&V>)
        ensures
            match r {
                Some(v) => has_key(self@, key@) && (self.wf() ==> self.map()[key@]
                    == v.deep_view()),
                None => !has_key(self@, key@),
            },
    {
        match self.position(key) {
            Some(i) => {
                proof {
                    assert(self@[i as int].1 == self.entries@[i as int].1.deep_view());
                    if self.wf() {
                        lemma_entries_map_holds(self@, i as int);
                    }
                }
                Some(&self.entries[i].1)
            },
            None => None,
        }
    }

    /// The key and the value of the entry at `index`, in the order of the
    /// entries; `None` behind the last entry.
    pub fn entry(&self, index: usize) -> (r: Option<(&String, &V)>)
        ensures
            match r {
                Some((key, value)) => index < self@.len() && (key@, value.deep_view())
                    == self@[index as int],
                None => index >= self@.len(),
            },
    {
        if index < self.entries.len() {
            let e = &self.entries[index];
            Some((&e.0, &e.1))
        } else {
            None
        }
    }

    /// Puts `value` under `key`. A value that stood there is replaced, in
    /// its place, and given back; a new key goes to the end.
    pub fn insert(&mut self, key: String, value: V) -> (r: Option<V>)
        ensures
            old(self).wf() ==> final(self).wf(),
            match r {
                Some(v) => exists|i: int|
                    0 <= i < old(self)@.len() && (#[trigger] old(self)@[i]).0 == key@ && old(
                        self,
                    )@[i].1 == v.deep_view() && final(self)@ == old(self)@.update(
                        i,
                        (key@, value.deep_view()),
                    ) && (forall|k: int| 0 <= k < i ==> (#[trigger] old(self)@[k]).0 != key@),
                None => !has_key(old(self)@, key@) && final(self)@ == old(self)@.push(
                    (key@, value.deep_view()),
                ),
            },
    {
        let ghost before = self@;
        match self.position(key.as_str()) {
            Some(i) => {
                let ghost old_entries = self.entries@;
                let last = self.entries.len() - 1;
                self.entries.push((key, value));
                let taken = self.entries.swap_remove(i);
                proof {
                    assert(self.entries@ =~= old_entries.update(
                        i as int,
                        (key, value),
                    ));
                    assert(self@ =~= before.update(i as int, (key@, value.deep_view())));
                    assert(taken.1.deep_view() == before[i as int].1);
                    if keys_distinct(before) {
                        assert forall|a: int, b: int| 0 <= a < b < self@.len() implies (
                        #[trigger] self@[a]).0 != (#[trigger] self@[b]).0 by {
                            assert(self@[a].0 == before[a].0);
                            assert(self@[b].0 == before[b].0);
                        }
                    }
                }
                Some(taken.1)
            },
            None => {
                self.entries.push((key, value));
                proof {
                    assert(self@ =~= before.push((key@, value.deep_view())));
                    if keys_distinct(before) {
                        assert forall|a: int, b: int| 0 <= a < b < self@.len() implies (
                        #[trigger] self@[a]).0 != (#[trigger] self@[b]).0 by {
                            if b < before.len() {
                                assert(self@[a] == before[a]);
                                assert(self@[b] == before[b]);
                            } else {
                                assert(self@[a] == before[a]);
                            }
                        }
                    }
                }
                None
            },
        }
    }
}

/// Whether no key comes twice among `entries`, found out by comparing them.
fn all_keys_distinct<V: DeepView>(entries: &Vec<(String, V)>) -> (r: bool)
    ensures
        r == keys_distinct(entries.deep_view()),
{
    let n = entries.len();
    let ghost models = entries.deep_view();
    let mut j: usize = 0;
    while j < n
        invariant
            j <= n,
            n == entries@.len(),
            models == entries.deep_view(),
            forall|a: int, b: int|
                0 <= a < b < j ==> (#[trigger] models[a]).0 != (#[trigger] models[b]).0,
        decreases n - j,
    {
        let mut i: usize = 0;
        while i < j
            invariant
                i <= j,
                j < n,
                n == entries@.len(),
                models == entries.deep_view(),
                forall|a: int| 0 <= a < i ==> (#[trigger] models[a]).0 != models[j as int].0,
            decreases j - i,
        {
            proof {
                assert(models[i as int].0 == entries@[i as int].0@);
                assert(models[j as int].0 == entries@[j as int].0@);
            }
            if entries[i].0 == entries[j].0 {
                return false;
            }
            i = i + 1;
        }
        j = j + 1;
    }
    true
}

/// Writes the map `map`: the number of its entries, then each key with its value.
///
/// Fails with [`Error::WriteMsgParcelFailed`] exactly where the map does
/// not fit; `out` then still begins with what it held before.
pub fn string_hash_map_raw_write<V: Serialize>(out: &mut Vec<u8>, map: &StringMap<V>) -> (r:
    Result<(), Error>)
    ensures
        seq_fits::<(String, V)>(map@) ==> r is Ok && final(out)@ == old(out)@ + seq_wire::<
            (String, V),
        >(map@),
        !seq_fits::<(String, V)>(map@) ==> r == Err::<(), Error>(Error::WriteMsgParcelFailed),
        old(out)@.len() <= final(out)@.len(),
        final(out)@.subrange(0, old(out)@.len() as int) == old(out)@,
{
    map.entries.serialize(out)
}

/// Reads the map at `pos`.
pub fn string_hash_map_raw_read<V: Deserialize>(data: &[u8], pos: usize) -> (r: Result<
    (StringMap<V>, usize),
    Error,
>)
    ensures
        match map_parse::<V>(data@, pos as int) {
            Ok((v, end)) => r matches Ok((x, p)) && x@ == v && p == end && x.wf(),
            Err(e) => r matches Err(f) && f == e,
        },
{
    let (entries, end) = match Vec::<(String, V)>::deserialize(data, pos) {
        Ok(found) => found,
        Err(e) => {
            return Err(e);
        },
    };
    if !all_keys_distinct(&entries) {
        return Err(Error::DuplicateKey);
    }
    Ok((StringMap { entries }, end))
}

impl<V: Serialize> Serialize for StringMap<V> {
    open spec fn wire(v: Seq<(Seq<char>, V::V)>) -> Seq<u8> {
        seq_wire::<(String, V)>(v)
    }

    open spec fn fits(v: Seq<(Seq<char>, V::V)>) -> bool {
        seq_fits::<(String, V)>(v)
    }

    fn serialize(&self, out: &mut Vec<u8>) -> (r: Result<(), Error>) {
        string_hash_map_raw_write(out, self)
    }
}

impl<V: Deserialize> Deserialize for StringMap<V> {
    open spec fn parse(data: Seq<u8>, pos: int) -> Parsed<Seq<(Seq<char>, V::V)>> {
        map_parse::<V>(data, pos)
    }

    proof fn lemma_parse_bounds(data: Seq<u8>, pos: int) {
        Vec::<(String, V)>::lemma_parse_bounds(data, pos);
    }

    fn deserialize(data: &[u8], pos: usize) -> (r: Result<(StringMap<V>, usize), Error>) {
        string_hash_map_raw_read(data, pos)
    }
}

/// A map that fits and in which no key comes twice is read back as it was written.
pub proof fn lemma_map_round_trip<V: Wire>(
    pre: Seq<u8>,
    entries: Seq<(Seq<char>, V::V)>,
    rest: Seq<u8>,
)
    requires
        seq_fits::<(String, V)>(entries),
        keys_distinct(entries),
    ensures
        map_parse::<V>(pre + seq_wire::<(String, V)>(entries) + rest, pre.len() as int) == Ok::<
            (Seq<(Seq<char>, V::V)>, int),
            Error,
        >((entries, (pre.len() + seq_wire::<(String, V)>(entries).len()) as int)),
{
    lemma_seq_round_trip::<(String, V)>(pre, entries, rest);
}

} // verus!
