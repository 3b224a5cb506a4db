//! Sequences on the wire: a 32-bit count, then the items in order.
//!
//! The empty sequence is the count 0 and nothing else. A count that is
//! negative as a signed number is malformed.

use vstd::prelude::*;
use crate::ipc_conn::error::Error;
use crate::ipc_conn::parcel::{Deserialize, Parsed, Serialize, Wire};
use crate::ipc_conn::scalar::{
    get_u32, lemma_u32_round_trip, put_u32, u32_at, u32_wire, word_i32, word_to_i32,
};

verus! {

/// The largest number of items that a count on the wire can announce.
pub const MAX_COUNT: usize = 2147483647;

/// The bytes of the items of `items`, one after the other, without a count.
pub open spec fn items_wire<T: Serialize>(items: Seq<T::V>) -> Seq<u8>
    decreases items.len(),
{
    if items.len() == 0 {
        Seq::empty()
    } else {
        items_wire::<T>(items.drop_last()) + T::wire(items.last())
    }
}

/// Whether each item of `items` can be written.
pub open spec fn items_fit<T: Serialize>(items: Seq<T::V>) -> bool {
    forall|i: int| 0 <= i < items.len() ==> T::fits(#[trigger] items[i])
}

/// The bytes of the sequence `items`: its length, then its items.
pub open spec fn seq_wire<T: Serialize>(items: Seq<T::V>) -> Seq<u8> {
    u32_wire(items.len() as u32) + items_wire::<T>(items)
}

/// Whether the sequence `items` can be written: its length fits the count
/// and each item fits.
pub open spec fn seq_fits<T: Serialize>(items: Seq<T::V>) -> bool {
    items.len() <= MAX_COUNT && items_fit::<T>(items)
}

/// The `count` items that stand one after the other from `pos` on, with the
/// position behind the last; or the failure of the first that cannot be read.
pub open spec fn items_parse<T: Deserialize>(data: Seq<u8>, pos: int, count: nat) -> Parsed<
    Seq<T::V>,
>
    decreases count,
{
    if count == 0 {
        Ok((Seq::empty(), pos))
    } else {
        match items_parse::<T>(data, pos, (count - 1) as nat) {
            Err(e) => Err(e),
            Ok((head, mid)) => match T::parse(data, mid) {
                Err(e) => Err(e),
                Ok((item, end)) => Ok((head.push(item), end)),
            },
        }
    }
}

/// The sequence at `pos`: the count, then that many items.
pub open spec fn seq_parse<T: Deserialize>(data: Seq<u8>, pos: int) -> Parsed<Seq<T::V>> {
    if pos + 4 > data.len() {
        Err(Error::ReadMsgParcelFailed)
    } else {
        let count = word_i32(u32_at(data, pos));
        if count < 0 {
            Err(Error::MalformedValue)
        } else {
            items_parse::<T>(data, pos + 4, count as nat)
        }
    }
}

/// Items end behind where they start, and inside the buffer; there are as many as asked for.
pub proof fn lemma_items_parse_bounds<T: Deserialize>(data: Seq<u8>, pos: int, count: nat)
    requires
        0 <= pos <= data.len(),
    ensures
        items_parse::<T>(data, pos, count) matches Ok((items, end)) ==> pos <= end <= data.len()
            && items.len() == count,
    decreases count,
{
    if count > 0 {
        lemma_items_parse_bounds::<T>(data, pos, (count - 1) as nat);
        if let Ok((head, mid)) = items_parse::<T>(data, pos, (count - 1) as nat) {
            T::lemma_parse_bounds(data, mid);
        }
    }
}

/// Once an item cannot be read, no longer run of items can.
pub proof fn lemma_items_parse_failure_stays<T: Deserialize>(
    data: Seq<u8>,
    pos: int,
    short: nat,
    long: nat,
)
    requires
        short <= long,
        items_parse::<T>(data, pos, short) is Err,
    ensures
        items_parse::<T>(data, pos, long) == items_parse::<T>(data, pos, short),
    decreases long,
{
    if short < long {
        lemma_items_parse_failure_stays::<T>(data, pos, short, (long - 1) as nat);
    }
}

/// The bytes of items that fit, wherever they stand in a buffer, are read as those items.
pub proof fn lemma_items_round_trip<T: Wire>(pre: Seq<u8>, items: Seq<T::V>, rest: Seq<u8>)
    requires
        items_fit::<T>(items),
    ensures
        items_parse::<T>(pre + items_wire::<T>(items) + rest, pre.len() as int, items.len())
            == Ok::<(Seq<T::V>, int), Error>(
            (items, (pre.len() + items_wire::<T>(items).len()) as int),
        ),
    decreases items.len(),
{
    let data = pre + items_wire::<T>(items) + rest;
    if items.len() == 0 {
        assert(items =~= Seq::<T::V>::empty());
    } else {
        let head = items.drop_last();
        let last = items.last();
        assert(items_fit::<T>(head)) by {
            assert forall|i: int| 0 <= i < head.len() implies T::fits(#[trigger] head[i]) by {
                assert(head[i] == items[i]);
            }
        }
        assert(T::fits(last)) by {
            assert(last == items[items.len() - 1]);
        }
        lemma_items_round_trip::<T>(pre, head, T::wire(last) + rest);
        assert(data =~= pre + items_wire::<T>(head) + (T::wire(last) + rest));
        T::lemma_round_trip(pre + items_wire::<T>(head), last, rest);
        assert(data =~= (pre + items_wire::<T>(head)) + T::wire(last) + rest);
        assert(head.push(last) =~= items);
        assert((items.len() - 1) as nat == head.len());
        assert(items_parse::<T>(data, pre.len() as int, head.len()) == Ok::<
            (Seq<T::V>, int),
            Error,
        >((head, (pre.len() + items_wire::<T>(head).len()) as int)));
        assert(T::parse(data, (pre.len() + items_wire::<T>(head).len()) as int) == Ok::<
            (T::V, int),
            Error,
        >((last, (pre.len() + items_wire::<T>(head).len() + T::wire(last).len()) as int)));
    }
}

/// A sequence that fits is read back as it was written.
pub proof fn lemma_seq_round_trip<T: Wire>(pre: Seq<u8>, items: Seq<T::V>, rest: Seq<u8>)
    requires
        seq_fits::<T>(items),
    ensures
        seq_parse::<T>(pre + seq_wire::<T>(items) + rest, pre.len() as int) == Ok::<
            (Seq<T::V>, int),
            Error,
        >((items, (pre.len() + seq_wire::<T>(items).len()) as int)),
{
    let count = items.len() as u32;
    let data = pre + seq_wire::<T>(items) + rest;
    lemma_u32_round_trip(pre, count, items_wire::<T>(items) + rest);
    assert(data =~= pre + u32_wire(count) + (items_wire::<T>(items) + rest));
    lemma_items_round_trip::<T>(pre + u32_wire(count), items, rest);
    assert(data =~= (pre + u32_wire(count)) + items_wire::<T>(items) + rest);
    assert(word_i32(count) == count);
}

/// Writes the sequence `items`: its length, then its items in order.
///
/// Fails with [`Error::WriteMsgParcelFailed`] exactly where the sequence does
/// not fit; `out` then still begins with what it held before.
pub fn vec_raw_write<T: Serialize>(out: &mut Vec<u8>, items: &Vec<T>) -> (r: Result<(), Error>)
    ensures
        seq_fits::<T>(items.deep_view()) ==> r is Ok && final(out)@ == old(out)@ + seq_wire::<T>(
            items.deep_view(),
        ),
        !seq_fits::<T>(items.deep_view()) ==> r == Err::<(), Error>(Error::WriteMsgParcelFailed),
        old(out)@.len() <= final(out)@.len(),
        final(out)@.subrange(0, old(out)@.len() as int) == old(out)@,
{
    let ghost models = items.deep_view();
    let n = items.len();
    if n > MAX_COUNT {
        assert(out@.subrange(0, old(out)@.len() as int) =~= old(out)@);
        return Err(Error::WriteMsgParcelFailed);
    }
    put_u32(out, n as u32);
    let ghost start = out@;
    assert(start.subrange(0, old(out)@.len() as int) =~= old(out)@);
    let mut i: usize = 0;
    while i < n
        invariant
            i <= n,
            n == items@.len(),
            models == items.deep_view(),
            models.len() == n,
            start == old(out)@ + u32_wire(n as u32),
            out@ == start + items_wire::<T>(models.take(i as int)),
            items_fit::<T>(models.take(i as int)),
        decreases n - i,
    {
        let ghost before = out@;
        let r = items[i].serialize(out);
        proof {
            assert(items@[i as int].deep_view() == models[i as int]);
            assert(models.take(i + 1).drop_last() =~= models.take(i as int));
            assert(models.take(i + 1).last() == models[i as int]);
            assert(out@.subrange(0, old(out)@.len() as int) =~= old(out)@) by {
                assert(before.subrange(0, old(out)@.len() as int) =~= old(out)@);
                assert(out@.subrange(0, before.len() as int) == before);
                assert forall|k: int| 0 <= k < old(out)@.len() implies out@[k] == old(out)@[k] by {
                    assert(out@.subrange(0, before.len() as int)[k] == out@[k]);
                }
            }
        }
        if r.is_err() {
            assert(!T::fits(models[i as int]));
            return r;
        }
        proof {
            assert forall|k: int| 0 <= k < i + 1 implies T::fits(
                #[trigger] models.take(i + 1)[k],
            ) by {
                if k < i {
                    assert(models.take(i as int)[k] == models.take(i + 1)[k]);
                }
            }
        }
        i = i + 1;
    }
    proof {
        assert(models.take(n as int) =~= models);
        assert(out@ =~= old(out)@ + seq_wire::<T>(models));
        assert(out@.subrange(0, old(out)@.len() as int) =~= old(out)@);
    }
    Ok(())
}

/// Reads the sequence at `pos`.
pub fn vec_raw_read<T: Deserialize>(data: &[u8], pos: usize) -> (r: Result<
    (Vec<T>, usize),
    Error,
>)
    ensures
        match seq_parse::<T>(data@, pos as int) {
            Ok((v, end)) => r matches Ok((x, p)) && x.deep_view() == v && p == end,
            Err(e) => r matches Err(f) && f == e,
        },
{
    let word = match get_u32(data, pos) {
        Ok(w) => w,
        Err(e) => {
            return Err(e);
        },
    };
    let signed = word_to_i32(word);
    if signed < 0 {
        return Err(Error::MalformedValue);
    }
    let count = signed as usize;
    let start = pos + 4;
    let mut items: Vec<T> = Vec::new();
    let mut cur = start;
    let mut i: usize = 0;
    proof {
        assert(items.deep_view() =~= Seq::<T::V>::empty());
    }
    while i < count
        invariant
            i <= count,
            start <= data@.len(),
            seq_parse::<T>(data@, pos as int) == items_parse::<T>(
                data@,
                start as int,
                count as nat,
            ),
            items_parse::<T>(data@, start as int, i as nat) == Ok::<(Seq<T::V>, int), Error>(
                (items.deep_view(), cur as int),
            ),
        decreases count - i,
    {
        let ghost so_far = items.deep_view();
        match T::deserialize(data, cur) {
            Ok((item, end)) => {
                items.push(item);
                proof {
                    assert(items.deep_view() =~= so_far.push(item.deep_view()));
                }
                cur = end;
            },
            Err(e) => {
                proof {
                    assert(((i + 1) - 1) as nat == i as nat);
                    assert(items_parse::<T>(data@, start as int, (i + 1) as nat) == Err::<
                        (Seq<T::V>, int),
                        Error,
                    >(e));
                    lemma_items_parse_failure_stays::<T>(
                        data@,
                        start as int,
                        (i + 1) as nat,
                        count as nat,
                    );
                }
                return Err(e);
            },
        }
        i = i + 1;
    }
    Ok((items, cur))
}

impl<T: Serialize> Serialize for Vec<T> {
    open spec fn wire(v: Seq<T::V>) -> Seq<u8> {
        seq_wire::<T>(v)
    }

    open spec fn fits(v: Seq<T::V>) -> bool {
        seq_fits::<T>(v)
    }

    fn serialize(&self, out: &mut Vec<u8>) -> (r: Result<(), Error>) {
        vec_raw_write(out, self)
    }
}

impl<T: Deserialize> Deserialize for Vec<T> {
    open spec fn parse(data: Seq<u8>, pos: int) -> Parsed<Seq<T::V>> {
        seq_parse::<T>(data, pos)
    }

    proof fn lemma_parse_bounds(data: Seq<u8>, pos: int) {
        if pos + 4 <= data.len() {
            let count = word_i32(u32_at(data, pos));
            if count >= 0 {
                lemma_items_parse_bounds::<T>(data, pos + 4, count as nat);
            }
        }
    }

    fn deserialize(data: &[u8], pos: usize) -> (r: Result<(Vec<T>, usize), Error>) {
        vec_raw_read(data, pos)
    }
}

impl<T: Wire> Wire for Vec<T> {
    proof fn lemma_round_trip(pre: Seq<u8>, v: Seq<T::V>, rest: Seq<u8>) {
        lemma_seq_round_trip::<T>(pre, v, rest);
    }
}

} // verus!
