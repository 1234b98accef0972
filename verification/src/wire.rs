//! Fixed-width building blocks of the byte formats.
//!
//! Integers are eight bytes, little-endian. Keys and hashes are 32 raw bytes.
//! A reader takes a value from the front of a byte sequence and hands back
//! what is left over, so readers compose by threading the rest along.

use vstd::prelude::*;
use vstd::bytes::*;

verus! {

/// The array whose bytes are `s`; meaningful when `s` has 32 bytes.
pub open spec fn array32(s: Seq<u8>) -> [u8; 32] {
    choose|a: [u8; 32]| a@ == s
}

/// Every array is recovered from its own bytes.
pub proof fn array32_of_view(a: [u8; 32])
    ensures
        array32(a@) == a,
{
    let b = array32(a@);
    assert(b@ == a@);
    assert(b =~= a);
}

/// Reads a little-endian `u64` from the front of `s`.
pub open spec fn read_u64(s: Seq<u8>) -> Option<(u64, Seq<u8>)> {
    if s.len() >= 8 {
        Some((spec_u64_from_le_bytes(s.subrange(0, 8)), s.skip(8)))
    } else {
        None
    }
}

/// Reads 32 raw bytes from the front of `s`.
pub open spec fn read_array32(s: Seq<u8>) -> Option<([u8; 32], Seq<u8>)> {
    if s.len() >= 32 {
        Some((array32(s.subrange(0, 32)), s.skip(32)))
    } else {
        None
    }
}

/// Reading what was written gives the number back and leaves the rest.
pub proof fn read_u64_of_write(x: u64, rest: Seq<u8>)
    ensures
        spec_u64_to_le_bytes(x).len() == 8,
        read_u64(spec_u64_to_le_bytes(x) + rest) == Some((x, rest)),
{
    lemma_auto_spec_u64_to_from_le_bytes();
    let s = spec_u64_to_le_bytes(x) + rest;
    assert(s.subrange(0, 8) =~= spec_u64_to_le_bytes(x));
    assert(s.skip(8) =~= rest);
}

/// Reading what was written gives the array back and leaves the rest.
pub proof fn read_array32_of_write(a: [u8; 32], rest: Seq<u8>)
    ensures
        read_array32(a@ + rest) == Some((a, rest)),
{
    let s = a@ + rest;
    assert(s.subrange(0, 32) =~= a@);
    assert(s.skip(32) =~= rest);
    array32_of_view(a);
}

/// Appends `x` to `buf` as eight little-endian bytes.
pub fn put_u64(buf: &mut Vec<u8>, x: u64)
    ensures
        final(buf)@ == old(buf)@ + spec_u64_to_le_bytes(x),
{
    let mut b = u64_to_le_bytes(x);
    buf.append(&mut b);
}

/// Appends the 32 bytes of `a` to `buf`.
pub fn put_array32(buf: &mut Vec<u8>, a: &[u8; 32])
    ensures
        final(buf)@ == old(buf)@ + a@,
{
    let mut i: usize = 0;
    while i < 32
        invariant
            i <= 32,
            buf@ == old(buf)@ + a@.subrange(0, i as int),
        decreases 32 - i,
    {
        buf.push(a[i]);
        i += 1;
    }
    assert(a@.subrange(0, 32) =~= a@);
}

/// Takes a `u64` from `bytes` at `pos`, with the position behind it.
pub fn take_u64(bytes: &[u8], pos: usize) -> (r: Option<(u64, usize)>)
    requires
        pos <= bytes@.len(),
    ensures
        match r {
            Some((x, next)) => {
                &&& next == pos + 8
                &&& next <= bytes@.len()
                &&& read_u64(bytes@.skip(pos as int)) == Some((x, bytes@.skip(next as int)))
            },
            None => read_u64(bytes@.skip(pos as int)).is_none(),
        },
{
    if bytes.len() - pos < 8 {
        return None;
    }
    let chunk = vstd::slice::slice_subrange(bytes, pos, pos + 8);
    let x = u64_from_le_bytes(chunk);
    proof {
        let s = bytes@.skip(pos as int);
        assert(s.subrange(0, 8) =~= bytes@.subrange(pos as int, pos + 8));
        assert(s.skip(8) =~= bytes@.skip(pos + 8));
    }
    Some((x, pos + 8))
}

/// Takes 32 raw bytes from `bytes` at `pos`, with the position behind them.
pub fn take_array32(bytes: &[u8], pos: usize) -> (r: Option<([u8; 32], usize)>)
    requires
        pos <= bytes@.len(),
    ensures
        match r {
            Some((a, next)) => {
                &&& next == pos + 32
                &&& next <= bytes@.len()
                &&& a@ == bytes@.subrange(pos as int, pos + 32)
                &&& read_array32(bytes@.skip(pos as int)) == Some((a, bytes@.skip(next as int)))
            },
            None => read_array32(bytes@.skip(pos as int)).is_none(),
        },
{
    if bytes.len() - pos < 32 {
        return None;
    }
    let n = bytes.len();
    let mut out = [0u8; 32];
    let mut i: usize = 0;
    while i < 32
        invariant
            i <= 32,
            n == bytes@.len(),
            pos + 32 <= n,
            forall|j: int| 0 <= j < i ==> out@[j] == bytes@[pos + j],
        decreases 32 - i,
    {
        out[i] = bytes[pos + i];
        i += 1;
    }
    proof {
        let s = bytes@.skip(pos as int);
        assert(s.subrange(0, 32) =~= out@);
        assert(out@ =~= bytes@.subrange(pos as int, pos + 32));
        assert(s.skip(32) =~= bytes@.skip(pos + 32));
        array32_of_view(out);
    }
    Some((out, pos + 32))
}

/// A copy of `items`.
pub fn copy_items<T: Copy>(items: &Vec<T>) -> (copy: Vec<T>)
    ensures
        copy@ == items@,
{
    let mut copy: Vec<T> = Vec::new();
    let mut i: usize = 0;
    while i < items.len()
        invariant
            i <= items.len(),
            copy@ == items@.subrange(0, i as int),
        decreases items.len() - i,
    {
        copy.push(items[i]);
        i += 1;
    }
    assert(items@.subrange(0, items.len() as int) =~= items@);
    copy
}

/// The bytes of `a` as a vector.
pub fn bytes_of<const N: usize>(a: &[u8; N]) -> (bytes: Vec<u8>)
    ensures
        bytes@ == a@,
{
    vstd::slice::slice_to_vec(a.as_slice())
}

/// Whether two 32-byte values hold the same bytes.
pub fn array32_eq(a: &[u8; 32], b: &[u8; 32]) -> (same: bool)
    ensures
        same == (*a == *b),
{
    let mut i: usize = 0;
    while i < 32
        invariant
            i <= 32,
            forall|j: int| 0 <= j < i ==> a@[j] == b@[j],
        decreases 32 - i,
    {
        if a[i] != b[i] {
            return false;
        }
        i += 1;
    }
    assert(*a =~= *b);
    true
}


/// A value with a byte format: a way to write it, and a reader that undoes
/// the writing.
pub trait Wire: Sized {
    /// Whether the value can be written: every list in it is short enough
    /// for its length prefix.
    spec fn fits(self) -> bool;

    /// The bytes that stand for the value.
    spec fn written(self) -> Seq<u8>;

    /// Reads a value from the front of `s` and hands back what is left.
    spec fn read(s: Seq<u8>) -> Option<(Self, Seq<u8>)>;

    /// Reading what was written gives the value back and leaves the rest.
    proof fn read_of_written(self, rest: Seq<u8>)
        requires
            self.fits(),
        ensures
            Self::read(self.written() + rest) == Some((self, rest)),
    ;
}

/// The items of a list, each by what it holds.
pub open spec fn views<T: View>(items: Seq<T>) -> Seq<T::V> {
    items.map_values(|item: T| item@)
}

/// Whether every item can be written.
pub open spec fn all_fit<T: Wire>(items: Seq<T>) -> bool {
    forall|i: int| 0 <= i < items.len() ==> (#[trigger] items[i]).fits()
}

/// Whether the list can be written with its length in front.
pub open spec fn list_fits<T: Wire>(items: Seq<T>) -> bool {
    items.len() <= u64::MAX && all_fit(items)
}

/// The items written one after the other.
pub open spec fn written_each<T: Wire>(items: Seq<T>) -> Seq<u8>
    decreases items.len(),
{
    if items.len() == 0 {
        Seq::empty()
    } else {
        written_each(items.drop_last()) + items.last().written()
    }
}

/// The number of items, then the items.
pub open spec fn written_list<T: Wire>(items: Seq<T>) -> Seq<u8> {
    spec_u64_to_le_bytes(items.len() as u64) + written_each(items)
}

/// Reads `count` items from the front of `s`.
pub open spec fn read_each<T: Wire>(s: Seq<u8>, count: nat) -> Option<(Seq<T>, Seq<u8>)>
    decreases count,
{
    if count == 0 {
        Some((Seq::empty(), s))
    } else {
        match T::read(s) {
            None => None,
            Some((item, rest)) => with_first(item, read_each::<T>(rest, (count - 1) as nat)),
        }
    }
}

/// Puts `item` in front of the items that were read after it.
pub open spec fn with_first<T>(item: T, later: Option<(Seq<T>, Seq<u8>)>) -> Option<
    (Seq<T>, Seq<u8>),
> {
    match later {
        None => None,
        Some((items, left)) => Some((seq![item] + items, left)),
    }
}

/// Puts the items read so far in front of the items that were read later.
pub open spec fn with_earlier<T>(earlier: Seq<T>, later: Option<(Seq<T>, Seq<u8>)>) -> Option<
    (Seq<T>, Seq<u8>),
> {
    match later {
        None => None,
        Some((items, left)) => Some((earlier + items, left)),
    }
}

/// Reads a length and then that many items.
pub open spec fn read_list<T: Wire>(s: Seq<u8>) -> Option<(Seq<T>, Seq<u8>)> {
    match read_u64(s) {
        None => None,
        Some((count, rest)) => read_each::<T>(rest, count as nat),
    }
}

/// The bytes of a list start with its first item.
pub proof fn written_each_first<T: Wire>(items: Seq<T>)
    requires
        items.len() > 0,
    ensures
        written_each(items) == items.first().written() + written_each(items.drop_first()),
    decreases items.len(),
{
    if items.len() == 1 {
        assert(items.drop_last() =~= Seq::<T>::empty());
        assert(items.drop_first() =~= Seq::<T>::empty());
        assert(written_each(items) =~= items.first().written() + written_each(
            items.drop_first(),
        ));
    } else {
        let front = items.drop_last();
        written_each_first(front);
        assert(front.first() == items.first());
        assert(front.drop_first() =~= items.drop_first().drop_last());
        assert(items.drop_first().last() == items.last());
        assert(written_each(items) =~= items.first().written() + written_each(
            items.drop_first(),
        ));
    }
}

/// Reading the items that were written gives them back and leaves the rest.
pub proof fn read_each_of_written<T: Wire>(items: Seq<T>, rest: Seq<u8>)
    requires
        all_fit(items),
    ensures
        read_each::<T>(written_each(items) + rest, items.len()) == Some((items, rest)),
    decreases items.len(),
{
    if items.len() == 0 {
        assert(written_each(items) + rest =~= rest);
        assert(items =~= Seq::<T>::empty());
    } else {
        let first = items.first();
        let tail = items.drop_first();
        written_each_first(items);
        assert(first.fits());
        assert(all_fit(tail)) by {
            assert forall|i: int| 0 <= i < tail.len() implies (#[trigger] tail[i]).fits() by {
                assert(tail[i] == items[i + 1]);
            }
        }
        first.read_of_written(written_each(tail) + rest);
        assert(written_each(items) + rest =~= first.written() + (written_each(tail) + rest));
        read_each_of_written(tail, rest);
        assert(seq![first] + tail =~= items);
    }
}

/// Reading the list that was written gives it back and leaves the rest.
pub proof fn read_list_of_written<T: Wire>(items: Seq<T>, rest: Seq<u8>)
    requires
        list_fits(items),
    ensures
        read_list::<T>(written_list(items) + rest) == Some((items, rest)),
{
    let count = items.len() as u64;
    read_u64_of_write(count, written_each(items) + rest);
    assert(written_list(items) + rest =~= spec_u64_to_le_bytes(count) + (written_each(items)
        + rest));
    read_each_of_written(items, rest);
}

/// A type whose values are written to and taken from byte buffers in the
/// format of what they hold.
pub trait WireExec: View + Sized where Self::V: Wire {
    /// Appends the value to `buf`.
    fn put(&self, buf: &mut Vec<u8>)
        ensures
            self@.fits(),
            final(buf)@ == old(buf)@ + self@.written(),
    ;

    /// Takes a value from `bytes` at `pos`, with the position behind it.
    fn take(bytes: &[u8], pos: usize) -> (r: Option<(Self, usize)>)
        requires
            pos <= bytes@.len(),
        ensures
            match r {
                Some((value, next)) => {
                    &&& pos <= next <= bytes@.len()
                    &&& Self::V::read(bytes@.skip(pos as int)) == Some(
                        (value@, bytes@.skip(next as int)),
                    )
                },
                None => Self::V::read(bytes@.skip(pos as int)).is_none(),
            },
    ;
}

/// Appends the number of `items` and then each item to `buf`.
pub fn put_list<T: WireExec>(buf: &mut Vec<u8>, items: &[T]) where T::V: Wire
    ensures
        list_fits(views(items@)),
        final(buf)@ == old(buf)@ + written_list(views(items@)),
{
    let ghost all = views(items@);
    let n = items.len();
    put_u64(buf, n as u64);
    let mut i: usize = 0;
    while i < n
        invariant
            i <= n,
            n == items@.len(),
            all == views(items@),
            forall|k: int| 0 <= k < i ==> (#[trigger] all[k]).fits(),
            buf@ == old(buf)@ + spec_u64_to_le_bytes(n as u64) + written_each(
                all.subrange(0, i as int),
            ),
        decreases n - i,
    {
        let ghost before = buf@;
        items[i].put(buf);
        proof {
            let upto = all.subrange(0, i + 1);
            assert(upto.drop_last() =~= all.subrange(0, i as int));
            assert(upto.last() == items@[i as int]@);
            assert(buf@ =~= old(buf)@ + spec_u64_to_le_bytes(n as u64) + written_each(upto));
        }
        i += 1;
    }
    proof {
        assert(all.subrange(0, n as int) =~= all);
        assert(old(buf)@ + spec_u64_to_le_bytes(n as u64) + written_each(all) =~= old(buf)@
            + written_list(all));
    }
}

/// Takes a list from `bytes` at `pos`: its length, then that many items.
pub fn take_list<T: WireExec>(bytes: &[u8], pos: usize) -> (r: Option<(Vec<T>, usize)>) where
    T::V: Wire,

    requires
        pos <= bytes@.len(),
    ensures
        match r {
            Some((items, next)) => {
                &&& pos <= next <= bytes@.len()
                &&& read_list::<T::V>(bytes@.skip(pos as int)) == Some(
                    (views(items@), bytes@.skip(next as int)),
                )
            },
            None => read_list::<T::V>(bytes@.skip(pos as int)).is_none(),
        },
{
    let (count, start) = match take_u64(bytes, pos) {
        Some(p) => p,
        None => { return None; },
    };
    let ghost whole = read_each::<T::V>(bytes@.skip(start as int), count as nat);
    let mut items: Vec<T> = Vec::new();
    let mut at: usize = start;
    let mut i: u64 = 0;
    assert(views(items@) + Seq::<T::V>::empty() =~= Seq::<T::V>::empty());
    while i < count
        invariant
            i <= count,
            pos <= start <= at <= bytes@.len(),
            read_list::<T::V>(bytes@.skip(pos as int)) == whole,
            whole == with_earlier(
                views(items@),
                read_each::<T::V>(bytes@.skip(at as int), (count - i) as nat),
            ),
        decreases count - i,
    {
        let ghost earlier = views(items@);
        let ghost here = bytes@.skip(at as int);
        match T::take(bytes, at) {
            None => {
                assert(read_each::<T::V>(here, (count - i) as nat).is_none());
                return None;
            },
            Some((item, next)) => {
                proof {
                    let later = read_each::<T::V>(bytes@.skip(next as int), (count - i - 1) as nat);
                    assert(read_each::<T::V>(here, (count - i) as nat) == with_first(
                        item@,
                        later,
                    ));
                    match later {
                        None => {},
                        Some((more, left)) => {
                            assert(earlier + (seq![item@] + more) =~= earlier.push(item@) + more);
                        },
                    }
                }
                items.push(item);
                assert(views(items@) =~= earlier.push(item@));
                at = next;
                i += 1;
            },
        }
    }
    assert(views(items@) + Seq::<T::V>::empty() =~= views(items@));
    Some((items, at))
}

} // verus!
