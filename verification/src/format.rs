//! Values with a byte layout, and lists of them behind a 16-bit count.
use crate::bytes::{be16, has_bytes, lemma_be16_bytes, push_u16, read_u16, u16_bytes};
use crate::error::ParseError;
use vstd::prelude::*;

verus! {

/// A value that a class file holds as a run of bytes.
///
/// `spec_parse` says which value starts at an offset and where it ends, `spec_bytes` is
/// the layout of a value, and `lemma_round_trip` ties the two together.
pub trait Format: View + Sized {
    /// The value that starts at `off`, with the offset behind it.
    spec fn spec_parse(s: Seq<u8>, off: int) -> Result<(Self::V, int), ParseError>;

    /// The bytes of `v`.
    spec fn spec_bytes(v: Self::V) -> Seq<u8>;

    /// Whether every length inside `v` fits the width that the layout gives it.
    spec fn encodable(v: Self::V) -> bool;

    /// Reads the value that starts at `off`.
    fn parse(bytes: &[u8], off: usize) -> (r: Result<(Self, usize), ParseError>)
        ensures
            match r {
                Ok((v, next)) => Self::spec_parse(bytes@, off as int) == Ok::<
                    (Self::V, int),
                    ParseError,
                >((v@, next as int)),
                Err(e) => Self::spec_parse(bytes@, off as int) == Err::<(Self::V, int), ParseError>(
                    e,
                ),
            },
    ;

    /// Appends the bytes of `self` to `out`.
    fn write(&self, out: &mut Vec<u8>)
        requires
            Self::encodable(self@),
        ensures
            final(out)@ == old(out)@ + Self::spec_bytes(self@),
    ;

    /// A value that was read from bytes writes back as the bytes it was read from.
    proof fn lemma_round_trip(s: Seq<u8>, off: int)
        requires
            0 <= off,
            Self::spec_parse(s, off) is Ok,
        ensures
            off <= Self::spec_parse(s, off)->Ok_0.1 <= s.len(),
            Self::encodable(Self::spec_parse(s, off)->Ok_0.0),
            Self::spec_bytes(Self::spec_parse(s, off)->Ok_0.0) == s.subrange(
                off,
                Self::spec_parse(s, off)->Ok_0.1,
            ),
    ;
}

impl Format for u16 {
    /// Two bytes, most significant first.
    open spec fn spec_parse(s: Seq<u8>, off: int) -> Result<(u16, int), ParseError> {
        if off + 2 > s.len() {
            Err(ParseError::TruncatedInput)
        } else {
            Ok((be16(s, off) as u16, off + 2))
        }
    }

    open spec fn spec_bytes(v: u16) -> Seq<u8> {
        u16_bytes(v)
    }

    open spec fn encodable(v: u16) -> bool {
        true
    }

    fn parse(bytes: &[u8], off: usize) -> (r: Result<(u16, usize), ParseError>) {
        if !has_bytes(bytes, off, 2) {
            return Err(ParseError::TruncatedInput);
        }
        match read_u16(bytes, off) {
            Ok(v) => Ok((v, off + 2)),
            Err(e) => Err(e),
        }
    }

    fn write(&self, out: &mut Vec<u8>) {
        push_u16(out, *self);
    }

    proof fn lemma_round_trip(s: Seq<u8>, off: int) {
        lemma_be16_bytes(s, off);
    }
}

/// The views of the items of `items`, in order.
pub open spec fn views<T: View>(items: Seq<T>) -> Seq<T::V> {
    items.map_values(|x: T| x@)
}

/// `count` items read one after the other from `off` on; `acc` holds those read so far.
pub open spec fn spec_parse_items<T: Format>(s: Seq<u8>, off: int, count: int, acc: Seq<T::V>) -> Result<
    (Seq<T::V>, int),
    ParseError,
>
    decreases count - acc.len(),
{
    if acc.len() >= count {
        Ok((acc, off))
    } else {
        match T::spec_parse(s, off) {
            Err(e) => Err(e),
            Ok((v, next)) => spec_parse_items::<T>(s, next, count, acc.push(v)),
        }
    }
}

/// A 16-bit count at `off`, then that many items.
pub open spec fn spec_parse_counted<T: Format>(s: Seq<u8>, off: int) -> Result<
    (Seq<T::V>, int),
    ParseError,
> {
    if off + 2 > s.len() {
        Err(ParseError::TruncatedInput)
    } else {
        spec_parse_items::<T>(s, off + 2, be16(s, off), Seq::empty())
    }
}

/// The bytes of the items, one after the other.
pub open spec fn items_bytes<T: Format>(items: Seq<T::V>) -> Seq<u8>
    decreases items.len(),
{
    if items.len() == 0 {
        Seq::empty()
    } else {
        items_bytes::<T>(items.drop_last()) + T::spec_bytes(items.last())
    }
}

/// The 16-bit count of the items, then their bytes.
pub open spec fn counted_bytes<T: Format>(items: Seq<T::V>) -> Seq<u8> {
    u16_bytes(items.len() as u16) + items_bytes::<T>(items)
}

/// Whether the items fit behind a 16-bit count and each of them is encodable.
pub open spec fn items_encodable<T: Format>(items: Seq<T::V>) -> bool {
    &&& items.len() <= u16::MAX
    &&& forall|i: int| 0 <= i < items.len() ==> T::encodable(#[trigger] items[i])
}

/// Reads a 16-bit count at `off` and that many items behind it.
pub fn parse_counted<T: Format>(bytes: &[u8], off: usize) -> (r: Result<(Vec<T>, usize), ParseError>)
    ensures
        match r {
            Ok((v, next)) => spec_parse_counted::<T>(bytes@, off as int) == Ok::<
                (Seq<T::V>, int),
                ParseError,
            >((views(v@), next as int)),
            Err(e) => spec_parse_counted::<T>(bytes@, off as int) == Err::<
                (Seq<T::V>, int),
                ParseError,
            >(e),
        },
{
    if off > bytes.len() {
        return Err(ParseError::TruncatedInput);
    }
    let count: u16 = match read_u16(bytes, off) {
        Ok(c) => c,
        Err(e) => {
            return Err(e);
        },
    };
    let mut items: Vec<T> = Vec::new();
    let mut at: usize = off + 2;
    assert(views(items@) =~= Seq::<T::V>::empty());
    while items.len() < count as usize
        invariant
            spec_parse_counted::<T>(bytes@, off as int) == spec_parse_items::<T>(
                bytes@,
                at as int,
                count as int,
                views(items@),
            ),
        decreases count - items@.len(),
    {
        let ghost before = views(items@);
        let (v, next) = match T::parse(bytes, at) {
            Ok(found) => found,
            Err(e) => {
                return Err(e);
            },
        };
        let ghost view = v@;
        items.push(v);
        assert(views(items@) =~= before.push(view));
        at = next;
    }
    Ok((items, at))
}

/// Appends the 16-bit count of `items` and their bytes to `out`.
pub fn write_counted<T: Format>(items: &Vec<T>, out: &mut Vec<u8>)
    requires
        items_encodable::<T>(views(items@)),
    ensures
        final(out)@ == old(out)@ + counted_bytes::<T>(views(items@)),
{
    push_u16(out, items.len() as u16);
    let mut i: usize = 0;
    let ghost all = views(items@);
    assert(all.take(0) =~= Seq::<T::V>::empty());
    while i < items.len()
        invariant
            i <= items@.len(),
            all == views(items@),
            items_encodable::<T>(all),
            out@ == old(out)@ + u16_bytes(all.len() as u16) + items_bytes::<T>(all.take(i as int)),
        decreases items@.len() - i,
    {
        assert(T::encodable(all[i as int]));
        items[i].write(out);
        assert(all.take(i + 1).drop_last() =~= all.take(i as int));
        assert(all.take(i + 1).last() == all[i as int]);
        i = i + 1;
    }
    assert(all.take(i as int) =~= all);
}

/// The inductive step behind `lemma_counted_round_trip`.
pub proof fn lemma_items_round_trip<T: Format>(
    s: Seq<u8>,
    start: int,
    off: int,
    count: int,
    acc: Seq<T::V>,
)
    requires
        0 <= start <= off <= s.len(),
        acc.len() <= count <= u16::MAX,
        forall|i: int| 0 <= i < acc.len() ==> T::encodable(#[trigger] acc[i]),
        items_bytes::<T>(acc) == s.subrange(start, off),
        spec_parse_items::<T>(s, off, count, acc) is Ok,
    ensures
        off <= spec_parse_items::<T>(s, off, count, acc)->Ok_0.1 <= s.len(),
        spec_parse_items::<T>(s, off, count, acc)->Ok_0.0.len() == count,
        items_encodable::<T>(spec_parse_items::<T>(s, off, count, acc)->Ok_0.0),
        items_bytes::<T>(spec_parse_items::<T>(s, off, count, acc)->Ok_0.0) == s.subrange(
            start,
            spec_parse_items::<T>(s, off, count, acc)->Ok_0.1,
        ),
    decreases count - acc.len(),
{
    if acc.len() < count {
        let v = T::spec_parse(s, off)->Ok_0.0;
        let next = T::spec_parse(s, off)->Ok_0.1;
        T::lemma_round_trip(s, off);
        let one = acc.push(v);
        assert(one.drop_last() =~= acc);
        assert(s.subrange(start, next) =~= s.subrange(start, off) + s.subrange(off, next));
        lemma_items_round_trip::<T>(s, start, next, count, one);
    }
}

/// A counted list that was read from bytes writes back as the bytes it was read from.
pub proof fn lemma_counted_round_trip<T: Format>(s: Seq<u8>, off: int)
    requires
        0 <= off,
        spec_parse_counted::<T>(s, off) is Ok,
    ensures
        off + 2 <= spec_parse_counted::<T>(s, off)->Ok_0.1 <= s.len(),
        spec_parse_counted::<T>(s, off)->Ok_0.0.len() == be16(s, off),
        items_encodable::<T>(spec_parse_counted::<T>(s, off)->Ok_0.0),
        counted_bytes::<T>(spec_parse_counted::<T>(s, off)->Ok_0.0) == s.subrange(
            off,
            spec_parse_counted::<T>(s, off)->Ok_0.1,
        ),
{
    assert(s.subrange(off + 2, off + 2) =~= Seq::<u8>::empty());
    lemma_be16_bytes(s, off);
    lemma_items_round_trip::<T>(s, off + 2, off + 2, be16(s, off), Seq::empty());
    let items = spec_parse_counted::<T>(s, off)->Ok_0.0;
    let end = spec_parse_counted::<T>(s, off)->Ok_0.1;
    assert(counted_bytes::<T>(items) =~= s.subrange(off, off + 2) + s.subrange(off + 2, end));
    assert(counted_bytes::<T>(items) =~= s.subrange(off, end));
}

} // verus!
