//! The constant pool: an indexed store of constants with typed lookups.
use crate::bytes::{agrees, be16, lemma_be16_bytes, push_u16, read_u16, u16_bytes};
use crate::constant::{
    constant_bytes, lemma_constant_round_trip, spec_parse_constant, Constant, ConstantTag,
    ConstantView,
};
use crate::error::{InvalidConstantReference, ParseError};
use vstd::prelude::*;

verus! {

/// The constants of one class, by index. Index 0 and the second index of every `Long`
/// and `Double` hold `Constant::Reserved`.
#[derive(Debug)]
pub struct ConstantPool {
    pub entries: Vec<Constant>,
}

impl View for ConstantPool {
    type V = Seq<ConstantView>;

    open spec fn view(&self) -> Seq<ConstantView> {
        self.entries@.map_values(|c: Constant| c@)
    }
}

/// The entries of a pool of `count` indices, read from `off` on; `acc` holds the indices
/// filled so far. A `Long` or `Double` that would need an index past the pool is `BadIndex`.
pub open spec fn spec_parse_entries(s: Seq<u8>, off: int, count: int, acc: Seq<ConstantView>) -> Result<
    (Seq<ConstantView>, int),
    ParseError,
>
    decreases count - acc.len(),
{
    if acc.len() >= count {
        Ok((acc, off))
    } else {
        match spec_parse_constant(s, off) {
            Err(e) => Err(e),
            Ok((c, next)) => if c.is_wide() {
                if acc.len() + 2 > count {
                    Err(ParseError::BadIndex(count as u16))
                } else {
                    spec_parse_entries(s, next, count, acc.push(c).push(ConstantView::Reserved))
                }
            } else {
                spec_parse_entries(s, next, count, acc.push(c))
            },
        }
    }
}

/// The pool that starts at `off`: a 16-bit count of indices, then the entries of the
/// indices from 1 on. A count of 0 is `BadIndex(0)`.
pub open spec fn spec_parse_pool(s: Seq<u8>, off: int) -> Result<(Seq<ConstantView>, int), ParseError> {
    if off + 2 > s.len() {
        Err(ParseError::TruncatedInput)
    } else if be16(s, off) == 0 {
        Err(ParseError::BadIndex(0))
    } else {
        spec_parse_entries(s, off + 2, be16(s, off), seq![ConstantView::Reserved])
    }
}

/// The bytes of the entries `entries`, one after the other.
pub open spec fn entries_bytes(entries: Seq<ConstantView>) -> Seq<u8>
    decreases entries.len(),
{
    if entries.len() == 0 {
        Seq::empty()
    } else {
        entries_bytes(entries.drop_last()) + constant_bytes(entries.last())
    }
}

/// The bytes of a pool: its count of indices, then its entries.
pub open spec fn pool_bytes(pool: Seq<ConstantView>) -> Seq<u8> {
    u16_bytes(pool.len() as u16) + entries_bytes(pool)
}

/// Whether a class file can hold this pool.
pub open spec fn pool_encodable(pool: Seq<ConstantView>) -> bool {
    &&& 1 <= pool.len() <= u16::MAX
    &&& forall|i: int| 0 <= i < pool.len() ==> (#[trigger] pool[i]).encodable()
}

/// The entry at `idx`; `Reserved` where the pool has none.
pub open spec fn entry(pool: Seq<ConstantView>, idx: u16) -> ConstantView {
    if 0 < idx < pool.len() {
        pool[idx as int]
    } else {
        ConstantView::Reserved
    }
}

/// The bytes of the `Utf8` entry at `idx`.
pub open spec fn spec_utf8(pool: Seq<ConstantView>, idx: u16) -> Result<
    Seq<u8>,
    InvalidConstantReference,
> {
    match entry(pool, idx) {
        ConstantView::Utf8(b) => Ok(b),
        c => Err(
            InvalidConstantReference { expected: ConstantTag::Utf8, actual: c.tag(), index: idx },
        ),
    }
}

/// The name of the `Class` entry at `idx`.
pub open spec fn spec_class_name(pool: Seq<ConstantView>, idx: u16) -> Result<
    Seq<u8>,
    InvalidConstantReference,
> {
    match entry(pool, idx) {
        ConstantView::Class(n) => spec_utf8(pool, n),
        c => Err(
            InvalidConstantReference { expected: ConstantTag::Class, actual: c.tag(), index: idx },
        ),
    }
}

/// The name and the descriptor of the `NameAndType` entry at `idx`.
pub open spec fn spec_nameandtype(pool: Seq<ConstantView>, idx: u16) -> Result<
    (Seq<u8>, Seq<u8>),
    InvalidConstantReference,
> {
    match entry(pool, idx) {
        ConstantView::NameAndType(n, d) => match spec_utf8(pool, n) {
            Err(e) => Err(e),
            Ok(name) => match spec_utf8(pool, d) {
                Err(e) => Err(e),
                Ok(desc) => Ok((name, desc)),
            },
        },
        c => Err(
            InvalidConstantReference {
                expected: ConstantTag::NameAndType,
                actual: c.tag(),
                index: idx,
            },
        ),
    }
}

/// The class index and the name-and-type index of a member reference.
pub open spec fn member_parts(c: ConstantView) -> Option<(u16, u16)> {
    match c {
        ConstantView::Fieldref(c, n) => Some((c, n)),
        ConstantView::Methodref(c, n) => Some((c, n)),
        ConstantView::InterfaceMethodref(c, n) => Some((c, n)),
        _ => None,
    }
}

/// The class name, member name and descriptor of the member reference at `idx`.
/// An entry of another kind is reported with `Methodref` as the expected kind.
pub open spec fn spec_ref(pool: Seq<ConstantView>, idx: u16) -> Result<
    (Seq<u8>, Seq<u8>, Seq<u8>),
    InvalidConstantReference,
> {
    match member_parts(entry(pool, idx)) {
        None => Err(
            InvalidConstantReference {
                expected: ConstantTag::Methodref,
                actual: entry(pool, idx).tag(),
                index: idx,
            },
        ),
        Some((c, n)) => match spec_class_name(pool, c) {
            Err(e) => Err(e),
            Ok(class) => match spec_nameandtype(pool, n) {
                Err(e) => Err(e),
                Ok((name, desc)) => Ok((class, name, desc)),
            },
        },
    }
}

/// The first index that the constant `c` refers to without finding the kind it needs.
pub open spec fn bad_reference(pool: Seq<ConstantView>, c: ConstantView) -> Option<u16> {
    match c {
        ConstantView::Class(n) => if entry(pool, n) is Utf8 {
            None
        } else {
            Some(n)
        },
        ConstantView::String(n) => if entry(pool, n) is Utf8 {
            None
        } else {
            Some(n)
        },
        ConstantView::MethodType(n) => if entry(pool, n) is Utf8 {
            None
        } else {
            Some(n)
        },
        ConstantView::NameAndType(n, d) => if !(entry(pool, n) is Utf8) {
            Some(n)
        } else if !(entry(pool, d) is Utf8) {
            Some(d)
        } else {
            None
        },
        ConstantView::MethodHandle(_, r) => if member_parts(entry(pool, r)) is Some {
            None
        } else {
            Some(r)
        },
        ConstantView::InvokeDynamic(_, n) => if entry(pool, n) is NameAndType {
            None
        } else {
            Some(n)
        },
        ConstantView::Utf8(_) => None,
        ConstantView::Integer(_) => None,
        ConstantView::Float(_) => None,
        ConstantView::Long(_) => None,
        ConstantView::Double(_) => None,
        ConstantView::Reserved => None,
        member => if !(entry(pool, member_parts(member)->Some_0.0) is Class) {
            Some(member_parts(member)->Some_0.0)
        } else if !(entry(pool, member_parts(member)->Some_0.1) is NameAndType) {
            Some(member_parts(member)->Some_0.1)
        } else {
            None
        },
    }
}

/// The first bad reference among the entries from index `from` on.
pub open spec fn first_bad_reference(pool: Seq<ConstantView>, from: int) -> Option<u16>
    decreases pool.len() - from,
{
    if from >= pool.len() || from < 0 {
        None
    } else if bad_reference(pool, pool[from]) is Some {
        bad_reference(pool, pool[from])
    } else {
        first_bad_reference(pool, from + 1)
    }
}

/// Every entry of the pool refers only to entries of the kind it needs.
pub open spec fn well_typed(pool: Seq<ConstantView>) -> bool {
    forall|i: int| 0 <= i < pool.len() ==> bad_reference(pool, #[trigger] pool[i]) is None
}

/// What a lookup returned, held against what the pool says.
pub open spec fn found_bytes(
    r: Result<&Vec<u8>, InvalidConstantReference>,
    m: Result<Seq<u8>, InvalidConstantReference>,
) -> bool {
    match r {
        Ok(b) => m == Ok::<Seq<u8>, InvalidConstantReference>(b@),
        Err(e) => m == Err::<Seq<u8>, InvalidConstantReference>(e),
    }
}

impl ConstantPool {
    /// The number of indices of the pool, index 0 counted.
    pub fn constant_pool_count(&self) -> (n: usize)
        ensures
            n == self@.len(),
    {
        self.entries.len()
    }

    /// Reads the pool that starts at `off`.
    pub fn parse(bytes: &[u8], off: usize) -> (r: Result<(ConstantPool, usize), ParseError>)
        ensures
            agrees(r, spec_parse_pool(bytes@, off as int)),
    {
        if off > bytes.len() {
            return Err(ParseError::TruncatedInput);
        }
        let count: u16 = match read_u16(bytes, off) {
            Ok(c) => c,
            Err(e) => {
                return Err(e);
            },
        };
        if count == 0 {
            return Err(ParseError::BadIndex(0));
        }
        let mut entries: Vec<Constant> = Vec::new();
        entries.push(Constant::Reserved);
        let mut at: usize = off + 2;
        assert(entries@.map_values(|c: Constant| c@) =~= seq![ConstantView::Reserved]);
        while entries.len() < count as usize
            invariant
                at <= bytes@.len(),
                spec_parse_pool(bytes@, off as int) == spec_parse_entries(
                    bytes@,
                    at as int,
                    count as int,
                    entries@.map_values(|c: Constant| c@),
                ),
            decreases count - entries@.len(),
        {
            let ghost before = entries@.map_values(|c: Constant| c@);
            let (c, next) = match Constant::parse(bytes, at) {
                Ok(found) => found,
                Err(e) => {
                    return Err(e);
                },
            };
            proof {
                lemma_constant_round_trip(bytes@, at as int);
            }
            let wide: bool = c.is_wide();
            let ghost cv = c@;
            if wide && entries.len() + 2 > count as usize {
                return Err(ParseError::BadIndex(count));
            }
            entries.push(c);
            if wide {
                entries.push(Constant::Reserved);
                assert(entries@.map_values(|c: Constant| c@) =~= before.push(cv).push(
                    ConstantView::Reserved,
                ));
            } else {
                assert(entries@.map_values(|c: Constant| c@) =~= before.push(cv));
            }
            at = next;
        }
        Ok((ConstantPool { entries }, at))
    }

    /// Appends the bytes of the pool to `out`.
    pub fn write(&self, out: &mut Vec<u8>)
        requires
            pool_encodable(self@),
        ensures
            final(out)@ == old(out)@ + pool_bytes(self@),
    {
        push_u16(out, self.entries.len() as u16);
        let mut i: usize = 0;
        assert(self@.take(0) =~= Seq::<ConstantView>::empty());
        while i < self.entries.len()
            invariant
                i <= self.entries@.len(),
                pool_encodable(self@),
                out@ == old(out)@ + u16_bytes(self@.len() as u16) + entries_bytes(
                    self@.take(i as int),
                ),
            decreases self.entries@.len() - i,
        {
            assert(self@[i as int].encodable());
            self.entries[i].write(out);
            assert(self@.take(i + 1).drop_last() =~= self@.take(i as int));
            assert(self@.take(i + 1).last() == self@[i as int]);
            i = i + 1;
        }
        assert(self@.take(i as int) =~= self@);
    }

    /// The constant at `idx`: `None` for index 0, for an index outside the pool and for
    /// the unusable second index of a `Long` or `Double`.
    pub fn get(&self, idx: u16) -> (r: Option<&Constant>)
        ensures
            r is Some <==> !(entry(self@, idx) is Reserved),
            r matches Some(c) ==> c@ == entry(self@, idx),
    {
        let i: usize = idx as usize;
        if i == 0 || i >= self.entries.len() {
            return None;
        }
        match &self.entries[i] {
            Constant::Reserved => None,
            c => Some(c),
        }
    }

    /// The kind of the entry at `idx`; `Reserved` where `get` finds none.
    pub fn tag_at(&self, idx: u16) -> (t: ConstantTag)
        ensures
            t == entry(self@, idx).tag(),
    {
        match self.get(idx) {
            Some(c) => c.tag(),
            None => ConstantTag::Reserved,
        }
    }

    /// The bytes of the `Utf8` entry at `idx`.
    pub fn resolve_utf8(&self, idx: u16) -> (r: Result<&Vec<u8>, InvalidConstantReference>)
        ensures
            found_bytes(r, spec_utf8(self@, idx)),
    {
        match self.get(idx) {
            Some(Constant::Utf8(b)) => Ok(b),
            _ => Err(
                InvalidConstantReference {
                    expected: ConstantTag::Utf8,
                    actual: self.tag_at(idx),
                    index: idx,
                },
            ),
        }
    }

    /// The name of the class that the `Class` entry at `idx` names.
    pub fn resolve_class_name(&self, idx: u16) -> (r: Result<&Vec<u8>, InvalidConstantReference>)
        ensures
            found_bytes(r, spec_class_name(self@, idx)),
    {
        match self.get(idx) {
            Some(Constant::Class(n)) => self.resolve_utf8(*n),
            _ => Err(
                InvalidConstantReference {
                    expected: ConstantTag::Class,
                    actual: self.tag_at(idx),
                    index: idx,
                },
            ),
        }
    }

    /// The name and the descriptor of the `NameAndType` entry at `idx`.
    pub fn resolve_nameandtype(&self, idx: u16) -> (r: Result<
        (&Vec<u8>, &Vec<u8>),
        InvalidConstantReference,
    >)
        ensures
            match r {
                Ok((name, desc)) => spec_nameandtype(self@, idx) == Ok::<
                    (Seq<u8>, Seq<u8>),
                    InvalidConstantReference,
                >((name@, desc@)),
                Err(e) => spec_nameandtype(self@, idx) == Err::<
                    (Seq<u8>, Seq<u8>),
                    InvalidConstantReference,
                >(e),
            },
    {
        match self.get(idx) {
            Some(Constant::NameAndType(n, d)) => {
                let name: &Vec<u8> = match self.resolve_utf8(*n) {
                    Ok(b) => b,
                    Err(e) => {
                        return Err(e);
                    },
                };
                match self.resolve_utf8(*d) {
                    Ok(desc) => Ok((name, desc)),
                    Err(e) => Err(e),
                }
            },
            _ => Err(
                InvalidConstantReference {
                    expected: ConstantTag::NameAndType,
                    actual: self.tag_at(idx),
                    index: idx,
                },
            ),
        }
    }

    /// The class name, the member name and the descriptor of the field or method
    /// reference at `idx`.
    pub fn resolve_ref(&self, idx: u16) -> (r: Result<
        (&Vec<u8>, &Vec<u8>, &Vec<u8>),
        InvalidConstantReference,
    >)
        ensures
            match r {
                Ok((class, name, desc)) => spec_ref(self@, idx) == Ok::<
                    (Seq<u8>, Seq<u8>, Seq<u8>),
                    InvalidConstantReference,
                >((class@, name@, desc@)),
                Err(e) => spec_ref(self@, idx) == Err::<
                    (Seq<u8>, Seq<u8>, Seq<u8>),
                    InvalidConstantReference,
                >(e),
            },
    {
        let (c, n): (u16, u16) = match self.get(idx) {
            Some(Constant::Fieldref(c, n)) => (*c, *n),
            Some(Constant::Methodref(c, n)) => (*c, *n),
            Some(Constant::InterfaceMethodref(c, n)) => (*c, *n),
            _ => {
                return Err(
                    InvalidConstantReference {
                        expected: ConstantTag::Methodref,
                        actual: self.tag_at(idx),
                        index: idx,
                    },
                );
            },
        };
        let class: &Vec<u8> = match self.resolve_class_name(c) {
            Ok(b) => b,
            Err(e) => {
                return Err(e);
            },
        };
        match self.resolve_nameandtype(n) {
            Ok((name, desc)) => Ok((class, name, desc)),
            Err(e) => Err(e),
        }
    }

    /// Whether the entry at `idx` is of kind `tag`.
    pub fn is_kind(&self, idx: u16, tag: ConstantTag) -> (r: bool)
        ensures
            r == (entry(self@, idx).tag() == tag),
    {
        self.tag_at(idx) == tag
    }

    /// Whether the entry at `idx` is a field or method reference.
    pub fn is_member(&self, idx: u16) -> (r: bool)
        ensures
            r == member_parts(entry(self@, idx)) is Some,
    {
        match self.get(idx) {
            Some(Constant::Fieldref(_, _)) => true,
            Some(Constant::Methodref(_, _)) => true,
            Some(Constant::InterfaceMethodref(_, _)) => true,
            _ => false,
        }
    }

    /// The first index that the entry at position `i` refers to without finding the
    /// kind it needs.
    pub fn bad_reference_at(&self, i: usize) -> (r: Option<u16>)
        requires
            i < self@.len(),
        ensures
            r == bad_reference(self@, self@[i as int]),
    {
        match &self.entries[i] {
            Constant::Class(n) => if self.is_kind(*n, ConstantTag::Utf8) {
                None
            } else {
                Some(*n)
            },
            Constant::String(n) => if self.is_kind(*n, ConstantTag::Utf8) {
                None
            } else {
                Some(*n)
            },
            Constant::MethodType(n) => if self.is_kind(*n, ConstantTag::Utf8) {
                None
            } else {
                Some(*n)
            },
            Constant::NameAndType(n, d) => if !self.is_kind(*n, ConstantTag::Utf8) {
                Some(*n)
            } else if !self.is_kind(*d, ConstantTag::Utf8) {
                Some(*d)
            } else {
                None
            },
            Constant::MethodHandle(_, r) => if self.is_member(*r) {
                None
            } else {
                Some(*r)
            },
            Constant::InvokeDynamic(_, n) => if self.is_kind(*n, ConstantTag::NameAndType) {
                None
            } else {
                Some(*n)
            },
            Constant::Fieldref(c, n) => self.bad_member(*c, *n),
            Constant::Methodref(c, n) => self.bad_member(*c, *n),
            Constant::InterfaceMethodref(c, n) => self.bad_member(*c, *n),
            _ => None,
        }
    }

    /// The first of the two indices of a member reference that does not lead to the
    /// kind it needs: `c` to a `Class`, `n` to a `NameAndType`.
    pub fn bad_member(&self, c: u16, n: u16) -> (r: Option<u16>)
        ensures
            r == bad_reference(self@, ConstantView::Methodref(c, n)),
            r == bad_reference(self@, ConstantView::Fieldref(c, n)),
            r == bad_reference(self@, ConstantView::InterfaceMethodref(c, n)),
    {
        if !self.is_kind(c, ConstantTag::Class) {
            Some(c)
        } else if !self.is_kind(n, ConstantTag::NameAndType) {
            Some(n)
        } else {
            None
        }
    }

    /// Checks every entry's references: `Ok` exactly when the pool is well typed,
    /// else `BadIndex` with the first bad reference of the first entry that has one.
    pub fn check(&self) -> (r: Result<(), ParseError>)
        ensures
            r is Ok <==> well_typed(self@),
            r is Ok <==> first_bad_reference(self@, 0) is None,
            r matches Err(e) ==> first_bad_reference(self@, 0) == Some(e->BadIndex_0) && e
                is BadIndex,
    {
        let mut i: usize = 0;
        while i < self.entries.len()
            invariant
                i <= self@.len(),
                first_bad_reference(self@, 0) == first_bad_reference(self@, i as int),
                forall|j: int| 0 <= j < i ==> bad_reference(self@, #[trigger] self@[j]) is None,
            decreases self@.len() - i,
        {
            match self.bad_reference_at(i) {
                Some(bad) => {
                    return Err(ParseError::BadIndex(bad));
                },
                None => {},
            }
            i = i + 1;
        }
        Ok(())
    }
}

/// A pool that was read from bytes writes back as the bytes it was read from.
pub proof fn lemma_pool_round_trip(s: Seq<u8>, off: int)
    requires
        0 <= off,
        spec_parse_pool(s, off) is Ok,
    ensures
        off + 2 <= spec_parse_pool(s, off)->Ok_0.1 <= s.len(),
        pool_encodable(spec_parse_pool(s, off)->Ok_0.0),
        spec_parse_pool(s, off)->Ok_0.0.len() == be16(s, off),
        pool_bytes(spec_parse_pool(s, off)->Ok_0.0) == s.subrange(
            off,
            spec_parse_pool(s, off)->Ok_0.1,
        ),
{
    let start = seq![ConstantView::Reserved];
    assert(entries_bytes(start) =~= Seq::<u8>::empty()) by {
        assert(start.drop_last() =~= Seq::<ConstantView>::empty());
        assert(entries_bytes(start.drop_last()) =~= Seq::<u8>::empty());
    }
    assert(s.subrange(off + 2, off + 2) =~= Seq::<u8>::empty());
    lemma_be16_bytes(s, off);
    lemma_entries_round_trip(s, off + 2, off + 2, be16(s, off), start);
    let pool = spec_parse_pool(s, off)->Ok_0.0;
    let end = spec_parse_pool(s, off)->Ok_0.1;
    assert(pool_bytes(pool) =~= s.subrange(off, off + 2) + s.subrange(off + 2, end));
    assert(pool_bytes(pool) =~= s.subrange(off, end));
}

/// The inductive step behind `lemma_pool_round_trip`: once the bytes from `start` to
/// `off` are those of `acc`, the bytes from `start` to the end are those of the result.
pub proof fn lemma_entries_round_trip(
    s: Seq<u8>,
    start: int,
    off: int,
    count: int,
    acc: Seq<ConstantView>,
)
    requires
        0 <= start <= off <= s.len(),
        1 <= acc.len() <= count <= u16::MAX,
        forall|i: int| 0 <= i < acc.len() ==> (#[trigger] acc[i]).encodable(),
        entries_bytes(acc) == s.subrange(start, off),
        spec_parse_entries(s, off, count, acc) is Ok,
    ensures
        off <= spec_parse_entries(s, off, count, acc)->Ok_0.1 <= s.len(),
        spec_parse_entries(s, off, count, acc)->Ok_0.0.len() == count,
        pool_encodable(spec_parse_entries(s, off, count, acc)->Ok_0.0),
        entries_bytes(spec_parse_entries(s, off, count, acc)->Ok_0.0) == s.subrange(
            start,
            spec_parse_entries(s, off, count, acc)->Ok_0.1,
        ),
    decreases count - acc.len(),
{
    if acc.len() < count {
        let c = spec_parse_constant(s, off)->Ok_0.0;
        let next = spec_parse_constant(s, off)->Ok_0.1;
        lemma_constant_round_trip(s, off);
        let one = acc.push(c);
        assert(one.drop_last() =~= acc);
        assert(s.subrange(start, next) =~= s.subrange(start, off) + s.subrange(off, next));
        if c.is_wide() {
            let two = one.push(ConstantView::Reserved);
            assert(two.drop_last() =~= one);
            assert(entries_bytes(two) =~= entries_bytes(one));
            lemma_entries_round_trip(s, start, next, count, two);
        } else {
            lemma_entries_round_trip(s, start, next, count, one);
        }
    }
}

/// A pool passes `check` exactly when no entry has a bad reference.
pub proof fn lemma_first_bad_reference(pool: Seq<ConstantView>, from: int)
    requires
        0 <= from,
    ensures
        first_bad_reference(pool, from) is None <==> (forall|i: int|
            from <= i < pool.len() ==> bad_reference(pool, #[trigger] pool[i]) is None),
    decreases pool.len() - from,
{
    if from < pool.len() {
        lemma_first_bad_reference(pool, from + 1);
    }
}

/// The chain behind a member reference is consistent: where the reference at `idx`
/// resolves, its own entry is a field or method reference, its class index leads to a
/// `Class` whose name index leads to the `Utf8` that was returned as the class name, and
/// its name-and-type index leads to a `NameAndType` whose two indices lead to the `Utf8`
/// entries that were returned as name and descriptor.
pub proof fn lemma_member_reference_chain(pool: Seq<ConstantView>, idx: u16)
    requires
        spec_ref(pool, idx) is Ok,
    ensures
        0 < idx < pool.len(),
        member_parts(pool[idx as int]) is Some,
        ({
            let c = member_parts(pool[idx as int])->Some_0.0;
            let n = member_parts(pool[idx as int])->Some_0.1;
            let found = spec_ref(pool, idx)->Ok_0;
            &&& spec_class_name(pool, c) == Ok::<Seq<u8>, InvalidConstantReference>(found.0)
            &&& spec_nameandtype(pool, n) == Ok::<(Seq<u8>, Seq<u8>), InvalidConstantReference>(
                (found.1, found.2),
            )
            &&& 0 < c < pool.len()
            &&& 0 < n < pool.len()
            &&& pool[c as int] is Class
            &&& entry(pool, pool[c as int]->Class_0) == ConstantView::Utf8(found.0)
            &&& pool[n as int] is NameAndType
            &&& entry(pool, pool[n as int]->NameAndType_0) == ConstantView::Utf8(found.1)
            &&& entry(pool, pool[n as int]->NameAndType_1) == ConstantView::Utf8(found.2)
        }),
{
}

/// In a well-typed pool every field or method reference resolves.
pub proof fn lemma_well_typed_resolves(pool: Seq<ConstantView>, idx: u16)
    requires
        well_typed(pool),
        member_parts(entry(pool, idx)) is Some,
    ensures
        spec_ref(pool, idx) is Ok,
{
    let c = member_parts(entry(pool, idx))->Some_0.0;
    let n = member_parts(entry(pool, idx))->Some_0.1;
    assert(bad_reference(pool, pool[idx as int]) is None);
    assert(bad_reference(pool, pool[c as int]) is None);
    assert(bad_reference(pool, pool[n as int]) is None);
}

} // verus!
