//! Attributes: named blobs attached to a class, a field, a method or a `Code` body.
use crate::bytes::{
    be16, be32, copy_range, has_bytes, lemma_be16_bytes, lemma_be32_bytes, push_all, push_u16,
    push_u32, read_u16, read_u32, u16_bytes, u32_bytes,
};
use crate::error::ParseError;
use crate::format::{
    counted_bytes, items_encodable, lemma_counted_round_trip, parse_counted, spec_parse_counted,
    views, write_counted, Format,
};
use vstd::prelude::*;

verus! {

/// One attribute: the pool index of its name and its content, kept as it was read.
#[derive(Debug)]
pub struct Attribute {
    pub name_index: u16,
    pub info: Vec<u8>,
}

/// The mathematical value of an `Attribute`.
pub struct AttributeView {
    pub name_index: u16,
    pub info: Seq<u8>,
}

impl View for Attribute {
    type V = AttributeView;

    open spec fn view(&self) -> AttributeView {
        AttributeView { name_index: self.name_index, info: self.info@ }
    }
}

impl Format for Attribute {
    /// A 16-bit name index, a 32-bit length, then that many bytes of content.
    open spec fn spec_parse(s: Seq<u8>, off: int) -> Result<(AttributeView, int), ParseError> {
        if off + 6 > s.len() {
            Err(ParseError::TruncatedInput)
        } else if off + 6 + be32(s, off + 2) > s.len() {
            Err(ParseError::TruncatedInput)
        } else {
            Ok(
                (
                    AttributeView {
                        name_index: be16(s, off) as u16,
                        info: s.subrange(off + 6, off + 6 + be32(s, off + 2)),
                    },
                    off + 6 + be32(s, off + 2),
                ),
            )
        }
    }

    open spec fn spec_bytes(v: AttributeView) -> Seq<u8> {
        u16_bytes(v.name_index) + u32_bytes(v.info.len() as u32) + v.info
    }

    open spec fn encodable(v: AttributeView) -> bool {
        v.info.len() <= u32::MAX
    }

    fn parse(bytes: &[u8], off: usize) -> (r: Result<(Attribute, usize), ParseError>) {
        if !has_bytes(bytes, off, 6) {
            return Err(ParseError::TruncatedInput);
        }
        let name_index: u16 = match read_u16(bytes, off) {
            Ok(v) => v,
            Err(e) => {
                return Err(e);
            },
        };
        let length: u32 = match read_u32(bytes, off + 2) {
            Ok(v) => v,
            Err(e) => {
                return Err(e);
            },
        };
        if !has_bytes(bytes, off + 6, length as usize) {
            return Err(ParseError::TruncatedInput);
        }
        let info: Vec<u8> = copy_range(bytes, off + 6, off + 6 + length as usize);
        Ok((Attribute { name_index, info }, off + 6 + length as usize))
    }

    fn write(&self, out: &mut Vec<u8>) {
        push_u16(out, self.name_index);
        push_u32(out, self.info.len() as u32);
        push_all(out, self.info.as_slice());
    }

    proof fn lemma_round_trip(s: Seq<u8>, off: int) {
        lemma_be16_bytes(s, off);
        lemma_be32_bytes(s, off + 2);
        let v = Self::spec_parse(s, off)->Ok_0.0;
        let next = Self::spec_parse(s, off)->Ok_0.1;
        assert(Self::spec_bytes(v) =~= s.subrange(off, next));
    }
}

/// The attributes of one owner, in file order.
#[derive(Debug)]
pub struct Attributes {
    pub items: Vec<Attribute>,
}

impl View for Attributes {
    type V = Seq<AttributeView>;

    open spec fn view(&self) -> Seq<AttributeView> {
        views(self.items@)
    }
}

impl Format for Attributes {
    /// A 16-bit count, then that many attributes.
    open spec fn spec_parse(s: Seq<u8>, off: int) -> Result<(Seq<AttributeView>, int), ParseError> {
        spec_parse_counted::<Attribute>(s, off)
    }

    open spec fn spec_bytes(v: Seq<AttributeView>) -> Seq<u8> {
        counted_bytes::<Attribute>(v)
    }

    open spec fn encodable(v: Seq<AttributeView>) -> bool {
        items_encodable::<Attribute>(v)
    }

    fn parse(bytes: &[u8], off: usize) -> (r: Result<(Attributes, usize), ParseError>) {
        match parse_counted::<Attribute>(bytes, off) {
            Ok((items, next)) => Ok((Attributes { items }, next)),
            Err(e) => Err(e),
        }
    }

    fn write(&self, out: &mut Vec<u8>) {
        write_counted::<Attribute>(&self.items, out);
    }

    proof fn lemma_round_trip(s: Seq<u8>, off: int) {
        lemma_counted_round_trip::<Attribute>(s, off);
    }
}

impl Attributes {
    /// The number of attributes.
    pub fn attributes_count(&self) -> (n: usize)
        ensures
            n == self@.len(),
    {
        self.items.len()
    }

    /// The attribute at position `i`.
    pub fn get(&self, i: usize) -> (a: &Attribute)
        requires
            i < self@.len(),
        ensures
            a@ == self@[i as int],
    {
        &self.items[i]
    }
}

} // verus!
