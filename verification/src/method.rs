//! The method records of a class file.
use crate::attribute::Attributes;
use crate::error::ParseError;
use crate::format::{
    counted_bytes, items_encodable, lemma_counted_round_trip, parse_counted, spec_parse_counted,
    views, write_counted, Format,
};
use crate::member::{
    lemma_member_round_trip, member_bytes, member_encodable, parse_member, spec_parse_member,
    write_member, MemberView,
};
use vstd::prelude::*;

verus! {

/// One method record of a class file.
#[derive(Debug)]
pub struct Method {
    pub access_flags: u16,
    pub name_index: u16,
    pub descriptor_index: u16,
    pub attributes: Attributes,
}

impl View for Method {
    type V = MemberView;

    open spec fn view(&self) -> MemberView {
        MemberView {
            access_flags: self.access_flags,
            name_index: self.name_index,
            descriptor_index: self.descriptor_index,
            attributes: self.attributes@,
        }
    }
}

impl Format for Method {
    open spec fn spec_parse(s: Seq<u8>, off: int) -> Result<(MemberView, int), ParseError> {
        spec_parse_member(s, off)
    }

    open spec fn spec_bytes(v: MemberView) -> Seq<u8> {
        member_bytes(v)
    }

    open spec fn encodable(v: MemberView) -> bool {
        member_encodable(v)
    }

    fn parse(bytes: &[u8], off: usize) -> (r: Result<(Method, usize), ParseError>) {
        match parse_member(bytes, off) {
            Ok((access_flags, name_index, descriptor_index, attributes, next)) => Ok(
                (Method { access_flags, name_index, descriptor_index, attributes }, next),
            ),
            Err(e) => Err(e),
        }
    }

    fn write(&self, out: &mut Vec<u8>) {
        write_member(
            self.access_flags,
            self.name_index,
            self.descriptor_index,
            &self.attributes,
            out,
        );
    }

    proof fn lemma_round_trip(s: Seq<u8>, off: int) {
        lemma_member_round_trip(s, off);
    }
}

/// The methods of a class, in file order.
#[derive(Debug)]
pub struct Methods {
    pub items: Vec<Method>,
}

impl View for Methods {
    type V = Seq<MemberView>;

    open spec fn view(&self) -> Seq<MemberView> {
        views(self.items@)
    }
}

impl Format for Methods {
    /// A 16-bit count, then that many method records.
    open spec fn spec_parse(s: Seq<u8>, off: int) -> Result<(Seq<MemberView>, int), ParseError> {
        spec_parse_counted::<Method>(s, off)
    }

    open spec fn spec_bytes(v: Seq<MemberView>) -> Seq<u8> {
        counted_bytes::<Method>(v)
    }

    open spec fn encodable(v: Seq<MemberView>) -> bool {
        items_encodable::<Method>(v)
    }

    fn parse(bytes: &[u8], off: usize) -> (r: Result<(Methods, usize), ParseError>) {
        match parse_counted::<Method>(bytes, off) {
            Ok((items, next)) => Ok((Methods { items }, next)),
            Err(e) => Err(e),
        }
    }

    fn write(&self, out: &mut Vec<u8>) {
        write_counted::<Method>(&self.items, out);
    }

    proof fn lemma_round_trip(s: Seq<u8>, off: int) {
        lemma_counted_round_trip::<Method>(s, off);
    }
}

impl Methods {
    /// The number of methods.
    pub fn methods_count(&self) -> (n: usize)
        ensures
            n == self@.len(),
    {
        self.items.len()
    }

    /// The method at position `i`.
    pub fn get(&self, i: usize) -> (m: &Method)
        requires
            i < self@.len(),
        ensures
            m@ == self@[i as int],
    {
        &self.items[i]
    }
}

} // verus!
