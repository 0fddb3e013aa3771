//! The layout that fields and methods share.
use crate::attribute::{AttributeView, Attributes};
use crate::bytes::{be16, has_bytes, lemma_be16_bytes, push_u16, read_u16, u16_bytes};
use crate::error::ParseError;
use crate::format::Format;
use vstd::prelude::*;

verus! {

/// The mathematical value of a field or method record.
pub struct MemberView {
    pub access_flags: u16,
    pub name_index: u16,
    pub descriptor_index: u16,
    pub attributes: Seq<AttributeView>,
}

/// The member that starts at `off`: access flags, name index and descriptor index of 16
/// bits each, then its attributes.
pub open spec fn spec_parse_member(s: Seq<u8>, off: int) -> Result<(MemberView, int), ParseError> {
    if off + 6 > s.len() {
        Err(ParseError::TruncatedInput)
    } else {
        match Attributes::spec_parse(s, off + 6) {
            Err(e) => Err(e),
            Ok((attributes, next)) => Ok(
                (
                    MemberView {
                        access_flags: be16(s, off) as u16,
                        name_index: be16(s, off + 2) as u16,
                        descriptor_index: be16(s, off + 4) as u16,
                        attributes,
                    },
                    next,
                ),
            ),
        }
    }
}

/// The bytes of a member.
pub open spec fn member_bytes(v: MemberView) -> Seq<u8> {
    u16_bytes(v.access_flags) + u16_bytes(v.name_index) + u16_bytes(v.descriptor_index)
        + Attributes::spec_bytes(v.attributes)
}

/// Whether the attributes of the member fit their counts and lengths.
pub open spec fn member_encodable(v: MemberView) -> bool {
    Attributes::encodable(v.attributes)
}

/// Reads the three 16-bit fields and the attributes of a member.
pub fn parse_member(bytes: &[u8], off: usize) -> (r: Result<
    (u16, u16, u16, Attributes, usize),
    ParseError,
>)
    ensures
        match r {
            Ok((access_flags, name_index, descriptor_index, attributes, next)) => spec_parse_member(
                bytes@,
                off as int,
            ) == Ok::<(MemberView, int), ParseError>(
                (
                    MemberView {
                        access_flags,
                        name_index,
                        descriptor_index,
                        attributes: attributes@,
                    },
                    next as int,
                ),
            ),
            Err(e) => spec_parse_member(bytes@, off as int) == Err::<(MemberView, int), ParseError>(
                e,
            ),
        },
{
    if !has_bytes(bytes, off, 6) {
        return Err(ParseError::TruncatedInput);
    }
    let access_flags: u16 = match read_u16(bytes, off) {
        Ok(v) => v,
        Err(e) => {
            return Err(e);
        },
    };
    let name_index: u16 = match read_u16(bytes, off + 2) {
        Ok(v) => v,
        Err(e) => {
            return Err(e);
        },
    };
    let descriptor_index: u16 = match read_u16(bytes, off + 4) {
        Ok(v) => v,
        Err(e) => {
            return Err(e);
        },
    };
    match Attributes::parse(bytes, off + 6) {
        Ok((attributes, next)) => Ok((access_flags, name_index, descriptor_index, attributes, next)),
        Err(e) => Err(e),
    }
}

/// Appends the bytes of a member to `out`.
pub fn write_member(
    access_flags: u16,
    name_index: u16,
    descriptor_index: u16,
    attributes: &Attributes,
    out: &mut Vec<u8>,
)
    requires
        Attributes::encodable(attributes@),
    ensures
        final(out)@ == old(out)@ + member_bytes(
            MemberView { access_flags, name_index, descriptor_index, attributes: attributes@ },
        ),
{
    push_u16(out, access_flags);
    push_u16(out, name_index);
    push_u16(out, descriptor_index);
    attributes.write(out);
    assert(out@ =~= old(out)@ + member_bytes(
        MemberView { access_flags, name_index, descriptor_index, attributes: attributes@ },
    ));
}

/// A member that was read from bytes writes back as the bytes it was read from.
pub proof fn lemma_member_round_trip(s: Seq<u8>, off: int)
    requires
        0 <= off,
        spec_parse_member(s, off) is Ok,
    ensures
        off <= spec_parse_member(s, off)->Ok_0.1 <= s.len(),
        member_encodable(spec_parse_member(s, off)->Ok_0.0),
        member_bytes(spec_parse_member(s, off)->Ok_0.0) == s.subrange(
            off,
            spec_parse_member(s, off)->Ok_0.1,
        ),
{
    lemma_be16_bytes(s, off);
    lemma_be16_bytes(s, off + 2);
    lemma_be16_bytes(s, off + 4);
    Attributes::lemma_round_trip(s, off + 6);
    let v = spec_parse_member(s, off)->Ok_0.0;
    let next = spec_parse_member(s, off)->Ok_0.1;
    assert(member_bytes(v) =~= s.subrange(off, off + 2) + s.subrange(off + 2, off + 4)
        + s.subrange(off + 4, off + 6) + s.subrange(off + 6, next));
    assert(member_bytes(v) =~= s.subrange(off, next));
}

} // verus!
