//! The tagged entries of a constant pool and their byte layout.
use crate::bytes::{
    agrees, be16, be32, be64, copy_range, from_i32, from_i64, has_bytes, lemma_be16_bytes,
    lemma_be32_bytes, lemma_be64_bytes, lemma_signed_unsigned, push_all, push_u16, push_u32,
    push_u64, read_u16, read_u32, read_u64, signed32, signed64, to_i32, to_i64, u16_bytes,
    u32_bytes, u64_bytes, unsigned32, unsigned64,
};
use crate::error::ParseError;
use vstd::prelude::*;

verus! {

/// One entry of a constant pool.
///
/// `Float` and `Double` carry the IEEE-754 bit pattern as it stands in the class file.
/// `Reserved` fills index 0 and the second index of every `Long` and `Double`.
#[derive(Debug)]
pub enum Constant {
    Utf8(Vec<u8>),
    Integer(i32),
    Float(u32),
    Long(i64),
    Double(u64),
    Class(u16),
    String(u16),
    Fieldref(u16, u16),
    Methodref(u16, u16),
    InterfaceMethodref(u16, u16),
    NameAndType(u16, u16),
    MethodHandle(u8, u16),
    MethodType(u16),
    InvokeDynamic(u16, u16),
    Reserved,
}

/// The mathematical value of a `Constant`.
pub enum ConstantView {
    Utf8(Seq<u8>),
    Integer(i32),
    Float(u32),
    Long(i64),
    Double(u64),
    Class(u16),
    String(u16),
    Fieldref(u16, u16),
    Methodref(u16, u16),
    InterfaceMethodref(u16, u16),
    NameAndType(u16, u16),
    MethodHandle(u8, u16),
    MethodType(u16),
    InvokeDynamic(u16, u16),
    Reserved,
}

/// The kind of a constant, without its payload.
#[derive(Clone, Copy, Debug, PartialEq, Eq, Structural)]
pub enum ConstantTag {
    Utf8,
    Integer,
    Float,
    Long,
    Double,
    Class,
    String,
    Fieldref,
    Methodref,
    InterfaceMethodref,
    NameAndType,
    MethodHandle,
    MethodType,
    InvokeDynamic,
    Reserved,
}

/// The tag byte of a `Utf8` constant.
pub const TAG_UTF8: u8 = 1;

/// The tag byte of an `Integer` constant.
pub const TAG_INTEGER: u8 = 3;

/// The tag byte of a `Float` constant.
pub const TAG_FLOAT: u8 = 4;

/// The tag byte of a `Long` constant.
pub const TAG_LONG: u8 = 5;

/// The tag byte of a `Double` constant.
pub const TAG_DOUBLE: u8 = 6;

/// The tag byte of a `Class` constant.
pub const TAG_CLASS: u8 = 7;

/// The tag byte of a `String` constant.
pub const TAG_STRING: u8 = 8;

/// The tag byte of a `Fieldref` constant.
pub const TAG_FIELDREF: u8 = 9;

/// The tag byte of a `Methodref` constant.
pub const TAG_METHODREF: u8 = 10;

/// The tag byte of an `InterfaceMethodref` constant.
pub const TAG_INTERFACE_METHODREF: u8 = 11;

/// The tag byte of a `NameAndType` constant.
pub const TAG_NAME_AND_TYPE: u8 = 12;

/// The tag byte of a `MethodHandle` constant.
pub const TAG_METHOD_HANDLE: u8 = 15;

/// The tag byte of a `MethodType` constant.
pub const TAG_METHOD_TYPE: u8 = 16;

/// The tag byte of an `InvokeDynamic` constant.
pub const TAG_INVOKE_DYNAMIC: u8 = 18;

impl View for Constant {
    type V = ConstantView;

    open spec fn view(&self) -> ConstantView {
        match *self {
            Constant::Utf8(b) => ConstantView::Utf8(b@),
            Constant::Integer(v) => ConstantView::Integer(v),
            Constant::Float(v) => ConstantView::Float(v),
            Constant::Long(v) => ConstantView::Long(v),
            Constant::Double(v) => ConstantView::Double(v),
            Constant::Class(i) => ConstantView::Class(i),
            Constant::String(i) => ConstantView::String(i),
            Constant::Fieldref(c, n) => ConstantView::Fieldref(c, n),
            Constant::Methodref(c, n) => ConstantView::Methodref(c, n),
            Constant::InterfaceMethodref(c, n) => ConstantView::InterfaceMethodref(c, n),
            Constant::NameAndType(n, d) => ConstantView::NameAndType(n, d),
            Constant::MethodHandle(k, i) => ConstantView::MethodHandle(k, i),
            Constant::MethodType(i) => ConstantView::MethodType(i),
            Constant::InvokeDynamic(b, n) => ConstantView::InvokeDynamic(b, n),
            Constant::Reserved => ConstantView::Reserved,
        }
    }
}

impl ConstantView {
    /// The kind of this constant.
    pub open spec fn tag(self) -> ConstantTag {
        match self {
            ConstantView::Utf8(_) => ConstantTag::Utf8,
            ConstantView::Integer(_) => ConstantTag::Integer,
            ConstantView::Float(_) => ConstantTag::Float,
            ConstantView::Long(_) => ConstantTag::Long,
            ConstantView::Double(_) => ConstantTag::Double,
            ConstantView::Class(_) => ConstantTag::Class,
            ConstantView::String(_) => ConstantTag::String,
            ConstantView::Fieldref(_, _) => ConstantTag::Fieldref,
            ConstantView::Methodref(_, _) => ConstantTag::Methodref,
            ConstantView::InterfaceMethodref(_, _) => ConstantTag::InterfaceMethodref,
            ConstantView::NameAndType(_, _) => ConstantTag::NameAndType,
            ConstantView::MethodHandle(_, _) => ConstantTag::MethodHandle,
            ConstantView::MethodType(_) => ConstantTag::MethodType,
            ConstantView::InvokeDynamic(_, _) => ConstantTag::InvokeDynamic,
            ConstantView::Reserved => ConstantTag::Reserved,
        }
    }

    /// Whether this constant takes two indices of the pool (`Long` and `Double`).
    pub open spec fn is_wide(self) -> bool {
        self is Long || self is Double
    }

    /// Whether a class file can hold this value: a `Utf8` has a 16-bit length, and
    /// `Reserved` has no bytes of its own.
    pub open spec fn encodable(self) -> bool {
        match self {
            ConstantView::Utf8(b) => b.len() <= u16::MAX,
            _ => true,
        }
    }
}

/// The bytes of one constant in a class file: its tag and its payload. `Reserved` has none.
pub open spec fn constant_bytes(c: ConstantView) -> Seq<u8> {
    match c {
        ConstantView::Utf8(b) => seq![TAG_UTF8] + u16_bytes(b.len() as u16) + b,
        ConstantView::Integer(v) => seq![TAG_INTEGER] + u32_bytes(unsigned32(v)),
        ConstantView::Float(v) => seq![TAG_FLOAT] + u32_bytes(v),
        ConstantView::Long(v) => seq![TAG_LONG] + u64_bytes(unsigned64(v)),
        ConstantView::Double(v) => seq![TAG_DOUBLE] + u64_bytes(v),
        ConstantView::Class(i) => seq![TAG_CLASS] + u16_bytes(i),
        ConstantView::String(i) => seq![TAG_STRING] + u16_bytes(i),
        ConstantView::Fieldref(c, n) => seq![TAG_FIELDREF] + u16_bytes(c) + u16_bytes(n),
        ConstantView::Methodref(c, n) => seq![TAG_METHODREF] + u16_bytes(c) + u16_bytes(n),
        ConstantView::InterfaceMethodref(c, n) => seq![TAG_INTERFACE_METHODREF] + u16_bytes(c)
            + u16_bytes(n),
        ConstantView::NameAndType(n, d) => seq![TAG_NAME_AND_TYPE] + u16_bytes(n) + u16_bytes(d),
        ConstantView::MethodHandle(k, i) => seq![TAG_METHOD_HANDLE, k] + u16_bytes(i),
        ConstantView::MethodType(i) => seq![TAG_METHOD_TYPE] + u16_bytes(i),
        ConstantView::InvokeDynamic(b, n) => seq![TAG_INVOKE_DYNAMIC] + u16_bytes(b) + u16_bytes(n),
        ConstantView::Reserved => Seq::empty(),
    }
}

/// The number of payload bytes that follow a tag of fixed size; `None` for `Utf8` and for
/// an unknown tag.
pub open spec fn fixed_payload(tag: u8) -> Option<int> {
    if tag == TAG_INTEGER || tag == TAG_FLOAT {
        Some(4)
    } else if tag == TAG_LONG || tag == TAG_DOUBLE {
        Some(8)
    } else if tag == TAG_CLASS || tag == TAG_STRING || tag == TAG_METHOD_TYPE {
        Some(2)
    } else if tag == TAG_FIELDREF || tag == TAG_METHODREF || tag == TAG_INTERFACE_METHODREF
        || tag == TAG_NAME_AND_TYPE || tag == TAG_INVOKE_DYNAMIC {
        Some(4)
    } else if tag == TAG_METHOD_HANDLE {
        Some(3)
    } else {
        None
    }
}

/// The constant with tag `tag` whose fixed-size payload starts at `at`.
pub open spec fn fixed_constant(s: Seq<u8>, tag: u8, at: int) -> ConstantView {
    if tag == TAG_INTEGER {
        ConstantView::Integer(signed32(be32(s, at) as u32))
    } else if tag == TAG_FLOAT {
        ConstantView::Float(be32(s, at) as u32)
    } else if tag == TAG_LONG {
        ConstantView::Long(signed64(be64(s, at) as u64))
    } else if tag == TAG_DOUBLE {
        ConstantView::Double(be64(s, at) as u64)
    } else if tag == TAG_CLASS {
        ConstantView::Class(be16(s, at) as u16)
    } else if tag == TAG_STRING {
        ConstantView::String(be16(s, at) as u16)
    } else if tag == TAG_METHOD_TYPE {
        ConstantView::MethodType(be16(s, at) as u16)
    } else if tag == TAG_FIELDREF {
        ConstantView::Fieldref(be16(s, at) as u16, be16(s, at + 2) as u16)
    } else if tag == TAG_METHODREF {
        ConstantView::Methodref(be16(s, at) as u16, be16(s, at + 2) as u16)
    } else if tag == TAG_INTERFACE_METHODREF {
        ConstantView::InterfaceMethodref(be16(s, at) as u16, be16(s, at + 2) as u16)
    } else if tag == TAG_NAME_AND_TYPE {
        ConstantView::NameAndType(be16(s, at) as u16, be16(s, at + 2) as u16)
    } else if tag == TAG_INVOKE_DYNAMIC {
        ConstantView::InvokeDynamic(be16(s, at) as u16, be16(s, at + 2) as u16)
    } else {
        ConstantView::MethodHandle(s[at], be16(s, at + 1) as u16)
    }
}

/// The constant that starts at `off`, with the offset behind it.
///
/// An unknown tag is reported before anything else is read; a payload that runs past the
/// end of the input is `TruncatedInput`.
pub open spec fn spec_parse_constant(s: Seq<u8>, off: int) -> Result<(ConstantView, int), ParseError> {
    if off >= s.len() {
        Err(ParseError::TruncatedInput)
    } else if s[off] == TAG_UTF8 {
        if off + 3 > s.len() {
            Err(ParseError::TruncatedInput)
        } else if off + 3 + be16(s, off + 1) > s.len() {
            Err(ParseError::TruncatedInput)
        } else {
            Ok(
                (
                    ConstantView::Utf8(s.subrange(off + 3, off + 3 + be16(s, off + 1))),
                    off + 3 + be16(s, off + 1),
                ),
            )
        }
    } else {
        match fixed_payload(s[off]) {
            None => Err(ParseError::BadConstantTag(s[off])),
            Some(n) => if off + 1 + n > s.len() {
                Err(ParseError::TruncatedInput)
            } else {
                Ok((fixed_constant(s, s[off], off + 1), off + 1 + n))
            },
        }
    }
}

impl Constant {
    /// The kind of this constant.
    pub fn tag(&self) -> (t: ConstantTag)
        ensures
            t == self@.tag(),
    {
        match self {
            Constant::Utf8(_) => ConstantTag::Utf8,
            Constant::Integer(_) => ConstantTag::Integer,
            Constant::Float(_) => ConstantTag::Float,
            Constant::Long(_) => ConstantTag::Long,
            Constant::Double(_) => ConstantTag::Double,
            Constant::Class(_) => ConstantTag::Class,
            Constant::String(_) => ConstantTag::String,
            Constant::Fieldref(_, _) => ConstantTag::Fieldref,
            Constant::Methodref(_, _) => ConstantTag::Methodref,
            Constant::InterfaceMethodref(_, _) => ConstantTag::InterfaceMethodref,
            Constant::NameAndType(_, _) => ConstantTag::NameAndType,
            Constant::MethodHandle(_, _) => ConstantTag::MethodHandle,
            Constant::MethodType(_) => ConstantTag::MethodType,
            Constant::InvokeDynamic(_, _) => ConstantTag::InvokeDynamic,
            Constant::Reserved => ConstantTag::Reserved,
        }
    }

    /// Whether this constant takes two indices of the pool.
    pub fn is_wide(&self) -> (w: bool)
        ensures
            w == self@.is_wide(),
    {
        match self {
            Constant::Long(_) => true,
            Constant::Double(_) => true,
            _ => false,
        }
    }

    /// Reads the constant that starts at `off`.
    pub fn parse(bytes: &[u8], off: usize) -> (r: Result<(Constant, usize), ParseError>)
        ensures
            agrees(r, spec_parse_constant(bytes@, off as int)),
    {
        if off >= bytes.len() {
            return Err(ParseError::TruncatedInput);
        }
        let tag: u8 = bytes[off];
        if tag == TAG_UTF8 {
            if !has_bytes(bytes, off, 3) {
                return Err(ParseError::TruncatedInput);
            }
            let n: u16 = match read_u16(bytes, off + 1) {
                Ok(n) => n,
                Err(e) => {
                    return Err(e);
                },
            };
            if !has_bytes(bytes, off + 3, n as usize) {
                return Err(ParseError::TruncatedInput);
            }
            let text: Vec<u8> = copy_range(bytes, off + 3, off + 3 + n as usize);
            return Ok((Constant::Utf8(text), off + 3 + n as usize));
        }
        let at: usize = off + 1;
        if tag == TAG_INTEGER || tag == TAG_FLOAT {
            match read_u32(bytes, at) {
                Err(e) => Err(e),
                Ok(v) => if tag == TAG_INTEGER {
                    Ok((Constant::Integer(to_i32(v)), at + 4))
                } else {
                    Ok((Constant::Float(v), at + 4))
                },
            }
        } else if tag == TAG_LONG || tag == TAG_DOUBLE {
            match read_u64(bytes, at) {
                Err(e) => Err(e),
                Ok(v) => if tag == TAG_LONG {
                    Ok((Constant::Long(to_i64(v)), at + 8))
                } else {
                    Ok((Constant::Double(v), at + 8))
                },
            }
        } else if tag == TAG_CLASS || tag == TAG_STRING || tag == TAG_METHOD_TYPE {
            match read_u16(bytes, at) {
                Err(e) => Err(e),
                Ok(v) => if tag == TAG_CLASS {
                    Ok((Constant::Class(v), at + 2))
                } else if tag == TAG_STRING {
                    Ok((Constant::String(v), at + 2))
                } else {
                    Ok((Constant::MethodType(v), at + 2))
                },
            }
        } else if tag == TAG_FIELDREF || tag == TAG_METHODREF || tag == TAG_INTERFACE_METHODREF
            || tag == TAG_NAME_AND_TYPE || tag == TAG_INVOKE_DYNAMIC {
            if !has_bytes(bytes, at, 4) {
                return Err(ParseError::TruncatedInput);
            }
            let a: u16 = match read_u16(bytes, at) {
                Ok(v) => v,
                Err(e) => {
                    return Err(e);
                },
            };
            let b: u16 = match read_u16(bytes, at + 2) {
                Ok(v) => v,
                Err(e) => {
                    return Err(e);
                },
            };
            if tag == TAG_FIELDREF {
                Ok((Constant::Fieldref(a, b), at + 4))
            } else if tag == TAG_METHODREF {
                Ok((Constant::Methodref(a, b), at + 4))
            } else if tag == TAG_INTERFACE_METHODREF {
                Ok((Constant::InterfaceMethodref(a, b), at + 4))
            } else if tag == TAG_NAME_AND_TYPE {
                Ok((Constant::NameAndType(a, b), at + 4))
            } else {
                Ok((Constant::InvokeDynamic(a, b), at + 4))
            }
        } else if tag == TAG_METHOD_HANDLE {
            if !has_bytes(bytes, at, 3) {
                return Err(ParseError::TruncatedInput);
            }
            let kind: u8 = bytes[at];
            let index: u16 = match read_u16(bytes, at + 1) {
                Ok(v) => v,
                Err(e) => {
                    return Err(e);
                },
            };
            Ok((Constant::MethodHandle(kind, index), at + 3))
        } else {
            Err(ParseError::BadConstantTag(tag))
        }
    }

    /// Appends the bytes of this constant to `out`.
    pub fn write(&self, out: &mut Vec<u8>)
        requires
            self@.encodable(),
        ensures
            final(out)@ == old(out)@ + constant_bytes(self@),
    {
        match self {
            Constant::Utf8(b) => {
                out.push(TAG_UTF8);
                push_u16(out, b.len() as u16);
                push_all(out, b.as_slice());
            },
            Constant::Integer(v) => {
                out.push(TAG_INTEGER);
                push_u32(out, from_i32(*v));
            },
            Constant::Float(v) => {
                out.push(TAG_FLOAT);
                push_u32(out, *v);
            },
            Constant::Long(v) => {
                out.push(TAG_LONG);
                push_u64(out, from_i64(*v));
            },
            Constant::Double(v) => {
                out.push(TAG_DOUBLE);
                push_u64(out, *v);
            },
            Constant::Class(i) => {
                out.push(TAG_CLASS);
                push_u16(out, *i);
            },
            Constant::String(i) => {
                out.push(TAG_STRING);
                push_u16(out, *i);
            },
            Constant::Fieldref(c, n) => {
                out.push(TAG_FIELDREF);
                push_u16(out, *c);
                push_u16(out, *n);
            },
            Constant::Methodref(c, n) => {
                out.push(TAG_METHODREF);
                push_u16(out, *c);
                push_u16(out, *n);
            },
            Constant::InterfaceMethodref(c, n) => {
                out.push(TAG_INTERFACE_METHODREF);
                push_u16(out, *c);
                push_u16(out, *n);
            },
            Constant::NameAndType(n, d) => {
                out.push(TAG_NAME_AND_TYPE);
                push_u16(out, *n);
                push_u16(out, *d);
            },
            Constant::MethodHandle(k, i) => {
                out.push(TAG_METHOD_HANDLE);
                out.push(*k);
                push_u16(out, *i);
            },
            Constant::MethodType(i) => {
                out.push(TAG_METHOD_TYPE);
                push_u16(out, *i);
            },
            Constant::InvokeDynamic(b, n) => {
                out.push(TAG_INVOKE_DYNAMIC);
                push_u16(out, *b);
                push_u16(out, *n);
            },
            Constant::Reserved => {},
        }
        assert(out@ =~= old(out)@ + constant_bytes(self@));
    }
}

/// A constant that was read from bytes writes back as the bytes it was read from.
pub proof fn lemma_constant_round_trip(s: Seq<u8>, off: int)
    requires
        0 <= off,
        spec_parse_constant(s, off) is Ok,
    ensures
        off < spec_parse_constant(s, off)->Ok_0.1 <= s.len(),
        spec_parse_constant(s, off)->Ok_0.0.encodable(),
        !(spec_parse_constant(s, off)->Ok_0.0 is Reserved),
        constant_bytes(spec_parse_constant(s, off)->Ok_0.0) == s.subrange(
            off,
            spec_parse_constant(s, off)->Ok_0.1,
        ),
{
    let c = spec_parse_constant(s, off)->Ok_0.0;
    let next = spec_parse_constant(s, off)->Ok_0.1;
    let tag = s[off];
    if tag == TAG_UTF8 {
        lemma_be16_bytes(s, off + 1);
        assert(constant_bytes(c) =~= s.subrange(off, next));
    } else {
        let at = off + 1;
        let n = fixed_payload(tag)->Some_0;
        if n == 2 {
            lemma_be16_bytes(s, at);
        } else if n == 3 {
            lemma_be16_bytes(s, at + 1);
        } else if n == 8 {
            lemma_be64_bytes(s, at);
            lemma_signed_unsigned(0, be64(s, at) as u64, 0, 0);
        } else if tag == TAG_INTEGER || tag == TAG_FLOAT {
            lemma_be32_bytes(s, at);
            lemma_signed_unsigned(be32(s, at) as u32, 0, 0, 0);
        } else {
            lemma_be16_bytes(s, at);
            lemma_be16_bytes(s, at + 2);
        }
        assert(constant_bytes(c) =~= s.subrange(off, next));
    }
}

} // verus!
