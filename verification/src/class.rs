//! The parsed form of a class file.
use crate::attribute::{AttributeView, Attributes};
use crate::bytes::{
    be16, be32, bytes_eq, copy_range, has_bytes, lemma_be16_bytes, lemma_be32_bytes, push_u16,
    push_u32, read_u16, read_u32, u16_bytes, u32_bytes,
};
use crate::constant::{ConstantTag, ConstantView};
use crate::constantpool::{
    entry, first_bad_reference, lemma_first_bad_reference, lemma_pool_round_trip, pool_bytes,
    pool_encodable, spec_class_name, spec_parse_pool, spec_utf8, well_typed, ConstantPool,
};
use crate::error::{InvalidConstantReference, ParseError};
use crate::field::Fields;
use crate::format::{
    counted_bytes, items_encodable, lemma_counted_round_trip, parse_counted, spec_parse_counted,
    views, write_counted, Format,
};
use crate::member::MemberView;
use crate::method::{Method, Methods};
use crate::text::{object_class_name, object_name, string_bytes, string_from_utf8};
use vstd::prelude::*;
use vstd::utf8::{encode_utf8, valid_utf8};

verus! {

/// The first four bytes of every class file.
pub const MAGIC: u32 = 0xCAFEBABE;

/// The lowest major version that is read.
pub const MIN_MAJOR_VERSION: u16 = 45;

/// The highest major version that is read.
pub const MAX_MAJOR_VERSION: u16 = 52;

/// A class file, parsed.
#[derive(Debug)]
pub struct Class {
    pub magic: u32,
    pub minor_version: u16,
    pub major_version: u16,
    pub constant_pool: ConstantPool,
    pub access_flags: u16,
    pub this_class: u16,
    pub super_class: u16,
    pub interfaces: Vec<u16>,
    pub fields: Fields,
    pub methods: Methods,
    pub attributes: Attributes,
}

/// The mathematical value of a `Class`.
pub struct ClassView {
    pub magic: u32,
    pub minor_version: u16,
    pub major_version: u16,
    pub constant_pool: Seq<ConstantView>,
    pub access_flags: u16,
    pub this_class: u16,
    pub super_class: u16,
    pub interfaces: Seq<u16>,
    pub fields: Seq<MemberView>,
    pub methods: Seq<MemberView>,
    pub attributes: Seq<AttributeView>,
}

impl View for Class {
    type V = ClassView;

    open spec fn view(&self) -> ClassView {
        ClassView {
            magic: self.magic,
            minor_version: self.minor_version,
            major_version: self.major_version,
            constant_pool: self.constant_pool@,
            access_flags: self.access_flags,
            this_class: self.this_class,
            super_class: self.super_class,
            interfaces: self.interfaces@,
            fields: self.fields@,
            methods: self.methods@,
            attributes: self.attributes@,
        }
    }
}

/// The minor and major version behind a good magic number at `off`.
///
/// The magic number is judged as soon as its four bytes are there, the version as soon
/// as the next four are.
pub open spec fn spec_parse_header(s: Seq<u8>, off: int) -> Result<(u16, u16), ParseError> {
    if off + 4 > s.len() {
        Err(ParseError::TruncatedInput)
    } else if be32(s, off) != MAGIC {
        Err(ParseError::BadMagic)
    } else if off + 8 > s.len() {
        Err(ParseError::TruncatedInput)
    } else if be16(s, off + 6) < MIN_MAJOR_VERSION || be16(s, off + 6) > MAX_MAJOR_VERSION {
        Err(ParseError::UnsupportedVersion(be16(s, off + 6) as u16))
    } else {
        Ok((be16(s, off + 4) as u16, be16(s, off + 6) as u16))
    }
}

/// The class that the bytes from `off` on lay out, before any index is checked: magic
/// and versions, the constant pool, access flags, this class, super class, and the four
/// counted lists of interfaces, fields, methods and attributes.
pub open spec fn spec_parse_layout(s: Seq<u8>, off: int) -> Result<(ClassView, int), ParseError> {
    match spec_parse_header(s, off) {
        Err(e) => Err(e),
        Ok((minor_version, major_version)) => match spec_parse_pool(s, off + 8) {
            Err(e) => Err(e),
            Ok((constant_pool, at_flags)) => if at_flags + 6 > s.len() {
                Err(ParseError::TruncatedInput)
            } else {
                match spec_parse_counted::<u16>(s, at_flags + 6) {
                    Err(e) => Err(e),
                    Ok((interfaces, at_fields)) => match Fields::spec_parse(s, at_fields) {
                        Err(e) => Err(e),
                        Ok((fields, at_methods)) => match Methods::spec_parse(s, at_methods) {
                            Err(e) => Err(e),
                            Ok((methods, at_attributes)) => match Attributes::spec_parse(s, at_attributes) {
                                Err(e) => Err(e),
                                Ok((attributes, end)) => Ok(
                                    (
                                        ClassView {
                                            magic: MAGIC,
                                            minor_version,
                                            major_version,
                                            constant_pool,
                                            access_flags: be16(s, at_flags) as u16,
                                            this_class: be16(s, at_flags + 2) as u16,
                                            super_class: be16(s, at_flags + 4) as u16,
                                            interfaces,
                                            fields,
                                            methods,
                                            attributes,
                                        },
                                        end,
                                    ),
                                ),
                            },
                        },
                    },
                }
            },
        },
    }
}

/// The first interface index from position `from` on that does not lead to a `Class`.
pub open spec fn interfaces_bad_index(pool: Seq<ConstantView>, interfaces: Seq<u16>, from: int) -> Option<
    u16,
>
    decreases interfaces.len() - from,
{
    if from < 0 || from >= interfaces.len() {
        None
    } else if !(entry(pool, interfaces[from]) is Class) {
        Some(interfaces[from])
    } else {
        interfaces_bad_index(pool, interfaces, from + 1)
    }
}

/// The first attribute name index from position `from` on that does not lead to a `Utf8`.
pub open spec fn attributes_bad_index(
    pool: Seq<ConstantView>,
    attributes: Seq<AttributeView>,
    from: int,
) -> Option<u16>
    decreases attributes.len() - from,
{
    if from < 0 || from >= attributes.len() {
        None
    } else if !(entry(pool, attributes[from].name_index) is Utf8) {
        Some(attributes[from].name_index)
    } else {
        attributes_bad_index(pool, attributes, from + 1)
    }
}

/// The first index of a member that does not lead to a `Utf8`: its name, its
/// descriptor, then the names of its attributes.
pub open spec fn member_bad_index(pool: Seq<ConstantView>, m: MemberView) -> Option<u16> {
    if !(entry(pool, m.name_index) is Utf8) {
        Some(m.name_index)
    } else if !(entry(pool, m.descriptor_index) is Utf8) {
        Some(m.descriptor_index)
    } else {
        attributes_bad_index(pool, m.attributes, 0)
    }
}

/// The first bad index among the members from position `from` on.
pub open spec fn members_bad_index(pool: Seq<ConstantView>, members: Seq<MemberView>, from: int) -> Option<
    u16,
>
    decreases members.len() - from,
{
    if from < 0 || from >= members.len() {
        None
    } else if member_bad_index(pool, members[from]) is Some {
        member_bad_index(pool, members[from])
    } else {
        members_bad_index(pool, members, from + 1)
    }
}

/// The first index of the class that does not lead to an entry of the kind its place
/// asks for, in this order: the references inside the pool, this class, the super class
/// (0 is accepted for `java/lang/Object` alone), the interfaces, the fields, the methods,
/// the attributes. `None` where every index is good.
pub open spec fn class_bad_index(v: ClassView) -> Option<u16> {
    let pool = v.constant_pool;
    if first_bad_reference(pool, 0) is Some {
        first_bad_reference(pool, 0)
    } else if !(entry(pool, v.this_class) is Class) {
        Some(v.this_class)
    } else if v.super_class == 0 && spec_class_name(pool, v.this_class) != Ok::<
        Seq<u8>,
        InvalidConstantReference,
    >(object_name()) {
        Some(0u16)
    } else if v.super_class != 0 && !(entry(pool, v.super_class) is Class) {
        Some(v.super_class)
    } else if interfaces_bad_index(pool, v.interfaces, 0) is Some {
        interfaces_bad_index(pool, v.interfaces, 0)
    } else if members_bad_index(pool, v.fields, 0) is Some {
        members_bad_index(pool, v.fields, 0)
    } else if members_bad_index(pool, v.methods, 0) is Some {
        members_bad_index(pool, v.methods, 0)
    } else {
        attributes_bad_index(pool, v.attributes, 0)
    }
}

/// Every index of the class leads to an entry of the kind its place asks for.
pub open spec fn well_formed(v: ClassView) -> bool {
    class_bad_index(v) is None
}

/// Whether the member `m` has the name `name` and, where `descriptor` is given, that
/// descriptor.
pub open spec fn member_matches(
    pool: Seq<ConstantView>,
    m: MemberView,
    name: Seq<u8>,
    descriptor: Option<Seq<u8>>,
) -> bool {
    &&& spec_utf8(pool, m.name_index) == Ok::<Seq<u8>, InvalidConstantReference>(name)
    &&& descriptor matches Some(d) ==> spec_utf8(pool, m.descriptor_index) == Ok::<
        Seq<u8>,
        InvalidConstantReference,
    >(d)
}

/// The position of the first member from `from` on that matches.
pub open spec fn member_position(
    pool: Seq<ConstantView>,
    members: Seq<MemberView>,
    name: Seq<u8>,
    descriptor: Option<Seq<u8>>,
    from: int,
) -> Option<int>
    decreases members.len() - from,
{
    if from < 0 || from >= members.len() {
        None
    } else if member_matches(pool, members[from], name, descriptor) {
        Some(from)
    } else {
        member_position(pool, members, name, descriptor, from + 1)
    }
}

/// Where `member_position` finds a place, the member there matches and none before it
/// does.
pub proof fn lemma_member_position(
    pool: Seq<ConstantView>,
    members: Seq<MemberView>,
    name: Seq<u8>,
    descriptor: Option<Seq<u8>>,
    from: int,
)
    requires
        0 <= from,
    ensures
        match member_position(pool, members, name, descriptor, from) {
            Some(i) => from <= i < members.len() && member_matches(
                pool,
                members[i],
                name,
                descriptor,
            ) && forall|j: int|
                from <= j < i ==> !member_matches(pool, #[trigger] members[j], name, descriptor),
            None => forall|j: int|
                from <= j < members.len() ==> !member_matches(
                    pool,
                    #[trigger] members[j],
                    name,
                    descriptor,
                ),
        },
    decreases members.len() - from,
{
    if from < members.len() && !member_matches(pool, members[from], name, descriptor) {
        lemma_member_position(pool, members, name, descriptor, from + 1);
    }
}

/// The position of the first method of `v` with this name and, where one is given,
/// this descriptor.
pub open spec fn spec_method_in(v: ClassView, name: Seq<u8>, descriptor: Option<Seq<u8>>) -> Option<
    int,
> {
    member_position(v.constant_pool, v.methods, name, descriptor, 0)
}

/// The position of the first field of `v` with this name and, where one is given, this
/// descriptor.
pub open spec fn spec_field_in(v: ClassView, name: Seq<u8>, descriptor: Option<Seq<u8>>) -> Option<
    int,
> {
    member_position(v.constant_pool, v.fields, name, descriptor, 0)
}

/// The view of an optional byte string.
pub open spec fn optional_bytes(b: Option<&[u8]>) -> Option<Seq<u8>> {
    match b {
        Some(d) => Some(d@),
        None => None,
    }
}

impl Format for Class {
    /// The class laid out from `off` on, with every index checked.
    open spec fn spec_parse(s: Seq<u8>, off: int) -> Result<(ClassView, int), ParseError> {
        match spec_parse_layout(s, off) {
            Err(e) => Err(e),
            Ok((v, next)) => match class_bad_index(v) {
                Some(i) => Err(ParseError::BadIndex(i)),
                None => Ok((v, next)),
            },
        }
    }

    open spec fn spec_bytes(v: ClassView) -> Seq<u8> {
        u32_bytes(v.magic) + u16_bytes(v.minor_version) + u16_bytes(v.major_version) + pool_bytes(
            v.constant_pool,
        ) + u16_bytes(v.access_flags) + u16_bytes(v.this_class) + u16_bytes(v.super_class)
            + counted_bytes::<u16>(v.interfaces) + Fields::spec_bytes(v.fields)
            + Methods::spec_bytes(v.methods) + Attributes::spec_bytes(v.attributes)
    }

    open spec fn encodable(v: ClassView) -> bool {
        &&& pool_encodable(v.constant_pool)
        &&& items_encodable::<u16>(v.interfaces)
        &&& Fields::encodable(v.fields)
        &&& Methods::encodable(v.methods)
        &&& Attributes::encodable(v.attributes)
    }

    fn parse(bytes: &[u8], off: usize) -> (r: Result<(Class, usize), ParseError>) {
        let (class, next) = match Class::parse_layout(bytes, off) {
            Ok(found) => found,
            Err(e) => {
                return Err(e);
            },
        };
        match class.check() {
            Ok(()) => Ok((class, next)),
            Err(e) => Err(e),
        }
    }

    fn write(&self, out: &mut Vec<u8>) {
        push_u32(out, self.magic);
        push_u16(out, self.minor_version);
        push_u16(out, self.major_version);
        self.constant_pool.write(out);
        push_u16(out, self.access_flags);
        push_u16(out, self.this_class);
        push_u16(out, self.super_class);
        assert(views(self.interfaces@) =~= self.interfaces@);
        write_counted::<u16>(&self.interfaces, out);
        self.fields.write(out);
        self.methods.write(out);
        self.attributes.write(out);
        assert(out@ =~= old(out)@ + Self::spec_bytes(self@));
    }

    proof fn lemma_round_trip(s: Seq<u8>, off: int) {
        let v = Self::spec_parse(s, off)->Ok_0.0;
        lemma_be32_bytes(s, off);
        lemma_be16_bytes(s, off + 4);
        lemma_be16_bytes(s, off + 6);
        lemma_pool_round_trip(s, off + 8);
        let at_flags = spec_parse_pool(s, off + 8)->Ok_0.1;
        lemma_be16_bytes(s, at_flags);
        lemma_be16_bytes(s, at_flags + 2);
        lemma_be16_bytes(s, at_flags + 4);
        lemma_counted_round_trip::<u16>(s, at_flags + 6);
        let at_fields = spec_parse_counted::<u16>(s, at_flags + 6)->Ok_0.1;
        Fields::lemma_round_trip(s, at_fields);
        let at_methods = Fields::spec_parse(s, at_fields)->Ok_0.1;
        Methods::lemma_round_trip(s, at_methods);
        let at_attributes = Methods::spec_parse(s, at_methods)->Ok_0.1;
        Attributes::lemma_round_trip(s, at_attributes);
        let end = Self::spec_parse(s, off)->Ok_0.1;
        lemma_layout_bytes(s, off, v, at_flags, at_fields, at_methods, at_attributes, end);
    }
}

impl Class {
    /// Reads the layout of a class from `off` on, without checking its indices.
    pub fn parse_layout(bytes: &[u8], off: usize) -> (r: Result<(Class, usize), ParseError>)
        ensures
            match r {
                Ok((c, next)) => spec_parse_layout(bytes@, off as int) == Ok::<
                    (ClassView, int),
                    ParseError,
                >((c@, next as int)),
                Err(e) => spec_parse_layout(bytes@, off as int) == Err::<(ClassView, int), ParseError>(
                    e,
                ),
            },
    {
        if !has_bytes(bytes, off, 4) {
            return Err(ParseError::TruncatedInput);
        }
        let magic: u32 = match read_u32(bytes, off) {
            Ok(v) => v,
            Err(e) => {
                return Err(e);
            },
        };
        if magic != MAGIC {
            return Err(ParseError::BadMagic);
        }
        if !has_bytes(bytes, off, 8) {
            return Err(ParseError::TruncatedInput);
        }
        let minor_version: u16 = match read_u16(bytes, off + 4) {
            Ok(v) => v,
            Err(e) => {
                return Err(e);
            },
        };
        let major_version: u16 = match read_u16(bytes, off + 6) {
            Ok(v) => v,
            Err(e) => {
                return Err(e);
            },
        };
        if major_version < MIN_MAJOR_VERSION || major_version > MAX_MAJOR_VERSION {
            return Err(ParseError::UnsupportedVersion(major_version));
        }
        let (constant_pool, at_flags) = match ConstantPool::parse(bytes, off + 8) {
            Ok(found) => found,
            Err(e) => {
                return Err(e);
            },
        };
        if !has_bytes(bytes, at_flags, 6) {
            return Err(ParseError::TruncatedInput);
        }
        let access_flags: u16 = match read_u16(bytes, at_flags) {
            Ok(v) => v,
            Err(e) => {
                return Err(e);
            },
        };
        let this_class: u16 = match read_u16(bytes, at_flags + 2) {
            Ok(v) => v,
            Err(e) => {
                return Err(e);
            },
        };
        let super_class: u16 = match read_u16(bytes, at_flags + 4) {
            Ok(v) => v,
            Err(e) => {
                return Err(e);
            },
        };
        let (interfaces, at_fields) = match parse_counted::<u16>(bytes, at_flags + 6) {
            Ok(found) => found,
            Err(e) => {
                return Err(e);
            },
        };
        assert(views(interfaces@) =~= interfaces@);
        let (fields, at_methods) = match Fields::parse(bytes, at_fields) {
            Ok(found) => found,
            Err(e) => {
                return Err(e);
            },
        };
        let (methods, at_attributes) = match Methods::parse(bytes, at_methods) {
            Ok(found) => found,
            Err(e) => {
                return Err(e);
            },
        };
        let (attributes, end) = match Attributes::parse(bytes, at_attributes) {
            Ok(found) => found,
            Err(e) => {
                return Err(e);
            },
        };
        Ok(
            (
                Class {
                    magic,
                    minor_version,
                    major_version,
                    constant_pool,
                    access_flags,
                    this_class,
                    super_class,
                    interfaces,
                    fields,
                    methods,
                    attributes,
                },
                end,
            ),
        )
    }

    /// The first attribute name index of `attributes` that does not lead to a `Utf8`.
    pub fn check_attributes(&self, attributes: &Attributes) -> (r: Option<u16>)
        ensures
            r == attributes_bad_index(self@.constant_pool, attributes@, 0),
    {
        let mut i: usize = 0;
        while i < attributes.items.len()
            invariant
                i <= attributes@.len(),
                attributes_bad_index(self@.constant_pool, attributes@, 0) == attributes_bad_index(
                    self@.constant_pool,
                    attributes@,
                    i as int,
                ),
            decreases attributes@.len() - i,
        {
            let name_index: u16 = attributes.items[i].name_index;
            assert(attributes@[i as int].name_index == name_index);
            if !self.constant_pool.is_kind(name_index, ConstantTag::Utf8) {
                return Some(name_index);
            }
            i = i + 1;
        }
        None
    }

    /// The first bad index of a member with this name, descriptor and attributes.
    pub fn check_member(&self, name_index: u16, descriptor_index: u16, attributes: &Attributes) -> (r:
        Option<u16>)
        ensures
            r == member_bad_index(
                self@.constant_pool,
                MemberView { access_flags: 0, name_index, descriptor_index, attributes: attributes@ },
            ),
    {
        if !self.constant_pool.is_kind(name_index, ConstantTag::Utf8) {
            Some(name_index)
        } else if !self.constant_pool.is_kind(descriptor_index, ConstantTag::Utf8) {
            Some(descriptor_index)
        } else {
            self.check_attributes(attributes)
        }
    }

    /// The first bad index among the fields.
    pub fn check_fields(&self) -> (r: Option<u16>)
        ensures
            r == members_bad_index(self@.constant_pool, self@.fields, 0),
    {
        let mut i: usize = 0;
        while i < self.fields.items.len()
            invariant
                i <= self@.fields.len(),
                members_bad_index(self@.constant_pool, self@.fields, 0) == members_bad_index(
                    self@.constant_pool,
                    self@.fields,
                    i as int,
                ),
            decreases self@.fields.len() - i,
        {
            let f = &self.fields.items[i];
            assert(self@.fields[i as int] == f@);
            let bad: Option<u16> = self.check_member(f.name_index, f.descriptor_index, &f.attributes);
            if bad.is_some() {
                return bad;
            }
            i = i + 1;
        }
        None
    }

    /// The first bad index among the methods.
    pub fn check_methods(&self) -> (r: Option<u16>)
        ensures
            r == members_bad_index(self@.constant_pool, self@.methods, 0),
    {
        let mut i: usize = 0;
        while i < self.methods.items.len()
            invariant
                i <= self@.methods.len(),
                members_bad_index(self@.constant_pool, self@.methods, 0) == members_bad_index(
                    self@.constant_pool,
                    self@.methods,
                    i as int,
                ),
            decreases self@.methods.len() - i,
        {
            let m = &self.methods.items[i];
            assert(self@.methods[i as int] == m@);
            let bad: Option<u16> = self.check_member(m.name_index, m.descriptor_index, &m.attributes);
            if bad.is_some() {
                return bad;
            }
            i = i + 1;
        }
        None
    }

    /// The first interface index that does not lead to a `Class`.
    pub fn check_interfaces(&self) -> (r: Option<u16>)
        ensures
            r == interfaces_bad_index(self@.constant_pool, self@.interfaces, 0),
    {
        let mut i: usize = 0;
        while i < self.interfaces.len()
            invariant
                i <= self@.interfaces.len(),
                interfaces_bad_index(self@.constant_pool, self@.interfaces, 0)
                    == interfaces_bad_index(self@.constant_pool, self@.interfaces, i as int),
            decreases self@.interfaces.len() - i,
        {
            let index: u16 = self.interfaces[i];
            if !self.constant_pool.is_kind(index, ConstantTag::Class) {
                return Some(index);
            }
            i = i + 1;
        }
        None
    }

    /// Checks every index of the class: `Ok` exactly when the class is well formed,
    /// else `BadIndex` with the first bad index.
    pub fn check(&self) -> (r: Result<(), ParseError>)
        ensures
            match r {
                Ok(()) => well_formed(self@),
                Err(e) => class_bad_index(self@) matches Some(i) && e == ParseError::BadIndex(i),
            },
    {
        match self.constant_pool.check() {
            Ok(()) => {},
            Err(e) => {
                return Err(e);
            },
        }
        if !self.constant_pool.is_kind(self.this_class, ConstantTag::Class) {
            return Err(ParseError::BadIndex(self.this_class));
        }
        if self.super_class == 0 {
            let object: Vec<u8> = object_class_name();
            let is_object: bool = match self.constant_pool.resolve_class_name(self.this_class) {
                Ok(name) => bytes_eq(name.as_slice(), object.as_slice()),
                Err(_) => false,
            };
            if !is_object {
                return Err(ParseError::BadIndex(0));
            }
        } else if !self.constant_pool.is_kind(self.super_class, ConstantTag::Class) {
            return Err(ParseError::BadIndex(self.super_class));
        }
        match self.check_interfaces() {
            Some(i) => {
                return Err(ParseError::BadIndex(i));
            },
            None => {},
        }
        match self.check_fields() {
            Some(i) => {
                return Err(ParseError::BadIndex(i));
            },
            None => {},
        }
        match self.check_methods() {
            Some(i) => {
                return Err(ParseError::BadIndex(i));
            },
            None => {},
        }
        match self.check_attributes(&self.attributes) {
            Some(i) => Err(ParseError::BadIndex(i)),
            None => Ok(()),
        }
    }

    /// Reads a class file: the class that `bytes` lay out from their start, or `None`
    /// where they are rejected. Bytes behind the class are not looked at.
    pub fn load(bytes: &[u8]) -> (r: Option<Class>)
        ensures
            match r {
                Some(c) => Class::spec_parse(bytes@, 0) is Ok && Class::spec_parse(bytes@, 0)->Ok_0.0
                    == c@,
                None => Class::spec_parse(bytes@, 0) is Err,
            },
    {
        match Class::parse(bytes, 0) {
            Ok((c, _)) => Some(c),
            Err(_) => None,
        }
    }

    /// The bytes of this class as a class file.
    pub fn to_bytes(&self) -> (r: Vec<u8>)
        requires
            Class::encodable(self@),
        ensures
            r@ == Class::spec_bytes(self@),
    {
        let mut out: Vec<u8> = Vec::new();
        self.write(&mut out);
        assert(out@ =~= Class::spec_bytes(self@));
        out
    }

    /// The constant pool of the class.
    pub fn get_constant_pool(&self) -> (p: &ConstantPool)
        ensures
            p@ == self@.constant_pool,
    {
        &self.constant_pool
    }

    /// The methods of the class.
    pub fn get_methods(&self) -> (m: &Methods)
        ensures
            m@ == self@.methods,
    {
        &self.methods
    }

    /// Whether the member with these two indices has the name `name` and, where one is
    /// given, the descriptor `descriptor`.
    pub fn matches_member(
        &self,
        name_index: u16,
        descriptor_index: u16,
        name: &[u8],
        descriptor: Option<&[u8]>,
    ) -> (r: bool)
        ensures
            r == member_matches(
                self@.constant_pool,
                MemberView {
                    access_flags: 0,
                    name_index,
                    descriptor_index,
                    attributes: Seq::empty(),
                },
                name@,
                optional_bytes(descriptor),
            ),
    {
        let name_hit: bool = match self.constant_pool.resolve_utf8(name_index) {
            Ok(found) => bytes_eq(found.as_slice(), name),
            Err(_) => false,
        };
        if !name_hit {
            return false;
        }
        match descriptor {
            None => true,
            Some(d) => match self.constant_pool.resolve_utf8(descriptor_index) {
                Ok(found) => bytes_eq(found.as_slice(), d),
                Err(_) => false,
            },
        }
    }

    /// The position of the first method with the name `name` and, where one is given,
    /// the descriptor `descriptor`.
    pub fn find_method(&self, name: &[u8], descriptor: Option<&[u8]>) -> (r: Option<usize>)
        ensures
            match r {
                Some(i) => spec_method_in(self@, name@, optional_bytes(descriptor)) == Some(
                    i as int,
                ) && i < self@.methods.len(),
                None => spec_method_in(self@, name@, optional_bytes(descriptor)) is None,
            },
    {
        let mut i: usize = 0;
        while i < self.methods.items.len()
            invariant
                i <= self@.methods.len(),
                spec_method_in(self@, name@, optional_bytes(descriptor)) == member_position(
                    self@.constant_pool,
                    self@.methods,
                    name@,
                    optional_bytes(descriptor),
                    i as int,
                ),
            decreases self@.methods.len() - i,
        {
            let m = &self.methods.items[i];
            assert(self@.methods[i as int] == m@);
            if self.matches_member(m.name_index, m.descriptor_index, name, descriptor) {
                return Some(i);
            }
            i = i + 1;
        }
        None
    }

    /// The position of the first field with the name `name` and, where one is given, the
    /// descriptor `descriptor`.
    pub fn find_field(&self, name: &[u8], descriptor: Option<&[u8]>) -> (r: Option<usize>)
        ensures
            match r {
                Some(i) => spec_field_in(self@, name@, optional_bytes(descriptor)) == Some(
                    i as int,
                ) && i < self@.fields.len(),
                None => spec_field_in(self@, name@, optional_bytes(descriptor)) is None,
            },
    {
        let mut i: usize = 0;
        while i < self.fields.items.len()
            invariant
                i <= self@.fields.len(),
                spec_field_in(self@, name@, optional_bytes(descriptor)) == member_position(
                    self@.constant_pool,
                    self@.fields,
                    name@,
                    optional_bytes(descriptor),
                    i as int,
                ),
            decreases self@.fields.len() - i,
        {
            let f = &self.fields.items[i];
            assert(self@.fields[i as int] == f@);
            if self.matches_member(f.name_index, f.descriptor_index, name, descriptor) {
                return Some(i);
            }
            i = i + 1;
        }
        None
    }

    /// The first method named `method_name`, compared by the UTF-8 bytes of the name.
    pub fn get_method(&self, method_name: &String) -> (r: Option<&Method>)
        ensures
            match r {
                Some(m) => spec_method_in(self@, encode_utf8(method_name@), None) matches Some(i)
                    && m@ == self@.methods[i],
                None => spec_method_in(self@, encode_utf8(method_name@), None) is None,
            },
    {
        match self.find_method(string_bytes(method_name), None) {
            Some(i) => Some(&self.methods.items[i]),
            None => None,
        }
    }

    /// The bytes of the name of this class: those of the `Utf8` entry that the `Class`
    /// entry at `this_class` names.
    pub fn name_bytes(&self) -> (r: Option<&Vec<u8>>)
        ensures
            match r {
                Some(b) => spec_class_name(self@.constant_pool, self@.this_class) == Ok::<
                    Seq<u8>,
                    InvalidConstantReference,
                >(b@),
                None => spec_class_name(self@.constant_pool, self@.this_class) is Err,
            },
    {
        match self.constant_pool.resolve_class_name(self.this_class) {
            Ok(b) => Some(b),
            Err(_) => None,
        }
    }

    /// The name of this class as a string: `Some` where `this_class` leads over a `Class`
    /// entry to a `Utf8` entry whose bytes are well-formed UTF-8.
    pub fn get_name(&self) -> (r: Option<String>)
        ensures
            r is Some <==> (spec_class_name(self@.constant_pool, self@.this_class) matches Ok(b)
                && valid_utf8(b)),
            r matches Some(s) ==> spec_class_name(self@.constant_pool, self@.this_class) == Ok::<
                Seq<u8>,
                InvalidConstantReference,
            >(encode_utf8(s@)),
    {
        match self.constant_pool.resolve_class_name(self.this_class) {
            Ok(b) => {
                let copy: Vec<u8> = copy_range(b.as_slice(), 0, b.len());
                assert(copy@ =~= b@);
                string_from_utf8(copy)
            },
            Err(_) => None,
        }
    }

    /// The bytes of the name of the super class; `None` where `super_class` is 0 or does
    /// not resolve.
    pub fn super_name_bytes(&self) -> (r: Option<&Vec<u8>>)
        ensures
            match r {
                Some(b) => self@.super_class != 0 && spec_class_name(
                    self@.constant_pool,
                    self@.super_class,
                ) == Ok::<Seq<u8>, InvalidConstantReference>(b@),
                None => self@.super_class == 0 || spec_class_name(
                    self@.constant_pool,
                    self@.super_class,
                ) is Err,
            },
    {
        if self.super_class == 0 {
            return None;
        }
        match self.constant_pool.resolve_class_name(self.super_class) {
            Ok(b) => Some(b),
            Err(_) => None,
        }
    }
}

/// Where each part of a class has the bytes of its own stretch of `s`, and the stretches
/// follow one another from `off` to `end`, the class has the bytes of the whole stretch.
pub proof fn lemma_layout_bytes(
    s: Seq<u8>,
    off: int,
    v: ClassView,
    at_flags: int,
    at_fields: int,
    at_methods: int,
    at_attributes: int,
    end: int,
)
    requires
        0 <= off,
        off + 8 <= at_flags,
        at_flags + 6 <= at_fields <= at_methods <= at_attributes <= end <= s.len(),
        u32_bytes(v.magic) == s.subrange(off, off + 4),
        u16_bytes(v.minor_version) == s.subrange(off + 4, off + 6),
        u16_bytes(v.major_version) == s.subrange(off + 6, off + 8),
        pool_bytes(v.constant_pool) == s.subrange(off + 8, at_flags),
        u16_bytes(v.access_flags) == s.subrange(at_flags, at_flags + 2),
        u16_bytes(v.this_class) == s.subrange(at_flags + 2, at_flags + 4),
        u16_bytes(v.super_class) == s.subrange(at_flags + 4, at_flags + 6),
        counted_bytes::<u16>(v.interfaces) == s.subrange(at_flags + 6, at_fields),
        Fields::spec_bytes(v.fields) == s.subrange(at_fields, at_methods),
        Methods::spec_bytes(v.methods) == s.subrange(at_methods, at_attributes),
        Attributes::spec_bytes(v.attributes) == s.subrange(at_attributes, end),
    ensures
        Class::spec_bytes(v) == s.subrange(off, end),
{
    let b0 = s.subrange(off, off + 4) + s.subrange(off + 4, off + 6) + s.subrange(
        off + 6,
        off + 8,
    );
    assert(b0 =~= s.subrange(off, off + 8));
    let b1 = b0 + s.subrange(off + 8, at_flags);
    assert(b1 =~= s.subrange(off, at_flags));
    let b2 = b1 + s.subrange(at_flags, at_flags + 2) + s.subrange(at_flags + 2, at_flags + 4) + s.subrange(
        at_flags + 4,
        at_flags + 6,
    );
    assert(b2 =~= s.subrange(off, at_flags + 6));
    let b3 = b2 + s.subrange(at_flags + 6, at_fields);
    assert(b3 =~= s.subrange(off, at_fields));
    let b4 = b3 + s.subrange(at_fields, at_methods);
    assert(b4 =~= s.subrange(off, at_methods));
    let b5 = b4 + s.subrange(at_methods, at_attributes);
    assert(b5 =~= s.subrange(off, at_attributes));
    let b6 = b5 + s.subrange(at_attributes, end);
    assert(b6 =~= s.subrange(off, end));
}

/// Reading a class file and writing the class back gives the bytes that were read: the
/// magic number, the versions, every count, the access flags, the indices of this class,
/// of the super class and of the interfaces, and all that lies between them. A file with
/// nothing behind the class is given back whole.
pub proof fn lemma_class_round_trip(s: Seq<u8>)
    requires
        Class::spec_parse(s, 0) is Ok,
    ensures
        Class::encodable(Class::spec_parse(s, 0)->Ok_0.0),
        well_formed(Class::spec_parse(s, 0)->Ok_0.0),
        Class::spec_bytes(Class::spec_parse(s, 0)->Ok_0.0) == s.subrange(
            0,
            Class::spec_parse(s, 0)->Ok_0.1,
        ),
        Class::spec_parse(s, 0)->Ok_0.1 == s.len() ==> Class::spec_bytes(
            Class::spec_parse(s, 0)->Ok_0.0,
        ) == s,
{
    Class::lemma_round_trip(s, 0);
    assert(s.subrange(0, s.len() as int) =~= s);
}

/// In a well-formed class the pool is well typed, the class has a name, and every
/// method and field has a name and a descriptor.
pub proof fn lemma_well_formed_names(v: ClassView)
    requires
        well_formed(v),
    ensures
        well_typed(v.constant_pool),
        spec_class_name(v.constant_pool, v.this_class) is Ok,
        v.super_class != 0 ==> spec_class_name(v.constant_pool, v.super_class) is Ok,
{
    lemma_first_bad_reference(v.constant_pool, 0);
    let pool = v.constant_pool;
    assert(bad_reference_free(pool, v.this_class));
    if v.super_class != 0 {
        assert(bad_reference_free(pool, v.super_class));
    }
}

/// The entry at `idx` has no bad reference.
pub open spec fn bad_reference_free(pool: Seq<ConstantView>, idx: u16) -> bool {
    crate::constantpool::bad_reference(pool, entry(pool, idx)) is None
}

} // verus!
