use jvm::bytes::{
    from_i32, from_i64, push_u16, push_u32, push_u64, read_u16, read_u32, read_u64, read_u8,
    to_i32, to_i64,
};
use jvm::class::Class;
use jvm::attribute::{Attribute, Attributes};
use jvm::code::{line_of, CodeAttribute, LineEntry};
use jvm::constant::{Constant, ConstantTag};
use jvm::error::{InvalidConstantReference, ParseError};
use jvm::format::Format;
use jvm::methodarea::ClassSource;

// A small assembler for class files, shared by the tests of this file.

struct Pool {
    bytes: Vec<u8>,
    count: u16,
}

fn push16(out: &mut Vec<u8>, v: u16) {
    out.push((v >> 8) as u8);
    out.push((v & 0xff) as u8);
}

fn push32(out: &mut Vec<u8>, v: u32) {
    push16(out, (v >> 16) as u16);
    push16(out, (v & 0xffff) as u16);
}

impl Pool {
    fn new() -> Pool {
        Pool { bytes: Vec::new(), count: 1 }
    }

    fn take(&mut self, slots: u16) -> u16 {
        let index = self.count;
        self.count += slots;
        index
    }

    fn utf8(&mut self, text: &str) -> u16 {
        self.bytes.push(1);
        push16(&mut self.bytes, text.len() as u16);
        self.bytes.extend_from_slice(text.as_bytes());
        self.take(1)
    }

    fn integer(&mut self, v: i32) -> u16 {
        self.bytes.push(3);
        push32(&mut self.bytes, v as u32);
        self.take(1)
    }

    fn long(&mut self, v: i64) -> u16 {
        self.bytes.push(5);
        push32(&mut self.bytes, ((v as u64) >> 32) as u32);
        push32(&mut self.bytes, (v as u64 & 0xffff_ffff) as u32);
        self.take(2)
    }

    fn class(&mut self, name: &str) -> u16 {
        let n = self.utf8(name);
        self.bytes.push(7);
        push16(&mut self.bytes, n);
        self.take(1)
    }

    fn string(&mut self, text: &str) -> u16 {
        let n = self.utf8(text);
        self.bytes.push(8);
        push16(&mut self.bytes, n);
        self.take(1)
    }

    fn name_and_type(&mut self, name: &str, descriptor: &str) -> u16 {
        let n = self.utf8(name);
        let d = self.utf8(descriptor);
        self.bytes.push(12);
        push16(&mut self.bytes, n);
        push16(&mut self.bytes, d);
        self.take(1)
    }

    fn member(&mut self, tag: u8, class: &str, name: &str, descriptor: &str) -> u16 {
        let c = self.class(class);
        let nt = self.name_and_type(name, descriptor);
        self.bytes.push(tag);
        push16(&mut self.bytes, c);
        push16(&mut self.bytes, nt);
        self.take(1)
    }

    fn field(&mut self, class: &str, name: &str, descriptor: &str) -> u16 {
        self.member(9, class, name, descriptor)
    }

    fn method(&mut self, class: &str, name: &str, descriptor: &str) -> u16 {
        self.member(10, class, name, descriptor)
    }

    fn interface_method(&mut self, class: &str, name: &str, descriptor: &str) -> u16 {
        self.member(11, class, name, descriptor)
    }
}

struct MethodDef {
    flags: u16,
    name: String,
    descriptor: String,
    max_stack: u16,
    max_locals: u16,
    code: Option<Vec<u8>>,
    table: Vec<(u16, u16, u16, u16)>,
}

fn method(flags: u16, name: &str, descriptor: &str, stack: u16, locals: u16, code: Vec<u8>) -> MethodDef {
    MethodDef {
        flags,
        name: name.to_string(),
        descriptor: descriptor.to_string(),
        max_stack: stack,
        max_locals: locals,
        code: Some(code),
        table: Vec::new(),
    }
}

fn native(flags: u16, name: &str, descriptor: &str) -> MethodDef {
    MethodDef {
        flags: flags | 0x0100,
        name: name.to_string(),
        descriptor: descriptor.to_string(),
        max_stack: 0,
        max_locals: 0,
        code: None,
        table: Vec::new(),
    }
}

struct ClassDef {
    name: String,
    parent: Option<String>,
    interfaces: Vec<String>,
    fields: Vec<(u16, String, String)>,
    methods: Vec<MethodDef>,
}

fn class(name: &str, parent: Option<&str>) -> ClassDef {
    ClassDef {
        name: name.to_string(),
        parent: parent.map(|p| p.to_string()),
        interfaces: Vec::new(),
        fields: Vec::new(),
        methods: Vec::new(),
    }
}

fn build(def: &ClassDef, mut pool: Pool) -> Vec<u8> {
    let this_class = pool.class(&def.name);
    let super_class = match &def.parent {
        Some(p) => pool.class(p),
        None => 0,
    };
    let interfaces: Vec<u16> = def.interfaces.iter().map(|i| pool.class(i)).collect();
    let code_name = pool.utf8("Code");
    let mut fields: Vec<u8> = Vec::new();
    push16(&mut fields, def.fields.len() as u16);
    for (flags, name, descriptor) in &def.fields {
        push16(&mut fields, *flags);
        push16(&mut fields, pool.utf8(name));
        push16(&mut fields, pool.utf8(descriptor));
        push16(&mut fields, 0);
    }
    let mut methods: Vec<u8> = Vec::new();
    push16(&mut methods, def.methods.len() as u16);
    for m in &def.methods {
        push16(&mut methods, m.flags);
        push16(&mut methods, pool.utf8(&m.name));
        push16(&mut methods, pool.utf8(&m.descriptor));
        match &m.code {
            None => push16(&mut methods, 0),
            Some(code) => {
                push16(&mut methods, 1);
                push16(&mut methods, code_name);
                let length = 2 + 2 + 4 + code.len() + 2 + 8 * m.table.len() + 2;
                push32(&mut methods, length as u32);
                push16(&mut methods, m.max_stack);
                push16(&mut methods, m.max_locals);
                push32(&mut methods, code.len() as u32);
                methods.extend_from_slice(code);
                push16(&mut methods, m.table.len() as u16);
                for (start, end, handler, catch) in &m.table {
                    push16(&mut methods, *start);
                    push16(&mut methods, *end);
                    push16(&mut methods, *handler);
                    push16(&mut methods, *catch);
                }
                push16(&mut methods, 0);
            },
        }
    }
    let mut out: Vec<u8> = vec![0xCA, 0xFE, 0xBA, 0xBE];
    push16(&mut out, 0);
    push16(&mut out, 52);
    push16(&mut out, pool.count);
    out.extend_from_slice(&pool.bytes);
    push16(&mut out, 0x0021);
    push16(&mut out, this_class);
    push16(&mut out, super_class);
    push16(&mut out, interfaces.len() as u16);
    for i in &interfaces {
        push16(&mut out, *i);
    }
    out.extend_from_slice(&fields);
    out.extend_from_slice(&methods);
    push16(&mut out, 0);
    out
}

fn source(name: &str, bytes: Vec<u8>) -> ClassSource {
    ClassSource { name: name.as_bytes().to_vec(), bytes }
}

fn hi(v: u16) -> u8 {
    (v >> 8) as u8
}

fn lo(v: u16) -> u8 {
    (v & 0xff) as u8
}

/// `java/lang/Object` with a constructor that returns at once.
fn object_class() -> ClassSource {
    let mut def = class("java/lang/Object", None);
    def.methods.push(method(0x0001, "<init>", "()V", 0, 1, vec![0xb1]));
    source("java/lang/Object", build(&def, Pool::new()))
}

/// A class that extends `parent` and declares nothing.
fn plain_class(name: &str, parent: &str) -> ClassSource {
    let def = class(name, Some(parent));
    source(name, build(&def, Pool::new()))
}

/// `java/lang/String` with its field `value`.
fn string_class() -> ClassSource {
    let mut def = class("java/lang/String", Some("java/lang/Object"));
    def.fields.push((0x0002, "value".to_string(), "[C".to_string()));
    source("java/lang/String", build(&def, Pool::new()))
}

fn sample() -> Vec<u8> {
    let mut pool = Pool::new();
    let _big = pool.long(-2);
    let _greeting = pool.string("hi");
    let mut def = class("p/Sample", Some("java/lang/Object"));
    def.interfaces.push("p/Shape".to_string());
    def.interfaces.push("p/Named".to_string());
    def.fields.push((0x0008, "count".to_string(), "I".to_string()));
    def.fields.push((0x0002, "name".to_string(), "Ljava/lang/String;".to_string()));
    def.methods.push(method(0x0001, "<init>", "()V", 0, 1, vec![0xb1]));
    def.methods.push(method(0x0009, "twice", "(I)I", 2, 1, vec![0x1a, 0x05, 0x68, 0xac]));
    def.methods.push(native(0x0001, "area", "()D"));
    build(&def, pool)
}

#[test]
fn reads_big_endian_integers() {
    let b: Vec<u8> = vec![0x12, 0x34, 0x56, 0x78, 0x9a, 0xbc, 0xde, 0xf0];
    assert_eq!(read_u8(&b, 7), Ok(0xf0));
    assert_eq!(read_u8(&b, 8), Err(ParseError::TruncatedInput));
    assert_eq!(read_u16(&b, 0), Ok(0x1234));
    assert_eq!(read_u16(&b, 6), Ok(0xdef0));
    assert_eq!(read_u16(&b, 7), Err(ParseError::TruncatedInput));
    assert_eq!(read_u32(&b, 0), Ok(0x12345678));
    assert_eq!(read_u32(&b, 5), Err(ParseError::TruncatedInput));
    assert_eq!(read_u64(&b, 0), Ok(0x123456789abcdef0));
    assert_eq!(read_u64(&b, 1), Err(ParseError::TruncatedInput));
    assert_eq!(read_u16(&b, usize::MAX), Err(ParseError::TruncatedInput));
}

#[test]
fn writes_big_endian_integers() {
    let mut out: Vec<u8> = vec![7];
    push_u16(&mut out, 0xCAFE);
    push_u32(&mut out, 0xBABE0102);
    push_u64(&mut out, 0x0304050607080910);
    assert_eq!(
        out,
        vec![7, 0xCA, 0xFE, 0xBA, 0xBE, 1, 2, 3, 4, 5, 6, 7, 8, 9, 0x10]
    );
}

#[test]
fn signed_and_unsigned_patterns() {
    assert_eq!(to_i32(0xffff_ffff), -1);
    assert_eq!(to_i32(0x8000_0000), i32::MIN);
    assert_eq!(to_i32(0x7fff_ffff), i32::MAX);
    assert_eq!(from_i32(-2), 0xffff_fffe);
    assert_eq!(to_i64(0xffff_ffff_ffff_fffe), -2);
    assert_eq!(from_i64(i64::MIN), 0x8000_0000_0000_0000);
}

#[test]
fn parses_a_class_and_writes_it_back() {
    let bytes = sample();
    let (class, next) = Class::parse(&bytes, 0).unwrap();
    assert_eq!(next, bytes.len());
    assert_eq!(class.magic, 0xCAFEBABE);
    assert_eq!(class.minor_version, 0);
    assert_eq!(class.major_version, 52);
    assert_eq!(class.access_flags, 0x0021);
    assert_eq!(class.interfaces.len(), 2);
    assert_eq!(class.fields.fields_count(), 2);
    assert_eq!(class.methods.methods_count(), 3);
    assert_eq!(class.attributes.attributes_count(), 0);
    assert_eq!(class.get_methods().methods_count(), 3);
    assert_eq!(class.get_name(), Some("p/Sample".to_string()));
    assert_eq!(class.name_bytes(), Some(&b"p/Sample".to_vec()));
    assert_eq!(class.super_name_bytes(), Some(&b"java/lang/Object".to_vec()));
    assert_eq!(class.to_bytes(), bytes);
}

#[test]
fn bytes_behind_the_class_are_left_alone() {
    let mut bytes = sample();
    let length = bytes.len();
    bytes.extend_from_slice(&[1, 2, 3]);
    let (class, next) = Class::parse(&bytes, 0).unwrap();
    assert_eq!(next, length);
    assert_eq!(class.to_bytes(), bytes[..length].to_vec());
}

#[test]
fn a_class_is_read_at_an_offset() {
    let mut bytes: Vec<u8> = vec![9, 9, 9];
    bytes.extend_from_slice(&sample());
    let (class, next) = Class::parse(&bytes, 3).unwrap();
    assert_eq!(next, bytes.len());
    assert_eq!(class.get_name(), Some("p/Sample".to_string()));
}

#[test]
fn long_constants_take_two_indices() {
    let bytes = sample();
    let class = Class::load(&bytes).unwrap();
    let pool = class.get_constant_pool();
    assert!(matches!(pool.get(1), Some(Constant::Long(-2))));
    assert!(pool.get(2).is_none());
    assert!(matches!(pool.get(3), Some(Constant::Utf8(_))));
    assert!(matches!(pool.get(4), Some(Constant::String(3))));
    assert!(pool.get(0).is_none());
    assert!(pool.get(pool.constant_pool_count() as u16).is_none());
    assert_eq!(pool.tag_at(1), ConstantTag::Long);
    assert_eq!(pool.tag_at(2), ConstantTag::Reserved);
}

#[test]
fn finds_methods_by_name() {
    let class = Class::load(&sample()).unwrap();
    let twice = class.get_method(&"twice".to_string()).unwrap();
    assert_eq!(twice.access_flags, 0x0009);
    assert!(class.get_method(&"thrice".to_string()).is_none());
    assert_eq!(class.find_method(b"twice", Some(b"(I)I")), Some(1));
    assert_eq!(class.find_method(b"twice", Some(b"(J)J")), None);
    assert_eq!(class.find_method(b"area", None), Some(2));
    assert_eq!(class.find_field(b"name", None), Some(1));
    assert_eq!(class.find_field(b"name", Some(b"I")), None);
}

#[test]
fn decodes_the_code_of_a_method() {
    let class = Class::load(&sample()).unwrap();
    let twice = class.get_method(&"twice".to_string()).unwrap();
    let code = CodeAttribute::of(class.get_constant_pool(), &twice.attributes).unwrap().unwrap();
    assert_eq!(code.max_stack, 2);
    assert_eq!(code.max_locals, 1);
    assert_eq!(code.code, vec![0x1a, 0x05, 0x68, 0xac]);
    assert!(code.exception_table.is_empty());
    let area = class.get_method(&"area".to_string()).unwrap();
    assert!(CodeAttribute::of(class.get_constant_pool(), &area.attributes).is_none());
    assert!(matches!(CodeAttribute::parse(&[0, 1, 0, 1, 0, 0, 0, 9, 0]), Err(ParseError::TruncatedInput)));
}

#[test]
fn rejects_truncated_input() {
    let bytes = sample();
    assert_eq!(Class::parse(&[], 0).err(), Some(ParseError::TruncatedInput));
    assert_eq!(Class::parse(&bytes[..3], 0).err(), Some(ParseError::TruncatedInput));
    assert_eq!(Class::parse(&bytes[..7], 0).err(), Some(ParseError::TruncatedInput));
    assert_eq!(Class::parse(&bytes[..20], 0).err(), Some(ParseError::TruncatedInput));
    assert_eq!(
        Class::parse(&bytes[..bytes.len() - 1], 0).err(),
        Some(ParseError::TruncatedInput)
    );
    assert!(Class::load(&bytes[..bytes.len() - 1]).is_none());
}

#[test]
fn rejects_a_bad_magic_number() {
    let mut bytes = sample();
    bytes[3] = 0xBF;
    assert_eq!(Class::parse(&bytes, 0).err(), Some(ParseError::BadMagic));
    assert_eq!(Class::parse(&[0xCA, 0xFE, 0xBA, 0xBF], 0).err(), Some(ParseError::BadMagic));
}

#[test]
fn rejects_unsupported_versions() {
    let mut bytes = sample();
    bytes[7] = 53;
    assert_eq!(Class::parse(&bytes, 0).err(), Some(ParseError::UnsupportedVersion(53)));
    bytes[7] = 44;
    assert_eq!(Class::parse(&bytes, 0).err(), Some(ParseError::UnsupportedVersion(44)));
    bytes[7] = 45;
    assert!(Class::parse(&bytes, 0).is_ok());
}

#[test]
fn rejects_an_unknown_constant_tag() {
    let mut bytes = sample();
    // The first constant of the sample is a Long: tag 5 at offset 10.
    assert_eq!(bytes[10], 5);
    bytes[10] = 2;
    assert_eq!(Class::parse(&bytes, 0).err(), Some(ParseError::BadConstantTag(2)));
    bytes[10] = 19;
    assert_eq!(Class::parse(&bytes, 0).err(), Some(ParseError::BadConstantTag(19)));
}

#[test]
fn rejects_bad_indices() {
    // this_class leads to a Utf8, not to a Class.
    let mut b: Vec<u8> = vec![0xCA, 0xFE, 0xBA, 0xBE, 0, 0, 0, 52];
    push16(&mut b, 3);
    b.push(1);
    push16(&mut b, 1);
    b.push(b'A');
    b.push(7);
    push16(&mut b, 1);
    push16(&mut b, 0x0021);
    push16(&mut b, 1);
    push16(&mut b, 0);
    for _ in 0..4 {
        push16(&mut b, 0);
    }
    assert_eq!(Class::parse(&b, 0).err(), Some(ParseError::BadIndex(1)));

    // Only java/lang/Object may be without a super class.
    let orphan = build(&class("Orphan", None), Pool::new());
    assert_eq!(Class::parse(&orphan, 0).err(), Some(ParseError::BadIndex(0)));
    let object = build(&class("java/lang/Object", None), Pool::new());
    assert!(Class::parse(&object, 0).is_ok());

    // A pool of no indices at all.
    let empty: Vec<u8> = vec![0xCA, 0xFE, 0xBA, 0xBE, 0, 0, 0, 52, 0, 0];
    assert_eq!(Class::parse(&empty, 0).err(), Some(ParseError::BadIndex(0)));

    // A Long in the last index of the pool has no room for its second index.
    let mut wide: Vec<u8> = vec![0xCA, 0xFE, 0xBA, 0xBE, 0, 0, 0, 52, 0, 2, 5];
    wide.extend_from_slice(&[0; 8]);
    assert_eq!(Class::parse(&wide, 0).err(), Some(ParseError::BadIndex(2)));

    // A Class entry whose name index leads outside the pool.
    let mut dangling: Vec<u8> = vec![0xCA, 0xFE, 0xBA, 0xBE, 0, 0, 0, 52, 0, 2, 7, 0, 9];
    for _ in 0..7 {
        push16(&mut dangling, 0);
    }
    assert_eq!(Class::parse(&dangling, 0).err(), Some(ParseError::BadIndex(9)));
}

#[test]
fn a_name_that_is_no_utf8_gives_no_string() {
    let mut b: Vec<u8> = vec![0xCA, 0xFE, 0xBA, 0xBE, 0, 0, 0, 52];
    push16(&mut b, 5);
    b.push(1);
    push16(&mut b, 2);
    b.extend_from_slice(&[0xff, 0xfe]);
    b.push(7);
    push16(&mut b, 1);
    b.push(1);
    push16(&mut b, 16);
    b.extend_from_slice(b"java/lang/Object");
    b.push(7);
    push16(&mut b, 3);
    push16(&mut b, 0x0021);
    push16(&mut b, 2);
    push16(&mut b, 4);
    for _ in 0..4 {
        push16(&mut b, 0);
    }
    let class = Class::load(&b).unwrap();
    assert_eq!(class.name_bytes(), Some(&vec![0xff, 0xfe]));
    assert_eq!(class.get_name(), None);
}

#[test]
fn resolves_references_of_the_pool() {
    let mut pool = Pool::new();
    let field = pool.field("p/Owner", "size", "I");
    let method_ref = pool.method("p/Owner", "grow", "(I)V");
    let interface_ref = pool.interface_method("p/Shape", "area", "()D");
    let number = pool.integer(7);
    let class = Class::load(&build(&class("p/User", Some("java/lang/Object")), pool)).unwrap();
    let pool = class.get_constant_pool();
    let (owner, name, descriptor) = pool.resolve_ref(field).unwrap();
    assert_eq!((owner.as_slice(), name.as_slice(), descriptor.as_slice()), (&b"p/Owner"[..], &b"size"[..], &b"I"[..]));
    let (owner, name, descriptor) = pool.resolve_ref(method_ref).unwrap();
    assert_eq!((owner.as_slice(), name.as_slice(), descriptor.as_slice()), (&b"p/Owner"[..], &b"grow"[..], &b"(I)V"[..]));
    let (owner, name, descriptor) = pool.resolve_ref(interface_ref).unwrap();
    assert_eq!((owner.as_slice(), name.as_slice(), descriptor.as_slice()), (&b"p/Shape"[..], &b"area"[..], &b"()D"[..]));
    // The chain behind the field reference: Class -> Utf8, NameAndType -> two Utf8.
    let (class_index, nat_index) = match pool.get(field) {
        Some(Constant::Fieldref(c, n)) => (*c, *n),
        _ => panic!("no field reference"),
    };
    assert_eq!(pool.resolve_class_name(class_index).unwrap(), &b"p/Owner".to_vec());
    let (name, descriptor) = pool.resolve_nameandtype(nat_index).unwrap();
    assert_eq!((name.as_slice(), descriptor.as_slice()), (&b"size"[..], &b"I"[..]));
    assert_eq!(pool.resolve_utf8(1).unwrap(), &b"p/Owner".to_vec());

    assert_eq!(
        pool.resolve_ref(number).err(),
        Some(InvalidConstantReference { expected: ConstantTag::Methodref, actual: ConstantTag::Integer, index: number })
    );
    assert_eq!(
        pool.resolve_class_name(number).err(),
        Some(InvalidConstantReference { expected: ConstantTag::Class, actual: ConstantTag::Integer, index: number })
    );
    assert_eq!(
        pool.resolve_nameandtype(field).err(),
        Some(InvalidConstantReference { expected: ConstantTag::NameAndType, actual: ConstantTag::Fieldref, index: field })
    );
    assert_eq!(
        pool.resolve_utf8(0).err(),
        Some(InvalidConstantReference { expected: ConstantTag::Utf8, actual: ConstantTag::Reserved, index: 0 })
    );
    assert_eq!(
        pool.resolve_utf8(60000).err(),
        Some(InvalidConstantReference { expected: ConstantTag::Utf8, actual: ConstantTag::Reserved, index: 60000 })
    );
    assert!(pool.check().is_ok());
}

#[test]
fn every_kind_of_constant_is_read() {
    let mut b: Vec<u8> = Vec::new();
    b.push(4);
    push32(&mut b, 0x3f80_0000);
    b.push(6);
    push32(&mut b, 0x3ff0_0000);
    push32(&mut b, 0);
    b.push(3);
    push32(&mut b, 0xffff_fffb);
    b.push(15);
    b.push(6);
    push16(&mut b, 9);
    b.push(16);
    push16(&mut b, 4);
    b.push(18);
    push16(&mut b, 0);
    push16(&mut b, 5);
    let (c, next) = Constant::parse(&b, 0).unwrap();
    assert!(matches!(c, Constant::Float(0x3f80_0000)));
    let (c, next) = Constant::parse(&b, next).unwrap();
    assert!(matches!(c, Constant::Double(0x3ff0_0000_0000_0000)));
    assert!(c.is_wide());
    let (c, next) = Constant::parse(&b, next).unwrap();
    assert!(matches!(c, Constant::Integer(-5)));
    assert!(!c.is_wide());
    let (c, next) = Constant::parse(&b, next).unwrap();
    assert!(matches!(c, Constant::MethodHandle(6, 9)));
    let (c, next) = Constant::parse(&b, next).unwrap();
    assert!(matches!(c, Constant::MethodType(4)));
    let (c, next) = Constant::parse(&b, next).unwrap();
    assert!(matches!(c, Constant::InvokeDynamic(0, 5)));
    assert_eq!(c.tag(), ConstantTag::InvokeDynamic);
    assert_eq!(next, b.len());
    let mut out: Vec<u8> = Vec::new();
    c.write(&mut out);
    assert_eq!(out, vec![18, 0, 0, 0, 5]);
    assert_eq!(Constant::parse(&b, next).err(), Some(ParseError::TruncatedInput));
    assert_eq!(Constant::parse(&[1, 0, 3, b'a'], 0).err(), Some(ParseError::TruncatedInput));
}

#[test]
fn lines_are_found_for_instructions() {
    let rows = vec![
        LineEntry { start_pc: 0, line: 10 },
        LineEntry { start_pc: 8, line: 12 },
        LineEntry { start_pc: 4, line: 11 },
        LineEntry { start_pc: 8, line: 99 },
    ];
    assert_eq!(line_of(&rows, 0), Some(10));
    assert_eq!(line_of(&rows, 3), Some(10));
    assert_eq!(line_of(&rows, 4), Some(11));
    assert_eq!(line_of(&rows, 7), Some(11));
    assert_eq!(line_of(&rows, 8), Some(12));
    assert_eq!(line_of(&rows, 70000), Some(12));
    assert_eq!(line_of(&rows[1..].to_vec(), 3), None);
    assert_eq!(line_of(&Vec::new(), 3), None);

    let mut pool = Pool::new();
    let table = pool.utf8("LineNumberTable");
    let other = pool.utf8("StackMapTable");
    let class = Class::load(&build(&class("Lines", Some("java/lang/Object")), pool)).unwrap();
    let code = |items: Vec<Attribute>| CodeAttribute {
        max_stack: 0,
        max_locals: 0,
        code: vec![0xb1],
        exception_table: Vec::new(),
        attributes: Attributes { items },
    };
    let with_table = code(vec![
        Attribute { name_index: other, info: vec![0, 0] },
        Attribute { name_index: table, info: vec![0, 2, 0, 0, 0, 7, 0, 5, 0, 9] },
    ]);
    assert_eq!(
        with_table.line_table(class.get_constant_pool()),
        Some(vec![LineEntry { start_pc: 0, line: 7 }, LineEntry { start_pc: 5, line: 9 }])
    );
    assert_eq!(code(vec![]).line_table(class.get_constant_pool()), None);
    let cut = code(vec![Attribute { name_index: table, info: vec![0, 2, 0, 0, 0, 7] }]);
    assert_eq!(cut.line_table(class.get_constant_pool()), None);
}
