use jvm::exceptions::JavaExceptionKind;
use jvm::floats::{FloatArith, FloatOp, FloatRequest, NumberKind};
use jvm::frame::FatalError;
use jvm::jvmthread::{JvmThread, Outcome, ThreadState, TraceEntry};
use jvm::methodarea::{ClassSource, InitState, LoadError, MethodArea};
use jvm::typevalues::{JvmPrimitiveType, JvmValue};
use jvm::{Jvm, RunReport};

// A small assembler for class files, shared by the tests of this file.

struct Pool {
    bytes: Vec<u8>,
    count: u16,
}

fn push16(out: &mut Vec<u8>, v: u16) {
    out.push((v >> 8) as u8);
    out.push((v & 0xff) as u8);
}

fn push32(out: &mut Vec<u8>, v: u32) {
    push16(out, (v >> 16) as u16);
    push16(out, (v & 0xffff) as u16);
}

impl Pool {
    fn new() -> Pool {
        Pool { bytes: Vec::new(), count: 1 }
    }

    fn take(&mut self, slots: u16) -> u16 {
        let index = self.count;
        self.count += slots;
        index
    }

    fn utf8(&mut self, text: &str) -> u16 {
        self.bytes.push(1);
        push16(&mut self.bytes, text.len() as u16);
        self.bytes.extend_from_slice(text.as_bytes());
        self.take(1)
    }

    fn integer(&mut self, v: i32) -> u16 {
        self.bytes.push(3);
        push32(&mut self.bytes, v as u32);
        self.take(1)
    }

    fn long(&mut self, v: i64) -> u16 {
        self.bytes.push(5);
        push32(&mut self.bytes, ((v as u64) >> 32) as u32);
        push32(&mut self.bytes, (v as u64 & 0xffff_ffff) as u32);
        self.take(2)
    }

    fn class(&mut self, name: &str) -> u16 {
        let n = self.utf8(name);
        self.bytes.push(7);
        push16(&mut self.bytes, n);
        self.take(1)
    }

    fn string(&mut self, text: &str) -> u16 {
        let n = self.utf8(text);
        self.bytes.push(8);
        push16(&mut self.bytes, n);
        self.take(1)
    }

    fn name_and_type(&mut self, name: &str, descriptor: &str) -> u16 {
        let n = self.utf8(name);
        let d = self.utf8(descriptor);
        self.bytes.push(12);
        push16(&mut self.bytes, n);
        push16(&mut self.bytes, d);
        self.take(1)
    }

    fn member(&mut self, tag: u8, class: &str, name: &str, descriptor: &str) -> u16 {
        let c = self.class(class);
        let nt = self.name_and_type(name, descriptor);
        self.bytes.push(tag);
        push16(&mut self.bytes, c);
        push16(&mut self.bytes, nt);
        self.take(1)
    }

    fn field(&mut self, class: &str, name: &str, descriptor: &str) -> u16 {
        self.member(9, class, name, descriptor)
    }

    fn method(&mut self, class: &str, name: &str, descriptor: &str) -> u16 {
        self.member(10, class, name, descriptor)
    }

    fn interface_method(&mut self, class: &str, name: &str, descriptor: &str) -> u16 {
        self.member(11, class, name, descriptor)
    }
}

struct MethodDef {
    flags: u16,
    name: String,
    descriptor: String,
    max_stack: u16,
    max_locals: u16,
    code: Option<Vec<u8>>,
    table: Vec<(u16, u16, u16, u16)>,
}

fn method(flags: u16, name: &str, descriptor: &str, stack: u16, locals: u16, code: Vec<u8>) -> MethodDef {
    MethodDef {
        flags,
        name: name.to_string(),
        descriptor: descriptor.to_string(),
        max_stack: stack,
        max_locals: locals,
        code: Some(code),
        table: Vec::new(),
    }
}

fn native(flags: u16, name: &str, descriptor: &str) -> MethodDef {
    MethodDef {
        flags: flags | 0x0100,
        name: name.to_string(),
        descriptor: descriptor.to_string(),
        max_stack: 0,
        max_locals: 0,
        code: None,
        table: Vec::new(),
    }
}

struct ClassDef {
    name: String,
    parent: Option<String>,
    interfaces: Vec<String>,
    fields: Vec<(u16, String, String)>,
    methods: Vec<MethodDef>,
}

fn class(name: &str, parent: Option<&str>) -> ClassDef {
    ClassDef {
        name: name.to_string(),
        parent: parent.map(|p| p.to_string()),
        interfaces: Vec::new(),
        fields: Vec::new(),
        methods: Vec::new(),
    }
}

fn build(def: &ClassDef, mut pool: Pool) -> Vec<u8> {
    let this_class = pool.class(&def.name);
    let super_class = match &def.parent {
        Some(p) => pool.class(p),
        None => 0,
    };
    let interfaces: Vec<u16> = def.interfaces.iter().map(|i| pool.class(i)).collect();
    let code_name = pool.utf8("Code");
    let mut fields: Vec<u8> = Vec::new();
    push16(&mut fields, def.fields.len() as u16);
    for (flags, name, descriptor) in &def.fields {
        push16(&mut fields, *flags);
        push16(&mut fields, pool.utf8(name));
        push16(&mut fields, pool.utf8(descriptor));
        push16(&mut fields, 0);
    }
    let mut methods: Vec<u8> = Vec::new();
    push16(&mut methods, def.methods.len() as u16);
    for m in &def.methods {
        push16(&mut methods, m.flags);
        push16(&mut methods, pool.utf8(&m.name));
        push16(&mut methods, pool.utf8(&m.descriptor));
        match &m.code {
            None => push16(&mut methods, 0),
            Some(code) => {
                push16(&mut methods, 1);
                push16(&mut methods, code_name);
                let length = 2 + 2 + 4 + code.len() + 2 + 8 * m.table.len() + 2;
                push32(&mut methods, length as u32);
                push16(&mut methods, m.max_stack);
                push16(&mut methods, m.max_locals);
                push32(&mut methods, code.len() as u32);
                methods.extend_from_slice(code);
                push16(&mut methods, m.table.len() as u16);
                for (start, end, handler, catch) in &m.table {
                    push16(&mut methods, *start);
                    push16(&mut methods, *end);
                    push16(&mut methods, *handler);
                    push16(&mut methods, *catch);
                }
                push16(&mut methods, 0);
            },
        }
    }
    let mut out: Vec<u8> = vec![0xCA, 0xFE, 0xBA, 0xBE];
    push16(&mut out, 0);
    push16(&mut out, 52);
    push16(&mut out, pool.count);
    out.extend_from_slice(&pool.bytes);
    push16(&mut out, 0x0021);
    push16(&mut out, this_class);
    push16(&mut out, super_class);
    push16(&mut out, interfaces.len() as u16);
    for i in &interfaces {
        push16(&mut out, *i);
    }
    out.extend_from_slice(&fields);
    out.extend_from_slice(&methods);
    push16(&mut out, 0);
    out
}

fn source(name: &str, bytes: Vec<u8>) -> ClassSource {
    ClassSource { name: name.as_bytes().to_vec(), bytes }
}

fn hi(v: u16) -> u8 {
    (v >> 8) as u8
}

fn lo(v: u16) -> u8 {
    (v & 0xff) as u8
}

/// `java/lang/Object` with a constructor that returns at once.
fn object_class() -> ClassSource {
    let mut def = class("java/lang/Object", None);
    def.methods.push(method(0x0001, "<init>", "()V", 0, 1, vec![0xb1]));
    source("java/lang/Object", build(&def, Pool::new()))
}

/// A class that extends `parent` and declares nothing.
fn plain_class(name: &str, parent: &str) -> ClassSource {
    let def = class(name, Some(parent));
    source(name, build(&def, Pool::new()))
}

/// `java/lang/String` with its field `value`.
fn string_class() -> ClassSource {
    let mut def = class("java/lang/String", Some("java/lang/Object"));
    def.fields.push((0x0002, "value".to_string(), "[C".to_string()));
    source("java/lang/String", build(&def, Pool::new()))
}

fn run(path: Vec<ClassSource>, class: &str, function: &str) -> RunReport {
    let jvm = Jvm::new(false).unwrap();
    jvm.run(path, &class.to_string(), &function.to_string(), &[], 10_000)
}

fn int_result(report: &RunReport) -> Option<i32> {
    match report.thread.result {
        Some(v) => v.as_int(),
        None => None,
    }
}

fn thread(path: Vec<ClassSource>, class: &str, function: &str) -> JvmThread {
    let mut t = JvmThread::new(MethodArea::new(path), false);
    assert_eq!(t.launch(class.as_bytes(), function.as_bytes(), &Vec::new()), Outcome::Continue);
    t
}

fn thrown_class(t: &JvmThread) -> Vec<u8> {
    t.heap.get_object(t.thrown.unwrap()).get_class().clone()
}

fn errors() -> Vec<ClassSource> {
    vec![
        object_class(),
        plain_class("java/lang/Throwable", "java/lang/Object"),
        plain_class("java/lang/Exception", "java/lang/Throwable"),
        plain_class("java/lang/RuntimeException", "java/lang/Exception"),
        plain_class("java/lang/ArithmeticException", "java/lang/RuntimeException"),
        plain_class("java/lang/NullPointerException", "java/lang/RuntimeException"),
        plain_class("java/lang/ClassCastException", "java/lang/RuntimeException"),
        plain_class("java/lang/NegativeArraySizeException", "java/lang/RuntimeException"),
        plain_class("java/lang/ArrayIndexOutOfBoundsException", "java/lang/RuntimeException"),
        plain_class("java/lang/NoClassDefFoundError", "java/lang/Throwable"),
        plain_class("java/lang/ExceptionInInitializerError", "java/lang/Throwable"),
        plain_class("java/lang/LinkageError", "java/lang/Throwable"),
    ]
}

fn with(mut path: Vec<ClassSource>, more: Vec<ClassSource>) -> Vec<ClassSource> {
    path.extend(more);
    path
}

#[test]
fn recursion_computes_a_factorial() {
    let mut pool = Pool::new();
    let fact = pool.method("Math", "fact", "(I)I");
    let mut math = class("Math", Some("java/lang/Object"));
    math.methods.push(method(
        0x0009,
        "fact",
        "(I)I",
        3,
        1,
        vec![0x1a, 0x9a, 0, 5, 0x04, 0xac, 0x1a, 0x1a, 0x04, 0x64, 0xb8, hi(fact), lo(fact), 0x68, 0xac],
    ));
    math.methods.push(method(0x0009, "run", "()I", 1, 0, vec![0x08, 0xb8, hi(fact), lo(fact), 0xac]));
    let report = run(vec![object_class(), source("Math", build(&math, pool))], "Math", "run");
    assert!(report.success);
    assert_eq!(int_result(&report), Some(120));
}

#[test]
fn long_values_cross_frames() {
    let mut pool = Pool::new();
    let big = pool.long(0x1_0000_0000);
    let add = pool.method("Wide", "add", "(JIJ)J");
    let mut wide = class("Wide", Some("java/lang/Object"));
    // add(a, i, b) = a + (long) i + b: the long parameters stand in locals 0-1 and 3-4.
    wide.methods.push(method(0x0009, "add", "(JIJ)J", 4, 5, vec![0x1e, 0x1c, 0x85, 0x61, 0x16, 3, 0x61, 0xad]));
    wide.methods.push(method(
        0x0009,
        "run",
        "()J",
        5,
        0,
        vec![0x14, hi(big), lo(big), 0x10, 0xfe, 0x0a, 0xb8, hi(add), lo(add), 0xad],
    ));
    let report = run(vec![object_class(), source("Wide", build(&wide, pool))], "Wide", "run");
    assert!(report.success);
    assert_eq!(report.thread.result, Some(JvmValue::from_long(0x1_0000_0000 - 2 + 1)));
}

#[test]
fn fields_keep_the_kind_of_their_declaration() {
    let mut pool = Pool::new();
    let point = pool.class("Point");
    let init = pool.method("java/lang/Object", "<init>", "()V");
    let x = pool.field("Point", "x", "I");
    let s = pool.field("Point", "s", "S");
    let big = pool.integer(0x18000);
    let mut def = class("Point", Some("java/lang/Object"));
    def.fields.push((0x0001, "x".to_string(), "I".to_string()));
    def.fields.push((0x0001, "s".to_string(), "S".to_string()));
    // p = new Point(); p.x = 7; p.s = (short) 0x18000; return p.x + p.s
    def.methods.push(method(
        0x0009,
        "run",
        "()I",
        2,
        1,
        vec![
            0xbb, hi(point), lo(point), 0x59, 0xb7, hi(init), lo(init), 0x4b,
            0x2a, 0x10, 7, 0xb5, hi(x), lo(x),
            0x2a, 0x12, lo(big), 0xb5, hi(s), lo(s),
            0x2a, 0xb4, hi(x), lo(x), 0x2a, 0xb4, hi(s), lo(s), 0x60, 0xac,
        ],
    ));
    let path = vec![object_class(), source("Point", build(&def, pool))];
    let mut t = thread(path.clone(), "Point", "run");
    assert_eq!(t.run_steps(1000), Outcome::Halted);
    assert_eq!(t.result.unwrap().as_int(), Some(7 - 32768));
    let object = t.heap.get_object(0);
    assert_eq!(object.field(b"x"), Some(JvmValue::Primitive(JvmPrimitiveType::Int, 7)));
    assert_eq!(object.field(b"s"), Some(JvmValue::Primitive(JvmPrimitiveType::Short, 0xffff_8000)));
    assert_eq!(t.state, ThreadState::Halted);
    assert!(t.frames.is_empty());
}

#[test]
fn arrays_are_read_and_written() {
    let mut pool = Pool::new();
    let object = pool.class("java/lang/Object");
    let mut def = class("Arrays", Some("java/lang/Object"));
    // byte[] b = new byte[2]; b[1] = (byte) 300; return b[1] + b.length
    def.methods.push(method(
        0x0009,
        "bytes",
        "()I",
        3,
        1,
        vec![0x05, 0xbc, 8, 0x4b, 0x2a, 0x04, 0x11, 0x01, 0x2c, 0x54, 0x2a, 0x04, 0x33, 0x2a, 0xbe, 0x60, 0xac],
    ));
    // long[] a = new long[1]; a[0] = 5L; Object[] o = new Object[3]; return (int) a[0] + o.length
    def.methods.push(method(
        0x0009,
        "longs",
        "()I",
        6,
        2,
        vec![
            0x04, 0xbc, 11, 0x4b, 0x2a, 0x03, 0x0a, 0x0a, 0x61, 0x0a, 0x61, 0x0a, 0x61, 0x0a, 0x61, 0x50,
            0x06, 0xbd, hi(object), lo(object), 0x4c,
            0x2a, 0x03, 0x2f, 0x88, 0x2b, 0xbe, 0x60, 0xac,
        ],
    ));
    // new int[-1]
    def.methods.push(method(0x0009, "negative", "()V", 1, 0, vec![0x02, 0xbc, 10, 0x57, 0xb1]));
    // int[] a = null; a[0]
    def.methods.push(method(0x0009, "absent", "()I", 2, 0, vec![0x01, 0x03, 0x2e, 0xac]));
    // a long read from an int array is a fault of the class file, not of the program
    def.methods.push(method(0x0009, "mixed", "()J", 2, 0, vec![0x04, 0xbc, 10, 0x03, 0x2f, 0xad]));
    let path = with(errors(), vec![source("Arrays", build(&def, pool))]);
    let report = run(path.clone(), "Arrays", "bytes");
    assert_eq!(int_result(&report), Some(44 + 2));
    let report = run(path.clone(), "Arrays", "longs");
    assert_eq!(int_result(&report), Some(5 + 3));
    let mut t = thread(path.clone(), "Arrays", "negative");
    assert_eq!(t.run_steps(100), Outcome::Failed);
    assert_eq!(thrown_class(&t), b"java/lang/NegativeArraySizeException".to_vec());
    let mut t = thread(path.clone(), "Arrays", "absent");
    assert_eq!(t.run_steps(100), Outcome::Failed);
    assert_eq!(thrown_class(&t), b"java/lang/NullPointerException".to_vec());
    let report = run(path, "Arrays", "mixed");
    assert_eq!(report.outcome, Outcome::Fatal(FatalError::CategoryMismatch));
    assert!(!report.success);
}

#[test]
fn casts_and_tests_follow_classes_and_interfaces() {
    let shape = class("Shape", Some("java/lang/Object"));
    let mut square = class("Square", Some("java/lang/Object"));
    square.interfaces.push("Shape".to_string());
    let mut pool = Pool::new();
    let square_class = pool.class("Square");
    let shape_class = pool.class("Shape");
    let string_class_index = pool.class("java/lang/String");
    let object_index = pool.class("java/lang/Object");
    let init = pool.method("java/lang/Object", "<init>", "()V");
    let mut def = class("Casts", Some("java/lang/Object"));
    let make = vec![0xbb, hi(square_class), lo(square_class), 0x59, 0xb7, hi(init), lo(init)];
    // (s instanceof Shape) + 2 * (s instanceof Object) + 4 * (s instanceof String) + 8 * (null instanceof Shape)
    let mut tests = make.clone();
    tests.extend_from_slice(&[
        0x4b,
        0x2a, 0xc1, hi(shape_class), lo(shape_class),
        0x2a, 0xc1, hi(object_index), lo(object_index), 0x05, 0x68, 0x60,
        0x2a, 0xc1, hi(string_class_index), lo(string_class_index), 0x07, 0x68, 0x60,
        0x01, 0xc1, hi(shape_class), lo(shape_class), 0x10, 8, 0x68, 0x60,
        0xac,
    ]);
    def.methods.push(method(0x0009, "tests", "()I", 4, 1, tests));
    // (Shape) s; (Shape) null; then 1
    let mut good = make.clone();
    good.extend_from_slice(&[0xc0, hi(shape_class), lo(shape_class), 0x57, 0x01, 0xc0, hi(shape_class), lo(shape_class), 0x57, 0x04, 0xac]);
    def.methods.push(method(0x0009, "good", "()I", 2, 0, good));
    // (String) s
    let mut bad = make.clone();
    bad.extend_from_slice(&[0xc0, hi(string_class_index), lo(string_class_index), 0x57, 0x04, 0xac]);
    def.methods.push(method(0x0009, "bad", "()I", 2, 0, bad));
    let path = with(
        errors(),
        vec![
            source("Shape", build(&shape, Pool::new())),
            source("Square", build(&square, Pool::new())),
            source("Casts", build(&def, pool)),
        ],
    );
    assert_eq!(int_result(&run(path.clone(), "Casts", "tests")), Some(1 + 2));
    assert_eq!(int_result(&run(path.clone(), "Casts", "good")), Some(1));
    let mut t = thread(path, "Casts", "bad");
    assert_eq!(t.run_steps(100), Outcome::Failed);
    assert_eq!(thrown_class(&t), b"java/lang/ClassCastException".to_vec());
    assert_eq!(t.result, None);
}

#[test]
fn interface_calls_start_at_the_class_of_the_receiver() {
    let mut shape = class("Shape", Some("java/lang/Object"));
    shape.methods.push(native(0x0401, "sides", "()I"));
    shape.methods.push(method(0x0001, "twice", "()I", 2, 1, vec![0x10, 99, 0xac]));
    // A call through the interface does not initialize it: this initializer never runs.
    shape.methods.push(method(0x0008, "<clinit>", "()V", 2, 0, vec![0x04, 0x03, 0x6c, 0x57, 0xb1]));
    let mut square = class("Square", Some("java/lang/Object"));
    square.interfaces.push("Shape".to_string());
    square.methods.push(method(0x0001, "sides", "()I", 1, 1, vec![0x07, 0xac]));
    let mut pool = Pool::new();
    let square_class = pool.class("Square");
    let init = pool.method("java/lang/Object", "<init>", "()V");
    let sides = pool.interface_method("Shape", "sides", "()I");
    let twice = pool.interface_method("Shape", "twice", "()I");
    let mut def = class("Use", Some("java/lang/Object"));
    // s.sides() + s.twice(): the first is the method of Square, the second the default of Shape.
    def.methods.push(method(
        0x0009,
        "run",
        "()I",
        3,
        1,
        vec![
            0xbb, hi(square_class), lo(square_class), 0x59, 0xb7, hi(init), lo(init), 0x4b,
            0x2a, 0xb9, hi(sides), lo(sides), 1, 0,
            0x2a, 0xb9, hi(twice), lo(twice), 1, 0,
            0x60, 0xac,
        ],
    ));
    let path = vec![
        object_class(),
        source("Shape", build(&shape, Pool::new())),
        source("Square", build(&square, Pool::new())),
        source("Use", build(&def, pool)),
    ];
    let mut t = thread(path, "Use", "run");
    assert_eq!(t.run_steps(1000), Outcome::Halted);
    assert_eq!(t.result.unwrap().as_int(), Some(4 + 99));
    let shape = t.methodarea.find_class(b"Shape").unwrap();
    assert_eq!(t.methodarea.init_state(shape), Some(InitState::Uninitialized));
    let user = t.methodarea.find_class(b"Use").unwrap();
    assert_eq!(t.methodarea.init_state(user), Some(InitState::Initialized));
}

#[test]
fn a_thrown_exception_unwinds_to_the_first_handler() {
    let mut pool = Pool::new();
    let failure = pool.class("Failure");
    let exception = pool.class("java/lang/Exception");
    let init = pool.method("java/lang/Object", "<init>", "()V");
    let inner = pool.method("Throws", "inner", "()I");
    let middle = pool.method("Throws", "middle", "()I");
    let mut def = class("Throws", Some("java/lang/Object"));
    // inner: throw new Failure()
    def.methods.push(method(
        0x0009,
        "inner",
        "()I",
        2,
        0,
        vec![0xbb, hi(failure), lo(failure), 0x59, 0xb7, hi(init), lo(init), 0xbf],
    ));
    // middle: return inner() + 1, with a handler for ArithmeticException only
    let arithmetic = pool.class("java/lang/ArithmeticException");
    let mut m = method(0x0009, "middle", "()I", 2, 0, vec![0xb8, hi(inner), lo(inner), 0x04, 0x60, 0xac, 0x57, 0x03, 0xac]);
    m.table.push((0, 5, 6, arithmetic));
    def.methods.push(m);
    // outer: try { return middle(); } catch (Exception e) { return 77; }
    let mut m = method(0x0009, "outer", "()I", 2, 0, vec![0xb8, hi(middle), lo(middle), 0xac, 0x57, 0x10, 77, 0xac]);
    m.table.push((0, 4, 4, exception));
    def.methods.push(m);
    // unguarded: return middle()
    def.methods.push(method(0x0009, "unguarded", "()I", 2, 0, vec![0xb8, hi(middle), lo(middle), 0xac]));
    // same: the throw and the handler stand in one frame; the handler returns the exception's own test
    let mut m = method(
        0x0009,
        "same",
        "()I",
        2,
        0,
        vec![
            0xbb, hi(failure), lo(failure), 0x59, 0xb7, hi(init), lo(init), 0xbf,
            0xc1, hi(failure), lo(failure), 0xac,
        ],
    );
    m.table.push((0, 8, 8, 0));
    def.methods.push(m);
    // throw null
    def.methods.push(method(0x0009, "nothing", "()V", 1, 0, vec![0x01, 0xbf]));
    let path = with(
        errors(),
        vec![plain_class("Failure", "java/lang/Exception"), source("Throws", build(&def, pool))],
    );
    assert_eq!(int_result(&run(path.clone(), "Throws", "outer")), Some(77));
    assert_eq!(int_result(&run(path.clone(), "Throws", "same")), Some(1));
    let mut t = thread(path.clone(), "Throws", "unguarded");
    assert_eq!(t.run_steps(100), Outcome::Failed);
    assert_eq!(t.state, ThreadState::Failed);
    assert_eq!(thrown_class(&t), b"Failure".to_vec());
    assert!(t.frames.is_empty());
    // The exception left inner at the throw, middle and unguarded at their calls.
    let main = t.methodarea.find_class(b"Throws").unwrap();
    assert_eq!(
        t.trace,
        vec![
            TraceEntry { class_id: main, method_index: 0, pc: 7 },
            TraceEntry { class_id: main, method_index: 1, pc: 0 },
            TraceEntry { class_id: main, method_index: 3, pc: 0 },
        ]
    );
    assert_eq!(t.step(), Outcome::NotRunning);
    let mut t = thread(path, "Throws", "nothing");
    assert_eq!(t.run_steps(100), Outcome::Failed);
    assert_eq!(thrown_class(&t), b"java/lang/NullPointerException".to_vec());
}

#[test]
fn a_null_receiver_raises_a_null_pointer_exception() {
    let mut pool = Pool::new();
    let to_string = pool.method("java/lang/Object", "hashCode", "()I");
    let x = pool.field("Nulls", "x", "I");
    let mut def = class("Nulls", Some("java/lang/Object"));
    def.fields.push((0x0001, "x".to_string(), "I".to_string()));
    let mut m = method(0x0009, "call", "()I", 1, 0, vec![0x01, 0xb6, hi(to_string), lo(to_string), 0xac, 0x57, 0x02, 0xac]);
    m.table.push((0, 5, 5, 0));
    def.methods.push(m);
    let mut m = method(0x0009, "read", "()I", 1, 0, vec![0x01, 0xb4, hi(x), lo(x), 0xac, 0x57, 0x10, 0xfe, 0xac]);
    m.table.push((1, 4, 5, 0));
    def.methods.push(m);
    let mut m = method(0x0009, "write", "()I", 2, 0, vec![0x01, 0x04, 0xb5, hi(x), lo(x), 0x03, 0xac, 0x57, 0x10, 0xfd, 0xac]);
    m.table.push((0, 5, 7, 0));
    def.methods.push(m);
    let path = with(errors(), vec![source("Nulls", build(&def, pool))]);
    assert_eq!(int_result(&run(path.clone(), "Nulls", "call")), Some(-1));
    assert_eq!(int_result(&run(path.clone(), "Nulls", "read")), Some(-2));
    assert_eq!(int_result(&run(path, "Nulls", "write")), Some(-3));
}

#[test]
fn super_classes_are_initialized_first_and_once() {
    let mut pool = Pool::new();
    let v = pool.field("Base", "v", "I");
    let runs = pool.field("Base", "runs", "I");
    let helper = pool.method("Base", "helper", "()I");
    let mut base = class("Base", Some("java/lang/Object"));
    base.fields.push((0x0008, "v".to_string(), "I".to_string()));
    base.fields.push((0x0008, "runs".to_string(), "I".to_string()));
    // runs = runs + 1; v = helper(); a call into the class from inside its own initializer
    base.methods.push(method(
        0x0008,
        "<clinit>",
        "()V",
        2,
        0,
        vec![
            0xb2, hi(runs), lo(runs), 0x04, 0x60, 0xb3, hi(runs), lo(runs),
            0xb8, hi(helper), lo(helper), 0xb3, hi(v), lo(v), 0xb1,
        ],
    ));
    base.methods.push(method(0x0009, "helper", "()I", 1, 0, vec![0x08, 0xac]));
    let base_bytes = build(&base, pool);

    let mut pool = Pool::new();
    let v = pool.field("Sub", "v", "I");
    let w = pool.field("Sub", "w", "I");
    let mut sub = class("Sub", Some("Base"));
    sub.fields.push((0x0008, "w".to_string(), "I".to_string()));
    // w = v + 1, where v is the static field that Sub has from Base
    sub.methods.push(method(0x0008, "<clinit>", "()V", 2, 0, vec![0xb2, hi(v), lo(v), 0x04, 0x60, 0xb3, hi(w), lo(w), 0xb1]));
    let sub_bytes = build(&sub, pool);

    let mut pool = Pool::new();
    let w = pool.field("Sub", "w", "I");
    let runs = pool.field("Base", "runs", "I");
    let mut main = class("Main", Some("java/lang/Object"));
    // Sub.w * 10 + Sub.w + Base.runs * 100
    main.methods.push(method(
        0x0009,
        "run",
        "()I",
        3,
        0,
        vec![
            0xb2, hi(w), lo(w), 0x10, 10, 0x68, 0xb2, hi(w), lo(w), 0x60,
            0xb2, hi(runs), lo(runs), 0x10, 100, 0x68, 0x60, 0xac,
        ],
    ));
    let path = vec![
        object_class(),
        source("Base", base_bytes),
        source("Sub", sub_bytes),
        source("Main", build(&main, pool)),
    ];
    let mut t = thread(path, "Main", "run");
    assert_eq!(t.run_steps(1000), Outcome::Halted);
    assert_eq!(t.result.unwrap().as_int(), Some(60 + 6 + 100));
    let base = t.methodarea.find_class(b"Base").unwrap();
    let sub = t.methodarea.find_class(b"Sub").unwrap();
    assert!(base < sub);
    assert_eq!(t.methodarea.init_state(base), Some(InitState::Initialized));
    assert_eq!(t.methodarea.init_state(sub), Some(InitState::Initialized));
    assert_eq!(t.methodarea.get_static(base, b"runs"), Some(JvmValue::from_int(1)));
}

#[test]
fn a_failed_initializer_marks_its_class() {
    let mut pool = Pool::new();
    let v = pool.field("Bad", "v", "I");
    let mut bad = class("Bad", Some("java/lang/Object"));
    bad.fields.push((0x0008, "v".to_string(), "I".to_string()));
    bad.methods.push(method(0x0008, "<clinit>", "()V", 2, 0, vec![0x04, 0x03, 0x6c, 0xb3, hi(v), lo(v), 0xb1]));
    let bad_bytes = build(&bad, pool);
    let mut pool = Pool::new();
    let v = pool.field("Bad", "v", "I");
    let mut main = class("Main", Some("java/lang/Object"));
    // try { return Bad.v; } catch (any) { try { return Bad.v; } catch (any) { return -9; } }
    let mut m = method(
        0x0009,
        "run",
        "()I",
        1,
        0,
        vec![0xb2, hi(v), lo(v), 0xac, 0x57, 0xb2, hi(v), lo(v), 0xac, 0x57, 0x10, 0xf7, 0xac],
    );
    m.table.push((0, 4, 4, 0));
    m.table.push((5, 9, 9, 0));
    main.methods.push(m);
    let path = with(errors(), vec![source("Bad", bad_bytes), source("Main", build(&main, pool))]);
    let mut t = thread(path, "Main", "run");
    assert_eq!(t.run_steps(1000), Outcome::Halted);
    assert_eq!(t.result.unwrap().as_int(), Some(-9));
    let bad = t.methodarea.find_class(b"Bad").unwrap();
    assert_eq!(t.methodarea.init_state(bad), Some(InitState::Errored));
    // The initializer threw; the first access got the error that wraps what it threw; the
    // second found the class in error.
    assert_eq!(t.heap.object_count(), 3);
    assert_eq!(t.heap.get_object(0).get_class(), &b"java/lang/ArithmeticException".to_vec());
    assert_eq!(t.heap.get_object(1).get_class(), &b"java/lang/ExceptionInInitializerError".to_vec());
    assert_eq!(t.heap.get_object(2).get_class(), &b"java/lang/NoClassDefFoundError".to_vec());
}

#[test]
fn numbers_and_lines_are_printed() {
    let mut stream = class("java/io/PrintStream", Some("java/lang/Object"));
    stream.methods.push(native(0x0001, "println", "(Ljava/lang/String;)V"));
    stream.methods.push(native(0x0001, "println", "(I)V"));
    stream.methods.push(native(0x0001, "println", "()V"));
    stream.methods.push(native(0x0001, "flush", "()V"));
    let mut pool = Pool::new();
    let stream_class = pool.class("java/io/PrintStream");
    let init = pool.method("java/lang/Object", "<init>", "()V");
    let print_int = pool.method("java/io/PrintStream", "println", "(I)V");
    let print_line = pool.method("java/io/PrintStream", "println", "()V");
    let print_string = pool.method("java/io/PrintStream", "println", "(Ljava/lang/String;)V");
    let flush = pool.method("java/io/PrintStream", "flush", "()V");
    let text = pool.string("a b");
    let mut def = class("Printer", Some("java/lang/Object"));
    let make = vec![0xbb, hi(stream_class), lo(stream_class), 0x59, 0xb7, hi(init), lo(init), 0x4b];
    let mut code = make.clone();
    code.extend_from_slice(&[
        0x2a, 0x10, 12, 0xb6, hi(print_int), lo(print_int),
        0x2a, 0xb6, hi(print_line), lo(print_line),
        0x2a, 0x10, 0xfd, 0xb6, hi(print_int), lo(print_int),
        0x2a, 0x12, lo(text), 0xb6, hi(print_string), lo(print_string),
        0x2a, 0x01, 0xb6, hi(print_string), lo(print_string),
        0xb1,
    ]);
    def.methods.push(method(0x0009, "run", "()V", 2, 1, code));
    let mut code = make.clone();
    code.extend_from_slice(&[0x2a, 0xb6, hi(flush), lo(flush), 0xb1]);
    def.methods.push(method(0x0009, "unknown", "()V", 2, 1, code));
    let path = vec![
        object_class(),
        string_class(),
        source("java/io/PrintStream", build(&stream, Pool::new())),
        source("Printer", build(&def, pool)),
    ];
    let report = run(path.clone(), "Printer", "run");
    assert!(report.success);
    assert_eq!(report.thread.output, b"12\n\n-3\na b\nnull\n".to_vec());
    assert_eq!(report.thread.result, None);
    // A native method that is not built in cannot be carried out.
    let report = run(path, "Printer", "unknown");
    assert_eq!(report.outcome, Outcome::Fatal(FatalError::NoCode));
}

#[test]
fn the_arguments_of_main_are_strings() {
    let mut stream = class("java/io/PrintStream", Some("java/lang/Object"));
    stream.methods.push(native(0x0001, "println", "(Ljava/lang/String;)V"));
    let mut pool = Pool::new();
    let stream_class = pool.class("java/io/PrintStream");
    let init = pool.method("java/lang/Object", "<init>", "()V");
    let print_string = pool.method("java/io/PrintStream", "println", "(Ljava/lang/String;)V");
    let mut def = class("Echo", Some("java/lang/Object"));
    // new PrintStream().println(args[1]); return args.length
    def.methods.push(method(
        0x0009,
        "main",
        "([Ljava/lang/String;)I",
        3,
        1,
        vec![
            0xbb, hi(stream_class), lo(stream_class), 0x59, 0xb7, hi(init), lo(init),
            0x2a, 0x04, 0x32, 0xb6, hi(print_string), lo(print_string),
            0x2a, 0xbe, 0xac,
        ],
    ));
    let path = vec![
        object_class(),
        string_class(),
        source("java/io/PrintStream", build(&stream, Pool::new())),
        source("Echo", build(&def, pool)),
    ];
    let jvm = Jvm::new(true).unwrap();
    let args = vec!["one".to_string(), "two".to_string(), "three".to_string()];
    let report = jvm.run(path, &"Echo".to_string(), &"main".to_string(), &args, 1000);
    assert!(report.success);
    assert_eq!(int_result(&report), Some(3));
    assert_eq!(report.thread.output, b"two\n".to_vec());
}

#[test]
fn faults_of_the_machine_end_the_run() {
    let mut pool = Pool::new();
    let nowhere = pool.method("Gone", "f", "()V");
    let missing = pool.method("Faults", "absent", "()V");
    let number = pool.integer(1);
    let mut def = class("Faults", Some("java/lang/Object"));
    def.methods.push(method(0x0009, "subroutine", "()V", 2, 0, vec![0xa8, 0, 3, 0xb1]));
    def.methods.push(method(0x0009, "underflow", "()V", 2, 0, vec![0x57, 0xb1]));
    def.methods.push(method(0x0009, "overflow", "()V", 1, 0, vec![0x03, 0x03, 0xb1]));
    def.methods.push(method(0x0009, "forever", "()V", 0, 0, vec![0xa7, 0, 0]));
    def.methods.push(method(0x0009, "gone", "()V", 0, 0, vec![0xb8, hi(nowhere), lo(nowhere), 0xb1]));
    def.methods.push(method(0x0009, "missing", "()V", 0, 0, vec![0xb8, hi(missing), lo(missing), 0xb1]));
    def.methods.push(method(0x0009, "constant", "()V", 1, 0, vec![0xb8, hi(number), lo(number), 0xb1]));
    def.methods.push(method(0x0009, "wrong", "()I", 1, 0, vec![0x01, 0xac]));
    def.methods.push(method(0x0009, "falls", "()V", 1, 0, vec![0x00]));
    let bytes = build(&def, pool);
    let bare = vec![object_class(), source("Faults", bytes.clone())];
    let full = with(errors(), vec![source("Faults", bytes)]);
    let outcome = |path: &Vec<ClassSource>, function: &str| run(path.clone(), "Faults", function).outcome;
    assert_eq!(outcome(&bare, "subroutine"), Outcome::Fatal(FatalError::UnknownOpcode(0xa8)));
    assert_eq!(outcome(&bare, "underflow"), Outcome::Fatal(FatalError::StackUnderflow));
    assert_eq!(outcome(&bare, "overflow"), Outcome::Fatal(FatalError::StackOverflow));
    assert_eq!(outcome(&bare, "constant"), Outcome::Fatal(FatalError::BadConstant(number)));
    assert_eq!(outcome(&bare, "wrong"), Outcome::Fatal(FatalError::CategoryMismatch));
    assert_eq!(outcome(&bare, "falls"), Outcome::Fatal(FatalError::BadPc));
    assert_eq!(outcome(&bare, "nothing"), Outcome::Fatal(FatalError::NoSuchMethod));
    assert_eq!(run(bare.clone(), "Nowhere", "run").outcome, Outcome::Fatal(FatalError::Load(LoadError::NotFound)));
    // A run that does not end within its steps has not succeeded.
    let report = run(bare.clone(), "Faults", "forever");
    assert_eq!(report.outcome, Outcome::Continue);
    assert!(!report.success);
    // A class that cannot be loaded is an error of the program, where the class of the error is at hand.
    assert_eq!(
        outcome(&bare, "gone"),
        Outcome::Fatal(FatalError::NoExceptionClass(JavaExceptionKind::NoClassDefFound))
    );
    let mut t = thread(full.clone(), "Faults", "gone");
    assert_eq!(t.run_steps(100), Outcome::Failed);
    assert_eq!(thrown_class(&t), b"java/lang/NoClassDefFoundError".to_vec());
    let mut t = thread(full, "Faults", "missing");
    assert_eq!(t.run_steps(100), Outcome::Failed);
    assert_eq!(thrown_class(&t), b"java/lang/LinkageError".to_vec());
}

/// Floating-point arithmetic as the machine leaves it to its driver.
fn compute(request: FloatRequest) -> u64 {
    let single = |bits: u64| f32::from_bits(bits as u32);
    let double = |bits: u64| f64::from_bits(bits);
    match request.op {
        FloatOp::Binary(FloatArith::Add, NumberKind::Float) => (single(request.a) + single(request.b)).to_bits() as u64,
        FloatOp::Binary(FloatArith::Mul, NumberKind::Double) => (double(request.a) * double(request.b)).to_bits(),
        FloatOp::Binary(FloatArith::Div, NumberKind::Float) => (single(request.a) / single(request.b)).to_bits() as u64,
        FloatOp::Convert(NumberKind::Float, NumberKind::Double) => (single(request.a) as f64).to_bits(),
        FloatOp::Convert(NumberKind::Double, NumberKind::Int) => (double(request.a) as i32) as u32 as u64,
        FloatOp::Convert(NumberKind::Float, NumberKind::Int) => (single(request.a) as i32) as u32 as u64,
        FloatOp::Order(NumberKind::Float, greater) => {
            let (a, b) = (single(request.a), single(request.b));
            let order: i32 = if a > b { 1 } else if a == b { 0 } else if a < b { -1 } else if greater { 1 } else { -1 };
            order as u32 as u64
        },
        other => panic!("not needed here: {:?}", other),
    }
}

fn drive(t: &mut JvmThread) -> Outcome {
    loop {
        match t.run_steps(1000) {
            Outcome::Float(request) => match t.complete_float(request.op, compute(request)) {
                Outcome::Continue => {},
                other => return other,
            },
            other => return other,
        }
    }
}

#[test]
fn floating_point_is_computed_by_the_driver() {
    let mut def = class("Floats", Some("java/lang/Object"));
    // (int) ((double) (1.0f + 2.0f) * 1.0)
    def.methods.push(method(0x0009, "sum", "()I", 4, 0, vec![0x0c, 0x0d, 0x62, 0x8d, 0x0f, 0x6b, 0x8e, 0xac]));
    // 0.0f / 0.0f is no number: fcmpg gives 1, fcmpl gives -1
    def.methods.push(method(
        0x0009,
        "orders",
        "()I",
        4,
        0,
        vec![0x0b, 0x0b, 0x6e, 0x0b, 0x96, 0x10, 10, 0x68, 0x0b, 0x0b, 0x6e, 0x0b, 0x95, 0x60, 0xac],
    ));
    // (int) of what is no number is 0; (int) of 1.0f / 0.0f is the greatest int
    def.methods.push(method(0x0009, "none", "()I", 2, 0, vec![0x0b, 0x0b, 0x6e, 0x8b, 0xac]));
    def.methods.push(method(0x0009, "most", "()I", 2, 0, vec![0x0c, 0x0b, 0x6e, 0x8b, 0xac]));
    let path = vec![object_class(), source("Floats", build(&def, Pool::new()))];
    let result = |function: &str| {
        let mut t = thread(path.clone(), "Floats", function);
        assert_eq!(drive(&mut t), Outcome::Halted);
        t.result.unwrap().as_int()
    };
    assert_eq!(result("sum"), Some(3));
    assert_eq!(result("orders"), Some(10 - 1));
    assert_eq!(result("none"), Some(0));
    assert_eq!(result("most"), Some(i32::MAX));

    // Without a driver the run stops at the first floating-point instruction.
    let report = run(path.clone(), "Floats", "sum");
    let add = FloatOp::Binary(FloatArith::Add, NumberKind::Float);
    assert_eq!(report.outcome, Outcome::Float(FloatRequest { op: add, a: 0x3f80_0000, b: 0x4000_0000 }));
    assert!(!report.success);
    // A result is taken only for the instruction at the program counter.
    let mut t = thread(path.clone(), "Floats", "sum");
    assert_eq!(t.complete_float(add, 0), Outcome::Fatal(FatalError::BadCode));
    assert_eq!(t.run_steps(10), Outcome::Float(FloatRequest { op: add, a: 0x3f80_0000, b: 0x4000_0000 }));
    assert_eq!(t.complete_float(FloatOp::Neg(NumberKind::Float), 0), Outcome::Fatal(FatalError::BadCode));
    assert_eq!(t.complete_float(add, 0x4040_0000), Outcome::Continue);
    assert_eq!(t.frames[0].stack, vec![JvmValue::Primitive(JvmPrimitiveType::Float, 0x4040_0000)]);
    let mut fresh = JvmThread::new(MethodArea::new(path), false);
    assert_eq!(fresh.complete_float(add, 0), Outcome::NotRunning);
}

#[test]
fn a_thread_goes_from_ready_to_halted() {
    let mut def = class("Quick", Some("java/lang/Object"));
    def.methods.push(method(0x0009, "run", "()V", 0, 0, vec![0x00, 0xb1]));
    def.methods.push(method(0x0009, "take", "(I)V", 0, 1, vec![0xb1]));
    let path = vec![object_class(), source("Quick", build(&def, Pool::new()))];
    let mut t = JvmThread::new(MethodArea::new(path), false);
    assert_eq!(t.state, ThreadState::Ready);
    assert_eq!(t.step(), Outcome::NotRunning);
    assert_eq!(t.run_steps(5), Outcome::NotRunning);
    // The arguments must be those of the descriptor.
    assert_eq!(t.start(b"Quick", b"take", b"(I)V", &[]), Outcome::Fatal(FatalError::CategoryMismatch));
    assert_eq!(t.start(b"Quick", b"take", b"(I)", &[]), Outcome::Fatal(FatalError::BadDescriptor));
    assert_eq!(t.state, ThreadState::Ready);
    assert_eq!(t.start(b"Quick", b"run", b"()V", &[]), Outcome::Continue);
    assert_eq!(t.state, ThreadState::Running);
    assert_eq!(t.frames.len(), 1);
    assert_eq!(t.start(b"Quick", b"run", b"()V", &[]), Outcome::NotRunning);
    assert_eq!(t.launch(b"Quick", b"run", &Vec::new()), Outcome::NotRunning);
    assert_eq!(t.run_steps(0), Outcome::Continue);
    assert_eq!(t.step(), Outcome::Continue);
    assert_eq!(t.frames[0].pc, 1);
    assert_eq!(t.step(), Outcome::Halted);
    assert_eq!(t.state, ThreadState::Halted);
    assert!(t.frames.is_empty());
    assert_eq!(t.step(), Outcome::NotRunning);
    assert_eq!(t.result, None);
    assert_eq!(t.thrown, None);
    assert!(t.output.is_empty());
}
