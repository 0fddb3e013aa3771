use jvm::jvmthread::{JvmThread, Outcome, ThreadState};
use jvm::methodarea::{ClassSource, MethodArea};
use jvm::{Jvm, RunReport};

// A small assembler for class files, shared by the tests of this file.

struct Pool {
    bytes: Vec<u8>,
    count: u16,
}

fn push16(out: &mut Vec<u8>, v: u16) {
    out.push((v >> 8) as u8);
    out.push((v & 0xff) as u8);
}

fn push32(out: &mut Vec<u8>, v: u32) {
    push16(out, (v >> 16) as u16);
    push16(out, (v & 0xffff) as u16);
}

impl Pool {
    fn new() -> Pool {
        Pool { bytes: Vec::new(), count: 1 }
    }

    fn take(&mut self, slots: u16) -> u16 {
        let index = self.count;
        self.count += slots;
        index
    }

    fn utf8(&mut self, text: &str) -> u16 {
        self.bytes.push(1);
        push16(&mut self.bytes, text.len() as u16);
        self.bytes.extend_from_slice(text.as_bytes());
        self.take(1)
    }

    fn integer(&mut self, v: i32) -> u16 {
        self.bytes.push(3);
        push32(&mut self.bytes, v as u32);
        self.take(1)
    }

    fn long(&mut self, v: i64) -> u16 {
        self.bytes.push(5);
        push32(&mut self.bytes, ((v as u64) >> 32) as u32);
        push32(&mut self.bytes, (v as u64 & 0xffff_ffff) as u32);
        self.take(2)
    }

    fn class(&mut self, name: &str) -> u16 {
        let n = self.utf8(name);
        self.bytes.push(7);
        push16(&mut self.bytes, n);
        self.take(1)
    }

    fn string(&mut self, text: &str) -> u16 {
        let n = self.utf8(text);
        self.bytes.push(8);
        push16(&mut self.bytes, n);
        self.take(1)
    }

    fn name_and_type(&mut self, name: &str, descriptor: &str) -> u16 {
        let n = self.utf8(name);
        let d = self.utf8(descriptor);
        self.bytes.push(12);
        push16(&mut self.bytes, n);
        push16(&mut self.bytes, d);
        self.take(1)
    }

    fn member(&mut self, tag: u8, class: &str, name: &str, descriptor: &str) -> u16 {
        let c = self.class(class);
        let nt = self.name_and_type(name, descriptor);
        self.bytes.push(tag);
        push16(&mut self.bytes, c);
        push16(&mut self.bytes, nt);
        self.take(1)
    }

    fn field(&mut self, class: &str, name: &str, descriptor: &str) -> u16 {
        self.member(9, class, name, descriptor)
    }

    fn method(&mut self, class: &str, name: &str, descriptor: &str) -> u16 {
        self.member(10, class, name, descriptor)
    }

    fn interface_method(&mut self, class: &str, name: &str, descriptor: &str) -> u16 {
        self.member(11, class, name, descriptor)
    }
}

struct MethodDef {
    flags: u16,
    name: String,
    descriptor: String,
    max_stack: u16,
    max_locals: u16,
    code: Option<Vec<u8>>,
    table: Vec<(u16, u16, u16, u16)>,
}

fn method(flags: u16, name: &str, descriptor: &str, stack: u16, locals: u16, code: Vec<u8>) -> MethodDef {
    MethodDef {
        flags,
        name: name.to_string(),
        descriptor: descriptor.to_string(),
        max_stack: stack,
        max_locals: locals,
        code: Some(code),
        table: Vec::new(),
    }
}

fn native(flags: u16, name: &str, descriptor: &str) -> MethodDef {
    MethodDef {
        flags: flags | 0x0100,
        name: name.to_string(),
        descriptor: descriptor.to_string(),
        max_stack: 0,
        max_locals: 0,
        code: None,
        table: Vec::new(),
    }
}

struct ClassDef {
    name: String,
    parent: Option<String>,
    interfaces: Vec<String>,
    fields: Vec<(u16, String, String)>,
    methods: Vec<MethodDef>,
}

fn class(name: &str, parent: Option<&str>) -> ClassDef {
    ClassDef {
        name: name.to_string(),
        parent: parent.map(|p| p.to_string()),
        interfaces: Vec::new(),
        fields: Vec::new(),
        methods: Vec::new(),
    }
}

fn build(def: &ClassDef, mut pool: Pool) -> Vec<u8> {
    let this_class = pool.class(&def.name);
    let super_class = match &def.parent {
        Some(p) => pool.class(p),
        None => 0,
    };
    let interfaces: Vec<u16> = def.interfaces.iter().map(|i| pool.class(i)).collect();
    let code_name = pool.utf8("Code");
    let mut fields: Vec<u8> = Vec::new();
    push16(&mut fields, def.fields.len() as u16);
    for (flags, name, descriptor) in &def.fields {
        push16(&mut fields, *flags);
        push16(&mut fields, pool.utf8(name));
        push16(&mut fields, pool.utf8(descriptor));
        push16(&mut fields, 0);
    }
    let mut methods: Vec<u8> = Vec::new();
    push16(&mut methods, def.methods.len() as u16);
    for m in &def.methods {
        push16(&mut methods, m.flags);
        push16(&mut methods, pool.utf8(&m.name));
        push16(&mut methods, pool.utf8(&m.descriptor));
        match &m.code {
            None => push16(&mut methods, 0),
            Some(code) => {
                push16(&mut methods, 1);
                push16(&mut methods, code_name);
                let length = 2 + 2 + 4 + code.len() + 2 + 8 * m.table.len() + 2;
                push32(&mut methods, length as u32);
                push16(&mut methods, m.max_stack);
                push16(&mut methods, m.max_locals);
                push32(&mut methods, code.len() as u32);
                methods.extend_from_slice(code);
                push16(&mut methods, m.table.len() as u16);
                for (start, end, handler, catch) in &m.table {
                    push16(&mut methods, *start);
                    push16(&mut methods, *end);
                    push16(&mut methods, *handler);
                    push16(&mut methods, *catch);
                }
                push16(&mut methods, 0);
            },
        }
    }
    let mut out: Vec<u8> = vec![0xCA, 0xFE, 0xBA, 0xBE];
    push16(&mut out, 0);
    push16(&mut out, 52);
    push16(&mut out, pool.count);
    out.extend_from_slice(&pool.bytes);
    push16(&mut out, 0x0021);
    push16(&mut out, this_class);
    push16(&mut out, super_class);
    push16(&mut out, interfaces.len() as u16);
    for i in &interfaces {
        push16(&mut out, *i);
    }
    out.extend_from_slice(&fields);
    out.extend_from_slice(&methods);
    push16(&mut out, 0);
    out
}

fn source(name: &str, bytes: Vec<u8>) -> ClassSource {
    ClassSource { name: name.as_bytes().to_vec(), bytes }
}

fn hi(v: u16) -> u8 {
    (v >> 8) as u8
}

fn lo(v: u16) -> u8 {
    (v & 0xff) as u8
}

/// `java/lang/Object` with a constructor that returns at once.
fn object_class() -> ClassSource {
    let mut def = class("java/lang/Object", None);
    def.methods.push(method(0x0001, "<init>", "()V", 0, 1, vec![0xb1]));
    source("java/lang/Object", build(&def, Pool::new()))
}

/// A class that extends `parent` and declares nothing.
fn plain_class(name: &str, parent: &str) -> ClassSource {
    let def = class(name, Some(parent));
    source(name, build(&def, Pool::new()))
}

/// `java/lang/String` with its field `value`.
fn string_class() -> ClassSource {
    let mut def = class("java/lang/String", Some("java/lang/Object"));
    def.fields.push((0x0002, "value".to_string(), "[C".to_string()));
    source("java/lang/String", build(&def, Pool::new()))
}

fn run(path: Vec<ClassSource>, class: &str, function: &str) -> RunReport {
    let jvm = Jvm::new(false).unwrap();
    jvm.run(path, &class.to_string(), &function.to_string(), &[], 10_000)
}

fn int_result(report: &RunReport) -> Option<i32> {
    match report.thread.result {
        Some(v) => v.as_int(),
        None => None,
    }
}

#[test]
fn hello_world_prints_hello() {
    let mut stream = class("java/io/PrintStream", Some("java/lang/Object"));
    stream.methods.push(method(0x0001, "<init>", "()V", 0, 1, vec![0xb1]));
    stream.methods.push(native(0x0001, "println", "(Ljava/lang/String;)V"));

    let mut pool = Pool::new();
    let stream_class = pool.class("java/io/PrintStream");
    let stream_init = pool.method("java/io/PrintStream", "<init>", "()V");
    let out_field = pool.field("java/lang/System", "out", "Ljava/io/PrintStream;");
    let mut system = class("java/lang/System", Some("java/lang/Object"));
    system.fields.push((0x0009, "out".to_string(), "Ljava/io/PrintStream;".to_string()));
    system.methods.push(method(
        0x0008,
        "<clinit>",
        "()V",
        2,
        0,
        vec![
            0xbb, hi(stream_class), lo(stream_class),
            0x59,
            0xb7, hi(stream_init), lo(stream_init),
            0xb3, hi(out_field), lo(out_field),
            0xb1,
        ],
    ));
    let system_bytes = build(&system, pool);

    let mut pool = Pool::new();
    let out_field = pool.field("java/lang/System", "out", "Ljava/io/PrintStream;");
    let text = pool.string("Hello");
    let println = pool.method("java/io/PrintStream", "println", "(Ljava/lang/String;)V");
    let mut hello = class("Hello", Some("java/lang/Object"));
    hello.methods.push(method(
        0x0009,
        "main",
        "([Ljava/lang/String;)V",
        2,
        1,
        vec![
            0xb2, hi(out_field), lo(out_field),
            0x12, lo(text),
            0xb6, hi(println), lo(println),
            0xb1,
        ],
    ));
    let path = vec![
        object_class(),
        string_class(),
        source("java/io/PrintStream", build(&stream, Pool::new())),
        source("java/lang/System", system_bytes),
        source("Hello", build(&hello, pool)),
    ];
    let report = run(path, "Hello", "main");
    assert_eq!(report.outcome, Outcome::Halted);
    assert!(report.success);
    assert_eq!(report.thread.output, b"Hello\n".to_vec());
    assert_eq!(report.thread.result, None);
}

#[test]
fn arithmetic_returns_five() {
    let mut calc = class("Calc", Some("java/lang/Object"));
    calc.methods.push(method(0x0009, "compute", "()I", 2, 0, vec![0x05, 0x06, 0x60, 0xac]));
    let report = run(vec![object_class(), source("Calc", build(&calc, Pool::new()))], "Calc", "compute");
    assert!(report.success);
    assert_eq!(int_result(&report), Some(5));
}

#[test]
fn virtual_dispatch_selects_the_override() {
    let mut a = class("A", Some("java/lang/Object"));
    a.methods.push(method(0x0001, "<init>", "()V", 0, 1, vec![0xb1]));
    a.methods.push(method(0x0001, "f", "()I", 1, 1, vec![0x04, 0xac]));
    let mut b = class("B", Some("A"));
    b.methods.push(method(0x0001, "<init>", "()V", 0, 1, vec![0xb1]));
    b.methods.push(method(0x0001, "f", "()I", 1, 1, vec![0x05, 0xac]));

    let mut pool = Pool::new();
    let b_class = pool.class("B");
    let b_init = pool.method("B", "<init>", "()V");
    let a_f = pool.method("A", "f", "()I");
    let mut main = class("Main", Some("java/lang/Object"));
    // A local of static type A holds a B; f is invoked through A.
    main.methods.push(method(
        0x0009,
        "run",
        "()I",
        2,
        1,
        vec![
            0xbb, hi(b_class), lo(b_class),
            0x59,
            0xb7, hi(b_init), lo(b_init),
            0x4b,
            0x2a,
            0xb6, hi(a_f), lo(a_f),
            0xac,
        ],
    ));
    // The same call made special reaches the method of A, whatever the receiver is.
    main.methods.push(method(
        0x0009,
        "special",
        "()I",
        2,
        1,
        vec![
            0xbb, hi(b_class), lo(b_class),
            0x59,
            0xb7, hi(b_init), lo(b_init),
            0x4b,
            0x2a,
            0xb7, hi(a_f), lo(a_f),
            0xac,
        ],
    ));
    let main_bytes = build(&main, pool);
    let path = || {
        vec![
            object_class(),
            source("A", build(&a, Pool::new())),
            source("B", build(&b, Pool::new())),
            source("Main", main_bytes.clone()),
        ]
    };
    let report = run(path(), "Main", "run");
    assert!(report.success);
    assert_eq!(int_result(&report), Some(2));
    let report = run(path(), "Main", "special");
    assert!(report.success);
    assert_eq!(int_result(&report), Some(1));
}

#[test]
fn class_initialization_runs_in_order() {
    let mut pool = Pool::new();
    let d_y = pool.field("D", "y", "I");
    let c_x = pool.field("C", "x", "I");
    let mut c = class("C", Some("java/lang/Object"));
    c.fields.push((0x0008, "x".to_string(), "I".to_string()));
    c.methods.push(method(
        0x0008,
        "<clinit>",
        "()V",
        2,
        0,
        vec![0xb2, hi(d_y), lo(d_y), 0x04, 0x60, 0xb3, hi(c_x), lo(c_x), 0xb1],
    ));
    let c_bytes = build(&c, pool);

    let mut pool = Pool::new();
    let d_y = pool.field("D", "y", "I");
    let mut d = class("D", Some("java/lang/Object"));
    d.fields.push((0x0008, "y".to_string(), "I".to_string()));
    d.methods.push(method(
        0x0008,
        "<clinit>",
        "()V",
        1,
        0,
        vec![0x10, 10, 0xb3, hi(d_y), lo(d_y), 0xb1],
    ));
    let d_bytes = build(&d, pool);

    let mut pool = Pool::new();
    let c_x = pool.field("C", "x", "I");
    let mut main = class("Main", Some("java/lang/Object"));
    main.methods.push(method(0x0009, "run", "()I", 1, 0, vec![0xb2, hi(c_x), lo(c_x), 0xac]));
    let path = vec![
        object_class(),
        source("C", c_bytes),
        source("D", d_bytes),
        source("Main", build(&main, pool)),
    ];
    let report = run(path, "Main", "run");
    assert!(report.success);
    assert_eq!(int_result(&report), Some(11));
}

#[test]
fn division_by_zero_is_caught_by_the_caller() {
    let mut pool = Pool::new();
    let div = pool.method("Main", "div", "(II)I");
    let arithmetic = pool.class("java/lang/ArithmeticException");
    let mut main = class("Main", Some("java/lang/Object"));
    main.methods.push(method(0x0009, "div", "(II)I", 2, 2, vec![0x1a, 0x1b, 0x6c, 0xac]));
    let mut run_method = method(
        0x0009,
        "run",
        "()I",
        2,
        0,
        vec![0x04, 0x03, 0xb8, hi(div), lo(div), 0xac, 0x57, 0x10, 42, 0xac],
    );
    run_method.table.push((0, 6, 6, arithmetic));
    main.methods.push(run_method);
    let path = vec![
        object_class(),
        plain_class("java/lang/ArithmeticException", "java/lang/Object"),
        source("Main", build(&main, pool)),
    ];
    let report = run(path, "Main", "run");
    assert!(report.success);
    assert_eq!(int_result(&report), Some(42));
}

#[test]
fn store_outside_an_array_fails_the_run() {
    let mut main = class("Main", Some("java/lang/Object"));
    main.methods.push(method(
        0x0009,
        "run",
        "()V",
        3,
        0,
        vec![0x06, 0xbc, 10, 0x08, 0x03, 0x4f, 0xb1],
    ));
    let main_bytes = build(&main, Pool::new());
    let path = vec![
        object_class(),
        plain_class("java/lang/ArrayIndexOutOfBoundsException", "java/lang/Object"),
        source("Main", main_bytes.clone()),
    ];
    let area = MethodArea::new(path);
    let mut thread = JvmThread::new(area, false);
    assert_eq!(thread.launch(b"Main", b"run", &Vec::new()), Outcome::Continue);
    assert_eq!(thread.run_steps(100), Outcome::Failed);
    assert_eq!(thread.state, ThreadState::Failed);
    let thrown = thread.thrown.unwrap();
    assert_eq!(
        thread.heap.get_object(thrown).get_class(),
        &b"java/lang/ArrayIndexOutOfBoundsException".to_vec()
    );
    assert_eq!(thread.heap.get_array(0).length(), 3);

    let report = run(
        vec![
            object_class(),
            plain_class("java/lang/ArrayIndexOutOfBoundsException", "java/lang/Object"),
            source("Main", main_bytes),
        ],
        "Main",
        "run",
    );
    assert!(!report.success);
    assert_eq!(report.outcome, Outcome::Failed);
}
