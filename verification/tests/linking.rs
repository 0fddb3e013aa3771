use jvm::class::Class;
use jvm::code::ExceptionEntry;
use jvm::error::ParseError;
use jvm::exceptions::{catches, exception_class_name, find_handler, JavaExceptionKind};
use jvm::frame::FatalError;
use jvm::heap::{create_static_string_object, Heap};
use jvm::methodarea::{
    ClassSource, InitState, LoadError, MemberRef, MethodArea, ResolveError,
};
use jvm::natives::NativeMethod;
use jvm::object::JvmObject;
use jvm::text::{object_class_name, string_bytes, string_class_name};
use jvm::typevalues::{create_null_value, JvmPrimitiveType, JvmReferenceTargetType, JvmValue};

// A small assembler for class files, shared by the tests of this file.

struct Pool {
    bytes: Vec<u8>,
    count: u16,
}

fn push16(out: &mut Vec<u8>, v: u16) {
    out.push((v >> 8) as u8);
    out.push((v & 0xff) as u8);
}

fn push32(out: &mut Vec<u8>, v: u32) {
    push16(out, (v >> 16) as u16);
    push16(out, (v & 0xffff) as u16);
}

impl Pool {
    fn new() -> Pool {
        Pool { bytes: Vec::new(), count: 1 }
    }

    fn take(&mut self, slots: u16) -> u16 {
        let index = self.count;
        self.count += slots;
        index
    }

    fn utf8(&mut self, text: &str) -> u16 {
        self.bytes.push(1);
        push16(&mut self.bytes, text.len() as u16);
        self.bytes.extend_from_slice(text.as_bytes());
        self.take(1)
    }

    fn integer(&mut self, v: i32) -> u16 {
        self.bytes.push(3);
        push32(&mut self.bytes, v as u32);
        self.take(1)
    }

    fn long(&mut self, v: i64) -> u16 {
        self.bytes.push(5);
        push32(&mut self.bytes, ((v as u64) >> 32) as u32);
        push32(&mut self.bytes, (v as u64 & 0xffff_ffff) as u32);
        self.take(2)
    }

    fn class(&mut self, name: &str) -> u16 {
        let n = self.utf8(name);
        self.bytes.push(7);
        push16(&mut self.bytes, n);
        self.take(1)
    }

    fn string(&mut self, text: &str) -> u16 {
        let n = self.utf8(text);
        self.bytes.push(8);
        push16(&mut self.bytes, n);
        self.take(1)
    }

    fn name_and_type(&mut self, name: &str, descriptor: &str) -> u16 {
        let n = self.utf8(name);
        let d = self.utf8(descriptor);
        self.bytes.push(12);
        push16(&mut self.bytes, n);
        push16(&mut self.bytes, d);
        self.take(1)
    }

    fn member(&mut self, tag: u8, class: &str, name: &str, descriptor: &str) -> u16 {
        let c = self.class(class);
        let nt = self.name_and_type(name, descriptor);
        self.bytes.push(tag);
        push16(&mut self.bytes, c);
        push16(&mut self.bytes, nt);
        self.take(1)
    }

    fn field(&mut self, class: &str, name: &str, descriptor: &str) -> u16 {
        self.member(9, class, name, descriptor)
    }

    fn method(&mut self, class: &str, name: &str, descriptor: &str) -> u16 {
        self.member(10, class, name, descriptor)
    }

    fn interface_method(&mut self, class: &str, name: &str, descriptor: &str) -> u16 {
        self.member(11, class, name, descriptor)
    }
}

struct MethodDef {
    flags: u16,
    name: String,
    descriptor: String,
    max_stack: u16,
    max_locals: u16,
    code: Option<Vec<u8>>,
    table: Vec<(u16, u16, u16, u16)>,
}

fn method(flags: u16, name: &str, descriptor: &str, stack: u16, locals: u16, code: Vec<u8>) -> MethodDef {
    MethodDef {
        flags,
        name: name.to_string(),
        descriptor: descriptor.to_string(),
        max_stack: stack,
        max_locals: locals,
        code: Some(code),
        table: Vec::new(),
    }
}

fn native(flags: u16, name: &str, descriptor: &str) -> MethodDef {
    MethodDef {
        flags: flags | 0x0100,
        name: name.to_string(),
        descriptor: descriptor.to_string(),
        max_stack: 0,
        max_locals: 0,
        code: None,
        table: Vec::new(),
    }
}

struct ClassDef {
    name: String,
    parent: Option<String>,
    interfaces: Vec<String>,
    fields: Vec<(u16, String, String)>,
    methods: Vec<MethodDef>,
}

fn class(name: &str, parent: Option<&str>) -> ClassDef {
    ClassDef {
        name: name.to_string(),
        parent: parent.map(|p| p.to_string()),
        interfaces: Vec::new(),
        fields: Vec::new(),
        methods: Vec::new(),
    }
}

fn build(def: &ClassDef, mut pool: Pool) -> Vec<u8> {
    let this_class = pool.class(&def.name);
    let super_class = match &def.parent {
        Some(p) => pool.class(p),
        None => 0,
    };
    let interfaces: Vec<u16> = def.interfaces.iter().map(|i| pool.class(i)).collect();
    let code_name = pool.utf8("Code");
    let mut fields: Vec<u8> = Vec::new();
    push16(&mut fields, def.fields.len() as u16);
    for (flags, name, descriptor) in &def.fields {
        push16(&mut fields, *flags);
        push16(&mut fields, pool.utf8(name));
        push16(&mut fields, pool.utf8(descriptor));
        push16(&mut fields, 0);
    }
    let mut methods: Vec<u8> = Vec::new();
    push16(&mut methods, def.methods.len() as u16);
    for m in &def.methods {
        push16(&mut methods, m.flags);
        push16(&mut methods, pool.utf8(&m.name));
        push16(&mut methods, pool.utf8(&m.descriptor));
        match &m.code {
            None => push16(&mut methods, 0),
            Some(code) => {
                push16(&mut methods, 1);
                push16(&mut methods, code_name);
                let length = 2 + 2 + 4 + code.len() + 2 + 8 * m.table.len() + 2;
                push32(&mut methods, length as u32);
                push16(&mut methods, m.max_stack);
                push16(&mut methods, m.max_locals);
                push32(&mut methods, code.len() as u32);
                methods.extend_from_slice(code);
                push16(&mut methods, m.table.len() as u16);
                for (start, end, handler, catch) in &m.table {
                    push16(&mut methods, *start);
                    push16(&mut methods, *end);
                    push16(&mut methods, *handler);
                    push16(&mut methods, *catch);
                }
                push16(&mut methods, 0);
            },
        }
    }
    let mut out: Vec<u8> = vec![0xCA, 0xFE, 0xBA, 0xBE];
    push16(&mut out, 0);
    push16(&mut out, 52);
    push16(&mut out, pool.count);
    out.extend_from_slice(&pool.bytes);
    push16(&mut out, 0x0021);
    push16(&mut out, this_class);
    push16(&mut out, super_class);
    push16(&mut out, interfaces.len() as u16);
    for i in &interfaces {
        push16(&mut out, *i);
    }
    out.extend_from_slice(&fields);
    out.extend_from_slice(&methods);
    push16(&mut out, 0);
    out
}

fn source(name: &str, bytes: Vec<u8>) -> ClassSource {
    ClassSource { name: name.as_bytes().to_vec(), bytes }
}

fn hi(v: u16) -> u8 {
    (v >> 8) as u8
}

fn lo(v: u16) -> u8 {
    (v & 0xff) as u8
}

/// `java/lang/Object` with a constructor that returns at once.
fn object_class() -> ClassSource {
    let mut def = class("java/lang/Object", None);
    def.methods.push(method(0x0001, "<init>", "()V", 0, 1, vec![0xb1]));
    source("java/lang/Object", build(&def, Pool::new()))
}

/// A class that extends `parent` and declares nothing.
fn plain_class(name: &str, parent: &str) -> ClassSource {
    let def = class(name, Some(parent));
    source(name, build(&def, Pool::new()))
}

/// `java/lang/String` with its field `value`.
fn string_class() -> ClassSource {
    let mut def = class("java/lang/String", Some("java/lang/Object"));
    def.fields.push((0x0002, "value".to_string(), "[C".to_string()));
    source("java/lang/String", build(&def, Pool::new()))
}

fn animals() -> Vec<ClassSource> {
    let mut walker = class("zoo/Walker", Some("java/lang/Object"));
    walker.methods.push(method(0x0001, "legs", "()I", 1, 1, vec![0x07, 0xac]));
    walker.fields.push((0x0019, "LIMIT".to_string(), "I".to_string()));
    let mut pet = class("zoo/Pet", Some("java/lang/Object"));
    pet.interfaces.push("zoo/Walker".to_string());
    pet.methods.push(native(0x0401, "name", "()Ljava/lang/String;"));
    let mut animal = class("zoo/Animal", Some("java/lang/Object"));
    animal.fields.push((0x0002, "age".to_string(), "I".to_string()));
    animal.fields.push((0x0002, "weight".to_string(), "J".to_string()));
    animal.fields.push((0x0008, "count".to_string(), "I".to_string()));
    animal.fields.push((0x0008, "keeper".to_string(), "Ljava/lang/Object;".to_string()));
    animal.methods.push(method(0x0001, "sound", "()I", 1, 1, vec![0x03, 0xac]));
    animal.methods.push(method(0x0001, "eat", "(I)V", 0, 2, vec![0xb1]));
    let mut dog = class("zoo/Dog", Some("zoo/Animal"));
    dog.interfaces.push("zoo/Pet".to_string());
    dog.fields.push((0x0002, "tricks".to_string(), "[I".to_string()));
    dog.fields.push((0x0002, "age".to_string(), "S".to_string()));
    dog.methods.push(method(0x0001, "sound", "()I", 1, 1, vec![0x04, 0xac]));
    vec![
        source("zoo/Dog", build(&dog, Pool::new())),
        source("zoo/Animal", build(&animal, Pool::new())),
        source("zoo/Pet", build(&pet, Pool::new())),
        source("zoo/Walker", build(&walker, Pool::new())),
        object_class(),
        string_class(),
    ]
}

#[test]
fn loading_brings_super_classes_and_interfaces_first() {
    let mut area = MethodArea::new(animals());
    assert_eq!(area.class_count(), 0);
    assert_eq!(area.find_class(b"zoo/Dog"), None);
    assert!(area.get(b"zoo/Dog").is_none());
    let dog = area.maybe_load_class(b"zoo/Dog").unwrap();
    // Object, Animal, Walker, Pet, Dog: each class stands behind all it builds on.
    assert_eq!(area.class_count(), 5);
    assert_eq!(dog, 4);
    let names: Vec<Vec<u8>> = area.classes.iter().map(|c| c.name.clone()).collect();
    assert_eq!(
        names,
        vec![
            b"java/lang/Object".to_vec(),
            b"zoo/Animal".to_vec(),
            b"zoo/Walker".to_vec(),
            b"zoo/Pet".to_vec(),
            b"zoo/Dog".to_vec(),
        ]
    );
    assert_eq!(area.classes[4].super_id, Some(1));
    assert_eq!(area.classes[4].interfaces, vec![3]);
    assert_eq!(area.classes[3].interfaces, vec![2]);
    assert_eq!(area.classes[0].super_id, None);
    assert_eq!(area.classes[4].state, InitState::Uninitialized);
    // Loading again finds the class and adds nothing.
    assert_eq!(area.maybe_load_class(b"zoo/Dog"), Ok(4));
    assert_eq!(area.maybe_load_class(b"zoo/Animal"), Ok(1));
    assert_eq!(area.class_count(), 5);
    assert_eq!(area.get(b"zoo/Pet").unwrap().name, b"zoo/Pet".to_vec());
    assert_eq!(area.locate(b"zoo/Pet"), Some(2));
    assert_eq!(area.locate(b"zoo/Cat"), None);
}

#[test]
fn loading_reports_its_errors() {
    let mut area = MethodArea::new(animals());
    assert_eq!(area.maybe_load_class(b"zoo/Cat"), Err(LoadError::NotFound));
    assert_eq!(area.class_count(), 0);

    let mut path = animals();
    path.push(source("zoo/Broken", vec![0xCA, 0xFE, 0xBA, 0xBF]));
    path.push(source("zoo/Short", vec![0xCA, 0xFE]));
    path.push(source("zoo/Alias", build(&class("zoo/Other", Some("java/lang/Object")), Pool::new())));
    path.push(plain_class("zoo/Stray", "zoo/Missing"));
    path.push(plain_class("loop/A", "loop/B"));
    path.push(plain_class("loop/B", "loop/A"));
    path.push(plain_class("loop/Self", "loop/Self"));
    let mut odd = class("zoo/Odd", Some("java/lang/Object"));
    odd.fields.push((0x0008, "what".to_string(), "Q".to_string()));
    path.push(source("zoo/Odd", build(&odd, Pool::new())));
    let mut area = MethodArea::new(path);
    assert_eq!(area.maybe_load_class(b"zoo/Broken"), Err(LoadError::Parse(ParseError::BadMagic)));
    assert_eq!(area.maybe_load_class(b"zoo/Short"), Err(LoadError::Parse(ParseError::TruncatedInput)));
    assert_eq!(area.maybe_load_class(b"zoo/Alias"), Err(LoadError::WrongName));
    assert_eq!(area.maybe_load_class(b"loop/A"), Err(LoadError::ClassCircularity));
    assert_eq!(area.maybe_load_class(b"loop/Self"), Err(LoadError::ClassCircularity));
    assert_eq!(area.class_count(), 0);
    // The super class that was loaded before the failure stays.
    assert_eq!(area.maybe_load_class(b"zoo/Stray"), Err(LoadError::NotFound));
    assert_eq!(area.maybe_load_class(b"zoo/Odd").is_err(), true);
    assert!(matches!(area.maybe_load_class(b"zoo/Odd"), Err(LoadError::BadDescriptor(_))));
    assert_eq!(area.find_class(b"java/lang/Object"), Some(0));
    assert_eq!(area.class_count(), 1);
    // A failure poisons nothing: other classes still load.
    assert_eq!(area.maybe_load_class(b"zoo/Dog"), Ok(4));
}

#[test]
fn the_first_hit_on_the_search_path_wins() {
    let mut first = class("p/Twice", Some("java/lang/Object"));
    first.methods.push(method(0x0009, "which", "()I", 1, 0, vec![0x04, 0xac]));
    let mut second = class("p/Twice", Some("java/lang/Object"));
    second.methods.push(method(0x0009, "other", "()I", 1, 0, vec![0x05, 0xac]));
    let path = vec![
        object_class(),
        source("p/Twice", build(&first, Pool::new())),
        source("p/Twice", build(&second, Pool::new())),
    ];
    let mut area = MethodArea::new(path);
    let id = area.maybe_load_class(b"p/Twice").unwrap();
    assert_eq!(area.classes[id].declares(false, b"which", None), Some(0));
    assert_eq!(area.classes[id].declares(false, b"other", None), None);
}

#[test]
fn methods_and_fields_are_resolved_up_the_hierarchy() {
    let mut area = MethodArea::new(animals());
    assert_eq!(area.resolve_method(b"zoo/Dog", b"sound", b"()I"), Err(ResolveError::NotLoaded));
    assert_eq!(area.resolve_field(b"zoo/Dog", b"age"), Err(ResolveError::NotLoaded));
    area.maybe_load_class(b"zoo/Dog").unwrap();
    // declared by the class itself
    assert_eq!(
        area.resolve_method(b"zoo/Dog", b"sound", b"()I"),
        Ok(MemberRef { class_id: 4, index: 0 })
    );
    assert_eq!(
        area.resolve_method(b"zoo/Animal", b"sound", b"()I"),
        Ok(MemberRef { class_id: 1, index: 0 })
    );
    // inherited from the super class
    assert_eq!(
        area.resolve_method(b"zoo/Dog", b"eat", b"(I)V"),
        Ok(MemberRef { class_id: 1, index: 1 })
    );
    // inherited from java/lang/Object, two classes up
    assert_eq!(
        area.resolve_method(b"zoo/Dog", b"<init>", b"()V"),
        Ok(MemberRef { class_id: 0, index: 0 })
    );
    // found in an interface, and in the super interface of an interface
    assert_eq!(
        area.resolve_method(b"zoo/Dog", b"name", b"()Ljava/lang/String;"),
        Ok(MemberRef { class_id: 3, index: 0 })
    );
    assert_eq!(
        area.resolve_method(b"zoo/Dog", b"legs", b"()I"),
        Ok(MemberRef { class_id: 2, index: 0 })
    );
    assert_eq!(area.resolve_method(b"zoo/Dog", b"sound", b"()J"), Err(ResolveError::NoSuchMethod));
    assert_eq!(area.resolve_method(b"zoo/Animal", b"legs", b"()I"), Err(ResolveError::NoSuchMethod));
    assert_eq!(area.resolve_method(b"zoo/Cat", b"sound", b"()I"), Err(ResolveError::NotLoaded));

    assert_eq!(area.resolve_field(b"zoo/Dog", b"tricks"), Ok(MemberRef { class_id: 4, index: 0 }));
    assert_eq!(area.resolve_field(b"zoo/Dog", b"age"), Ok(MemberRef { class_id: 4, index: 1 }));
    assert_eq!(area.resolve_field(b"zoo/Animal", b"age"), Ok(MemberRef { class_id: 1, index: 0 }));
    assert_eq!(area.resolve_field(b"zoo/Dog", b"count"), Ok(MemberRef { class_id: 1, index: 2 }));
    assert_eq!(area.resolve_field(b"zoo/Dog", b"LIMIT"), Ok(MemberRef { class_id: 2, index: 0 }));
    assert_eq!(area.resolve_field(b"zoo/Dog", b"colour"), Err(ResolveError::NoSuchField));
    // Resolving again gives the same target, also after more classes were loaded.
    area.maybe_load_class(b"java/lang/String").unwrap();
    assert_eq!(
        area.resolve_method(b"zoo/Dog", b"eat", b"(I)V"),
        Ok(MemberRef { class_id: 1, index: 1 })
    );
    assert_eq!(area.lookup(9, false, b"eat", None), None);
    assert_eq!(area.in_chain(4, false, b"legs", None), None);
    assert_eq!(area.in_all_interfaces(4, false, b"legs", None), Some(MemberRef { class_id: 2, index: 0 }));
}

#[test]
fn static_fields_start_at_their_defaults() {
    let mut area = MethodArea::new(animals());
    let dog = area.maybe_load_class(b"zoo/Dog").unwrap();
    let zero = JvmValue::Primitive(JvmPrimitiveType::Int, 0);
    assert_eq!(area.get_static(1, b"count"), Some(zero));
    assert_eq!(area.get_static(1, b"keeper"), Some(create_null_value()));
    assert_eq!(area.get_static(1, b"age"), None);
    assert_eq!(area.get_static(dog, b"count"), None);
    assert_eq!(area.get_static(77, b"count"), None);
    assert!(area.set_static(1, b"count", JvmValue::from_int(5)));
    assert_eq!(area.get_static(1, b"count"), Some(JvmValue::from_int(5)));
    assert_eq!(area.get_static(1, b"keeper"), Some(create_null_value()));
    assert!(!area.set_static(1, b"age", JvmValue::from_int(5)));
    assert!(!area.set_static(77, b"count", JvmValue::from_int(5)));
}

#[test]
fn a_class_is_initialized_once() {
    let mut area = MethodArea::new(animals());
    let dog = area.maybe_load_class(b"zoo/Dog").unwrap();
    assert_eq!(area.init_state(dog), Some(InitState::Uninitialized));
    assert_eq!(area.init_state(99), None);
    // The class and its super classes are started together, the class first.
    assert_eq!(area.begin_initialization(dog), vec![4, 1, 0]);
    assert_eq!(area.init_state(dog), Some(InitState::Initializing));
    assert_eq!(area.init_state(1), Some(InitState::Initializing));
    assert_eq!(area.init_state(3), Some(InitState::Uninitialized));
    // A second request, as from inside the initializer, starts nothing.
    assert_eq!(area.begin_initialization(dog), Vec::<usize>::new());
    assert_eq!(area.begin_initialization(1), Vec::<usize>::new());
    area.finish_initialization(0, true);
    area.finish_initialization(1, false);
    area.finish_initialization(dog, true);
    assert_eq!(area.init_state(0), Some(InitState::Initialized));
    assert_eq!(area.init_state(1), Some(InitState::Errored));
    assert_eq!(area.init_state(dog), Some(InitState::Initialized));
    assert_eq!(area.begin_initialization(dog), Vec::<usize>::new());
    assert_eq!(area.begin_initialization(1), Vec::<usize>::new());
    // Finishing a class that is not under way changes nothing.
    area.finish_initialization(dog, false);
    area.finish_initialization(3, true);
    assert_eq!(area.init_state(dog), Some(InitState::Initialized));
    assert_eq!(area.init_state(3), Some(InitState::Uninitialized));
    // An interface is started on its own; its super class is done already.
    assert_eq!(area.begin_initialization(3), vec![3]);
    assert_eq!(area.begin_initialization(99), Vec::<usize>::new());
}

#[test]
fn objects_have_a_layer_for_each_class() {
    let mut area = MethodArea::new(animals());
    area.maybe_load_class(b"zoo/Dog").unwrap();
    let mut dog = JvmObject::new(b"zoo/Dog");
    assert_eq!(dog.get_class(), &b"zoo/Dog".to_vec());
    assert_eq!(dog.hierarchy(), "zoo/Dog".to_string());
    assert!(dog.instantiate(&area));
    assert_eq!(dog.layers.len(), 3);
    assert_eq!(dog.get_class(), &b"zoo/Dog".to_vec());
    assert_eq!(dog.hierarchy(), "zoo/Dog, zoo/Animal, java/lang/Object".to_string());
    assert_eq!(dog.hierarchy_bytes(), b"zoo/Dog, zoo/Animal, java/lang/Object".to_vec());
    assert!(dog.is_type_of(&"zoo/Dog".to_string()));
    assert!(dog.is_type_of(&"zoo/Animal".to_string()));
    assert!(dog.is_type_of(&"java/lang/Object".to_string()));
    assert!(!dog.is_type_of(&"zoo/Pet".to_string()));
    assert!(!dog.is_type_of(&"zoo/Cat".to_string()));
    assert!(dog.is_instance_of(b"zoo/Animal"));
    // an interface of the class, and the super interface of that interface
    assert!(area.instance_of(&dog, b"zoo/Pet"));
    assert!(area.instance_of(&dog, b"zoo/Walker"));
    assert!(area.instance_of(&dog, b"zoo/Animal"));
    assert!(!area.instance_of(&dog, b"java/lang/String"));

    // Instance fields start at the default of their type; static fields are no part of an object.
    assert_eq!(dog.get_field(&"tricks".to_string()), Some(create_null_value()));
    assert_eq!(dog.get_field(&"weight".to_string()), Some(JvmValue::Primitive(JvmPrimitiveType::Long, 0)));
    assert_eq!(dog.get_field(&"count".to_string()), None);
    assert_eq!(dog.get_field(&"colour".to_string()), None);
    // Dog and Animal both declare `age`: the layer of Dog comes first.
    assert_eq!(dog.get_field(&"age".to_string()), Some(JvmValue::Primitive(JvmPrimitiveType::Short, 0)));
    assert_eq!(dog.find_field(b"age"), Some((0, 1)));
    assert_eq!(dog.find_field(b"weight"), Some((1, 1)));
    dog.set_field(&"weight".to_string(), JvmValue::from_long(31));
    assert_eq!(dog.get_field(&"weight".to_string()), Some(JvmValue::from_long(31)));
    assert_eq!(dog.layers[1].fields[1].value, JvmValue::from_long(31));
    assert_eq!(dog.layers[1].fields[0].value, JvmValue::Primitive(JvmPrimitiveType::Int, 0));
    // A field that no layer has is added to the layer of the object's own class.
    dog.set_field(&"colour".to_string(), JvmValue::from_int(3));
    assert_eq!(dog.find_field(b"colour"), Some((0, 2)));
    assert_eq!(dog.field(b"colour"), Some(JvmValue::from_int(3)));

    let mut cat = JvmObject::new(b"zoo/Cat");
    assert!(!cat.instantiate(&area));
    assert_eq!(cat.layers.len(), 1);
    assert_eq!(cat.hierarchy(), "zoo/Cat".to_string());
}

#[test]
fn the_heap_hands_out_identifiers() {
    let mut area = MethodArea::new(animals());
    area.maybe_load_class(b"zoo/Dog").unwrap();
    let mut heap = Heap::new();
    assert_eq!(heap.new_object(b"zoo/Cat", &area), None);
    assert_eq!(heap.object_count(), 0);
    assert_eq!(heap.new_object(b"zoo/Animal", &area), Some(0));
    assert_eq!(heap.new_object(b"zoo/Dog", &area), Some(1));
    assert_eq!(heap.object_count(), 2);
    assert_eq!(heap.get_object(0).hierarchy(), "zoo/Animal, java/lang/Object".to_string());
    assert_eq!(heap.get_object(1).get_class(), &b"zoo/Dog".to_vec());

    assert_eq!(heap.new_array(b"I", 3), Ok(0));
    assert_eq!(heap.new_array(b"J", 0), Ok(1));
    assert_eq!(heap.new_array(b"Ljava/lang/String;", 2), Ok(2));
    assert_eq!(heap.new_array(b"I", -1), Err(JavaExceptionKind::NegativeArraySize));
    assert_eq!(heap.new_array(b"I", i32::MIN), Err(JavaExceptionKind::NegativeArraySize));
    assert_eq!(heap.array_count(), 3);
    assert_eq!(heap.get_array(0).items, vec![JvmValue::Primitive(JvmPrimitiveType::Int, 0); 3]);
    assert_eq!(heap.get_array(0).component, b"I".to_vec());
    assert_eq!(heap.get_array(1).length(), 0);
    assert_eq!(heap.get_array(2).items, vec![create_null_value(); 2]);
    assert!(heap.get_array(0).is_instance_of(b"[I"));
    assert!(heap.get_array(0).is_instance_of(b"java/lang/Object"));
    assert!(!heap.get_array(0).is_instance_of(b"[J"));
    assert!(!heap.get_array(0).is_instance_of(b"I"));
    assert!(heap.get_array(2).is_instance_of(b"[Ljava/lang/String;"));
}

#[test]
fn string_objects_hold_their_text() {
    let mut area = MethodArea::new(animals());
    let mut heap = Heap::new();
    assert!(create_static_string_object(b"Hello", &mut heap, &area).is_none());
    assert_eq!(heap.array_count(), 0);
    area.maybe_load_class(b"java/lang/String").unwrap();
    let s = create_static_string_object(b"Hello", &mut heap, &area).unwrap();
    assert_eq!(s.hierarchy(), "java/lang/String, java/lang/Object".to_string());
    assert_eq!(s.field(b"value"), Some(JvmValue::Reference(JvmReferenceTargetType::Array(0))));
    let chars = heap.get_array(0);
    assert_eq!(chars.component, b"C".to_vec());
    assert_eq!(chars.length(), 5);
    assert_eq!(chars.items[1], JvmValue::Primitive(JvmPrimitiveType::Char, b'e' as u64));
    let id = heap.add_object(s);
    let reference = JvmValue::Reference(JvmReferenceTargetType::Object(id));
    assert_eq!(heap.text_of(&reference), Some(b"Hello".to_vec()));
    assert_eq!(heap.text_of(&create_null_value()), Some(b"null".to_vec()));
    assert_eq!(heap.text_of(&JvmValue::from_int(1)), None);
    assert_eq!(heap.native_output(NativeMethod::PrintString, &[create_null_value(), reference]), Ok(b"Hello\n".to_vec()));
    assert_eq!(heap.native_output(NativeMethod::PrintInt, &[create_null_value(), JvmValue::from_int(-12)]), Ok(b"-12\n".to_vec()));
    assert_eq!(heap.native_output(NativeMethod::PrintLine, &[create_null_value()]), Ok(b"\n".to_vec()));
    assert_eq!(heap.native_output(NativeMethod::Nothing, &[]), Ok(Vec::new()));
    assert_eq!(heap.native_output(NativeMethod::PrintInt, &[create_null_value(), reference]), Err(FatalError::CategoryMismatch));
    assert_eq!(heap.native_output(NativeMethod::PrintString, &[reference]), Err(FatalError::CategoryMismatch));
}

#[test]
fn the_first_matching_handler_wins() {
    // Two rows: (0, 10, 20, T1) and (5, 15, 30, T2).
    let mut pool = Pool::new();
    let t1 = pool.class("T1");
    let t2 = pool.class("T2");
    let text = pool.utf8("T1");
    let holder = Class::load(&build(&class("Holder", Some("java/lang/Object")), pool)).unwrap();
    let pool = holder.get_constant_pool();
    let table = vec![
        ExceptionEntry { start_pc: 0, end_pc: 10, handler_pc: 20, catch_type: t1 },
        ExceptionEntry { start_pc: 5, end_pc: 15, handler_pc: 30, catch_type: t2 },
    ];
    let path = vec![object_class(), plain_class("T1", "java/lang/Object"), plain_class("T2", "T1"), plain_class("T3", "java/lang/Object")];
    let mut area = MethodArea::new(path);
    area.maybe_load_class(b"T2").unwrap();
    area.maybe_load_class(b"T3").unwrap();
    let make = |name: &[u8]| {
        let mut o = JvmObject::new(name);
        assert!(o.instantiate(&area));
        o
    };
    let (one, two, three) = (make(b"T1"), make(b"T2"), make(b"T3"));
    // A throw at 7 of an exception assignable to T1: the first row wins, though the second covers 7 too.
    assert_eq!(find_handler(&table, pool, 7, &one), Some(20));
    assert_eq!(find_handler(&table, pool, 7, &two), Some(20));
    assert_eq!(find_handler(&table, pool, 7, &three), None);
    // Outside the first range only the second row can catch, and it takes T2 alone.
    assert_eq!(find_handler(&table, pool, 12, &two), Some(30));
    assert_eq!(find_handler(&table, pool, 12, &one), None);
    // A range takes in its start and leaves out its end.
    assert_eq!(find_handler(&table, pool, 0, &one), Some(20));
    assert_eq!(find_handler(&table, pool, 10, &one), None);
    assert_eq!(find_handler(&table, pool, 10, &two), Some(30));
    assert_eq!(find_handler(&table, pool, 15, &two), None);
    assert_eq!(find_handler(&Vec::new(), pool, 7, &one), None);
    // A catch type of 0 takes everything; one that names no class takes nothing.
    let any = vec![ExceptionEntry { start_pc: 0, end_pc: 10, handler_pc: 40, catch_type: 0 }];
    assert_eq!(find_handler(&any, pool, 7, &three), Some(40));
    let broken = vec![
        ExceptionEntry { start_pc: 0, end_pc: 10, handler_pc: 50, catch_type: text },
        ExceptionEntry { start_pc: 0, end_pc: 10, handler_pc: 60, catch_type: 0 },
    ];
    assert_eq!(find_handler(&broken, pool, 7, &one), Some(60));
    assert!(catches(&table[0], pool, 9, &one));
    assert!(!catches(&table[1], pool, 9, &one));
}

#[test]
fn exceptions_of_the_machine_have_their_classes() {
    assert_eq!(exception_class_name(JavaExceptionKind::NullPointer), b"java/lang/NullPointerException".to_vec());
    assert_eq!(exception_class_name(JavaExceptionKind::ArrayIndexOutOfBounds), b"java/lang/ArrayIndexOutOfBoundsException".to_vec());
    assert_eq!(exception_class_name(JavaExceptionKind::Arithmetic), b"java/lang/ArithmeticException".to_vec());
    assert_eq!(exception_class_name(JavaExceptionKind::ClassCast), b"java/lang/ClassCastException".to_vec());
    assert_eq!(exception_class_name(JavaExceptionKind::NegativeArraySize), b"java/lang/NegativeArraySizeException".to_vec());
    assert_eq!(exception_class_name(JavaExceptionKind::ExceptionInInitializer), b"java/lang/ExceptionInInitializerError".to_vec());
    assert_eq!(exception_class_name(JavaExceptionKind::NoClassDefFound), b"java/lang/NoClassDefFoundError".to_vec());
    assert_eq!(exception_class_name(JavaExceptionKind::Linkage), b"java/lang/LinkageError".to_vec());
    assert_eq!(object_class_name(), b"java/lang/Object".to_vec());
    assert_eq!(string_class_name(), b"java/lang/String".to_vec());
    assert_eq!(string_bytes(&"h\u{e9}".to_string()), &[b'h', 0xc3, 0xa9]);
}

#[test]
fn frames_are_made_for_methods_with_code() {
    let mut area = MethodArea::new(animals());
    area.maybe_load_class(b"zoo/Dog").unwrap();
    let eat = area.resolve_method(b"zoo/Dog", b"eat", b"(I)V").unwrap();
    let args = vec![create_null_value(), JvmValue::from_int(4)];
    let f = area.new_frame(eat, &args, 17, None).unwrap();
    assert_eq!((f.pc, f.resume, f.class_id, f.method_index), (0, 17, 1, 1));
    assert_eq!(f.locals, args);
    assert!(f.stack.is_empty());
    assert_eq!(f.code, vec![0xb1]);
    assert_eq!(f.max_stack, 0);
    assert_eq!(f.initializes, None);
    // More arguments than the method has local variables.
    let many = vec![create_null_value(), JvmValue::from_long(4)];
    assert_eq!(area.new_frame(eat, &many, 0, None).err(), Some(FatalError::BadLocal));
    let name = area.resolve_method(b"zoo/Dog", b"name", b"()Ljava/lang/String;").unwrap();
    assert_eq!(area.new_frame(name, &args, 0, None).err(), Some(FatalError::NoCode));
    assert_eq!(area.new_frame(MemberRef { class_id: 9, index: 0 }, &args, 0, None).err(), Some(FatalError::UnknownClass));
    assert_eq!(area.new_frame(MemberRef { class_id: 1, index: 9 }, &args, 0, None).err(), Some(FatalError::UnknownClass));
}
