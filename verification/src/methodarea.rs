//! The method area: the registry of loaded classes.
use crate::bytes::{bytes_eq, copy_range};
use crate::class::{optional_bytes, spec_field_in, spec_method_in, Class, ClassView};
use crate::constantpool::{spec_class_name, spec_utf8};
use crate::error::{InvalidConstantReference, ParseError};
use crate::format::Format;
use crate::typevalues::{
    find_named, named_position, spec_default_value, spec_field_type, JvmType, JvmValue,
    NamedValue, NamedValueView,
};
use vstd::prelude::*;

verus! {

/// The access flag of a static member.
pub const ACC_STATIC: u16 = 0x0008;

/// The access flag of a native method.
pub const ACC_NATIVE: u16 = 0x0100;

/// The access flag of an abstract method.
pub const ACC_ABSTRACT: u16 = 0x0400;

/// How far the initialization of a class has come.
#[derive(Clone, Copy, Debug, PartialEq, Eq, Structural)]
pub enum InitState {
    Uninitialized,
    Initializing,
    Initialized,
    Errored,
}

/// Why a class could not be loaded.
#[derive(Clone, Copy, Debug, PartialEq, Eq, Structural)]
pub enum LoadError {
    /// No entry of the search path has the name.
    NotFound,
    /// The bytes found under the name are no class file.
    Parse(ParseError),
    /// The class file found under the name declares another name.
    WrongName,
    /// The class is among its own super classes or super interfaces.
    ClassCircularity,
    /// A static field has a descriptor that names no type; the index is that of the
    /// descriptor in the pool.
    BadDescriptor(u16),
}

/// A class file in memory, under the name by which it is looked up.
#[derive(Clone, Debug)]
pub struct ClassSource {
    pub name: Vec<u8>,
    pub bytes: Vec<u8>,
}

/// The mathematical value of a `ClassSource`.
pub struct ClassSourceView {
    pub name: Seq<u8>,
    pub bytes: Seq<u8>,
}

impl View for ClassSource {
    type V = ClassSourceView;

    open spec fn view(&self) -> ClassSourceView {
        ClassSourceView { name: self.name@, bytes: self.bytes@ }
    }
}

/// A class in the method area: the class file, the identifiers of its super class and
/// of its interfaces, its static fields and its initialization state.
#[derive(Debug)]
pub struct LoadedClass {
    pub class: Class,
    pub name: Vec<u8>,
    pub super_id: Option<usize>,
    pub interfaces: Vec<usize>,
    pub statics: Vec<NamedValue>,
    pub state: InitState,
}

/// The mathematical value of a `LoadedClass`.
pub struct LoadedClassView {
    pub class: ClassView,
    pub name: Seq<u8>,
    pub super_id: Option<usize>,
    pub interfaces: Seq<usize>,
    pub statics: Seq<NamedValueView>,
    pub state: InitState,
}

impl View for LoadedClass {
    type V = LoadedClassView;

    open spec fn view(&self) -> LoadedClassView {
        LoadedClassView {
            class: self.class@,
            name: self.name@,
            super_id: self.super_id,
            interfaces: self.interfaces@,
            statics: self.statics@.map_values(|v: NamedValue| v@),
            state: self.state,
        }
    }
}

/// The registry of loaded classes and the search path from which classes are loaded.
/// A class is known by its position in `classes`, which never changes once it is loaded.
#[derive(Debug)]
pub struct MethodArea {
    pub classes: Vec<LoadedClass>,
    pub search_path: Vec<ClassSource>,
}

/// The mathematical value of a `MethodArea`.
pub struct AreaView {
    pub classes: Seq<LoadedClassView>,
    pub search_path: Seq<ClassSourceView>,
}

impl View for MethodArea {
    type V = AreaView;

    open spec fn view(&self) -> AreaView {
        AreaView {
            classes: self.classes@.map_values(|c: LoadedClass| c@),
            search_path: self.search_path@.map_values(|s: ClassSource| s@),
        }
    }
}

/// The identifier of the first class from `from` on that is named `name`.
pub open spec fn spec_find_class(classes: Seq<LoadedClassView>, name: Seq<u8>, from: int) -> Option<
    int,
>
    decreases classes.len() - from,
{
    if from < 0 || from >= classes.len() {
        None
    } else if classes[from].name == name {
        Some(from)
    } else {
        spec_find_class(classes, name, from + 1)
    }
}

/// The position of the first entry of the search path from `from` on that is named
/// `name`: the first hit wins.
pub open spec fn spec_locate(path: Seq<ClassSourceView>, name: Seq<u8>, from: int) -> Option<int>
    decreases path.len() - from,
{
    if from < 0 || from >= path.len() {
        None
    } else if path[from].name == name {
        Some(from)
    } else {
        spec_locate(path, name, from + 1)
    }
}

/// The fields from position `from` on, behind those of `acc`, each under its name and
/// with the default value of its type: the fields that carry `ACC_STATIC` where
/// `statics` holds, the others where it does not.
pub open spec fn spec_field_defaults(
    class: ClassView,
    statics: bool,
    from: int,
    acc: Seq<NamedValueView>,
) -> Result<
    Seq<NamedValueView>,
    LoadError,
>
    decreases class.fields.len() - from,
{
    if from < 0 || from >= class.fields.len() {
        Ok(acc)
    } else if (class.fields[from].access_flags & ACC_STATIC != 0) != statics {
        spec_field_defaults(class, statics, from + 1, acc)
    } else {
        match (
            spec_utf8(class.constant_pool, class.fields[from].name_index),
            spec_utf8(class.constant_pool, class.fields[from].descriptor_index),
        ) {
            (Ok(name), Ok(descriptor)) => match spec_field_type(descriptor) {
                Some(t) => spec_field_defaults(
                    class,
                    statics,
                    from + 1,
                    acc.push(NamedValueView { name, value: spec_default_value(t) }),
                ),
                None => Err(LoadError::BadDescriptor(class.fields[from].descriptor_index)),
            },
            (Err(e), _) => Err(LoadError::Parse(ParseError::BadIndex(e.index))),
            (_, Err(e)) => Err(LoadError::Parse(ParseError::BadIndex(e.index))),
        }
    }
}

/// The names of the classes that are being loaded are good for a search path: no name
/// occurs twice, and each is the name of an entry of the path.
pub open spec fn pending_valid(path: Seq<ClassSourceView>, pending: Seq<Seq<u8>>) -> bool {
    &&& pending.no_duplicates()
    &&& forall|i: int|
        0 <= i < pending.len() ==> spec_locate(path, #[trigger] pending[i], 0) is Some
}

/// Where `spec_locate` finds an entry, it has the name.
pub proof fn lemma_locate(path: Seq<ClassSourceView>, name: Seq<u8>, from: int)
    requires
        0 <= from,
        spec_locate(path, name, from) is Some,
    ensures
        from <= spec_locate(path, name, from)->Some_0 < path.len(),
        path[spec_locate(path, name, from)->Some_0].name == name,
    decreases path.len() - from,
{
    if path[from].name != name {
        lemma_locate(path, name, from + 1);
    }
}

/// There is room for one more name: where the names being loaded are good for the
/// path, and one more name of the path is not among them, they are fewer than the
/// entries of the path.
pub proof fn lemma_pending_room(
    path: Seq<ClassSourceView>,
    pending: Seq<Seq<u8>>,
    name: Seq<u8>,
)
    requires
        pending_valid(path, pending),
        !pending.contains(name),
        spec_locate(path, name, 0) is Some,
    ensures
        pending.len() < path.len(),
        pending_valid(path, pending.push(name)),
{
    broadcast use vstd::seq_lib::seq_to_set_is_finite;

    let names = path.map_values(|s: ClassSourceView| s.name);
    let more = pending.push(name);
    assert(more.no_duplicates()) by {
        assert forall|i: int, j: int| 0 <= i < more.len() && 0 <= j < more.len() && i != j implies more[i]
            != more[j] by {
            if i < pending.len() && j < pending.len() {
                assert(pending[i] != pending[j]);
            } else if i < pending.len() {
                assert(pending.contains(pending[i]));
            } else {
                assert(pending.contains(pending[j]));
            }
        }
    }
    assert forall|i: int| 0 <= i < more.len() implies spec_locate(path, #[trigger] more[i], 0)
        is Some by {
        if i < pending.len() {
            assert(more[i] == pending[i]);
        }
    }
    more.unique_seq_to_set();
    names.lemma_cardinality_of_set();
    assert forall|x: Seq<u8>| more.to_set().contains(x) implies names.to_set().contains(x) by {
        let i = choose|i: int| 0 <= i < more.len() && more[i] == x;
        lemma_locate(path, x, 0);
        let k = spec_locate(path, x, 0)->Some_0;
        assert(names[k] == x);
    }
    vstd::set_lib::lemma_len_subset(more.to_set(), names.to_set());
}

/// The classes after loading the class named `name`, and the identifier of that class;
/// `pending` holds the names of the classes whose loading has asked for this one.
///
/// A class that is loaded is found. A class that is being loaded has asked, through
/// its super classes or interfaces, for itself: that is `ClassCircularity`. Another
/// class is looked up on the search path, parsed, and held to the name it was asked
/// for; its super class and then its interfaces are loaded in the same way; then the
/// class is added behind all that are loaded. Classes loaded before a failure stay.
pub open spec fn spec_load_in(
    classes: Seq<LoadedClassView>,
    path: Seq<ClassSourceView>,
    name: Seq<u8>,
    pending: Seq<Seq<u8>>,
) -> (Seq<LoadedClassView>, Result<int, LoadError>)
    decreases path.len() - pending.len(), 0nat, 0nat,
    when pending_valid(path, pending)
{
    match spec_find_class(classes, name, 0) {
        Some(id) => (classes, Ok(id)),
        None => if pending.contains(name) {
            (classes, Err(LoadError::ClassCircularity))
        } else {
            match spec_locate(path, name, 0) {
                None => (classes, Err(LoadError::NotFound)),
                Some(k) => match Class::spec_parse(path[k].bytes, 0) {
                    Err(e) => (classes, Err(LoadError::Parse(e))),
                    Ok((class, _)) => if spec_class_name(class.constant_pool, class.this_class)
                        != Ok::<Seq<u8>, InvalidConstantReference>(name) {
                        (classes, Err(LoadError::WrongName))
                    } else {
                        proof {
                            lemma_pending_room(path, pending, name);
                        }
                        spec_load_parsed(classes, path, class, name, pending.push(name))
                    },
                },
            }
        },
    }
}

/// The second half of `spec_load_in`: the super class, the interfaces, the static
/// fields, and the new entry.
pub open spec fn spec_load_parsed(
    classes: Seq<LoadedClassView>,
    path: Seq<ClassSourceView>,
    class: ClassView,
    name: Seq<u8>,
    pending: Seq<Seq<u8>>,
) -> (Seq<LoadedClassView>, Result<int, LoadError>)
    decreases path.len() - pending.len(), 2nat, 0nat,
{
    let (c1, sup) = spec_load_super(classes, path, class, pending);
    match sup {
        Err(e) => (c1, Err(e)),
        Ok(super_id) => spec_finish(
            spec_load_interfaces(c1, path, class, 0, Seq::empty(), pending),
            class,
            name,
            super_id,
        ),
    }
}

/// The last step of loading: where the interfaces are loaded, the class is added behind
/// all that are loaded, with its static fields at their default values.
pub open spec fn spec_finish(
    loaded: (Seq<LoadedClassView>, Result<Seq<usize>, LoadError>),
    class: ClassView,
    name: Seq<u8>,
    super_id: Option<usize>,
) -> (Seq<LoadedClassView>, Result<int, LoadError>) {
    match loaded.1 {
        Err(e) => (loaded.0, Err(e)),
        Ok(interfaces) => match spec_field_defaults(class, true, 0, Seq::empty()) {
            Err(e) => (loaded.0, Err(e)),
            Ok(statics) => (
                loaded.0.push(
                    LoadedClassView {
                        class,
                        name,
                        super_id,
                        interfaces,
                        statics,
                        state: InitState::Uninitialized,
                    },
                ),
                Ok(loaded.0.len() as int),
            ),
        },
    }
}

/// The classes after loading the super class of `class`, and its identifier; `None` for
/// a class without a super class.
pub open spec fn spec_load_super(
    classes: Seq<LoadedClassView>,
    path: Seq<ClassSourceView>,
    class: ClassView,
    pending: Seq<Seq<u8>>,
) -> (Seq<LoadedClassView>, Result<Option<usize>, LoadError>)
    decreases path.len() - pending.len(), 1nat, 0nat,
{
    if class.super_class == 0 {
        (classes, Ok(None))
    } else {
        match spec_class_name(class.constant_pool, class.super_class) {
            Err(e) => (classes, Err(LoadError::Parse(ParseError::BadIndex(e.index)))),
            Ok(super_name) => {
                let (c1, r) = spec_load_in(classes, path, super_name, pending);
                match r {
                    Err(e) => (c1, Err(e)),
                    Ok(id) => (c1, Ok(Some(id as usize))),
                }
            },
        }
    }
}

/// The classes after loading the interfaces of `class` from position `i` on, and the
/// identifiers of all its interfaces, those of `acc` first.
pub open spec fn spec_load_interfaces(
    classes: Seq<LoadedClassView>,
    path: Seq<ClassSourceView>,
    class: ClassView,
    i: int,
    acc: Seq<usize>,
    pending: Seq<Seq<u8>>,
) -> (Seq<LoadedClassView>, Result<Seq<usize>, LoadError>)
    decreases path.len() - pending.len(), 1nat, class.interfaces.len() - i + 1,
{
    if i < 0 || i >= class.interfaces.len() {
        (classes, Ok(acc))
    } else {
        match spec_class_name(class.constant_pool, class.interfaces[i]) {
            Err(e) => (classes, Err(LoadError::Parse(ParseError::BadIndex(e.index)))),
            Ok(interface_name) => {
                let (c1, r) = spec_load_in(classes, path, interface_name, pending);
                match r {
                    Err(e) => (c1, Err(e)),
                    Ok(id) => spec_load_interfaces(
                        c1,
                        path,
                        class,
                        i + 1,
                        acc.push(id as usize),
                        pending,
                    ),
                }
            },
        }
    }
}

/// The area after loading the class named `name`, with all it builds on, and the
/// identifier of the class.
pub open spec fn spec_load(area: AreaView, name: Seq<u8>) -> (AreaView, Result<int, LoadError>) {
    (
        AreaView {
            classes: spec_load_in(area.classes, area.search_path, name, Seq::empty()).0,
            search_path: area.search_path,
        },
        spec_load_in(area.classes, area.search_path, name, Seq::empty()).1,
    )
}

/// The views of the names.
pub open spec fn name_views(names: Seq<Vec<u8>>) -> Seq<Seq<u8>> {
    names.map_values(|n: Vec<u8>| n@)
}

/// Whether `name` is among `names`.
pub fn holds_name(names: &Vec<Vec<u8>>, name: &[u8]) -> (r: bool)
    ensures
        r == name_views(names@).contains(name@),
{
    let mut i: usize = 0;
    while i < names.len()
        invariant
            i <= names@.len(),
            forall|k: int| 0 <= k < i ==> name_views(names@)[k] != name@,
        decreases names@.len() - i,
    {
        assert(name_views(names@)[i as int] == names@[i as int]@);
        if bytes_eq(names[i].as_slice(), name) {
            return true;
        }
        i = i + 1;
    }
    false
}

/// The names of `names` with `name` behind them.
pub fn with_name(names: &Vec<Vec<u8>>, name: &[u8]) -> (r: Vec<Vec<u8>>)
    ensures
        name_views(r@) == name_views(names@).push(name@),
{
    let mut out: Vec<Vec<u8>> = Vec::new();
    let mut i: usize = 0;
    while i < names.len()
        invariant
            i <= names@.len(),
            out@.len() == i,
            forall|k: int| 0 <= k < i ==> (#[trigger] out@[k])@ == names@[k]@,
        decreases names@.len() - i,
    {
        let one: Vec<u8> = copy_range(names[i].as_slice(), 0, names[i].len());
        assert(one@ =~= names@[i as int]@);
        out.push(one);
        i = i + 1;
    }
    let last: Vec<u8> = copy_range(name, 0, name.len());
    assert(last@ =~= name@);
    out.push(last);
    assert(name_views(out@) =~= name_views(names@).push(name@));
    out
}

impl MethodArea {
    /// An area without classes that loads from `search_path`.
    pub fn new(search_path: Vec<ClassSource>) -> (r: MethodArea)
        ensures
            r@ == (AreaView {
                classes: Seq::empty(),
                search_path: search_path@.map_values(|s: ClassSource| s@),
            }),
    {
        let r = MethodArea { classes: Vec::new(), search_path };
        assert(r@.classes =~= Seq::<LoadedClassView>::empty());
        r
    }

    /// The number of loaded classes.
    pub fn class_count(&self) -> (n: usize)
        ensures
            n == self@.classes.len(),
    {
        self.classes.len()
    }

    /// The identifier of the loaded class named `name`.
    pub fn find_class(&self, name: &[u8]) -> (r: Option<usize>)
        ensures
            match r {
                Some(id) => spec_find_class(self@.classes, name@, 0) == Some(id as int) && id
                    < self@.classes.len(),
                None => spec_find_class(self@.classes, name@, 0) is None,
            },
    {
        let mut i: usize = 0;
        while i < self.classes.len()
            invariant
                i <= self@.classes.len(),
                spec_find_class(self@.classes, name@, 0) == spec_find_class(
                    self@.classes,
                    name@,
                    i as int,
                ),
            decreases self@.classes.len() - i,
        {
            assert(self@.classes[i as int] == self.classes@[i as int]@);
            if bytes_eq(self.classes[i].name.as_slice(), name) {
                return Some(i);
            }
            i = i + 1;
        }
        None
    }

    /// The position on the search path of the first class file named `name`.
    pub fn locate(&self, name: &[u8]) -> (r: Option<usize>)
        ensures
            match r {
                Some(k) => spec_locate(self@.search_path, name@, 0) == Some(k as int) && k
                    < self@.search_path.len(),
                None => spec_locate(self@.search_path, name@, 0) is None,
            },
    {
        let mut i: usize = 0;
        while i < self.search_path.len()
            invariant
                i <= self@.search_path.len(),
                spec_locate(self@.search_path, name@, 0) == spec_locate(
                    self@.search_path,
                    name@,
                    i as int,
                ),
            decreases self@.search_path.len() - i,
        {
            assert(self@.search_path[i as int] == self.search_path@[i as int]@);
            if bytes_eq(self.search_path[i].name.as_slice(), name) {
                return Some(i);
            }
            i = i + 1;
        }
        None
    }

    /// Loads the class named `name` unless it is loaded, and with it its super classes
    /// and interfaces; returns its identifier.
    pub fn maybe_load_class(&mut self, name: &[u8]) -> (r: Result<usize, LoadError>)
        ensures
            spec_load(old(self)@, name@) == (
                final(self)@,
                match r {
                    Ok(id) => Ok::<int, LoadError>(id as int),
                    Err(e) => Err::<int, LoadError>(e),
                },
            ),
    {
        let pending: Vec<Vec<u8>> = Vec::new();
        assert(name_views(pending@) =~= Seq::<Seq<u8>>::empty());
        self.load_in(name, &pending)
    }

    /// Loads the class named `name` on behalf of the classes named in `pending`, whose
    /// loading is under way.
    pub(crate) fn load_in(&mut self, name: &[u8], pending: &Vec<Vec<u8>>) -> (r: Result<usize, LoadError>)
        requires
            pending_valid(old(self)@.search_path, name_views(pending@)),
        ensures
            final(self)@.search_path == old(self)@.search_path,
            spec_load_in(old(self)@.classes, old(self)@.search_path, name@, name_views(pending@))
                == (
                final(self)@.classes,
                match r {
                    Ok(id) => Ok::<int, LoadError>(id as int),
                    Err(e) => Err::<int, LoadError>(e),
                },
            ),
        decreases old(self)@.search_path.len() - pending@.len(), 0nat, 0nat,
    {
        match self.find_class(name) {
            Some(id) => {
                return Ok(id);
            },
            None => {},
        }
        if holds_name(pending, name) {
            return Err(LoadError::ClassCircularity);
        }
        let k: usize = match self.locate(name) {
            Some(k) => k,
            None => {
                return Err(LoadError::NotFound);
            },
        };
        assert(self@.search_path[k as int] == self.search_path@[k as int]@);
        let class: Class = match Class::parse(self.search_path[k].bytes.as_slice(), 0) {
            Ok((c, _)) => c,
            Err(e) => {
                return Err(LoadError::Parse(e));
            },
        };
        let same: bool = match class.constant_pool.resolve_class_name(class.this_class) {
            Ok(n) => bytes_eq(n.as_slice(), name),
            Err(_) => false,
        };
        if !same {
            return Err(LoadError::WrongName);
        }
        let deeper: Vec<Vec<u8>> = with_name(pending, name);
        proof {
            lemma_pending_room(self@.search_path, name_views(pending@), name@);
            assert(name_views(deeper@).len() == deeper@.len());
            assert(name_views(pending@).len() == pending@.len());
        }
        let super_id: Option<usize> = if class.super_class == 0 {
            None
        } else {
            let super_name: &Vec<u8> = match class.constant_pool.resolve_class_name(
                class.super_class,
            ) {
                Ok(n) => n,
                Err(e) => {
                    return Err(LoadError::Parse(ParseError::BadIndex(e.index)));
                },
            };
            match self.load_in(super_name.as_slice(), &deeper) {
                Ok(id) => Some(id),
                Err(e) => {
                    return Err(e);
                },
            }
        };
        let interfaces: Vec<usize> = match self.load_interfaces(&class, &deeper) {
            Ok(ids) => ids,
            Err(e) => {
                return Err(e);
            },
        };
        let ghost loaded = self@.classes;
        let statics: Vec<NamedValue> = match field_defaults(&class, true) {
            Ok(s) => s,
            Err(e) => {
                return Err(e);
            },
        };
        let owned: Vec<u8> = copy_range(name, 0, name.len());
        assert(owned@ =~= name@);
        let id: usize = self.classes.len();
        let entry = LoadedClass {
            class,
            name: owned,
            super_id,
            interfaces,
            statics,
            state: InitState::Uninitialized,
        };
        let ghost lv = entry@;
        self.classes.push(entry);
        assert(self@.classes =~= loaded.push(lv));
        Ok(id)
    }

    /// Loads the interfaces of `class` and returns their identifiers, in the order of
    /// the class file.
    pub(crate) fn load_interfaces(&mut self, class: &Class, pending: &Vec<Vec<u8>>) -> (r: Result<
        Vec<usize>,
        LoadError,
    >)
        requires
            pending_valid(old(self)@.search_path, name_views(pending@)),
        ensures
            final(self)@.search_path == old(self)@.search_path,
            spec_load_interfaces(
                old(self)@.classes,
                old(self)@.search_path,
                class@,
                0,
                Seq::empty(),
                name_views(pending@),
            ) == (
                final(self)@.classes,
                match r {
                    Ok(ids) => Ok::<Seq<usize>, LoadError>(ids@),
                    Err(e) => Err::<Seq<usize>, LoadError>(e),
                },
            ),
        decreases old(self)@.search_path.len() - pending@.len(), 1nat, 0nat,
    {
        let mut interfaces: Vec<usize> = Vec::new();
        let mut i: usize = 0;
        while i < class.interfaces.len()
            invariant
                i <= class@.interfaces.len(),
                self@.search_path == old(self)@.search_path,
                pending_valid(self@.search_path, name_views(pending@)),
                spec_load_interfaces(
                    old(self)@.classes,
                    old(self)@.search_path,
                    class@,
                    0,
                    Seq::empty(),
                    name_views(pending@),
                ) == spec_load_interfaces(
                    self@.classes,
                    self@.search_path,
                    class@,
                    i as int,
                    interfaces@,
                    name_views(pending@),
                ),
            decreases class@.interfaces.len() - i,
        {
            let interface_name: &Vec<u8> = match class.constant_pool.resolve_class_name(
                class.interfaces[i],
            ) {
                Ok(n) => n,
                Err(e) => {
                    return Err(LoadError::Parse(ParseError::BadIndex(e.index)));
                },
            };
            match self.load_in(interface_name.as_slice(), pending) {
                Ok(id) => {
                    interfaces.push(id);
                },
                Err(e) => {
                    return Err(e);
                },
            }
            i = i + 1;
        }
        Ok(interfaces)
    }

    /// The loaded class named `name`; `None` where it is not loaded.
    pub fn get(&self, name: &[u8]) -> (r: Option<&LoadedClass>)
        ensures
            match r {
                Some(c) => spec_find_class(self@.classes, name@, 0) matches Some(id) && c@
                    == self@.classes[id],
                None => spec_find_class(self@.classes, name@, 0) is None,
            },
    {
        match self.find_class(name) {
            Some(id) => {
                assert(self@.classes[id as int] == self.classes@[id as int]@);
                Some(&self.classes[id])
            },
            None => None,
        }
    }
}

/// The static fields of `class` where `statics` holds, else its instance fields, each
/// with the default value of its type.
pub fn field_defaults(class: &Class, statics: bool) -> (r: Result<Vec<NamedValue>, LoadError>)
    ensures
        match r {
            Ok(v) => spec_field_defaults(class@, statics, 0, Seq::empty()) == Ok::<
                Seq<NamedValueView>,
                LoadError,
            >(v@.map_values(|v: NamedValue| v@)),
            Err(e) => spec_field_defaults(class@, statics, 0, Seq::empty()) == Err::<
                Seq<NamedValueView>,
                LoadError,
            >(e),
        },
{
    let mut out: Vec<NamedValue> = Vec::new();
    let mut i: usize = 0;
    assert(out@.map_values(|v: NamedValue| v@) =~= Seq::<NamedValueView>::empty());
    while i < class.fields.items.len()
        invariant
            i <= class@.fields.len(),
            spec_field_defaults(class@, statics, 0, Seq::empty()) == spec_field_defaults(
                class@,
                statics,
                i as int,
                out@.map_values(|v: NamedValue| v@),
            ),
        decreases class@.fields.len() - i,
    {
        let f = &class.fields.items[i];
        assert(class@.fields[i as int] == f@);
        if (f.access_flags & ACC_STATIC != 0) == statics {
            let name: &Vec<u8> = match class.constant_pool.resolve_utf8(f.name_index) {
                Ok(b) => b,
                Err(e) => {
                    return Err(LoadError::Parse(ParseError::BadIndex(e.index)));
                },
            };
            let descriptor: &Vec<u8> = match class.constant_pool.resolve_utf8(f.descriptor_index) {
                Ok(b) => b,
                Err(e) => {
                    return Err(LoadError::Parse(ParseError::BadIndex(e.index)));
                },
            };
            let t: JvmType = match JvmType::from_descriptor(descriptor.as_slice()) {
                Some(t) => t,
                None => {
                    return Err(LoadError::BadDescriptor(f.descriptor_index));
                },
            };
            let ghost before = out@.map_values(|v: NamedValue| v@);
            let owned: Vec<u8> = copy_range(name.as_slice(), 0, name.len());
            assert(owned@ =~= name@);
            let slot = NamedValue { name: owned, value: t.default_value() };
            let ghost sv = slot@;
            out.push(slot);
            assert(out@.map_values(|v: NamedValue| v@) =~= before.push(sv));
        }
        i = i + 1;
    }
    Ok(out)
}

/// A member found by a search: the class that declares it and its position there.
#[derive(Clone, Copy, Debug, PartialEq, Eq, Structural)]
pub struct MemberRef {
    pub class_id: usize,
    pub index: usize,
}

/// Why a symbolic reference could not be resolved.
#[derive(Clone, Copy, Debug, PartialEq, Eq, Structural)]
pub enum ResolveError {
    /// The owner is not among the loaded classes.
    NotLoaded,
    /// Neither the owner nor a super class nor a super interface declares the method.
    NoSuchMethod,
    /// Neither the owner nor a super class nor a super interface declares the field.
    NoSuchField,
}

/// The position in class `c` of the first member with this name and, where one is
/// given, this descriptor: among the fields where `field` holds, else among the methods.
pub open spec fn spec_declares(
    c: LoadedClassView,
    field: bool,
    name: Seq<u8>,
    descriptor: Option<Seq<u8>>,
) -> Option<int> {
    if field {
        spec_field_in(c.class, name, descriptor)
    } else {
        spec_method_in(c.class, name, descriptor)
    }
}

/// The member found by walking from class `cid` up its super classes: the first class
/// on the way that declares it wins.
pub open spec fn spec_in_chain(
    classes: Seq<LoadedClassView>,
    cid: int,
    field: bool,
    name: Seq<u8>,
    descriptor: Option<Seq<u8>>,
) -> Option<MemberRef>
    decreases cid,
{
    if cid < 0 || cid >= classes.len() {
        None
    } else {
        match spec_declares(classes[cid], field, name, descriptor) {
            Some(m) => Some(MemberRef { class_id: cid as usize, index: m as usize }),
            None => match classes[cid].super_id {
                Some(s) => if s < cid {
                    spec_in_chain(classes, s as int, field, name, descriptor)
                } else {
                    None
                },
                None => None,
            },
        }
    }
}

/// The member found in the interface `iid` or, failing that, in its super interfaces.
pub open spec fn spec_in_interface(
    classes: Seq<LoadedClassView>,
    iid: int,
    field: bool,
    name: Seq<u8>,
    descriptor: Option<Seq<u8>>,
) -> Option<MemberRef>
    decreases iid, 1nat, 0nat,
{
    if iid < 0 || iid >= classes.len() {
        None
    } else {
        match spec_declares(classes[iid], field, name, descriptor) {
            Some(m) => Some(MemberRef { class_id: iid as usize, index: m as usize }),
            None => spec_in_interfaces_of(classes, iid, 0, field, name, descriptor),
        }
    }
}

/// The member found in the interfaces that class `cid` names from position `i` on, each
/// searched with its super interfaces before the next.
pub open spec fn spec_in_interfaces_of(
    classes: Seq<LoadedClassView>,
    cid: int,
    i: int,
    field: bool,
    name: Seq<u8>,
    descriptor: Option<Seq<u8>>,
) -> Option<MemberRef>
    decreases cid, 0nat, classes[cid].interfaces.len() - i,
{
    if cid < 0 || cid >= classes.len() || i < 0 || i >= classes[cid].interfaces.len() {
        None
    } else if classes[cid].interfaces[i] < cid && spec_in_interface(
        classes,
        classes[cid].interfaces[i] as int,
        field,
        name,
        descriptor,
    ) is Some {
        spec_in_interface(classes, classes[cid].interfaces[i] as int, field, name, descriptor)
    } else {
        spec_in_interfaces_of(classes, cid, i + 1, field, name, descriptor)
    }
}

/// The member found in the interfaces of class `cid` or, failing that, in those of its
/// super classes.
pub open spec fn spec_in_all_interfaces(
    classes: Seq<LoadedClassView>,
    cid: int,
    field: bool,
    name: Seq<u8>,
    descriptor: Option<Seq<u8>>,
) -> Option<MemberRef>
    decreases cid,
{
    if cid < 0 || cid >= classes.len() {
        None
    } else if spec_in_interfaces_of(classes, cid, 0, field, name, descriptor) is Some {
        spec_in_interfaces_of(classes, cid, 0, field, name, descriptor)
    } else {
        match classes[cid].super_id {
            Some(s) => if s < cid {
                spec_in_all_interfaces(classes, s as int, field, name, descriptor)
            } else {
                None
            },
            None => None,
        }
    }
}

/// The member that a search from class `cid` finds: the class itself, then its super
/// classes, then its interfaces and theirs.
pub open spec fn spec_lookup(
    classes: Seq<LoadedClassView>,
    cid: int,
    field: bool,
    name: Seq<u8>,
    descriptor: Option<Seq<u8>>,
) -> Option<MemberRef> {
    if spec_in_chain(classes, cid, field, name, descriptor) is Some {
        spec_in_chain(classes, cid, field, name, descriptor)
    } else {
        spec_in_all_interfaces(classes, cid, field, name, descriptor)
    }
}

/// What resolving a method of the class named `owner` gives.
pub open spec fn spec_resolve_method(
    area: AreaView,
    owner: Seq<u8>,
    name: Seq<u8>,
    descriptor: Seq<u8>,
) -> Result<MemberRef, ResolveError> {
    match spec_find_class(area.classes, owner, 0) {
        None => Err(ResolveError::NotLoaded),
        Some(cid) => match spec_lookup(area.classes, cid, false, name, Some(descriptor)) {
            Some(m) => Ok(m),
            None => Err(ResolveError::NoSuchMethod),
        },
    }
}

/// What resolving a field of the class named `owner` gives.
pub open spec fn spec_resolve_field(area: AreaView, owner: Seq<u8>, name: Seq<u8>) -> Result<
    MemberRef,
    ResolveError,
> {
    match spec_find_class(area.classes, owner, 0) {
        None => Err(ResolveError::NotLoaded),
        Some(cid) => match spec_lookup(area.classes, cid, true, name, None) {
            Some(m) => Ok(m),
            None => Err(ResolveError::NoSuchField),
        },
    }
}

impl LoadedClass {
    /// The position of the first member with this name and, where one is given, this
    /// descriptor: among the fields where `field` holds, else among the methods.
    pub fn declares(&self, field: bool, name: &[u8], descriptor: Option<&[u8]>) -> (r: Option<
        usize,
    >)
        ensures
            match r {
                Some(m) => spec_declares(self@, field, name@, optional_bytes(descriptor)) == Some(
                    m as int,
                ),
                None => spec_declares(self@, field, name@, optional_bytes(descriptor)) is None,
            },
    {
        if field {
            self.class.find_field(name, descriptor)
        } else {
            self.class.find_method(name, descriptor)
        }
    }
}

impl MethodArea {
    /// Searches class `cid` and then its super classes.
    pub fn in_chain(&self, cid: usize, field: bool, name: &[u8], descriptor: Option<&[u8]>) -> (r:
        Option<MemberRef>)
        ensures
            r == spec_in_chain(self@.classes, cid as int, field, name@, optional_bytes(descriptor)),
        decreases cid,
    {
        if cid >= self.classes.len() {
            return None;
        }
        assert(self@.classes[cid as int] == self.classes@[cid as int]@);
        match self.classes[cid].declares(field, name, descriptor) {
            Some(m) => Some(MemberRef { class_id: cid, index: m }),
            None => match self.classes[cid].super_id {
                Some(s) => if s < cid {
                    self.in_chain(s, field, name, descriptor)
                } else {
                    None
                },
                None => None,
            },
        }
    }

    /// Searches the interface `iid` and then its super interfaces.
    pub fn in_interface(&self, iid: usize, field: bool, name: &[u8], descriptor: Option<&[u8]>) -> (r:
        Option<MemberRef>)
        ensures
            r == spec_in_interface(
                self@.classes,
                iid as int,
                field,
                name@,
                optional_bytes(descriptor),
            ),
        decreases iid, 1nat,
    {
        if iid >= self.classes.len() {
            return None;
        }
        assert(self@.classes[iid as int] == self.classes@[iid as int]@);
        match self.classes[iid].declares(field, name, descriptor) {
            Some(m) => Some(MemberRef { class_id: iid, index: m }),
            None => self.in_interfaces_of(iid, field, name, descriptor),
        }
    }

    /// Searches the interfaces that class `cid` names, each with its super interfaces.
    pub fn in_interfaces_of(
        &self,
        cid: usize,
        field: bool,
        name: &[u8],
        descriptor: Option<&[u8]>,
    ) -> (r: Option<MemberRef>)
        ensures
            r == spec_in_interfaces_of(
                self@.classes,
                cid as int,
                0,
                field,
                name@,
                optional_bytes(descriptor),
            ),
        decreases cid, 0nat,
    {
        if cid >= self.classes.len() {
            return None;
        }
        assert(self@.classes[cid as int] == self.classes@[cid as int]@);
        let mut i: usize = 0;
        while i < self.classes[cid].interfaces.len()
            invariant
                cid < self.classes@.len(),
                self@.classes[cid as int] == self.classes@[cid as int]@,
                i <= self.classes@[cid as int].interfaces@.len(),
                spec_in_interfaces_of(
                    self@.classes,
                    cid as int,
                    0,
                    field,
                    name@,
                    optional_bytes(descriptor),
                ) == spec_in_interfaces_of(
                    self@.classes,
                    cid as int,
                    i as int,
                    field,
                    name@,
                    optional_bytes(descriptor),
                ),
            decreases self.classes@[cid as int].interfaces@.len() - i,
        {
            let iid: usize = self.classes[cid].interfaces[i];
            if iid < cid {
                let found: Option<MemberRef> = self.in_interface(iid, field, name, descriptor);
                if found.is_some() {
                    return found;
                }
            }
            i = i + 1;
        }
        None
    }

    /// Searches the interfaces of class `cid` and then those of its super classes.
    pub fn in_all_interfaces(
        &self,
        cid: usize,
        field: bool,
        name: &[u8],
        descriptor: Option<&[u8]>,
    ) -> (r: Option<MemberRef>)
        ensures
            r == spec_in_all_interfaces(
                self@.classes,
                cid as int,
                field,
                name@,
                optional_bytes(descriptor),
            ),
        decreases cid,
    {
        if cid >= self.classes.len() {
            return None;
        }
        assert(self@.classes[cid as int] == self.classes@[cid as int]@);
        let found: Option<MemberRef> = self.in_interfaces_of(cid, field, name, descriptor);
        if found.is_some() {
            return found;
        }
        match self.classes[cid].super_id {
            Some(s) => if s < cid {
                self.in_all_interfaces(s, field, name, descriptor)
            } else {
                None
            },
            None => None,
        }
    }

    /// Searches class `cid`, its super classes, and then their interfaces.
    pub fn lookup(&self, cid: usize, field: bool, name: &[u8], descriptor: Option<&[u8]>) -> (r:
        Option<MemberRef>)
        ensures
            r == spec_lookup(self@.classes, cid as int, field, name@, optional_bytes(descriptor)),
    {
        let found: Option<MemberRef> = self.in_chain(cid, field, name, descriptor);
        if found.is_some() {
            found
        } else {
            self.in_all_interfaces(cid, field, name, descriptor)
        }
    }

    /// Resolves the method `name` with descriptor `descriptor` of the loaded class named
    /// `owner_name`: the owner is searched first, then its super classes, then the
    /// interfaces. `NotLoaded` where the owner is not loaded, `NoSuchMethod` where the
    /// search finds nothing.
    pub fn resolve_method(&self, owner_name: &[u8], name: &[u8], descriptor: &[u8]) -> (r: Result<
        MemberRef,
        ResolveError,
    >)
        ensures
            r == spec_resolve_method(self@, owner_name@, name@, descriptor@),
    {
        match self.find_class(owner_name) {
            None => Err(ResolveError::NotLoaded),
            Some(cid) => match self.lookup(cid, false, name, Some(descriptor)) {
                Some(m) => Ok(m),
                None => Err(ResolveError::NoSuchMethod),
            },
        }
    }

    /// Resolves the field `name` of the loaded class named `owner_name`, in the same
    /// order of search.
    pub fn resolve_field(&self, owner_name: &[u8], name: &[u8]) -> (r: Result<
        MemberRef,
        ResolveError,
    >)
        ensures
            r == spec_resolve_field(self@, owner_name@, name@),
    {
        match self.find_class(owner_name) {
            None => Err(ResolveError::NotLoaded),
            Some(cid) => match self.lookup(cid, true, name, None) {
                Some(m) => Ok(m),
                None => Err(ResolveError::NoSuchField),
            },
        }
    }
}

/// The class `c` with the state `state`.
pub open spec fn with_state(c: LoadedClassView, state: InitState) -> LoadedClassView {
    LoadedClassView {
        class: c.class,
        name: c.name,
        super_id: c.super_id,
        interfaces: c.interfaces,
        statics: c.statics,
        state,
    }
}

/// The class `c` with the static fields `statics`.
pub open spec fn with_statics(c: LoadedClassView, statics: Seq<NamedValueView>) -> LoadedClassView {
    LoadedClassView {
        class: c.class,
        name: c.name,
        super_id: c.super_id,
        interfaces: c.interfaces,
        statics,
        state: c.state,
    }
}

/// The area with other classes.
pub open spec fn with_classes(area: AreaView, classes: Seq<LoadedClassView>) -> AreaView {
    AreaView { classes, search_path: area.search_path }
}

/// The value of the static field `name` of class `cid`.
pub open spec fn spec_get_static(area: AreaView, cid: int, name: Seq<u8>) -> Option<JvmValue> {
    if cid < 0 || cid >= area.classes.len() {
        None
    } else {
        match named_position(area.classes[cid].statics, name, 0) {
            Some(j) => Some(area.classes[cid].statics[j].value),
            None => None,
        }
    }
}

/// The area after the static field `name` of class `cid` got the value `value`; the
/// same area where the class has no such field.
pub open spec fn spec_set_static(area: AreaView, cid: int, name: Seq<u8>, value: JvmValue) -> AreaView {
    if cid < 0 || cid >= area.classes.len() {
        area
    } else {
        match named_position(area.classes[cid].statics, name, 0) {
            Some(j) => with_classes(
                area,
                area.classes.update(
                    cid,
                    with_statics(
                        area.classes[cid],
                        area.classes[cid].statics.update(j, NamedValueView { name, value }),
                    ),
                ),
            ),
            None => area,
        }
    }
}

/// The classes whose initialization a request for class `cid` starts: the class and its
/// super classes, from the class upwards, as far as they are `Uninitialized`.
pub open spec fn spec_init_chain(classes: Seq<LoadedClassView>, cid: int) -> Seq<usize>
    decreases cid,
{
    if cid < 0 || cid >= classes.len() || cid > usize::MAX || classes[cid].state
        != InitState::Uninitialized {
        Seq::empty()
    } else {
        seq![cid as usize] + (match classes[cid].super_id {
            Some(s) => if s < cid {
                spec_init_chain(classes, s as int)
            } else {
                Seq::empty()
            },
            None => Seq::empty(),
        })
    }
}

/// The classes with the state `state` for every class among `ids`.
pub open spec fn spec_set_states(classes: Seq<LoadedClassView>, ids: Seq<usize>, state: InitState) -> Seq<
    LoadedClassView,
> {
    Seq::new(
        classes.len(),
        |i: int|
            if ids.contains(i as usize) {
                with_state(classes[i], state)
            } else {
                classes[i]
            },
    )
}

/// A request to initialize class `cid`: every class of its chain becomes `Initializing`,
/// and the chain is what has to run. A class that is `Initializing`, `Initialized` or
/// `Errored` has an empty chain: nothing changes and nothing runs.
pub open spec fn spec_begin_init(area: AreaView, cid: int) -> (AreaView, Seq<usize>) {
    (
        with_classes(
            area,
            spec_set_states(
                area.classes,
                spec_init_chain(area.classes, cid),
                InitState::Initializing,
            ),
        ),
        spec_init_chain(area.classes, cid),
    )
}

/// The end of the initializer of class `cid`: an `Initializing` class becomes
/// `Initialized` where `ok` holds and `Errored` where not; in any other state nothing
/// changes.
pub open spec fn spec_finish_init(area: AreaView, cid: int, ok: bool) -> AreaView {
    if cid < 0 || cid >= area.classes.len() || area.classes[cid].state != InitState::Initializing {
        area
    } else {
        with_classes(
            area,
            area.classes.update(
                cid,
                with_state(
                    area.classes[cid],
                    if ok {
                        InitState::Initialized
                    } else {
                        InitState::Errored
                    },
                ),
            ),
        )
    }
}

impl MethodArea {
    /// The value of the static field `name` of class `cid`.
    pub fn get_static(&self, cid: usize, name: &[u8]) -> (r: Option<JvmValue>)
        ensures
            r == spec_get_static(self@, cid as int, name@),
    {
        if cid >= self.classes.len() {
            return None;
        }
        assert(self@.classes[cid as int] == self.classes@[cid as int]@);
        match find_named(&self.classes[cid].statics, name) {
            Some(j) => Some(self.classes[cid].statics[j].value),
            None => None,
        }
    }

    /// Gives the static field `name` of class `cid` the value `value`; returns whether
    /// the class has such a field.
    pub fn set_static(&mut self, cid: usize, name: &[u8], value: JvmValue) -> (r: bool)
        ensures
            final(self)@ == spec_set_static(old(self)@, cid as int, name@, value),
            r == spec_get_static(old(self)@, cid as int, name@) is Some,
    {
        if cid >= self.classes.len() {
            return false;
        }
        assert(self@.classes[cid as int] == self.classes@[cid as int]@);
        match find_named(&self.classes[cid].statics, name) {
            Some(j) => {
                self.classes[cid].statics[j].value = value;
                assert(self@.classes[cid as int].statics =~= old(self)@.classes[cid as int].statics.update(
                    j as int,
                    NamedValueView { name: name@, value },
                ));
                assert(self@.classes =~= old(self)@.classes.update(
                    cid as int,
                    with_statics(
                        old(self)@.classes[cid as int],
                        old(self)@.classes[cid as int].statics.update(
                            j as int,
                            NamedValueView { name: name@, value },
                        ),
                    ),
                ));
                assert(self@.search_path =~= old(self)@.search_path);
                true
            },
            None => false,
        }
    }

    /// The state of class `cid`; `None` where there is no such class.
    pub fn init_state(&self, cid: usize) -> (r: Option<InitState>)
        ensures
            r == (if cid < self@.classes.len() {
                Some(self@.classes[cid as int].state)
            } else {
                None
            }),
    {
        if cid >= self.classes.len() {
            return None;
        }
        assert(self@.classes[cid as int] == self.classes@[cid as int]@);
        Some(self.classes[cid].state)
    }

    /// Starts the initialization of class `cid`: marks the class and those of its super
    /// classes that are `Uninitialized` as `Initializing` and returns them, the class
    /// first. The initializers are to run in the reverse order.
    pub fn begin_initialization(&mut self, cid: usize) -> (r: Vec<usize>)
        ensures
            (final(self)@, r@) == spec_begin_init(old(self)@, cid as int),
    {
        let mut out: Vec<usize> = Vec::new();
        let mut cur: usize = cid;
        let ghost start = self@.classes;
        assert(self@.classes =~= spec_set_states(start, out@, InitState::Initializing));
        assert(out@ + spec_init_chain(start, cur as int) =~= spec_init_chain(start, cid as int));
        loop
            invariant_except_break
                spec_init_chain(start, cid as int) == out@ + spec_init_chain(start, cur as int),
                forall|k: int| 0 <= k < out@.len() ==> out@[k] > cur,
            invariant
                start == old(self)@.classes,
                self@.search_path == old(self)@.search_path,
                self@.classes == spec_set_states(start, out@, InitState::Initializing),
            ensures
                spec_init_chain(start, cid as int) == out@,
            decreases cur,
        {
            assert(self@.classes.len() == start.len());
            if cur >= self.classes.len() {
                assert(out@ + spec_init_chain(start, cur as int) =~= out@);
                break ;
            }
            assert(self@.classes[cur as int] == self.classes@[cur as int]@);
            assert(!out@.contains(cur));
            if self.classes[cur].state != InitState::Uninitialized {
                assert(out@ + spec_init_chain(start, cur as int) =~= out@);
                break ;
            }
            let ghost before = out@;
            let ghost prev = self@.classes;
            self.classes[cur].state = InitState::Initializing;
            out.push(cur);
            assert(out@ =~= before + seq![cur]);
            assert(out@[out@.len() - 1] == cur);
            assert(self@.classes.len() == prev.len());
            assert(self@.classes[cur as int] == with_state(prev[cur as int], InitState::Initializing));
            assert forall|i: int| 0 <= i < start.len() implies #[trigger] self@.classes[i]
                == spec_set_states(start, out@, InitState::Initializing)[i] by {
                if i != cur {
                    assert(self@.classes[i] == self.classes@[i]@);
                    assert(self@.classes[i] == prev[i]);
                    if before.contains(i as usize) {
                        let k = choose|k: int| 0 <= k < before.len() && before[k] == i as usize;
                        assert(out@[k] == i as usize);
                    }
                }
            }
            assert(self@.classes =~= spec_set_states(start, out@, InitState::Initializing));
            let next: Option<usize> = self.classes[cur].super_id;
            match next {
                Some(s) => if s < cur {
                    assert(spec_init_chain(start, cur as int) =~= seq![cur] + spec_init_chain(
                        start,
                        s as int,
                    ));
                    assert(out@ + spec_init_chain(start, s as int) =~= before + spec_init_chain(
                        start,
                        cur as int,
                    ));
                    cur = s;
                } else {
                    assert(spec_init_chain(start, cur as int) =~= seq![cur]);
                    break ;
                },
                None => {
                    assert(spec_init_chain(start, cur as int) =~= seq![cur]);
                    break ;
                },
            }
        }
        out
    }

    /// Ends the initialization of class `cid`, with success where `ok` holds.
    pub fn finish_initialization(&mut self, cid: usize, ok: bool)
        ensures
            final(self)@ == spec_finish_init(old(self)@, cid as int, ok),
    {
        if cid >= self.classes.len() {
            return ;
        }
        assert(self@.classes[cid as int] == self.classes@[cid as int]@);
        if self.classes[cid].state != InitState::Initializing {
            return ;
        }
        self.classes[cid].state = if ok {
            InitState::Initialized
        } else {
            InitState::Errored
        };
        assert(self@.classes =~= old(self)@.classes.update(
            cid as int,
            with_state(
                old(self)@.classes[cid as int],
                if ok {
                    InitState::Initialized
                } else {
                    InitState::Errored
                },
            ),
        ));
        assert(self@.search_path =~= old(self)@.search_path);
    }
}

} // verus!
