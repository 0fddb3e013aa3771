//! What loading keeps: the method area only grows, and every class stands behind the
//! classes it builds on.
use crate::class::{Class, ClassView};
use crate::constantpool::spec_class_name;
use crate::format::Format;
use crate::methodarea::{
    lemma_pending_room, pending_valid, spec_find_class, spec_finish, spec_in_all_interfaces,
    spec_in_chain, spec_in_interface, spec_in_interfaces_of, spec_load, spec_load_in,
    spec_load_interfaces, spec_load_parsed, spec_load_super, spec_locate, spec_resolve_field,
    spec_resolve_method, AreaView, ClassSourceView, LoadError, LoadedClassView,
};
use vstd::prelude::*;

verus! {

/// `b` holds every class of `a` under the same identifier and unchanged, and has the
/// same search path.
pub open spec fn extends(a: AreaView, b: AreaView) -> bool {
    grows(a.classes, b.classes) && a.search_path == b.search_path
}

/// The super class and the interfaces of every class have smaller identifiers than the
/// class: they were loaded before it.
pub open spec fn linked(area: AreaView) -> bool {
    linked_classes(area.classes)
}

/// Where `spec_find_class` finds a class, it has the name and no class before it has.
pub proof fn lemma_find_class(classes: Seq<LoadedClassView>, name: Seq<u8>, from: int)
    requires
        0 <= from,
    ensures
        match spec_find_class(classes, name, from) {
            Some(id) => from <= id < classes.len() && classes[id].name == name && forall|j: int|
                from <= j < id ==> (#[trigger] classes[j]).name != name,
            None => forall|j: int| from <= j < classes.len() ==> (#[trigger] classes[j]).name != name,
        },
    decreases classes.len() - from,
{
    if from < classes.len() && classes[from].name != name {
        lemma_find_class(classes, name, from + 1);
    }
}

/// `b` holds every class of `a` under the same identifier and unchanged.
pub open spec fn grows(a: Seq<LoadedClassView>, b: Seq<LoadedClassView>) -> bool {
    &&& a.len() <= b.len()
    &&& forall|i: int| 0 <= i < a.len() ==> #[trigger] b[i] == a[i]
}

/// The super class and the interfaces of every class have smaller identifiers than the
/// class.
pub open spec fn linked_classes(classes: Seq<LoadedClassView>) -> bool {
    forall|i: int|
        0 <= i < classes.len() ==> {
            &&& (#[trigger] classes[i]).super_id matches Some(s) ==> s < i
            &&& forall|k: int|
                0 <= k < classes[i].interfaces.len() ==> #[trigger] classes[i].interfaces[k] < i
        }
}

/// What loading keeps, for one call of `spec_load_in`: every class that was loaded
/// stays, unchanged and under the same identifier; the class that was asked for is
/// among the classes under the identifier returned; classes that were linked stay
/// linked.
pub proof fn lemma_load_in_grows(
    classes: Seq<LoadedClassView>,
    path: Seq<ClassSourceView>,
    name: Seq<u8>,
    pending: Seq<Seq<u8>>,
)
    requires
        pending_valid(path, pending),
    ensures
        grows(classes, spec_load_in(classes, path, name, pending).0),
        linked_classes(classes) ==> linked_classes(spec_load_in(classes, path, name, pending).0),
        spec_load_in(classes, path, name, pending).1 matches Ok(id) ==> 0 <= id < spec_load_in(
            classes,
            path,
            name,
            pending,
        ).0.len() && spec_load_in(classes, path, name, pending).0[id].name == name,
    decreases path.len() - pending.len(), 0nat, 0nat,
{
    lemma_find_class(classes, name, 0);
    if spec_find_class(classes, name, 0) is None && !pending.contains(name) {
        match spec_locate(path, name, 0) {
            Some(k) => {
                match Class::spec_parse(path[k].bytes, 0) {
                    Ok((class, _)) => {
                        lemma_pending_room(path, pending, name);
                        lemma_load_parsed_grows(classes, path, class, name, pending.push(name));
                    },
                    Err(_) => {},
                }
            },
            None => {},
        }
    }
}

/// The step of `lemma_load_in_grows` for a class that has been parsed.
pub proof fn lemma_load_parsed_grows(
    classes: Seq<LoadedClassView>,
    path: Seq<ClassSourceView>,
    class: ClassView,
    name: Seq<u8>,
    pending: Seq<Seq<u8>>,
)
    requires
        pending_valid(path, pending),
    ensures
        grows(classes, spec_load_parsed(classes, path, class, name, pending).0),
        linked_classes(classes) ==> linked_classes(
            spec_load_parsed(classes, path, class, name, pending).0,
        ),
        spec_load_parsed(classes, path, class, name, pending).1 matches Ok(id) ==> 0 <= id
            < spec_load_parsed(classes, path, class, name, pending).0.len() && spec_load_parsed(
            classes,
            path,
            class,
            name,
            pending,
        ).0[id].name == name,
    decreases path.len() - pending.len(), 2nat, 0nat,
{
    lemma_load_super_grows(classes, path, class, pending);
    let (c1, sup) = spec_load_super(classes, path, class, pending);
    match sup {
        Ok(super_id) => {
            lemma_load_interfaces_grows(c1, path, class, 0, Seq::empty(), pending);
            let loaded = spec_load_interfaces(c1, path, class, 0, Seq::empty(), pending);
            let c2 = loaded.0;
            let c3 = spec_finish(loaded, class, name, super_id).0;
            assert(grows(classes, c3));
            if linked_classes(classes) {
                assert forall|i: int| 0 <= i < c3.len() implies {
                    &&& (#[trigger] c3[i]).super_id matches Some(s) ==> s < i
                    &&& forall|k: int|
                        0 <= k < c3[i].interfaces.len() ==> #[trigger] c3[i].interfaces[k] < i
                } by {
                    if i < c2.len() {
                        assert(c3[i] == c2[i]);
                    }
                }
            }
        },
        Err(_) => {},
    }
}

/// The step of `lemma_load_in_grows` for the super class.
pub proof fn lemma_load_super_grows(
    classes: Seq<LoadedClassView>,
    path: Seq<ClassSourceView>,
    class: ClassView,
    pending: Seq<Seq<u8>>,
)
    requires
        pending_valid(path, pending),
    ensures
        grows(classes, spec_load_super(classes, path, class, pending).0),
        linked_classes(classes) ==> linked_classes(
            spec_load_super(classes, path, class, pending).0,
        ),
        spec_load_super(classes, path, class, pending).1 matches Ok(Some(id)) ==> id
            < spec_load_super(classes, path, class, pending).0.len(),
    decreases path.len() - pending.len(), 1nat, 0nat,
{
    if class.super_class != 0 {
        match spec_class_name(class.constant_pool, class.super_class) {
            Ok(super_name) => {
                lemma_load_in_grows(classes, path, super_name, pending);
            },
            Err(_) => {},
        }
    }
}

/// The step of `lemma_load_in_grows` for the interfaces.
pub proof fn lemma_load_interfaces_grows(
    classes: Seq<LoadedClassView>,
    path: Seq<ClassSourceView>,
    class: ClassView,
    i: int,
    acc: Seq<usize>,
    pending: Seq<Seq<u8>>,
)
    requires
        pending_valid(path, pending),
        forall|k: int| 0 <= k < acc.len() ==> #[trigger] acc[k] < classes.len(),
    ensures
        grows(classes, spec_load_interfaces(classes, path, class, i, acc, pending).0),
        linked_classes(classes) ==> linked_classes(
            spec_load_interfaces(classes, path, class, i, acc, pending).0,
        ),
        spec_load_interfaces(classes, path, class, i, acc, pending).1 matches Ok(ids)
            ==> forall|k: int|
            0 <= k < ids.len() ==> #[trigger] ids[k] < spec_load_interfaces(
                classes,
                path,
                class,
                i,
                acc,
                pending,
            ).0.len(),
    decreases path.len() - pending.len(), 1nat, class.interfaces.len() - i + 1,
{
    if 0 <= i < class.interfaces.len() {
        match spec_class_name(class.constant_pool, class.interfaces[i]) {
            Ok(interface_name) => {
                lemma_load_in_grows(classes, path, interface_name, pending);
                let (c1, r) = spec_load_in(classes, path, interface_name, pending);
                match r {
                    Ok(id) => {
                        let next = acc.push(id as usize);
                        assert forall|k: int| 0 <= k < next.len() implies #[trigger] next[k]
                            < c1.len() by {
                            if k < acc.len() {
                                assert(acc[k] < classes.len());
                            }
                        }
                        lemma_load_interfaces_grows(c1, path, class, i + 1, next, pending);
                    },
                    Err(_) => {},
                }
            },
            Err(_) => {},
        }
    }
}

/// Loading only adds: the area after `spec_load` holds every class it held before,
/// unchanged and under the same identifier. The class that was asked for is in it under
/// the identifier returned, and an area that was linked stays linked.
pub proof fn lemma_load_extends(area: AreaView, name: Seq<u8>)
    ensures
        extends(area, spec_load(area, name).0),
        linked(area) ==> linked(spec_load(area, name).0),
        spec_load(area, name).1 matches Ok(id) ==> 0 <= id < spec_load(
            area,
            name,
        ).0.classes.len() && spec_load(area, name).0.classes[id].name == name,
{
    lemma_load_in_grows(area.classes, area.search_path, name, Seq::empty());
}

/// A class is circular exactly where it asks for itself: the loading of a class that
/// is not loaded is refused with `ClassCircularity` at once where the name of the class
/// is among the names of the classes being loaded; where it is not, a name that the
/// search path does not have is `NotFound`.
pub proof fn lemma_circularity(
    classes: Seq<LoadedClassView>,
    path: Seq<ClassSourceView>,
    name: Seq<u8>,
    pending: Seq<Seq<u8>>,
)
    requires
        pending_valid(path, pending),
        spec_find_class(classes, name, 0) is None,
    ensures
        pending.contains(name) ==> spec_load_in(classes, path, name, pending) == (
            classes,
            Err::<int, LoadError>(LoadError::ClassCircularity),
        ),
        !pending.contains(name) && spec_locate(path, name, 0) is None ==> spec_load_in(
            classes,
            path,
            name,
            pending,
        ) == (classes, Err::<int, LoadError>(LoadError::NotFound)),
{
}

/// A class that is found by its name is found under the same identifier in every area
/// that extends the area.
pub proof fn lemma_find_class_stable(a: AreaView, b: AreaView, name: Seq<u8>, from: int)
    requires
        extends(a, b),
        0 <= from,
        spec_find_class(a.classes, name, from) is Some,
    ensures
        spec_find_class(b.classes, name, from) == spec_find_class(a.classes, name, from),
    decreases a.classes.len() - from,
{
    if from < a.classes.len() {
        assert(b.classes[from] == a.classes[from]);
        if a.classes[from].name != name {
            lemma_find_class_stable(a, b, name, from + 1);
        }
    }
}

/// The search up the super classes of a class gives the same in every area that
/// extends the area.
pub proof fn lemma_in_chain_stable(
    a: AreaView,
    b: AreaView,
    cid: int,
    field: bool,
    name: Seq<u8>,
    descriptor: Option<Seq<u8>>,
)
    requires
        extends(a, b),
        cid < a.classes.len(),
    ensures
        spec_in_chain(b.classes, cid, field, name, descriptor) == spec_in_chain(
            a.classes,
            cid,
            field,
            name,
            descriptor,
        ),
    decreases cid,
{
    if 0 <= cid {
        assert(b.classes[cid] == a.classes[cid]);
        match a.classes[cid].super_id {
            Some(s) => if s < cid {
                lemma_in_chain_stable(a, b, s as int, field, name, descriptor);
            },
            None => {},
        }
    }
}

/// The search in an interface and its super interfaces gives the same in every area
/// that extends the area.
pub proof fn lemma_in_interface_stable(
    a: AreaView,
    b: AreaView,
    iid: int,
    field: bool,
    name: Seq<u8>,
    descriptor: Option<Seq<u8>>,
)
    requires
        extends(a, b),
        iid < a.classes.len(),
    ensures
        spec_in_interface(b.classes, iid, field, name, descriptor) == spec_in_interface(
            a.classes,
            iid,
            field,
            name,
            descriptor,
        ),
    decreases iid, 1nat, 0nat,
{
    if 0 <= iid {
        assert(b.classes[iid] == a.classes[iid]);
        lemma_in_interfaces_of_stable(a, b, iid, 0, field, name, descriptor);
    }
}

/// The search in the interfaces of a class gives the same in every area that extends
/// the area.
pub proof fn lemma_in_interfaces_of_stable(
    a: AreaView,
    b: AreaView,
    cid: int,
    i: int,
    field: bool,
    name: Seq<u8>,
    descriptor: Option<Seq<u8>>,
)
    requires
        extends(a, b),
        cid < a.classes.len(),
    ensures
        spec_in_interfaces_of(b.classes, cid, i, field, name, descriptor)
            == spec_in_interfaces_of(a.classes, cid, i, field, name, descriptor),
    decreases cid, 0nat, a.classes[cid].interfaces.len() - i,
{
    if 0 <= cid {
        assert(b.classes[cid] == a.classes[cid]);
        if 0 <= i < a.classes[cid].interfaces.len() {
            if a.classes[cid].interfaces[i] < cid {
                lemma_in_interface_stable(
                    a,
                    b,
                    a.classes[cid].interfaces[i] as int,
                    field,
                    name,
                    descriptor,
                );
            }
            lemma_in_interfaces_of_stable(a, b, cid, i + 1, field, name, descriptor);
        }
    }
}

/// The search in the interfaces of a class and of its super classes gives the same in
/// every area that extends the area.
pub proof fn lemma_in_all_interfaces_stable(
    a: AreaView,
    b: AreaView,
    cid: int,
    field: bool,
    name: Seq<u8>,
    descriptor: Option<Seq<u8>>,
)
    requires
        extends(a, b),
        cid < a.classes.len(),
    ensures
        spec_in_all_interfaces(b.classes, cid, field, name, descriptor) == spec_in_all_interfaces(
            a.classes,
            cid,
            field,
            name,
            descriptor,
        ),
    decreases cid,
{
    if 0 <= cid {
        assert(b.classes[cid] == a.classes[cid]);
        lemma_in_interfaces_of_stable(a, b, cid, 0, field, name, descriptor);
        match a.classes[cid].super_id {
            Some(s) => if s < cid {
                lemma_in_all_interfaces_stable(a, b, s as int, field, name, descriptor);
            },
            None => {},
        }
    }
}

/// Resolution is monotonic: what a method or a field of a loaded class has resolved to,
/// it resolves to in every area that extends the area, so after any number of further
/// loads. A repeated resolution returns the same target.
pub proof fn lemma_resolution_stable(
    a: AreaView,
    b: AreaView,
    owner: Seq<u8>,
    name: Seq<u8>,
    descriptor: Seq<u8>,
)
    requires
        extends(a, b),
    ensures
        spec_resolve_method(a, owner, name, descriptor) is Ok ==> spec_resolve_method(
            b,
            owner,
            name,
            descriptor,
        ) == spec_resolve_method(a, owner, name, descriptor),
        spec_resolve_field(a, owner, name) is Ok ==> spec_resolve_field(b, owner, name)
            == spec_resolve_field(a, owner, name),
{
    match spec_find_class(a.classes, owner, 0) {
        Some(cid) => {
            lemma_find_class(a.classes, owner, 0);
            lemma_find_class_stable(a, b, owner, 0);
            lemma_in_chain_stable(a, b, cid, false, name, Some(descriptor));
            lemma_in_all_interfaces_stable(a, b, cid, false, name, Some(descriptor));
            lemma_in_chain_stable(a, b, cid, true, name, None);
            lemma_in_all_interfaces_stable(a, b, cid, true, name, None);
        },
        None => {},
    }
}

/// Resolution after a load: loading any class leaves every resolution as it was.
pub proof fn lemma_resolution_survives_load(
    area: AreaView,
    loaded: Seq<u8>,
    owner: Seq<u8>,
    name: Seq<u8>,
    descriptor: Seq<u8>,
)
    ensures
        spec_resolve_method(area, owner, name, descriptor) is Ok ==> spec_resolve_method(
            spec_load(area, loaded).0,
            owner,
            name,
            descriptor,
        ) == spec_resolve_method(area, owner, name, descriptor),
        spec_resolve_field(area, owner, name) is Ok ==> spec_resolve_field(
            spec_load(area, loaded).0,
            owner,
            name,
        ) == spec_resolve_field(area, owner, name),
{
    lemma_load_extends(area, loaded);
    lemma_resolution_stable(area, spec_load(area, loaded).0, owner, name, descriptor);
}

} // verus!
