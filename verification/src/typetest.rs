//! Whether an object or an array belongs to a class, an interface or an array type.
use crate::array::{ArrayView, JvmArray};
use crate::bytes::bytes_eq;
use crate::methodarea::{spec_find_class, AreaView, LoadedClassView, MethodArea};
use crate::object::{spec_is_type_of, JvmObject, LayerView};
use crate::text::{object_class_name, object_name};
use crate::typevalues::CH_ARRAY;
use vstd::prelude::*;

verus! {

/// Whether the interface `iid` or one of its super interfaces is named `name`.
pub open spec fn spec_interface_named(classes: Seq<LoadedClassView>, iid: int, name: Seq<u8>) -> bool
    decreases iid, 1nat, 0nat,
{
    if iid < 0 || iid >= classes.len() {
        false
    } else {
        classes[iid].name == name || spec_interfaces_named(classes, iid, 0, name)
    }
}

/// Whether one of the interfaces that class `cid` names from position `i` on, or one
/// of their super interfaces, is named `name`.
pub open spec fn spec_interfaces_named(
    classes: Seq<LoadedClassView>,
    cid: int,
    i: int,
    name: Seq<u8>,
) -> bool
    decreases cid, 0nat, classes[cid].interfaces.len() - i,
{
    if cid < 0 || cid >= classes.len() || i < 0 || i >= classes[cid].interfaces.len() {
        false
    } else if classes[cid].interfaces[i] < cid && spec_interface_named(
        classes,
        classes[cid].interfaces[i] as int,
        name,
    ) {
        true
    } else {
        spec_interfaces_named(classes, cid, i + 1, name)
    }
}

/// Whether the class of one of the layers from `from` on names an interface that is,
/// or has a super interface that is, named `name`.
pub open spec fn spec_layers_implement(
    classes: Seq<LoadedClassView>,
    layers: Seq<LayerView>,
    from: int,
    name: Seq<u8>,
) -> bool
    decreases layers.len() - from,
{
    if from < 0 || from >= layers.len() {
        false
    } else if spec_find_class(classes, layers[from].class_name, 0) matches Some(c)
        && spec_interfaces_named(classes, c, 0, name) {
        true
    } else {
        spec_layers_implement(classes, layers, from + 1, name)
    }
}

/// Whether the object with the layers `layers` is an instance of the type named
/// `name`: the name of its class or of one of its super classes, or of an interface
/// that one of them implements.
pub open spec fn spec_instance_of(area: AreaView, layers: Seq<LayerView>, name: Seq<u8>) -> bool {
    spec_is_type_of(layers, name) || spec_layers_implement(area.classes, layers, 0, name)
}

/// Whether the array is an instance of the type named `name`: `java/lang/Object`, or
/// the array type of its own component type.
pub open spec fn spec_array_instance_of(array: ArrayView, name: Seq<u8>) -> bool {
    name == object_name() || name == seq![CH_ARRAY] + array.component
}

impl MethodArea {
    /// Whether the interface `iid` or one of its super interfaces is named `name`.
    pub fn interface_named(&self, iid: usize, name: &[u8]) -> (r: bool)
        ensures
            r == spec_interface_named(self@.classes, iid as int, name@),
        decreases iid, 1nat,
    {
        if iid >= self.classes.len() {
            return false;
        }
        assert(self@.classes[iid as int] == self.classes@[iid as int]@);
        if bytes_eq(self.classes[iid].name.as_slice(), name) {
            return true;
        }
        self.interfaces_named(iid, name)
    }

    /// Whether one of the interfaces of class `cid`, or one of their super interfaces,
    /// is named `name`.
    pub fn interfaces_named(&self, cid: usize, name: &[u8]) -> (r: bool)
        ensures
            r == spec_interfaces_named(self@.classes, cid as int, 0, name@),
        decreases cid, 0nat,
    {
        if cid >= self.classes.len() {
            return false;
        }
        assert(self@.classes[cid as int] == self.classes@[cid as int]@);
        let mut i: usize = 0;
        while i < self.classes[cid].interfaces.len()
            invariant
                cid < self.classes@.len(),
                self@.classes[cid as int] == self.classes@[cid as int]@,
                i <= self.classes@[cid as int].interfaces@.len(),
                spec_interfaces_named(self@.classes, cid as int, 0, name@)
                    == spec_interfaces_named(self@.classes, cid as int, i as int, name@),
            decreases self.classes@[cid as int].interfaces@.len() - i,
        {
            let iid: usize = self.classes[cid].interfaces[i];
            if iid < cid && self.interface_named(iid, name) {
                return true;
            }
            i = i + 1;
        }
        false
    }

    /// Whether `object` is an instance of the type named `name`.
    pub fn instance_of(&self, object: &JvmObject, name: &[u8]) -> (r: bool)
        ensures
            r == spec_instance_of(self@, object@, name@),
    {
        if object.is_instance_of(name) {
            return true;
        }
        let mut l: usize = 0;
        while l < object.layers.len()
            invariant
                l <= object.layers@.len(),
                spec_layers_implement(self@.classes, object@, 0, name@) == spec_layers_implement(
                    self@.classes,
                    object@,
                    l as int,
                    name@,
                ),
            decreases object.layers@.len() - l,
        {
            assert(object@[l as int] == object.layers@[l as int]@);
            match self.find_class(object.layers[l].class_name.as_slice()) {
                Some(c) => {
                    if self.interfaces_named(c, name) {
                        return true;
                    }
                },
                None => {},
            }
            l = l + 1;
        }
        false
    }
}

impl JvmArray {
    /// Whether the array is an instance of the type named `name`.
    pub fn is_instance_of(&self, name: &[u8]) -> (r: bool)
        ensures
            r == spec_array_instance_of(self@, name@),
    {
        let object: Vec<u8> = object_class_name();
        if bytes_eq(name, object.as_slice()) {
            return true;
        }
        if name.len() == 0 || name[0] != CH_ARRAY {
            assert(name@ != seq![CH_ARRAY] + self@.component) by {
                if name@.len() > 0 {
                    assert((seq![CH_ARRAY] + self@.component)[0] == CH_ARRAY);
                }
            }
            return false;
        }
        let rest: Vec<u8> = crate::bytes::copy_range(name, 1, name.len());
        let same: bool = bytes_eq(rest.as_slice(), self.component.as_slice());
        assert(name@ =~= seq![CH_ARRAY] + name@.subrange(1, name@.len() as int));
        assert(same == (name@ == seq![CH_ARRAY] + self@.component)) by {
            if name@ == seq![CH_ARRAY] + self@.component {
                assert(name@.subrange(1, name@.len() as int) =~= self@.component);
            }
        }
        same
    }
}

} // verus!
