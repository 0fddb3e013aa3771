//! Arrays of the heap.
use crate::bytes::copy_range;
use crate::typevalues::{spec_default_value, spec_field_type, JvmType, JvmValue, JvmReferenceTargetType};
use vstd::prelude::*;

verus! {

/// An array: the descriptor of its component type and its components.
#[derive(Debug)]
pub struct JvmArray {
    pub component: Vec<u8>,
    pub items: Vec<JvmValue>,
}

/// The mathematical value of a `JvmArray`.
pub struct ArrayView {
    pub component: Seq<u8>,
    pub items: Seq<JvmValue>,
}

impl View for JvmArray {
    type V = ArrayView;

    open spec fn view(&self) -> ArrayView {
        ArrayView { component: self.component@, items: self.items@ }
    }
}

/// The value that the components of a new array with this component descriptor hold:
/// the default value of the type, and `Null` where the descriptor names no type.
pub open spec fn spec_component_default(component: Seq<u8>) -> JvmValue {
    match spec_field_type(component) {
        Some(t) => spec_default_value(t),
        None => JvmValue::Reference(JvmReferenceTargetType::Null),
    }
}

/// A new array of `length` components of this component type.
pub open spec fn spec_new_array(component: Seq<u8>, length: nat) -> ArrayView {
    ArrayView {
        component,
        items: Seq::new(length, |i: int| spec_component_default(component)),
    }
}

impl JvmArray {
    /// An array of `length` components of the type that `component` describes, each at
    /// its default value.
    pub fn new(component: &[u8], length: usize) -> (r: JvmArray)
        ensures
            r@ == spec_new_array(component@, length as nat),
    {
        let fill: JvmValue = match JvmType::from_descriptor(component) {
            Some(t) => t.default_value(),
            None => JvmValue::Reference(JvmReferenceTargetType::Null),
        };
        let mut items: Vec<JvmValue> = Vec::new();
        let mut i: usize = 0;
        while i < length
            invariant
                i <= length,
                items@.len() == i,
                fill == spec_component_default(component@),
                forall|k: int| 0 <= k < i ==> items@[k] == fill,
            decreases length - i,
        {
            items.push(fill);
            i = i + 1;
        }
        let owned: Vec<u8> = copy_range(component, 0, component.len());
        assert(owned@ =~= component@);
        assert(items@ =~= spec_new_array(component@, length as nat).items);
        JvmArray { component: owned, items }
    }

    /// The number of components.
    pub fn length(&self) -> (n: usize)
        ensures
            n == self@.items.len(),
    {
        self.items.len()
    }
}

} // verus!
