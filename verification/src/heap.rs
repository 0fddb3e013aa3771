//! The heap: the pool of objects and arrays, each known by its identifier.
use crate::array::{spec_new_array, ArrayView, JvmArray};
use crate::exceptions::JavaExceptionKind;
use crate::methodarea::{AreaView, MethodArea};
use crate::object::{spec_instantiate, spec_set_field, JvmObject, LayerView};
use crate::text::{string_class_name, string_name};
use crate::typevalues::{JvmPrimitiveType, JvmReferenceTargetType, JvmValue};
use vstd::prelude::*;

verus! {

/// The objects and the arrays of a run. An identifier is a position in one of the two
/// lists; nothing is ever taken out, so an identifier stays good.
#[derive(Debug)]
pub struct Heap {
    pub objects: Vec<JvmObject>,
    pub arrays: Vec<JvmArray>,
}

/// The mathematical value of a `Heap`.
pub struct HeapView {
    pub objects: Seq<Seq<LayerView>>,
    pub arrays: Seq<ArrayView>,
}

impl View for Heap {
    type V = HeapView;

    open spec fn view(&self) -> HeapView {
        HeapView {
            objects: self.objects@.map_values(|o: JvmObject| o@),
            arrays: self.arrays@.map_values(|a: JvmArray| a@),
        }
    }
}

/// The heap with one more object.
pub open spec fn with_object(heap: HeapView, object: Seq<LayerView>) -> HeapView {
    HeapView { objects: heap.objects.push(object), arrays: heap.arrays }
}

/// The heap with one more array.
pub open spec fn with_array(heap: HeapView, array: ArrayView) -> HeapView {
    HeapView { objects: heap.objects, arrays: heap.arrays.push(array) }
}

/// The heap after a new object of the class named `name` was asked for, and the
/// identifier of the object; the heap is unchanged where the object cannot be made.
pub open spec fn spec_new_object(heap: HeapView, area: AreaView, name: Seq<u8>) -> (
    HeapView,
    Option<usize>,
) {
    match spec_instantiate(area, name) {
        Some(layers) => (with_object(heap, layers), Some(heap.objects.len() as usize)),
        None => (heap, None),
    }
}

/// The heap after a new array was asked for, and the identifier of the array; a
/// negative length is answered with `NegativeArraySize`.
pub open spec fn spec_heap_new_array(heap: HeapView, component: Seq<u8>, length: i32) -> (
    HeapView,
    Result<usize, JavaExceptionKind>,
) {
    if length < 0 {
        (heap, Err(JavaExceptionKind::NegativeArraySize))
    } else {
        (
            with_array(heap, spec_new_array(component, length as nat)),
            Ok(heap.arrays.len() as usize),
        )
    }
}

/// The bytes of the field name `value`.
pub open spec fn value_name() -> Seq<u8> {
    seq![118u8, 97, 108, 117, 101]
}

/// The array of `char` that holds the text `text`, one component for each byte.
pub open spec fn spec_text_array(text: Seq<u8>) -> ArrayView {
    ArrayView {
        component: seq![67u8],
        items: Seq::new(
            text.len(),
            |i: int| JvmValue::Primitive(JvmPrimitiveType::Char, text[i] as u64),
        ),
    }
}

/// The heap after a string object for the text `text` was made, and the object: an
/// instance of `java/lang/String` whose field `value` refers to a new array of `char`
/// with the text. Nothing is made where `java/lang/String` cannot be instantiated.
pub open spec fn spec_string_object(heap: HeapView, area: AreaView, text: Seq<u8>) -> (
    HeapView,
    Option<Seq<LayerView>>,
) {
    match spec_instantiate(area, string_name()) {
        None => (heap, None),
        Some(layers) => (
            with_array(heap, spec_text_array(text)),
            Some(
                spec_set_field(
                    layers,
                    value_name(),
                    JvmValue::Reference(JvmReferenceTargetType::Array(heap.arrays.len() as usize)),
                ),
            ),
        ),
    }
}

impl Heap {
    /// A heap without objects and arrays.
    pub fn new() -> (r: Heap)
        ensures
            r@ == (HeapView { objects: Seq::empty(), arrays: Seq::empty() }),
    {
        let r = Heap { objects: Vec::new(), arrays: Vec::new() };
        assert(r@.objects =~= Seq::<Seq<LayerView>>::empty());
        assert(r@.arrays =~= Seq::<ArrayView>::empty());
        r
    }

    /// The number of objects.
    pub fn object_count(&self) -> (n: usize)
        ensures
            n == self@.objects.len(),
    {
        self.objects.len()
    }

    /// The number of arrays.
    pub fn array_count(&self) -> (n: usize)
        ensures
            n == self@.arrays.len(),
    {
        self.arrays.len()
    }

    /// Puts `object` on the heap and returns its identifier.
    pub fn add_object(&mut self, object: JvmObject) -> (id: usize)
        ensures
            final(self)@ == with_object(old(self)@, object@),
            id == old(self)@.objects.len(),
    {
        let id: usize = self.objects.len();
        let ghost ov = object@;
        self.objects.push(object);
        assert(self@.objects =~= old(self)@.objects.push(ov));
        assert(self@.arrays =~= old(self)@.arrays);
        id
    }

    /// Puts `array` on the heap and returns its identifier.
    pub fn add_array(&mut self, array: JvmArray) -> (id: usize)
        ensures
            final(self)@ == with_array(old(self)@, array@),
            id == old(self)@.arrays.len(),
    {
        let id: usize = self.arrays.len();
        let ghost av = array@;
        self.arrays.push(array);
        assert(self@.arrays =~= old(self)@.arrays.push(av));
        assert(self@.objects =~= old(self)@.objects);
        id
    }

    /// Makes an object of the loaded class named `class_name`, with the instance fields
    /// of the class and of every super class at their default values, and returns its
    /// identifier. `None`, and no change, where the class is not loaded.
    pub fn new_object(&mut self, class_name: &[u8], methodarea: &MethodArea) -> (r: Option<usize>)
        ensures
            (final(self)@, r) == spec_new_object(old(self)@, methodarea@, class_name@),
    {
        let mut object: JvmObject = JvmObject::new(class_name);
        if !object.instantiate(methodarea) {
            return None;
        }
        Some(self.add_object(object))
    }

    /// Makes an array of `length` components of the type that `component` describes,
    /// each at its default value, and returns its identifier. A negative length is
    /// answered with `NegativeArraySize`, and nothing is made.
    pub fn new_array(&mut self, component: &[u8], length: i32) -> (r: Result<
        usize,
        JavaExceptionKind,
    >)
        ensures
            (final(self)@, r) == spec_heap_new_array(old(self)@, component@, length),
    {
        if length < 0 {
            return Err(JavaExceptionKind::NegativeArraySize);
        }
        let array: JvmArray = JvmArray::new(component, length as usize);
        Ok(self.add_array(array))
    }

    /// The object with the identifier `id`.
    pub fn get_object(&self, id: usize) -> (r: &JvmObject)
        requires
            id < self@.objects.len(),
        ensures
            r@ == self@.objects[id as int],
    {
        &self.objects[id]
    }

    /// The array with the identifier `id`.
    pub fn get_array(&self, id: usize) -> (r: &JvmArray)
        requires
            id < self@.arrays.len(),
        ensures
            r@ == self@.arrays[id as int],
    {
        &self.arrays[id]
    }
}

/// Makes the object for a string constant with the text `value`: a `java/lang/String`
/// whose field `value` refers to a new array of `char` on the heap, one component for
/// each byte of the text. `None` where `java/lang/String` is not loaded.
pub fn create_static_string_object(value: &[u8], heap: &mut Heap, methodarea: &MethodArea) -> (r:
    Option<JvmObject>)
    ensures
        match r {
            Some(object) => spec_string_object(old(heap)@, methodarea@, value@) == (
                final(heap)@,
                Some(object@),
            ) && object.well_formed(),
            None => spec_string_object(old(heap)@, methodarea@, value@) == (
                final(heap)@,
                None::<Seq<LayerView>>,
            ),
        },
{
    let class_name: Vec<u8> = string_class_name();
    let mut object: JvmObject = JvmObject::new(class_name.as_slice());
    if !object.instantiate(methodarea) {
        return None;
    }
    let mut items: Vec<JvmValue> = Vec::new();
    let mut i: usize = 0;
    while i < value.len()
        invariant
            i <= value@.len(),
            items@.len() == i,
            forall|k: int|
                0 <= k < i ==> items@[k] == JvmValue::Primitive(
                    JvmPrimitiveType::Char,
                    value@[k] as u64,
                ),
        decreases value@.len() - i,
    {
        items.push(JvmValue::Primitive(JvmPrimitiveType::Char, value[i] as u64));
        i = i + 1;
    }
    let component: Vec<u8> = vec![67u8];
    let array = JvmArray { component, items };
    assert(array@.component =~= spec_text_array(value@).component);
    assert(array@.items =~= spec_text_array(value@).items);
    let id: usize = heap.add_array(array);
    let field: [u8; 5] = [118u8, 97, 108, 117, 101];
    assert(field@ =~= value_name());
    object.put_field(field.as_slice(), JvmValue::Reference(JvmReferenceTargetType::Array(id)));
    Some(object)
}

} // verus!
