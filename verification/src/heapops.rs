//! The instructions that read and write arrays and the fields of objects.
use crate::arith::{narrow, spec_narrow, Narrowing};
use crate::array::ArrayView;
use crate::bytes::{from_i32, unsigned32};
use crate::exceptions::JavaExceptionKind;
use crate::frame::{peek, spec_replace, FatalError, Frame, FrameView, Step};
use crate::heap::{spec_heap_new_array, Heap, HeapView};
use crate::instruction::ArrayKind;
use crate::object::{spec_get_field, spec_set_field, LayerView};
use crate::typevalues::{
    spec_int_value, JvmPrimitiveType, JvmReferenceTargetType, JvmValue,
};
use vstd::prelude::*;

verus! {

/// The value that a field or an array component holds after `v` was stored into it,
/// where `existing` is what it held before: the kind stays that of `existing`. An `int`
/// is narrowed to the kind of a `boolean`, `byte`, `char` or `short` slot and kept as the
/// 32-bit pattern of the narrowed number. `None` where `v` is of a kind that the slot
/// does not take.
pub open spec fn spec_stored(existing: JvmValue, v: JvmValue) -> Option<JvmValue> {
    match existing {
        JvmValue::Reference(_) => if v is Reference {
            Some(v)
        } else {
            None
        },
        JvmValue::Primitive(kind, _) => match kind {
            JvmPrimitiveType::Boolean => match v.spec_as_int() {
                Some(a) => Some(JvmValue::Primitive(kind, (unsigned32(a) % 2) as u64)),
                None => None,
            },
            JvmPrimitiveType::Byte => match v.spec_as_int() {
                Some(a) => Some(
                    JvmValue::Primitive(kind, unsigned32(spec_narrow(Narrowing::Byte, a)) as u64),
                ),
                None => None,
            },
            JvmPrimitiveType::Char => match v.spec_as_int() {
                Some(a) => Some(
                    JvmValue::Primitive(kind, unsigned32(spec_narrow(Narrowing::Char, a)) as u64),
                ),
                None => None,
            },
            JvmPrimitiveType::Short => match v.spec_as_int() {
                Some(a) => Some(
                    JvmValue::Primitive(kind, unsigned32(spec_narrow(Narrowing::Short, a)) as u64),
                ),
                None => None,
            },
            JvmPrimitiveType::Void => None,
            _ => if v matches JvmValue::Primitive(k, _) && k == kind {
                Some(v)
            } else {
                None
            },
        },
    }
}

/// The value that the operand stack gets when `v` is read from a field or an array: a
/// `boolean`, `byte`, `char` or `short` becomes the `int` with the same payload.
pub open spec fn spec_loaded(v: JvmValue) -> JvmValue {
    match v {
        JvmValue::Primitive(JvmPrimitiveType::Boolean, bits) => JvmValue::Primitive(
            JvmPrimitiveType::Int,
            bits,
        ),
        JvmValue::Primitive(JvmPrimitiveType::Byte, bits) => JvmValue::Primitive(
            JvmPrimitiveType::Int,
            bits,
        ),
        JvmValue::Primitive(JvmPrimitiveType::Char, bits) => JvmValue::Primitive(
            JvmPrimitiveType::Int,
            bits,
        ),
        JvmValue::Primitive(JvmPrimitiveType::Short, bits) => JvmValue::Primitive(
            JvmPrimitiveType::Int,
            bits,
        ),
        other => other,
    }
}

/// Whether an array instruction of kind `kind` may touch a component that holds `v`.
pub open spec fn array_kind_matches(kind: ArrayKind, v: JvmValue) -> bool {
    match kind {
        ArrayKind::Int => v matches JvmValue::Primitive(JvmPrimitiveType::Int, _),
        ArrayKind::Long => v matches JvmValue::Primitive(JvmPrimitiveType::Long, _),
        ArrayKind::Float => v matches JvmValue::Primitive(JvmPrimitiveType::Float, _),
        ArrayKind::Double => v matches JvmValue::Primitive(JvmPrimitiveType::Double, _),
        ArrayKind::Reference => v is Reference,
        ArrayKind::Byte => (v matches JvmValue::Primitive(JvmPrimitiveType::Byte, _)) || (
        v matches JvmValue::Primitive(JvmPrimitiveType::Boolean, _)),
        ArrayKind::Char => v matches JvmValue::Primitive(JvmPrimitiveType::Char, _),
        ArrayKind::Short => v matches JvmValue::Primitive(JvmPrimitiveType::Short, _),
    }
}

/// The array that the reference `v` leads to. A null reference is answered with
/// `NullPointer`; a value that is no reference to an array is `CategoryMismatch`, and an
/// identifier that the heap does not hold is `UnknownObject`.
pub open spec fn spec_array_of(heap: HeapView, v: JvmValue) -> Result<int, Step> {
    match v.spec_as_reference() {
        Some(JvmReferenceTargetType::Null) => Err(Step::Raise(JavaExceptionKind::NullPointer)),
        Some(JvmReferenceTargetType::Array(id)) => if id < heap.arrays.len() {
            Ok(id as int)
        } else {
            Err(Step::Fatal(FatalError::UnknownObject))
        },
        _ => Err(Step::Fatal(FatalError::CategoryMismatch)),
    }
}

/// The object that the reference `v` leads to, with the same answers as `spec_array_of`.
pub open spec fn spec_object_of(heap: HeapView, v: JvmValue) -> Result<int, Step> {
    match v.spec_as_reference() {
        Some(JvmReferenceTargetType::Null) => Err(Step::Raise(JavaExceptionKind::NullPointer)),
        Some(JvmReferenceTargetType::Object(id)) => if id < heap.objects.len() {
            Ok(id as int)
        } else {
            Err(Step::Fatal(FatalError::UnknownObject))
        },
        _ => Err(Step::Fatal(FatalError::CategoryMismatch)),
    }
}

/// The frame after reading a component of an array: the index on top and the array
/// below it are replaced by the component. An index outside the array is answered with
/// `ArrayIndexOutOfBounds`.
pub open spec fn spec_array_load(f: FrameView, heap: HeapView, kind: ArrayKind, next: int) -> (
    FrameView,
    Step,
) {
    if f.stack.len() < 2 {
        (f, Step::Fatal(FatalError::StackUnderflow))
    } else {
        match (spec_array_of(heap, peek(f, 1)), peek(f, 0).spec_as_int()) {
            (_, None) => (f, Step::Fatal(FatalError::CategoryMismatch)),
            (Err(step), _) => (f, step),
            (Ok(id), Some(index)) => if index < 0 || index >= heap.arrays[id].items.len() {
                (f, Step::Raise(JavaExceptionKind::ArrayIndexOutOfBounds))
            } else if !array_kind_matches(kind, heap.arrays[id].items[index as int]) {
                (f, Step::Fatal(FatalError::CategoryMismatch))
            } else {
                spec_replace(f, 2, seq![spec_loaded(heap.arrays[id].items[index as int])], next)
            },
        }
    }
}

/// The heap with the component `index` of the array `id` holding `v`.
pub open spec fn with_component(heap: HeapView, id: int, index: int, v: JvmValue) -> HeapView {
    HeapView {
        objects: heap.objects,
        arrays: heap.arrays.update(
            id,
            ArrayView {
                component: heap.arrays[id].component,
                items: heap.arrays[id].items.update(index, v),
            },
        ),
    }
}

/// The frame and the heap after writing a component of an array: the value on top, the
/// index below it and the array below that are taken off.
pub open spec fn spec_array_store(f: FrameView, heap: HeapView, kind: ArrayKind, next: int) -> (
    FrameView,
    HeapView,
    Step,
) {
    if f.stack.len() < 3 {
        (f, heap, Step::Fatal(FatalError::StackUnderflow))
    } else {
        match (spec_array_of(heap, peek(f, 2)), peek(f, 1).spec_as_int()) {
            (_, None) => (f, heap, Step::Fatal(FatalError::CategoryMismatch)),
            (Err(step), _) => (f, heap, step),
            (Ok(id), Some(index)) => if index < 0 || index >= heap.arrays[id].items.len() {
                (f, heap, Step::Raise(JavaExceptionKind::ArrayIndexOutOfBounds))
            } else if !array_kind_matches(kind, heap.arrays[id].items[index as int]) {
                (f, heap, Step::Fatal(FatalError::CategoryMismatch))
            } else {
                match spec_stored(heap.arrays[id].items[index as int], peek(f, 0)) {
                    None => (f, heap, Step::Fatal(FatalError::CategoryMismatch)),
                    Some(v) => if spec_replace(f, 3, Seq::empty(), next).1 != Step::Next {
                        (f, heap, spec_replace(f, 3, Seq::empty(), next).1)
                    } else {
                        (
                            spec_replace(f, 3, Seq::empty(), next).0,
                            with_component(heap, id, index as int, v),
                            Step::Next,
                        )
                    },
                }
            },
        }
    }
}

/// The frame after replacing the array on top by its length.
pub open spec fn spec_array_length(f: FrameView, heap: HeapView, next: int) -> (FrameView, Step) {
    if f.stack.len() < 1 {
        (f, Step::Fatal(FatalError::StackUnderflow))
    } else {
        match spec_array_of(heap, peek(f, 0)) {
            Err(step) => (f, step),
            Ok(id) => if heap.arrays[id].items.len() > i32::MAX {
                (f, Step::Fatal(FatalError::UnknownObject))
            } else {
                spec_replace(f, 1, seq![spec_int_value(heap.arrays[id].items.len() as i32)], next)
            },
        }
    }
}

/// The frame and the heap after making an array with the component descriptor
/// `component` and the length on top of the stack.
pub open spec fn spec_new_array(f: FrameView, heap: HeapView, component: Seq<u8>, next: int) -> (
    FrameView,
    HeapView,
    Step,
) {
    if f.stack.len() < 1 {
        (f, heap, Step::Fatal(FatalError::StackUnderflow))
    } else {
        match peek(f, 0).spec_as_int() {
            None => (f, heap, Step::Fatal(FatalError::CategoryMismatch)),
            Some(length) => match spec_heap_new_array(heap, component, length).1 {
                Err(kind) => (f, heap, Step::Raise(kind)),
                Ok(id) => if spec_replace(
                    f,
                    1,
                    seq![JvmValue::Reference(JvmReferenceTargetType::Array(id))],
                    next,
                ).1 != Step::Next {
                    (
                        f,
                        heap,
                        spec_replace(
                            f,
                            1,
                            seq![JvmValue::Reference(JvmReferenceTargetType::Array(id))],
                            next,
                        ).1,
                    )
                } else {
                    (
                        spec_replace(
                            f,
                            1,
                            seq![JvmValue::Reference(JvmReferenceTargetType::Array(id))],
                            next,
                        ).0,
                        spec_heap_new_array(heap, component, length).0,
                        Step::Next,
                    )
                },
            },
        }
    }
}

/// The frame after reading the field `name` of the object on top. An object without
/// such a field is answered with `Linkage`.
pub open spec fn spec_field_load(f: FrameView, heap: HeapView, name: Seq<u8>, next: int) -> (
    FrameView,
    Step,
) {
    if f.stack.len() < 1 {
        (f, Step::Fatal(FatalError::StackUnderflow))
    } else {
        match spec_object_of(heap, peek(f, 0)) {
            Err(step) => (f, step),
            Ok(id) => match spec_get_field(heap.objects[id], name) {
                None => (f, Step::Raise(JavaExceptionKind::Linkage)),
                Some(v) => spec_replace(f, 1, seq![spec_loaded(v)], next),
            },
        }
    }
}

/// The heap with the object `id` replaced.
pub open spec fn with_layers(heap: HeapView, id: int, layers: Seq<LayerView>) -> HeapView {
    HeapView { objects: heap.objects.update(id, layers), arrays: heap.arrays }
}

/// The frame and the heap after writing the value on top into the field `name` of the
/// object below it.
pub open spec fn spec_field_store(f: FrameView, heap: HeapView, name: Seq<u8>, next: int) -> (
    FrameView,
    HeapView,
    Step,
) {
    if f.stack.len() < 2 {
        (f, heap, Step::Fatal(FatalError::StackUnderflow))
    } else {
        match spec_object_of(heap, peek(f, 1)) {
            Err(step) => (f, heap, step),
            Ok(id) => match spec_get_field(heap.objects[id], name) {
                None => (f, heap, Step::Raise(JavaExceptionKind::Linkage)),
                Some(existing) => match spec_stored(existing, peek(f, 0)) {
                    None => (f, heap, Step::Fatal(FatalError::CategoryMismatch)),
                    Some(v) => if spec_replace(f, 2, Seq::empty(), next).1 != Step::Next {
                        (f, heap, spec_replace(f, 2, Seq::empty(), next).1)
                    } else {
                        (
                            spec_replace(f, 2, Seq::empty(), next).0,
                            with_layers(heap, id, spec_set_field(heap.objects[id], name, v)),
                            Step::Next,
                        )
                    },
                },
            },
        }
    }
}

/// The value that a slot holds after `v` was stored into it.
pub fn stored(existing: &JvmValue, v: &JvmValue) -> (r: Option<JvmValue>)
    ensures
        r == spec_stored(*existing, *v),
{
    match existing {
        JvmValue::Reference(_) => match v {
            JvmValue::Reference(_) => Some(*v),
            _ => None,
        },
        JvmValue::Primitive(kind, _) => match kind {
            JvmPrimitiveType::Boolean => match v.as_int() {
                Some(a) => Some(JvmValue::Primitive(*kind, (from_i32(a) % 2) as u64)),
                None => None,
            },
            JvmPrimitiveType::Byte => match v.as_int() {
                Some(a) => Some(
                    JvmValue::Primitive(*kind, from_i32(narrow(Narrowing::Byte, a)) as u64),
                ),
                None => None,
            },
            JvmPrimitiveType::Char => match v.as_int() {
                Some(a) => Some(
                    JvmValue::Primitive(*kind, from_i32(narrow(Narrowing::Char, a)) as u64),
                ),
                None => None,
            },
            JvmPrimitiveType::Short => match v.as_int() {
                Some(a) => Some(
                    JvmValue::Primitive(*kind, from_i32(narrow(Narrowing::Short, a)) as u64),
                ),
                None => None,
            },
            JvmPrimitiveType::Void => None,
            _ => match v {
                JvmValue::Primitive(k, _) => if *k == *kind {
                    Some(*v)
                } else {
                    None
                },
                _ => None,
            },
        },
    }
}

/// The value that the operand stack gets when `v` is read from a slot.
pub fn loaded(v: &JvmValue) -> (r: JvmValue)
    ensures
        r == spec_loaded(*v),
{
    match v {
        JvmValue::Primitive(JvmPrimitiveType::Boolean, bits) => JvmValue::Primitive(
            JvmPrimitiveType::Int,
            *bits,
        ),
        JvmValue::Primitive(JvmPrimitiveType::Byte, bits) => JvmValue::Primitive(
            JvmPrimitiveType::Int,
            *bits,
        ),
        JvmValue::Primitive(JvmPrimitiveType::Char, bits) => JvmValue::Primitive(
            JvmPrimitiveType::Int,
            *bits,
        ),
        JvmValue::Primitive(JvmPrimitiveType::Short, bits) => JvmValue::Primitive(
            JvmPrimitiveType::Int,
            *bits,
        ),
        other => *other,
    }
}

/// Whether an array instruction of kind `kind` may touch a component that holds `v`.
pub fn matches_array_kind(kind: ArrayKind, v: &JvmValue) -> (r: bool)
    ensures
        r == array_kind_matches(kind, *v),
{
    match (kind, v) {
        (ArrayKind::Int, JvmValue::Primitive(JvmPrimitiveType::Int, _)) => true,
        (ArrayKind::Long, JvmValue::Primitive(JvmPrimitiveType::Long, _)) => true,
        (ArrayKind::Float, JvmValue::Primitive(JvmPrimitiveType::Float, _)) => true,
        (ArrayKind::Double, JvmValue::Primitive(JvmPrimitiveType::Double, _)) => true,
        (ArrayKind::Reference, JvmValue::Reference(_)) => true,
        (ArrayKind::Byte, JvmValue::Primitive(JvmPrimitiveType::Byte, _)) => true,
        (ArrayKind::Byte, JvmValue::Primitive(JvmPrimitiveType::Boolean, _)) => true,
        (ArrayKind::Char, JvmValue::Primitive(JvmPrimitiveType::Char, _)) => true,
        (ArrayKind::Short, JvmValue::Primitive(JvmPrimitiveType::Short, _)) => true,
        _ => false,
    }
}

impl Heap {
    /// The array that the reference `v` leads to.
    pub fn array_of(&self, v: &JvmValue) -> (r: Result<usize, Step>)
        ensures
            match r {
                Ok(id) => spec_array_of(self@, *v) == Ok::<int, Step>(id as int) && id
                    < self@.arrays.len(),
                Err(step) => spec_array_of(self@, *v) == Err::<int, Step>(step),
            },
    {
        match v.as_reference() {
            Some(JvmReferenceTargetType::Null) => Err(Step::Raise(JavaExceptionKind::NullPointer)),
            Some(JvmReferenceTargetType::Array(id)) => if id < self.arrays.len() {
                Ok(id)
            } else {
                Err(Step::Fatal(FatalError::UnknownObject))
            },
            _ => Err(Step::Fatal(FatalError::CategoryMismatch)),
        }
    }

    /// The object that the reference `v` leads to.
    pub fn object_of(&self, v: &JvmValue) -> (r: Result<usize, Step>)
        ensures
            match r {
                Ok(id) => spec_object_of(self@, *v) == Ok::<int, Step>(id as int) && id
                    < self@.objects.len(),
                Err(step) => spec_object_of(self@, *v) == Err::<int, Step>(step),
            },
    {
        match v.as_reference() {
            Some(JvmReferenceTargetType::Null) => Err(Step::Raise(JavaExceptionKind::NullPointer)),
            Some(JvmReferenceTargetType::Object(id)) => if id < self.objects.len() {
                Ok(id)
            } else {
                Err(Step::Fatal(FatalError::UnknownObject))
            },
            _ => Err(Step::Fatal(FatalError::CategoryMismatch)),
        }
    }
}

impl Frame {
    /// Reads a component of an array.
    pub fn array_load(&mut self, heap: &Heap, kind: ArrayKind, next: usize) -> (r: Step)
        ensures
            (final(self)@, r) == spec_array_load(old(self)@, heap@, kind, next as int),
    {
        if self.stack.len() < 2 {
            return Step::Fatal(FatalError::StackUnderflow);
        }
        let index: i32 = match self.peek(0).as_int() {
            Some(i) => i,
            None => {
                return Step::Fatal(FatalError::CategoryMismatch);
            },
        };
        let id: usize = match heap.array_of(&self.peek(1)) {
            Ok(id) => id,
            Err(step) => {
                return step;
            },
        };
        assert(heap@.arrays[id as int] == heap.arrays@[id as int]@);
        if index < 0 || index as usize >= heap.arrays[id].items.len() {
            return Step::Raise(JavaExceptionKind::ArrayIndexOutOfBounds);
        }
        let v: JvmValue = heap.arrays[id].items[index as usize];
        if !matches_array_kind(kind, &v) {
            return Step::Fatal(FatalError::CategoryMismatch);
        }
        self.replace_one(2, loaded(&v), next)
    }

    /// Writes a component of an array.
    pub fn array_store(&mut self, heap: &mut Heap, kind: ArrayKind, next: usize) -> (r: Step)
        ensures
            (final(self)@, final(heap)@, r) == spec_array_store(
                old(self)@,
                old(heap)@,
                kind,
                next as int,
            ),
    {
        if self.stack.len() < 3 {
            return Step::Fatal(FatalError::StackUnderflow);
        }
        let index: i32 = match self.peek(1).as_int() {
            Some(i) => i,
            None => {
                return Step::Fatal(FatalError::CategoryMismatch);
            },
        };
        let id: usize = match heap.array_of(&self.peek(2)) {
            Ok(id) => id,
            Err(step) => {
                return step;
            },
        };
        assert(heap@.arrays[id as int] == heap.arrays@[id as int]@);
        if index < 0 || index as usize >= heap.arrays[id].items.len() {
            return Step::Raise(JavaExceptionKind::ArrayIndexOutOfBounds);
        }
        let existing: JvmValue = heap.arrays[id].items[index as usize];
        if !matches_array_kind(kind, &existing) {
            return Step::Fatal(FatalError::CategoryMismatch);
        }
        let v: JvmValue = match stored(&existing, &self.peek(0)) {
            Some(v) => v,
            None => {
                return Step::Fatal(FatalError::CategoryMismatch);
            },
        };
        match self.drop_values(3, next) {
            Step::Next => {
                heap.arrays[id].items[index as usize] = v;
                assert(heap@.arrays =~= with_component(old(heap)@, id as int, index as int, v).arrays);
                assert(heap@.objects =~= old(heap)@.objects);
                Step::Next
            },
            other => other,
        }
    }

    /// Replaces the array on top by its length.
    pub fn array_length(&mut self, heap: &Heap, next: usize) -> (r: Step)
        ensures
            (final(self)@, r) == spec_array_length(old(self)@, heap@, next as int),
    {
        if self.stack.len() < 1 {
            return Step::Fatal(FatalError::StackUnderflow);
        }
        let id: usize = match heap.array_of(&self.peek(0)) {
            Ok(id) => id,
            Err(step) => {
                return step;
            },
        };
        assert(heap@.arrays[id as int] == heap.arrays@[id as int]@);
        let n: usize = heap.arrays[id].items.len();
        if n > 0x7fff_ffff {
            return Step::Fatal(FatalError::UnknownObject);
        }
        self.replace_one(1, JvmValue::from_int(n as i32), next)
    }

    /// Makes an array with the component descriptor `component` and the length on top
    /// of the stack.
    pub fn new_array(&mut self, heap: &mut Heap, component: &[u8], next: usize) -> (r: Step)
        ensures
            (final(self)@, final(heap)@, r) == spec_new_array(
                old(self)@,
                old(heap)@,
                component@,
                next as int,
            ),
    {
        if self.stack.len() < 1 {
            return Step::Fatal(FatalError::StackUnderflow);
        }
        let length: i32 = match self.peek(0).as_int() {
            Some(n) => n,
            None => {
                return Step::Fatal(FatalError::CategoryMismatch);
            },
        };
        if length < 0 {
            return Step::Raise(JavaExceptionKind::NegativeArraySize);
        }
        let id: usize = heap.arrays.len();
        match self.replace_one(1, JvmValue::Reference(JvmReferenceTargetType::Array(id)), next) {
            Step::Next => {
                let made: Result<usize, JavaExceptionKind> = heap.new_array(component, length);
                Step::Next
            },
            other => other,
        }
    }

    /// Reads the field `name` of the object on top.
    pub fn field_load(&mut self, heap: &Heap, name: &[u8], next: usize) -> (r: Step)
        ensures
            (final(self)@, r) == spec_field_load(old(self)@, heap@, name@, next as int),
    {
        if self.stack.len() < 1 {
            return Step::Fatal(FatalError::StackUnderflow);
        }
        let id: usize = match heap.object_of(&self.peek(0)) {
            Ok(id) => id,
            Err(step) => {
                return step;
            },
        };
        assert(heap@.objects[id as int] == heap.objects@[id as int]@);
        match heap.objects[id].field(name) {
            None => Step::Raise(JavaExceptionKind::Linkage),
            Some(v) => self.replace_one(1, loaded(&v), next),
        }
    }

    /// Writes the value on top into the field `name` of the object below it.
    pub fn field_store(&mut self, heap: &mut Heap, name: &[u8], next: usize) -> (r: Step)
        ensures
            (final(self)@, final(heap)@, r) == spec_field_store(
                old(self)@,
                old(heap)@,
                name@,
                next as int,
            ),
    {
        if self.stack.len() < 2 {
            return Step::Fatal(FatalError::StackUnderflow);
        }
        let id: usize = match heap.object_of(&self.peek(1)) {
            Ok(id) => id,
            Err(step) => {
                return step;
            },
        };
        assert(heap@.objects[id as int] == heap.objects@[id as int]@);
        let existing: JvmValue = match heap.objects[id].field(name) {
            Some(v) => v,
            None => {
                return Step::Raise(JavaExceptionKind::Linkage);
            },
        };
        let v: JvmValue = match stored(&existing, &self.peek(0)) {
            Some(v) => v,
            None => {
                return Step::Fatal(FatalError::CategoryMismatch);
            },
        };
        match self.drop_values(2, next) {
            Step::Next => {
                heap.objects[id].put_field(name, v);
                assert(heap@.objects =~= old(heap)@.objects.update(
                    id as int,
                    spec_set_field(old(heap)@.objects[id as int], name@, v),
                ));
                assert(heap@.arrays =~= old(heap)@.arrays);
                Step::Next
            },
            other => other,
        }
    }
}

} // verus!
