//! The instructions that need more than one frame: those that name classes, fields and
//! constants of the pool.
use crate::bytes::{copy_range, push_all};
use crate::classinit::{spec_prepare_class, Prepared};
use crate::constant::{Constant, ConstantView};
use crate::constantpool::{entry, spec_class_name, spec_ref, spec_utf8, ConstantPool};
use crate::exceptions::JavaExceptionKind;
use crate::frame::{peek, spec_replace, FatalError, FrameView, Step};
use crate::heap::{
    create_static_string_object, spec_new_object, spec_string_object, with_object, HeapView,
};
use crate::heapops::{
    loaded, spec_array_length, spec_array_load, spec_array_store, spec_field_load,
    spec_field_store, spec_loaded, spec_new_array, spec_stored, stored,
};
use crate::instruction::Instruction;
use crate::jvmthread::{spec_raise, with_area, with_heap, with_top, JvmThread, Outcome, ThreadView};
use crate::methodarea::{
    spec_get_static, spec_load, spec_lookup, spec_set_static, MemberRef,
};
use crate::text::{string_class_name, string_name};
use crate::typevalues::{
    spec_int_value, spec_long_value, JvmPrimitiveType, JvmReferenceTargetType, JvmValue, CH_ARRAY,
    CH_CLASS, CH_END,
};
use vstd::prelude::*;

verus! {

/// The thread after an instruction has worked on the top frame: a step that is done
/// lets the thread go on; an exception that the instruction raises is thrown; a broken
/// invariant ends the step.
pub open spec fn spec_settle(t: ThreadView, step: Step) -> (ThreadView, Outcome) {
    match step {
        Step::Next => (t, Outcome::Continue),
        Step::Raise(kind) => spec_raise(t, kind),
        Step::Fatal(e) => (t, Outcome::Fatal(e)),
    }
}

/// The constant pool of the class of the top frame. `NoFrame` for a thread without
/// frames, `UnknownClass` where the frame names a class that is not loaded.
pub open spec fn spec_top_pool(t: ThreadView) -> Result<Seq<ConstantView>, FatalError> {
    if t.frames.len() == 0 {
        Err(FatalError::NoFrame)
    } else if t.frames.last().class_id >= t.area.classes.len() {
        Err(FatalError::UnknownClass)
    } else {
        Ok(t.area.classes[t.frames.last().class_id as int].class.constant_pool)
    }
}

/// The class name, member name and descriptor of the member reference at `idx` in the
/// pool of the top frame; `BadConstant` where the entry is no member reference.
pub open spec fn spec_member(t: ThreadView, idx: u16) -> Result<
    (Seq<u8>, Seq<u8>, Seq<u8>),
    FatalError,
> {
    match spec_top_pool(t) {
        Err(e) => Err(e),
        Ok(pool) => match spec_ref(pool, idx) {
            Err(_) => Err(FatalError::BadConstant(idx)),
            Ok(found) => Ok(found),
        },
    }
}

/// The name of the class at `idx` in the pool of the top frame.
pub open spec fn spec_class_at(t: ThreadView, idx: u16) -> Result<Seq<u8>, FatalError> {
    match spec_top_pool(t) {
        Err(e) => Err(e),
        Ok(pool) => match spec_class_name(pool, idx) {
            Err(_) => Err(FatalError::BadConstant(idx)),
            Ok(name) => Ok(name),
        },
    }
}

/// The descriptor of a reference to the class or array type named `name`: the name
/// itself where it is that of an array type, else the name between `L` and `;`.
pub open spec fn spec_reference_descriptor(name: Seq<u8>) -> Seq<u8> {
    if name.len() > 0 && name[0] == CH_ARRAY {
        name
    } else {
        seq![CH_CLASS] + name + seq![CH_END]
    }
}

/// What a constant load pushes for the constant `c`, where the constant is a number:
/// the form for one slot takes `Integer` and `Float`, the wide form `Long` and `Double`.
pub open spec fn spec_number_constant(c: ConstantView, wide: bool) -> Option<JvmValue> {
    match c {
        ConstantView::Integer(v) => if wide {
            None
        } else {
            Some(spec_int_value(v))
        },
        ConstantView::Float(bits) => if wide {
            None
        } else {
            Some(JvmValue::Primitive(JvmPrimitiveType::Float, bits as u64))
        },
        ConstantView::Long(v) => if wide {
            Some(spec_long_value(v))
        } else {
            None
        },
        ConstantView::Double(bits) => if wide {
            Some(JvmValue::Primitive(JvmPrimitiveType::Double, bits))
        } else {
            None
        },
        _ => None,
    }
}

/// The thread after the top frame was replaced by `f` and the heap by `heap`, and the
/// step `step` was settled.
pub open spec fn spec_settle_frame(t: ThreadView, f: FrameView, heap: HeapView, step: Step) -> (
    ThreadView,
    Outcome,
) {
    spec_settle(with_heap(with_top(t, f), heap), step)
}

/// The thread after an instruction on an array or on a field of an object.
pub open spec fn spec_heap_instruction(t: ThreadView, i: Instruction, next: int) -> Option<
    (ThreadView, Outcome),
> {
    let f = t.frames.last();
    match i {
        Instruction::ArrayLoad(kind) => Some(
            spec_settle_frame(
                t,
                spec_array_load(f, t.heap, kind, next).0,
                t.heap,
                spec_array_load(f, t.heap, kind, next).1,
            ),
        ),
        Instruction::ArrayStore(kind) => Some(
            spec_settle_frame(
                t,
                spec_array_store(f, t.heap, kind, next).0,
                spec_array_store(f, t.heap, kind, next).1,
                spec_array_store(f, t.heap, kind, next).2,
            ),
        ),
        Instruction::ArrayLength => Some(
            spec_settle_frame(
                t,
                spec_array_length(f, t.heap, next).0,
                t.heap,
                spec_array_length(f, t.heap, next).1,
            ),
        ),
        Instruction::NewArray(letter) => Some(
            spec_settle_frame(
                t,
                spec_new_array(f, t.heap, seq![letter], next).0,
                spec_new_array(f, t.heap, seq![letter], next).1,
                spec_new_array(f, t.heap, seq![letter], next).2,
            ),
        ),
        Instruction::NewReferenceArray(idx) => match spec_class_at(t, idx) {
            Err(e) => Some((t, Outcome::Fatal(e))),
            Ok(name) => Some(
                spec_settle_frame(
                    t,
                    spec_new_array(f, t.heap, spec_reference_descriptor(name), next).0,
                    spec_new_array(f, t.heap, spec_reference_descriptor(name), next).1,
                    spec_new_array(f, t.heap, spec_reference_descriptor(name), next).2,
                ),
            ),
        },
        Instruction::GetField(idx) => match spec_member(t, idx) {
            Err(e) => Some((t, Outcome::Fatal(e))),
            Ok((_, name, _)) => Some(
                spec_settle_frame(
                    t,
                    spec_field_load(f, t.heap, name, next).0,
                    t.heap,
                    spec_field_load(f, t.heap, name, next).1,
                ),
            ),
        },
        Instruction::PutField(idx) => match spec_member(t, idx) {
            Err(e) => Some((t, Outcome::Fatal(e))),
            Ok((_, name, _)) => Some(
                spec_settle_frame(
                    t,
                    spec_field_store(f, t.heap, name, next).0,
                    spec_field_store(f, t.heap, name, next).1,
                    spec_field_store(f, t.heap, name, next).2,
                ),
            ),
        },
        _ => None,
    }
}

/// The thread after a constant of the pool was pushed.
///
/// A number is pushed as it stands. For a `String` constant, `java/lang/String` is
/// loaded if need be, a string object with the text of the constant is made and put on
/// the heap, and a reference to it is pushed; a class that cannot be loaded is answered
/// with `NoClassDefFound`. Any other constant is `BadConstant`.
#[verifier::opaque]
pub open spec fn spec_load_constant(t: ThreadView, idx: u16, wide: bool, next: int) -> (
    ThreadView,
    Outcome,
) {
    match spec_top_pool(t) {
        Err(e) => (t, Outcome::Fatal(e)),
        Ok(pool) => match spec_number_constant(entry(pool, idx), wide) {
            Some(v) => spec_settle_frame(
                t,
                spec_replace(t.frames.last(), 0, seq![v], next).0,
                t.heap,
                spec_replace(t.frames.last(), 0, seq![v], next).1,
            ),
            None => match entry(pool, idx) {
                ConstantView::String(s) => if wide {
                    (t, Outcome::Fatal(FatalError::BadConstant(idx)))
                } else {
                    match spec_utf8(pool, s) {
                        Err(_) => (t, Outcome::Fatal(FatalError::BadConstant(idx))),
                        Ok(text) => spec_push_string(t, text, next),
                    }
                },
                _ => (t, Outcome::Fatal(FatalError::BadConstant(idx))),
            },
        },
    }
}

/// The thread after a string object with the text `text` was made and pushed.
#[verifier::opaque]
pub open spec fn spec_push_string(t: ThreadView, text: Seq<u8>, next: int) -> (ThreadView, Outcome) {
    let loaded = spec_load(t.area, string_name());
    match loaded.1 {
        Err(_) => spec_raise(with_area(t, loaded.0), JavaExceptionKind::NoClassDefFound),
        Ok(_) => match spec_string_object(t.heap, loaded.0, text).1 {
            None => (with_area(t, loaded.0), Outcome::Fatal(FatalError::BadDescriptor)),
            Some(object) => spec_settle_frame(
                with_area(t, loaded.0),
                spec_replace(
                    t.frames.last(),
                    0,
                    seq![
                        JvmValue::Reference(
                            JvmReferenceTargetType::Object(t.heap.objects.len() as usize),
                        ),
                    ],
                    next,
                ).0,
                with_object(spec_string_object(t.heap, loaded.0, text).0, object),
                spec_replace(
                    t.frames.last(),
                    0,
                    seq![
                        JvmValue::Reference(
                            JvmReferenceTargetType::Object(t.heap.objects.len() as usize),
                        ),
                    ],
                    next,
                ).1,
            ),
        },
    }
}

/// The thread after an object of the class at `idx` was made and pushed. The class is
/// prepared first: loaded, and initialized before the object is made.
#[verifier::opaque]
pub open spec fn spec_new(t: ThreadView, idx: u16, next: int) -> (ThreadView, Outcome) {
    match spec_class_at(t, idx) {
        Err(e) => (t, Outcome::Fatal(e)),
        Ok(name) => match spec_prepare_class(t, name, true).1 {
            Prepared::Done(outcome) => (spec_prepare_class(t, name, true).0, outcome),
            Prepared::Ready(_) => {
                let p = spec_prepare_class(t, name, true).0;
                match spec_new_object(p.heap, p.area, name).1 {
                    None => (p, Outcome::Fatal(FatalError::BadDescriptor)),
                    Some(id) => spec_settle_frame(
                        p,
                        spec_replace(
                            p.frames.last(),
                            0,
                            seq![JvmValue::Reference(JvmReferenceTargetType::Object(id))],
                            next,
                        ).0,
                        spec_new_object(p.heap, p.area, name).0,
                        spec_replace(
                            p.frames.last(),
                            0,
                            seq![JvmValue::Reference(JvmReferenceTargetType::Object(id))],
                            next,
                        ).1,
                    ),
                }
            },
        },
    }
}

/// The thread after a static field was read (`store` false) or written (`store` true).
///
/// The class that the reference names is prepared; the field is searched from it, as
/// resolution says; the class that declares the field holds the value. A field that is
/// not found, or is no static field, is answered with `Linkage`.
#[verifier::opaque]
pub open spec fn spec_static(t: ThreadView, idx: u16, store: bool, next: int) -> (
    ThreadView,
    Outcome,
) {
    match spec_member(t, idx) {
        Err(e) => (t, Outcome::Fatal(e)),
        Ok((class, name, _)) => match spec_prepare_class(t, class, true).1 {
            Prepared::Done(outcome) => (spec_prepare_class(t, class, true).0, outcome),
            Prepared::Ready(cid) => {
                let p = spec_prepare_class(t, class, true).0;
                match spec_lookup(p.area.classes, cid as int, true, name, None) {
                    None => spec_raise(p, JavaExceptionKind::Linkage),
                    Some(m) => match spec_get_static(p.area, m.class_id as int, name) {
                        None => spec_raise(p, JavaExceptionKind::Linkage),
                        Some(existing) => if store {
                            spec_static_store(p, m.class_id, name, existing, next)
                        } else {
                            spec_settle_frame(
                                p,
                                spec_replace(p.frames.last(), 0, seq![spec_loaded(existing)], next).0,
                                p.heap,
                                spec_replace(p.frames.last(), 0, seq![spec_loaded(existing)], next).1,
                            )
                        },
                    },
                }
            },
        },
    }
}

/// The thread after the value on top was written into the static field `name` of class
/// `cid`, which held `existing`.
#[verifier::opaque]
pub open spec fn spec_static_store(
    p: ThreadView,
    cid: usize,
    name: Seq<u8>,
    existing: JvmValue,
    next: int,
) -> (ThreadView, Outcome) {
    if p.frames.last().stack.len() < 1 {
        (p, Outcome::Fatal(FatalError::StackUnderflow))
    } else {
        match spec_stored(existing, peek(p.frames.last(), 0)) {
            None => (p, Outcome::Fatal(FatalError::CategoryMismatch)),
            Some(v) => match spec_replace(p.frames.last(), 1, Seq::empty(), next).1 {
                Step::Next => (
                    with_area(
                        with_top(p, spec_replace(p.frames.last(), 1, Seq::empty(), next).0),
                        spec_set_static(p.area, cid as int, name, v),
                    ),
                    Outcome::Continue,
                ),
                other => spec_settle(p, other),
            },
        }
    }
}

impl JvmThread {
    /// Settles the step of an instruction that has worked on the top frame.
    pub fn settle(&mut self, step: Step) -> (r: Outcome)
        ensures
            (final(self)@, r) == spec_settle(old(self)@, step),
    {
        match step {
            Step::Next => Outcome::Continue,
            Step::Raise(kind) => self.raise(kind),
            Step::Fatal(e) => Outcome::Fatal(e),
        }
    }

    /// The constant pool of the class of the top frame.
    pub fn top_pool(&self) -> (r: Result<&ConstantPool, FatalError>)
        ensures
            match r {
                Ok(pool) => spec_top_pool(self@) == Ok::<Seq<ConstantView>, FatalError>(pool@),
                Err(e) => spec_top_pool(self@) == Err::<Seq<ConstantView>, FatalError>(e),
            },
    {
        let n: usize = self.frames.len();
        if n == 0 {
            return Err(FatalError::NoFrame);
        }
        assert(self@.frames.last() == self.frames@[n - 1]@);
        let cid: usize = self.frames[n - 1].class_id;
        if cid >= self.methodarea.classes.len() {
            return Err(FatalError::UnknownClass);
        }
        assert(self@.area.classes[cid as int] == self.methodarea.classes@[cid as int]@);
        Ok(&self.methodarea.classes[cid].class.constant_pool)
    }

    /// The class name, member name and descriptor of the member reference at `idx` in
    /// the pool of the top frame.
    pub fn member(&self, idx: u16) -> (r: Result<(Vec<u8>, Vec<u8>, Vec<u8>), FatalError>)
        ensures
            match r {
                Ok((class, name, descriptor)) => spec_member(self@, idx) == Ok::<
                    (Seq<u8>, Seq<u8>, Seq<u8>),
                    FatalError,
                >((class@, name@, descriptor@)),
                Err(e) => spec_member(self@, idx) == Err::<(Seq<u8>, Seq<u8>, Seq<u8>), FatalError>(
                    e,
                ),
            },
    {
        let pool: &ConstantPool = match self.top_pool() {
            Ok(p) => p,
            Err(e) => {
                return Err(e);
            },
        };
        match pool.resolve_ref(idx) {
            Err(_) => Err(FatalError::BadConstant(idx)),
            Ok((class, name, descriptor)) => {
                let c: Vec<u8> = copy_range(class.as_slice(), 0, class.len());
                let n: Vec<u8> = copy_range(name.as_slice(), 0, name.len());
                let d: Vec<u8> = copy_range(descriptor.as_slice(), 0, descriptor.len());
                assert(c@ =~= class@ && n@ =~= name@ && d@ =~= descriptor@);
                Ok((c, n, d))
            },
        }
    }

    /// The name of the class at `idx` in the pool of the top frame.
    pub fn class_at(&self, idx: u16) -> (r: Result<Vec<u8>, FatalError>)
        ensures
            match r {
                Ok(name) => spec_class_at(self@, idx) == Ok::<Seq<u8>, FatalError>(name@),
                Err(e) => spec_class_at(self@, idx) == Err::<Seq<u8>, FatalError>(e),
            },
    {
        let pool: &ConstantPool = match self.top_pool() {
            Ok(p) => p,
            Err(e) => {
                return Err(e);
            },
        };
        match pool.resolve_class_name(idx) {
            Err(_) => Err(FatalError::BadConstant(idx)),
            Ok(name) => {
                let n: Vec<u8> = copy_range(name.as_slice(), 0, name.len());
                assert(n@ =~= name@);
                Ok(n)
            },
        }
    }

    /// Carries out an instruction on an array or on a field of an object.
    pub(crate) fn heap_instruction(&mut self, i: Instruction, next: usize) -> (r: Option<Outcome>)
        requires
            old(self)@.frames.len() > 0,
        ensures
            match r {
                Some(outcome) => spec_heap_instruction(old(self)@, i, next as int) == Some(
                    (final(self)@, outcome),
                ),
                None => spec_heap_instruction(old(self)@, i, next as int) is None && final(self)@
                    == old(self)@,
            },
    {
        let n: usize = self.frames.len();
        let ghost t = self@;
        assert(t.frames.last() == self.frames@[n - 1]@);
        let step: Step = match i {
            Instruction::ArrayLoad(kind) => self.frames[n - 1].array_load(&self.heap, kind, next),
            Instruction::ArrayStore(kind) => self.frames[n - 1].array_store(
                &mut self.heap,
                kind,
                next,
            ),
            Instruction::ArrayLength => self.frames[n - 1].array_length(&self.heap, next),
            Instruction::NewArray(letter) => {
                let component: [u8; 1] = [letter];
                assert(component@ =~= seq![letter]);
                self.frames[n - 1].new_array(&mut self.heap, component.as_slice(), next)
            },
            Instruction::NewReferenceArray(idx) => {
                let name: Vec<u8> = match self.class_at(idx) {
                    Ok(name) => name,
                    Err(e) => {
                        return Some(Outcome::Fatal(e));
                    },
                };
                let component: Vec<u8> = reference_descriptor(name.as_slice());
                self.frames[n - 1].new_array(&mut self.heap, component.as_slice(), next)
            },
            Instruction::GetField(idx) => {
                let name: Vec<u8> = match self.member(idx) {
                    Ok((_, name, _)) => name,
                    Err(e) => {
                        return Some(Outcome::Fatal(e));
                    },
                };
                self.frames[n - 1].field_load(&self.heap, name.as_slice(), next)
            },
            Instruction::PutField(idx) => {
                let name: Vec<u8> = match self.member(idx) {
                    Ok((_, name, _)) => name,
                    Err(e) => {
                        return Some(Outcome::Fatal(e));
                    },
                };
                self.frames[n - 1].field_store(&mut self.heap, name.as_slice(), next)
            },
            _ => {
                return None;
            },
        };
        assert(self@.frames =~= t.frames.update(n - 1, self.frames@[n - 1]@));
        Some(self.settle(step))
    }

    /// Replaces the top frame's stack as `spec_replace` says and settles the step.
    pub(crate) fn push_value(&mut self, pops: usize, v: JvmValue, next: usize) -> (r: Outcome)
        requires
            old(self)@.frames.len() > 0,
        ensures
            (final(self)@, r) == spec_settle_frame(
                old(self)@,
                spec_replace(old(self)@.frames.last(), pops as nat, seq![v], next as int).0,
                old(self)@.heap,
                spec_replace(old(self)@.frames.last(), pops as nat, seq![v], next as int).1,
            ),
    {
        let n: usize = self.frames.len();
        let ghost t = self@;
        assert(t.frames.last() == self.frames@[n - 1]@);
        let step: Step = self.frames[n - 1].replace_one(pops, v, next);
        assert(self@.frames =~= t.frames.update(n - 1, self.frames@[n - 1]@));
        self.settle(step)
    }

    /// Pushes a constant of the pool.
    pub fn load_constant(&mut self, idx: u16, wide: bool, next: usize) -> (r: Outcome)
        ensures
            (final(self)@, r) == spec_load_constant(old(self)@, idx, wide, next as int),
    {
        reveal(spec_load_constant);
        let pool: &ConstantPool = match self.top_pool() {
            Ok(p) => p,
            Err(e) => {
                return Outcome::Fatal(e);
            },
        };
        let number: Option<JvmValue> = match pool.get(idx) {
            Some(Constant::Integer(v)) => if wide {
                None
            } else {
                Some(JvmValue::from_int(*v))
            },
            Some(Constant::Float(bits)) => if wide {
                None
            } else {
                Some(JvmValue::Primitive(JvmPrimitiveType::Float, *bits as u64))
            },
            Some(Constant::Long(v)) => if wide {
                Some(JvmValue::from_long(*v))
            } else {
                None
            },
            Some(Constant::Double(bits)) => if wide {
                Some(JvmValue::Primitive(JvmPrimitiveType::Double, *bits))
            } else {
                None
            },
            _ => None,
        };
        match number {
            Some(v) => {
                return self.push_value(0, v, next);
            },
            None => {},
        }
        let text: Vec<u8> = match pool.get(idx) {
            Some(Constant::String(s)) => {
                if wide {
                    return Outcome::Fatal(FatalError::BadConstant(idx));
                }
                match pool.resolve_utf8(*s) {
                    Ok(found) => {
                        let owned: Vec<u8> = copy_range(found.as_slice(), 0, found.len());
                        assert(owned@ =~= found@);
                        owned
                    },
                    Err(_) => {
                        return Outcome::Fatal(FatalError::BadConstant(idx));
                    },
                }
            },
            _ => {
                return Outcome::Fatal(FatalError::BadConstant(idx));
            },
        };
        self.push_string(text.as_slice(), next)
    }

    /// Makes a string object with the text `text` and pushes a reference to it.
    pub(crate) fn push_string(&mut self, text: &[u8], next: usize) -> (r: Outcome)
        requires
            old(self)@.frames.len() > 0,
        ensures
            (final(self)@, r) == spec_push_string(old(self)@, text@, next as int),
    {
        reveal(spec_push_string);
        let name: Vec<u8> = string_class_name();
        match self.methodarea.maybe_load_class(name.as_slice()) {
            Err(_) => {
                return self.raise(JavaExceptionKind::NoClassDefFound);
            },
            Ok(_) => {},
        }
        let object = match create_static_string_object(text, &mut self.heap, &self.methodarea) {
            Some(o) => o,
            None => {
                return Outcome::Fatal(FatalError::BadDescriptor);
            },
        };
        let id: usize = self.heap.add_object(object);
        self.push_value(0, JvmValue::Reference(JvmReferenceTargetType::Object(id)), next)
    }

    /// Makes an object of the class at `idx` and pushes a reference to it.
    pub(crate) fn new_instance(&mut self, idx: u16, next: usize) -> (r: Outcome)
        requires
            old(self)@.frames.len() > 0,
        ensures
            (final(self)@, r) == spec_new(old(self)@, idx, next as int),
    {
        reveal(spec_new);
        let name: Vec<u8> = match self.class_at(idx) {
            Ok(name) => name,
            Err(e) => {
                return Outcome::Fatal(e);
            },
        };
        match self.prepare_class(name.as_slice(), true) {
            Prepared::Done(outcome) => outcome,
            Prepared::Ready(_) => match self.heap.new_object(name.as_slice(), &self.methodarea) {
                None => Outcome::Fatal(FatalError::BadDescriptor),
                Some(id) => self.push_value(
                    0,
                    JvmValue::Reference(JvmReferenceTargetType::Object(id)),
                    next,
                ),
            },
        }
    }

    /// Reads or writes a static field.
    pub(crate) fn static_access(&mut self, idx: u16, store: bool, next: usize) -> (r: Outcome)
        requires
            old(self)@.frames.len() > 0,
        ensures
            (final(self)@, r) == spec_static(old(self)@, idx, store, next as int),
    {
        reveal(spec_static);
        let (class, name): (Vec<u8>, Vec<u8>) = match self.member(idx) {
            Ok((class, name, _)) => (class, name),
            Err(e) => {
                return Outcome::Fatal(e);
            },
        };
        let cid: usize = match self.prepare_class(class.as_slice(), true) {
            Prepared::Done(outcome) => {
                return outcome;
            },
            Prepared::Ready(cid) => cid,
        };
        let found: MemberRef = match self.methodarea.lookup(cid, true, name.as_slice(), None) {
            Some(m) => m,
            None => {
                return self.raise(JavaExceptionKind::Linkage);
            },
        };
        let existing: JvmValue = match self.methodarea.get_static(found.class_id, name.as_slice()) {
            Some(v) => v,
            None => {
                return self.raise(JavaExceptionKind::Linkage);
            },
        };
        if store {
            self.static_store(found.class_id, name.as_slice(), existing, next)
        } else {
            self.push_value(0, loaded(&existing), next)
        }
    }

    /// Writes the value on top into the static field `name` of class `cid`, which holds
    /// `existing`.
    pub(crate) fn static_store(&mut self, cid: usize, name: &[u8], existing: JvmValue, next: usize) -> (r:
        Outcome)
        requires
            old(self)@.frames.len() > 0,
        ensures
            (final(self)@, r) == spec_static_store(old(self)@, cid, name@, existing, next as int),
    {
        reveal(spec_static_store);
        let n: usize = self.frames.len();
        let ghost p = self@;
        assert(p.frames.last() == self.frames@[n - 1]@);
        if self.frames[n - 1].stack.len() < 1 {
            return Outcome::Fatal(FatalError::StackUnderflow);
        }
        let v: JvmValue = match stored(&existing, &self.frames[n - 1].peek(0)) {
            Some(v) => v,
            None => {
                return Outcome::Fatal(FatalError::CategoryMismatch);
            },
        };
        let step: Step = self.frames[n - 1].drop_values(1, next);
        assert(self@.frames =~= p.frames.update(n - 1, self.frames@[n - 1]@));
        match step {
            Step::Next => {
                let ghost q = self@;
                assert(q == with_top(p, self.frames@[n - 1]@));
                let done: bool = self.methodarea.set_static(cid, name, v);
                assert(self@ == with_area(q, spec_set_static(p.area, cid as int, name@, v)));
                Outcome::Continue
            },
            other => {
                assert(self@.frames =~= p.frames);
                assert(self@ == p);
                self.settle(other)
            },
        }
    }
}

/// The descriptor of a reference to the class or array type named `name`.
pub fn reference_descriptor(name: &[u8]) -> (r: Vec<u8>)
    ensures
        r@ == spec_reference_descriptor(name@),
{
    if name.len() > 0 && name[0] == CH_ARRAY {
        let owned: Vec<u8> = copy_range(name, 0, name.len());
        assert(owned@ =~= name@);
        owned
    } else {
        let mut out: Vec<u8> = Vec::new();
        out.push(CH_CLASS);
        push_all(&mut out, name);
        out.push(CH_END);
        assert(out@ =~= seq![CH_CLASS] + name@ + seq![CH_END]);
        out
    }
}

} // verus!
