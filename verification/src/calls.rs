//! Invocation, return, throwing, and the tests on the class of an object.

use crate::classinit::{spec_prepare_class, Prepared};
use crate::control::{spec_class_at, spec_member, spec_settle, spec_settle_frame};
use crate::exceptions::JavaExceptionKind;
use crate::frame::{peek, spec_replace, with_stack, FatalError, Frame, FrameView, Step};
use crate::instruction::{InvokeKind, LocalKind};
use crate::invoke::{args_match, spec_args_match, spec_new_frame};
use crate::jvmthread::{
    ended, spec_raise, spec_unwind, with_area, with_frames, with_output, with_top, JvmThread,
    Outcome, ThreadState, ThreadView,
};
use crate::local::{kind_matches, matches_kind, spec_target};
use crate::methodarea::{
    spec_find_class, spec_finish_init, spec_lookup, AreaView, MemberRef, ACC_NATIVE,
};
use crate::natives::{native_kind, spec_native_kind, spec_native_output, NativeMethod};
use crate::typetest::{spec_array_instance_of, spec_instance_of};
use crate::typevalues::{
    spec_int_value, spec_method_descriptor, JvmReferenceTargetType, JvmValue, MethodDescriptor,
};
use vstd::prelude::*;

verus! {

/// Whether the reference `target` leads to an instance of the type named `name`;
/// `None` for the null reference. `UnknownObject` where the heap does not hold the
/// target.
pub open spec fn spec_is_instance(t: ThreadView, target: JvmReferenceTargetType, name: Seq<u8>) -> Result<
    Option<bool>,
    FatalError,
> {
    match target {
        JvmReferenceTargetType::Null => Ok(None),
        JvmReferenceTargetType::Object(id) => if id >= t.heap.objects.len() {
            Err(FatalError::UnknownObject)
        } else {
            Ok(Some(spec_instance_of(t.area, t.heap.objects[id as int], name)))
        },
        JvmReferenceTargetType::Array(id) => if id >= t.heap.arrays.len() {
            Err(FatalError::UnknownObject)
        } else {
            Ok(Some(spec_array_instance_of(t.heap.arrays[id as int], name)))
        },
    }
}

/// The thread after a test of the reference on top against the class at `idx`.
///
/// A cast leaves the stack as it is where the reference is null or leads to an
/// instance, and is answered with `ClassCast` where not. A test replaces the reference
/// by 1 where it leads to an instance and by 0 where it is null or does not.
#[verifier::opaque]
pub open spec fn spec_type_test(t: ThreadView, idx: u16, cast: bool, next: int) -> (
    ThreadView,
    Outcome,
) {
    match spec_class_at(t, idx) {
        Err(e) => (t, Outcome::Fatal(e)),
        Ok(name) => if t.frames.last().stack.len() < 1 {
            (t, Outcome::Fatal(FatalError::StackUnderflow))
        } else {
            match peek(t.frames.last(), 0).spec_as_reference() {
                None => (t, Outcome::Fatal(FatalError::CategoryMismatch)),
                Some(target) => match spec_is_instance(t, target, name) {
                    Err(e) => (t, Outcome::Fatal(e)),
                    Ok(is) => if cast {
                        if is == Some(false) {
                            spec_raise(t, JavaExceptionKind::ClassCast)
                        } else {
                            spec_settle_frame(
                                t,
                                spec_replace(t.frames.last(), 0, Seq::empty(), next).0,
                                t.heap,
                                spec_replace(t.frames.last(), 0, Seq::empty(), next).1,
                            )
                        }
                    } else {
                        spec_settle_frame(
                            t,
                            spec_replace(
                                t.frames.last(),
                                1,
                                seq![
                                    spec_int_value(
                                        if is == Some(true) {
                                            1i32
                                        } else {
                                            0i32
                                        },
                                    ),
                                ],
                                next,
                            ).0,
                            t.heap,
                            spec_replace(
                                t.frames.last(),
                                1,
                                seq![
                                    spec_int_value(
                                        if is == Some(true) {
                                            1i32
                                        } else {
                                            0i32
                                        },
                                    ),
                                ],
                                next,
                            ).1,
                        )
                    },
                },
            }
        },
    }
}

/// The class at which the search for the invoked method starts.
///
/// A static call and a special call start at the class that the reference names,
/// whatever the receiver is. A virtual call and an interface call start at the class of
/// the receiver; for an array they start at the class that the reference names. A null
/// receiver is answered with `NullPointer`.
pub open spec fn spec_start_class(
    t: ThreadView,
    kind: InvokeKind,
    args: Seq<JvmValue>,
    declared: usize,
) -> Result<usize, Step> {
    if kind == InvokeKind::Static {
        Ok(declared)
    } else if args.len() < 1 {
        Err(Step::Fatal(FatalError::StackUnderflow))
    } else {
        match args[0].spec_as_reference() {
            None => Err(Step::Fatal(FatalError::CategoryMismatch)),
            Some(JvmReferenceTargetType::Null) => Err(Step::Raise(JavaExceptionKind::NullPointer)),
            Some(JvmReferenceTargetType::Array(_)) => Ok(declared),
            Some(JvmReferenceTargetType::Object(id)) => if kind == InvokeKind::Special {
                Ok(declared)
            } else if id >= t.heap.objects.len() || t.heap.objects[id as int].len() < 1 {
                Err(Step::Fatal(FatalError::UnknownObject))
            } else {
                match spec_find_class(t.area.classes, t.heap.objects[id as int][0].class_name, 0) {
                    Some(c) => Ok(c as usize),
                    None => Err(Step::Fatal(FatalError::UnknownClass)),
                }
            },
        }
    }
}

/// The method that an invocation reaches: the first that a search from the start class
/// finds, in the class itself, then in its super classes, then in their interfaces.
pub open spec fn spec_select(
    t: ThreadView,
    kind: InvokeKind,
    args: Seq<JvmValue>,
    declared: usize,
    name: Seq<u8>,
    descriptor: Seq<u8>,
) -> Result<Option<MemberRef>, Step> {
    match spec_start_class(t, kind, args, declared) {
        Err(step) => Err(step),
        Ok(start) => Ok(spec_lookup(t.area.classes, start as int, false, name, Some(descriptor))),
    }
}

/// Whether the method `target` carries the flag of a native method.
pub open spec fn spec_is_native(area: AreaView, target: MemberRef) -> bool {
    target.class_id < area.classes.len() && target.index
        < area.classes[target.class_id as int].class.methods.len()
        && area.classes[target.class_id as int].class.methods[target.index as int].access_flags
        & ACC_NATIVE != 0
}

/// The thread after the method `target` was entered with the `count` values on top of
/// the stack as its arguments `args`.
///
/// For a method with code, the arguments are taken off the stack of the invoking frame
/// and a frame for the method is pushed, which will resume the invoking frame behind the
/// instruction. A native method must be built in: what it prints is added to the
/// output, and the invoking frame goes on behind the instruction.
#[verifier::opaque]
pub open spec fn spec_enter(
    t: ThreadView,
    target: MemberRef,
    args: Seq<JvmValue>,
    name: Seq<u8>,
    descriptor: Seq<u8>,
    length: int,
) -> (ThreadView, Outcome) {
    let f = t.frames.last();
    if spec_is_native(t.area, target) {
        match spec_native_kind(t.area.classes[target.class_id as int].name, name, descriptor) {
            None => (t, Outcome::Fatal(FatalError::NoCode)),
            Some(native) => match spec_native_output(t.heap, native, args) {
                Err(e) => (t, Outcome::Fatal(e)),
                Ok(text) => match spec_replace(
                    f,
                    args.len(),
                    Seq::empty(),
                    spec_target(f, length) as int,
                ).1 {
                    Step::Next => (
                        with_output(
                            with_top(
                                t,
                                spec_replace(
                                    f,
                                    args.len(),
                                    Seq::empty(),
                                    spec_target(f, length) as int,
                                ).0,
                            ),
                            t.output + text,
                        ),
                        Outcome::Continue,
                    ),
                    other => spec_settle(t, other),
                },
            },
        }
    } else {
        match spec_new_frame(t.area, target, args, spec_target(f, length), None) {
            Err(e) => (t, Outcome::Fatal(e)),
            Ok(callee) => (
                with_frames(
                    t,
                    t.frames.update(
                        t.frames.len() - 1,
                        with_stack(f, f.stack.take(f.stack.len() - args.len()), f.pc),
                    ).push(callee),
                ),
                Outcome::Continue,
            ),
        }
    }
}

/// The number of values that an invocation takes off the stack.
pub open spec fn spec_arg_count(params: nat, kind: InvokeKind) -> nat {
    if kind == InvokeKind::Static {
        params
    } else {
        params + 1
    }
}

/// The thread after an invocation of the method that the reference at `idx` names.
///
/// The arguments are the values on top of the stack, as many as the descriptor has
/// parameters and one more for the receiver unless the call is static; they must have
/// the types of the parameters. The class that the reference names is loaded, and for
/// a static call initialized. The method is selected as `spec_select` says; where the
/// search finds none, the call is answered with `Linkage`.
#[verifier::opaque]
pub open spec fn spec_invoke(t: ThreadView, kind: InvokeKind, idx: u16, length: int) -> (
    ThreadView,
    Outcome,
) {
    match spec_member(t, idx) {
        Err(e) => (t, Outcome::Fatal(e)),
        Ok((class, name, descriptor)) => match spec_method_descriptor(descriptor) {
            None => (t, Outcome::Fatal(FatalError::BadDescriptor)),
            Some(d) => {
                let stack = t.frames.last().stack;
                let count = spec_arg_count(d.params.len(), kind);
                if stack.len() < count {
                    (t, Outcome::Fatal(FatalError::StackUnderflow))
                } else if !spec_args_match(
                    stack.subrange(stack.len() - count, stack.len() as int),
                    d.params,
                    kind != InvokeKind::Static,
                ) {
                    (t, Outcome::Fatal(FatalError::CategoryMismatch))
                } else {
                    spec_invoke_prepared(
                        spec_prepare_class(t, class, kind == InvokeKind::Static),
                        kind,
                        stack.subrange(stack.len() - count, stack.len() as int),
                        name,
                        descriptor,
                        length,
                    )
                }
            },
        },
    }
}

/// The second half of `spec_invoke`, once the class is prepared.
pub open spec fn spec_invoke_prepared(
    prepared: (ThreadView, Prepared),
    kind: InvokeKind,
    args: Seq<JvmValue>,
    name: Seq<u8>,
    descriptor: Seq<u8>,
    length: int,
) -> (ThreadView, Outcome) {
    match prepared.1 {
        Prepared::Done(outcome) => (prepared.0, outcome),
        Prepared::Ready(declared) => match spec_select(
            prepared.0,
            kind,
            args,
            declared,
            name,
            descriptor,
        ) {
            Err(step) => spec_settle(prepared.0, step),
            Ok(None) => spec_raise(prepared.0, JavaExceptionKind::Linkage),
            Ok(Some(target)) => spec_enter(prepared.0, target, args, name, descriptor, length),
        },
    }
}

/// The value that a return of kind `kind` hands back: the value on top, which must be
/// of the kind; nothing for a return without a value.
pub open spec fn spec_returned(f: FrameView, kind: Option<LocalKind>) -> Result<
    Seq<JvmValue>,
    FatalError,
> {
    match kind {
        None => Ok(Seq::empty()),
        Some(k) => if f.stack.len() < 1 {
            Err(FatalError::StackUnderflow)
        } else if !kind_matches(k, peek(f, 0)) {
            Err(FatalError::CategoryMismatch)
        } else {
            Ok(seq![peek(f, 0)])
        },
    }
}

/// The area after the frame `f` has returned: where the frame ran the initializer of a
/// class, the class is `Initialized`.
pub open spec fn spec_completed(area: AreaView, f: FrameView) -> AreaView {
    match f.initializes {
        Some(c) => spec_finish_init(area, c as int, true),
        None => area,
    }
}

/// The thread after its top frame has returned.
///
/// The frame is dropped. The frame below it gets the returned value on its stack and
/// goes on where the dropped frame says. Where there is no frame below, the thread is
/// `Halted` and the value is its result.
#[verifier::opaque]
pub open spec fn spec_return(t: ThreadView, kind: Option<LocalKind>) -> (ThreadView, Outcome) {
    let f = t.frames.last();
    match spec_returned(f, kind) {
        Err(e) => (t, Outcome::Fatal(e)),
        Ok(values) => if t.frames.len() == 1 {
            (
                ended(
                    with_area(with_frames(t, t.frames.drop_last()), spec_completed(t.area, f)),
                    ThreadState::Halted,
                    if values.len() == 1 {
                        Some(values[0])
                    } else {
                        None
                    },
                    t.thrown,
                ),
                Outcome::Halted,
            )
        } else {
            match spec_replace(t.frames[t.frames.len() - 2], 0, values, f.resume as int).1 {
                Step::Next => (
                    with_area(
                        with_frames(
                            t,
                            t.frames.drop_last().update(
                                t.frames.len() - 2,
                                spec_replace(
                                    t.frames[t.frames.len() - 2],
                                    0,
                                    values,
                                    f.resume as int,
                                ).0,
                            ),
                        ),
                        spec_completed(t.area, f),
                    ),
                    Outcome::Continue,
                ),
                Step::Fatal(e) => (t, Outcome::Fatal(e)),
                Step::Raise(_) => (t, Outcome::Fatal(FatalError::NoFrame)),
            }
        },
    }
}

/// The thread after the reference on top was thrown: a null reference is answered with
/// `NullPointer`; an object is thrown as `spec_unwind` says.
#[verifier::opaque]
pub open spec fn spec_throw(t: ThreadView) -> (ThreadView, Outcome) {
    if t.frames.last().stack.len() < 1 {
        (t, Outcome::Fatal(FatalError::StackUnderflow))
    } else {
        match peek(t.frames.last(), 0).spec_as_reference() {
            Some(JvmReferenceTargetType::Null) => spec_raise(t, JavaExceptionKind::NullPointer),
            Some(JvmReferenceTargetType::Object(id)) => spec_unwind(t, id),
            _ => (t, Outcome::Fatal(FatalError::CategoryMismatch)),
        }
    }
}

impl JvmThread {
    /// Whether the reference `target` leads to an instance of the type named `name`.
    pub fn is_instance(&self, target: JvmReferenceTargetType, name: &[u8]) -> (r: Result<
        Option<bool>,
        FatalError,
    >)
        ensures
            r == spec_is_instance(self@, target, name@),
    {
        match target {
            JvmReferenceTargetType::Null => Ok(None),
            JvmReferenceTargetType::Object(id) => {
                if id >= self.heap.objects.len() {
                    return Err(FatalError::UnknownObject);
                }
                assert(self@.heap.objects[id as int] == self.heap.objects@[id as int]@);
                Ok(Some(self.methodarea.instance_of(&self.heap.objects[id], name)))
            },
            JvmReferenceTargetType::Array(id) => {
                if id >= self.heap.arrays.len() {
                    return Err(FatalError::UnknownObject);
                }
                assert(self@.heap.arrays[id as int] == self.heap.arrays@[id as int]@);
                Ok(Some(self.heap.arrays[id].is_instance_of(name)))
            },
        }
    }

    /// Tests the reference on top against the class at `idx`: a cast where `cast`
    /// holds, else a test that pushes its result.
    pub(crate) fn type_test(&mut self, idx: u16, cast: bool, next: usize) -> (r: Outcome)
        requires
            old(self)@.frames.len() > 0,
        ensures
            (final(self)@, r) == spec_type_test(old(self)@, idx, cast, next as int),
    {
        reveal(spec_type_test);
        let name: Vec<u8> = match self.class_at(idx) {
            Ok(name) => name,
            Err(e) => {
                return Outcome::Fatal(e);
            },
        };
        let n: usize = self.frames.len();
        let ghost t = self@;
        assert(t.frames.last() == self.frames@[n - 1]@);
        if self.frames[n - 1].stack.len() < 1 {
            return Outcome::Fatal(FatalError::StackUnderflow);
        }
        let target: JvmReferenceTargetType = match self.frames[n - 1].peek(0).as_reference() {
            Some(target) => target,
            None => {
                return Outcome::Fatal(FatalError::CategoryMismatch);
            },
        };
        let is: Option<bool> = match self.is_instance(target, name.as_slice()) {
            Ok(is) => is,
            Err(e) => {
                return Outcome::Fatal(e);
            },
        };
        if cast {
            match is {
                Some(false) => self.raise(JavaExceptionKind::ClassCast),
                _ => {
                    let step: Step = self.frames[n - 1].drop_values(0, next);
                    assert(self@.frames =~= t.frames.update(n - 1, self.frames@[n - 1]@));
                    self.settle(step)
                },
            }
        } else {
            let bit: i32 = match is {
                Some(true) => 1,
                _ => 0,
            };
            self.push_value(1, JvmValue::from_int(bit), next)
        }
    }

    /// The class at which the search for the invoked method starts.
    pub fn start_class(&self, kind: InvokeKind, args: &[JvmValue], declared: usize) -> (r: Result<
        usize,
        Step,
    >)
        ensures
            r == spec_start_class(self@, kind, args@, declared),
    {
        match kind {
            InvokeKind::Static => {
                return Ok(declared);
            },
            _ => {},
        }
        if args.len() < 1 {
            return Err(Step::Fatal(FatalError::StackUnderflow));
        }
        match args[0].as_reference() {
            None => Err(Step::Fatal(FatalError::CategoryMismatch)),
            Some(JvmReferenceTargetType::Null) => Err(Step::Raise(JavaExceptionKind::NullPointer)),
            Some(JvmReferenceTargetType::Array(_)) => Ok(declared),
            Some(JvmReferenceTargetType::Object(id)) => {
                match kind {
                    InvokeKind::Special => {
                        return Ok(declared);
                    },
                    _ => {},
                }
                if id >= self.heap.objects.len() {
                    return Err(Step::Fatal(FatalError::UnknownObject));
                }
                assert(self@.heap.objects[id as int] == self.heap.objects@[id as int]@);
                if self.heap.objects[id].layers.len() < 1 {
                    return Err(Step::Fatal(FatalError::UnknownObject));
                }
                assert(self.heap.objects@[id as int]@[0] == self.heap.objects@[id as int].layers@[0]@);
                match self.methodarea.find_class(
                    self.heap.objects[id].layers[0].class_name.as_slice(),
                ) {
                    Some(c) => Ok(c),
                    None => Err(Step::Fatal(FatalError::UnknownClass)),
                }
            },
        }
    }

    /// Whether the method `target` carries the flag of a native method.
    pub fn is_native(&self, target: MemberRef) -> (r: bool)
        ensures
            r == spec_is_native(self@.area, target),
    {
        if target.class_id >= self.methodarea.classes.len() {
            return false;
        }
        assert(self@.area.classes[target.class_id as int] == self.methodarea.classes@[target.class_id as int]@);
        let class = &self.methodarea.classes[target.class_id].class;
        if target.index >= class.methods.items.len() {
            return false;
        }
        assert(class@.methods[target.index as int] == class.methods.items@[target.index as int]@);
        class.methods.items[target.index].access_flags & ACC_NATIVE != 0
    }

    /// Enters the method `target` with the arguments `args`, which are the values on
    /// top of the stack of the top frame.
    pub(crate) fn enter(
        &mut self,
        target: MemberRef,
        args: &[JvmValue],
        name: &[u8],
        descriptor: &[u8],
        length: usize,
    ) -> (r: Outcome)
        requires
            old(self)@.frames.len() > 0,
            args@.len() <= old(self)@.frames.last().stack.len(),
        ensures
            (final(self)@, r) == spec_enter(
                old(self)@,
                target,
                args@,
                name@,
                descriptor@,
                length as int,
            ),
    {
        reveal(spec_enter);
        let n: usize = self.frames.len();
        let ghost t = self@;
        assert(t.frames.last() == self.frames@[n - 1]@);
        let resume: usize = self.frames[n - 1].address_behind(length);
        if self.is_native(target) {
            assert(self@.area.classes[target.class_id as int] == self.methodarea.classes@[target.class_id as int]@);
            let native: NativeMethod = match native_kind(
                self.methodarea.classes[target.class_id].name.as_slice(),
                name,
                descriptor,
            ) {
                Some(native) => native,
                None => {
                    return Outcome::Fatal(FatalError::NoCode);
                },
            };
            let text: Vec<u8> = match self.heap.native_output(native, args) {
                Ok(text) => text,
                Err(e) => {
                    return Outcome::Fatal(e);
                },
            };
            let step: Step = self.frames[n - 1].drop_values(args.len(), resume);
            assert(self@.frames =~= t.frames.update(n - 1, self.frames@[n - 1]@));
            match step {
                Step::Next => {
                    crate::bytes::push_all(&mut self.output, text.as_slice());
                    Outcome::Continue
                },
                other => {
                    assert(self@.frames =~= t.frames);
                    self.settle(other)
                },
            }
        } else {
            let callee: Frame = match self.methodarea.new_frame(target, args, resume, None) {
                Ok(f) => f,
                Err(e) => {
                    return Outcome::Fatal(e);
                },
            };
            let keep: usize = self.frames[n - 1].stack.len() - args.len();
            self.frames[n - 1].stack.truncate(keep);
            let ghost caller = self.frames@[n - 1]@;
            let ghost cv = callee@;
            self.frames.push(callee);
            assert(self@.frames =~= t.frames.update(n - 1, caller).push(cv));
            Outcome::Continue
        }
    }

    /// Invokes the method that the reference at `idx` names.
    pub(crate) fn invoke(&mut self, kind: InvokeKind, idx: u16, length: usize) -> (r: Outcome)
        requires
            old(self)@.frames.len() > 0,
        ensures
            (final(self)@, r) == spec_invoke(old(self)@, kind, idx, length as int),
    {
        reveal(spec_invoke);
        let (class, name, descriptor): (Vec<u8>, Vec<u8>, Vec<u8>) = match self.member(idx) {
            Ok(found) => found,
            Err(e) => {
                return Outcome::Fatal(e);
            },
        };
        let d: MethodDescriptor = match MethodDescriptor::parse(descriptor.as_slice()) {
            Some(d) => d,
            None => {
                return Outcome::Fatal(FatalError::BadDescriptor);
            },
        };
        let instance: bool = match kind {
            InvokeKind::Static => false,
            _ => true,
        };
        let n: usize = self.frames.len();
        let ghost t = self@;
        assert(t.frames.last() == self.frames@[n - 1]@);
        let depth: usize = self.frames[n - 1].stack.len();
        let params: usize = d.params.len();
        if params > depth || (instance && params == depth) {
            return Outcome::Fatal(FatalError::StackUnderflow);
        }
        let count: usize = if instance {
            params + 1
        } else {
            params
        };
        let args: Vec<JvmValue> = copy_values(self.frames[n - 1].stack.as_slice(), depth - count, depth);
        if !args_match(args.as_slice(), &d, instance) {
            return Outcome::Fatal(FatalError::CategoryMismatch);
        }
        let declared: usize = match self.prepare_class(class.as_slice(), !instance) {
            Prepared::Done(outcome) => {
                return outcome;
            },
            Prepared::Ready(cid) => cid,
        };
        let start: usize = match self.start_class(kind, args.as_slice(), declared) {
            Ok(c) => c,
            Err(step) => {
                return self.settle(step);
            },
        };
        match self.methodarea.lookup(start, false, name.as_slice(), Some(descriptor.as_slice())) {
            None => self.raise(JavaExceptionKind::Linkage),
            Some(target) => self.enter(
                target,
                args.as_slice(),
                name.as_slice(),
                descriptor.as_slice(),
                length,
            ),
        }
    }

    /// Returns from the top frame with a value of kind `kind`, or with nothing.
    pub(crate) fn return_from(&mut self, kind: Option<LocalKind>) -> (r: Outcome)
        requires
            old(self)@.frames.len() > 0,
        ensures
            (final(self)@, r) == spec_return(old(self)@, kind),
    {
        reveal(spec_return);
        let n: usize = self.frames.len();
        let ghost t = self@;
        assert(t.frames.last() == self.frames@[n - 1]@);
        let value: Option<JvmValue> = match kind {
            None => None,
            Some(k) => {
                if self.frames[n - 1].stack.len() < 1 {
                    return Outcome::Fatal(FatalError::StackUnderflow);
                }
                let v: JvmValue = self.frames[n - 1].peek(0);
                if !matches_kind(k, &v) {
                    return Outcome::Fatal(FatalError::CategoryMismatch);
                }
                Some(v)
            },
        };
        let resume: usize = self.frames[n - 1].resume;
        let initializes: Option<usize> = self.frames[n - 1].initializes;
        if n >= 2 {
            assert(t.frames[n - 2] == self.frames@[n - 2]@);
            let step: Step = match value {
                Some(v) => self.frames[n - 2].replace_one(0, v, resume),
                None => self.frames[n - 2].drop_values(0, resume),
            };
            match step {
                Step::Next => {},
                Step::Fatal(e) => {
                    assert(self@.frames =~= t.frames);
                    return Outcome::Fatal(e);
                },
                Step::Raise(_) => {
                    assert(self@.frames =~= t.frames);
                    return Outcome::Fatal(FatalError::NoFrame);
                },
            }
        }
        let ghost below = self.frames@[if n >= 2 {
            n - 2
        } else {
            0
        }]@;
        let left: Option<Frame> = self.frames.pop();
        match initializes {
            Some(c) => {
                self.methodarea.finish_initialization(c, true);
            },
            None => {},
        }
        if n >= 2 {
            assert(self@.frames =~= t.frames.drop_last().update(n - 2, below));
            Outcome::Continue
        } else {
            assert(self@.frames =~= t.frames.drop_last());
            self.state = ThreadState::Halted;
            self.result = value;
            Outcome::Halted
        }
    }

    /// Throws the reference on top of the stack.
    pub(crate) fn throw(&mut self) -> (r: Outcome)
        requires
            old(self)@.frames.len() > 0,
        ensures
            (final(self)@, r) == spec_throw(old(self)@),
    {
        reveal(spec_throw);
        let n: usize = self.frames.len();
        assert(self@.frames.last() == self.frames@[n - 1]@);
        if self.frames[n - 1].stack.len() < 1 {
            return Outcome::Fatal(FatalError::StackUnderflow);
        }
        match self.frames[n - 1].peek(0).as_reference() {
            Some(JvmReferenceTargetType::Null) => self.raise(JavaExceptionKind::NullPointer),
            Some(JvmReferenceTargetType::Object(id)) => self.unwind(id),
            _ => Outcome::Fatal(FatalError::CategoryMismatch),
        }
    }
}

/// A copy of the values from `from` up to `to`.
pub fn copy_values(values: &[JvmValue], from: usize, to: usize) -> (r: Vec<JvmValue>)
    requires
        from <= to <= values@.len(),
    ensures
        r@ == values@.subrange(from as int, to as int),
{
    let mut out: Vec<JvmValue> = Vec::new();
    let mut i: usize = from;
    while i < to
        invariant
            from <= i <= to <= values@.len(),
            out@ == values@.subrange(from as int, i as int),
        decreases to - i,
    {
        out.push(values[i]);
        i = i + 1;
        assert(out@ =~= values@.subrange(from as int, i as int));
    }
    out
}

} // verus!
