//! The interpreter: one step of a thread, a run of steps, and the start of a thread.
use crate::bytes::copy_range;
use crate::class::spec_method_in;
use crate::constantpool::spec_utf8;
use crate::heapops::with_component;
use crate::text::{string_class_name, string_name};
use crate::calls::{spec_invoke, spec_return, spec_throw, spec_type_test};
use crate::classinit::{spec_ensure_initialized, InitCheck};
use crate::control::{
    spec_heap_instruction, spec_load_constant, spec_new, spec_settle_frame, spec_static,
};
use crate::exceptions::JavaExceptionKind;
use crate::floats::{spec_float_complete, spec_float_request, FloatOp};
use crate::frame::{FatalError, Frame, FrameView};
use crate::heap::{
    create_static_string_object, spec_heap_new_array, spec_string_object, with_object,
};
use crate::instruction::{decode, spec_decode, Instruction};
use crate::invoke::{args_match, spec_args_match, spec_new_frame};
use crate::jvmthread::{
    ended, spec_raise, with_area, with_heap, JvmThread, Outcome, ThreadState, ThreadView,
};
use crate::local::{spec_execute_local, spec_target};
use crate::methodarea::{spec_load, spec_lookup, AreaView, MemberRef};
use crate::typevalues::{
    spec_method_descriptor, JvmReferenceTargetType, JvmValue, MethodDescriptor,
};
use vstd::prelude::*;

verus! {

/// The thread after an instruction that does not work on its frame alone.
pub open spec fn spec_other(t: ThreadView, i: Instruction, length: int) -> (ThreadView, Outcome) {
    let next = spec_target(t.frames.last(), length) as int;
    match spec_heap_instruction(t, i, next) {
        Some(r) => r,
        None => match i {
            Instruction::LoadConstant(idx, wide) => spec_load_constant(t, idx, wide, next),
            Instruction::New(idx) => spec_new(t, idx, next),
            Instruction::GetStatic(idx) => spec_static(t, idx, false, next),
            Instruction::PutStatic(idx) => spec_static(t, idx, true, next),
            Instruction::CheckCast(idx) => spec_type_test(t, idx, true, next),
            Instruction::InstanceOf(idx) => spec_type_test(t, idx, false, next),
            Instruction::Invoke(kind, idx) => spec_invoke(t, kind, idx, length),
            Instruction::Return(kind) => spec_return(t, kind),
            Instruction::Throw => spec_throw(t),
            Instruction::Float(op) => match spec_float_request(t.frames.last(), op) {
                Ok(request) => (t, Outcome::Float(request)),
                Err(e) => (t, Outcome::Fatal(e)),
            },
            _ => (t, Outcome::Fatal(FatalError::BadCode)),
        },
    }
}

/// The thread after the result `bits` of the floating-point instruction at its program
/// counter was handed in: the operands are replaced by the result, and the thread goes
/// on behind the instruction. `BadCode` where the instruction at the program counter is
/// not the floating-point instruction `op`.
#[verifier::opaque]
pub open spec fn spec_complete_float(t: ThreadView, op: FloatOp, bits: u64) -> (ThreadView, Outcome) {
    if t.state != ThreadState::Running {
        (t, Outcome::NotRunning)
    } else if t.frames.len() == 0 {
        (t, Outcome::Fatal(FatalError::NoFrame))
    } else {
        match spec_decode(t.frames.last().code, t.frames.last().pc as int) {
            Err(e) => (t, Outcome::Fatal(e)),
            Ok((i, n)) => if i != Instruction::Float(op) {
                (t, Outcome::Fatal(FatalError::BadCode))
            } else {
                spec_settle_frame(
                    t,
                    spec_float_complete(
                        t.frames.last(),
                        op,
                        bits,
                        spec_target(t.frames.last(), n) as int,
                    ).0,
                    t.heap,
                    spec_float_complete(
                        t.frames.last(),
                        op,
                        bits,
                        spec_target(t.frames.last(), n) as int,
                    ).1,
                )
            },
        }
    }
}

/// The thread after one step.
///
/// A thread that is not `Running` stays as it is. A running thread without frames is
/// `Halted`. Else the instruction at the program counter of the top frame is decoded and
/// carried out.
#[verifier::opaque]
pub open spec fn spec_step(t: ThreadView) -> (ThreadView, Outcome) {
    if t.state != ThreadState::Running {
        (t, Outcome::NotRunning)
    } else if t.frames.len() == 0 {
        (ended(t, ThreadState::Halted, t.result, t.thrown), Outcome::Halted)
    } else {
        match spec_decode(t.frames.last().code, t.frames.last().pc as int) {
            Err(e) => (t, Outcome::Fatal(e)),
            Ok((i, n)) => match spec_execute_local(t.frames.last(), i, n) {
                Some((f, step)) => spec_settle_frame(t, f, t.heap, step),
                None => spec_other(t, i, n),
            },
        }
    }
}

/// The thread after at most `fuel` steps: steps are taken as long as the thread can go
/// on.
pub open spec fn spec_run(t: ThreadView, fuel: nat) -> (ThreadView, Outcome)
    decreases fuel,
{
    if fuel == 0 {
        (t, Outcome::Continue)
    } else if spec_step(t).1 == Outcome::Continue {
        spec_run(spec_step(t).0, (fuel - 1) as nat)
    } else {
        spec_step(t)
    }
}

/// The thread with the one frame `f`, running.
pub open spec fn started_with(t: ThreadView, area: AreaView, f: FrameView) -> ThreadView {
    ThreadView {
        frames: seq![f],
        area,
        heap: t.heap,
        state: ThreadState::Running,
        result: t.result,
        thrown: t.thrown,
        trace: t.trace,
        output: t.output,
        debug: t.debug,
    }
}

/// The thread after it was started with the static method `name` with the descriptor
/// `descriptor` of the class named `class`, on the arguments `args`.
///
/// Only a `Ready` thread can be started. The class is loaded; a class that cannot be
/// loaded is a fatal error here, at the start of a run. The method is searched from the
/// class, and a frame for it becomes the one frame of the thread, which is `Running`.
/// Then the class is initialized: frames for initializers come to stand above the frame
/// of the method and so run before it.
#[verifier::opaque]
pub open spec fn spec_start(
    t: ThreadView,
    class: Seq<u8>,
    name: Seq<u8>,
    descriptor: Seq<u8>,
    args: Seq<JvmValue>,
) -> (ThreadView, Outcome) {
    if t.state != ThreadState::Ready || t.frames.len() != 0 {
        (t, Outcome::NotRunning)
    } else {
        match spec_method_descriptor(descriptor) {
            None => (t, Outcome::Fatal(FatalError::BadDescriptor)),
            Some(d) => if !spec_args_match(args, d.params, false) {
                (t, Outcome::Fatal(FatalError::CategoryMismatch))
            } else {
                let loaded = spec_load(t.area, class);
                match loaded.1 {
                    Err(e) => (with_area(t, loaded.0), Outcome::Fatal(FatalError::Load(e))),
                    Ok(cid) => match spec_lookup(
                        loaded.0.classes,
                        cid,
                        false,
                        name,
                        Some(descriptor),
                    ) {
                        None => (
                            with_area(t, loaded.0),
                            Outcome::Fatal(FatalError::NoSuchMethod),
                        ),
                        Some(target) => match spec_new_frame(loaded.0, target, args, 0, None) {
                            Err(e) => (with_area(t, loaded.0), Outcome::Fatal(e)),
                            Ok(f) => spec_begin(started_with(t, loaded.0, f), cid as usize),
                        },
                    },
                }
            },
        }
    }
}

/// The last step of a start: the class of the first method is initialized.
pub open spec fn spec_begin(t: ThreadView, cid: usize) -> (ThreadView, Outcome) {
    match spec_ensure_initialized(t, cid).1 {
        InitCheck::Ready => (spec_ensure_initialized(t, cid).0, Outcome::Continue),
        InitCheck::Started => (spec_ensure_initialized(t, cid).0, Outcome::Continue),
        InitCheck::Errored => spec_raise(
            spec_ensure_initialized(t, cid).0,
            JavaExceptionKind::NoClassDefFound,
        ),
        InitCheck::Fatal(e) => (spec_ensure_initialized(t, cid).0, Outcome::Fatal(e)),
    }
}

impl JvmThread {
    /// Carries out an instruction that does not work on its frame alone.
    pub(crate) fn other(&mut self, i: Instruction, length: usize) -> (r: Outcome)
        requires
            old(self)@.frames.len() > 0,
        ensures
            (final(self)@, r) == spec_other(old(self)@, i, length as int),
    {
        let n: usize = self.frames.len();
        assert(self@.frames.last() == self.frames@[n - 1]@);
        let next: usize = self.frames[n - 1].address_behind(length);
        match self.heap_instruction(i, next) {
            Some(outcome) => {
                return outcome;
            },
            None => {},
        }
        match i {
            Instruction::LoadConstant(idx, wide) => self.load_constant(idx, wide, next),
            Instruction::New(idx) => self.new_instance(idx, next),
            Instruction::GetStatic(idx) => self.static_access(idx, false, next),
            Instruction::PutStatic(idx) => self.static_access(idx, true, next),
            Instruction::CheckCast(idx) => self.type_test(idx, true, next),
            Instruction::InstanceOf(idx) => self.type_test(idx, false, next),
            Instruction::Invoke(kind, idx) => self.invoke(kind, idx, length),
            Instruction::Return(kind) => self.return_from(kind),
            Instruction::Throw => self.throw(),
            Instruction::Float(op) => match self.frames[n - 1].float_request(op) {
                Ok(request) => Outcome::Float(request),
                Err(e) => Outcome::Fatal(e),
            },
            _ => Outcome::Fatal(FatalError::BadCode),
        }
    }

    /// Hands in the result `bits` of the floating-point instruction `op` at the program
    /// counter.
    pub fn complete_float(&mut self, op: FloatOp, bits: u64) -> (r: Outcome)
        ensures
            (final(self)@, r) == spec_complete_float(old(self)@, op, bits),
    {
        reveal(spec_complete_float);
        match self.state {
            ThreadState::Running => {},
            _ => {
                return Outcome::NotRunning;
            },
        }
        let n: usize = self.frames.len();
        if n == 0 {
            return Outcome::Fatal(FatalError::NoFrame);
        }
        let ghost t = self@;
        assert(t.frames.last() == self.frames@[n - 1]@);
        let (i, length): (Instruction, usize) = match decode(
            self.frames[n - 1].code.as_slice(),
            self.frames[n - 1].pc,
        ) {
            Ok(found) => found,
            Err(e) => {
                return Outcome::Fatal(e);
            },
        };
        let same: bool = match i {
            Instruction::Float(found) => found == op,
            _ => false,
        };
        if !same {
            return Outcome::Fatal(FatalError::BadCode);
        }
        let next: usize = self.frames[n - 1].address_behind(length);
        let step: crate::frame::Step = self.frames[n - 1].float_complete(op, bits, next);
        assert(self@.frames =~= t.frames.update(n - 1, self.frames@[n - 1]@));
        self.settle(step)
    }

    /// Takes one step.
    pub fn step(&mut self) -> (r: Outcome)
        ensures
            (final(self)@, r) == spec_step(old(self)@),
    {
        reveal(spec_step);
        match self.state {
            ThreadState::Running => {},
            _ => {
                return Outcome::NotRunning;
            },
        }
        let n: usize = self.frames.len();
        if n == 0 {
            self.state = ThreadState::Halted;
            return Outcome::Halted;
        }
        let ghost t = self@;
        assert(t.frames.last() == self.frames@[n - 1]@);
        let (i, length): (Instruction, usize) = match decode(
            self.frames[n - 1].code.as_slice(),
            self.frames[n - 1].pc,
        ) {
            Ok(found) => found,
            Err(e) => {
                return Outcome::Fatal(e);
            },
        };
        match self.frames[n - 1].execute_local(i, length) {
            Some(step) => {
                assert(self@.frames =~= t.frames.update(n - 1, self.frames@[n - 1]@));
                self.settle(step)
            },
            None => {
                assert(self@.frames =~= t.frames);
                self.other(i, length)
            },
        }
    }

    /// Takes steps as long as the thread can go on, and at most `max_steps` of them.
    pub fn run_steps(&mut self, max_steps: u64) -> (r: Outcome)
        ensures
            (final(self)@, r) == spec_run(old(self)@, max_steps as nat),
    {
        let mut left: u64 = max_steps;
        while left > 0
            invariant
                spec_run(old(self)@, max_steps as nat) == spec_run(self@, left as nat),
            decreases left,
        {
            match self.step() {
                Outcome::Continue => {},
                other => {
                    return other;
                },
            }
            left = left - 1;
        }
        Outcome::Continue
    }

    /// Starts the thread with a static method of a class.
    pub fn start(&mut self, class: &[u8], name: &[u8], descriptor: &[u8], args: &[JvmValue]) -> (r:
        Outcome)
        ensures
            (final(self)@, r) == spec_start(old(self)@, class@, name@, descriptor@, args@),
    {
        reveal(spec_start);
        match self.state {
            ThreadState::Ready => {},
            _ => {
                return Outcome::NotRunning;
            },
        }
        if self.frames.len() != 0 {
            return Outcome::NotRunning;
        }
        let d: MethodDescriptor = match MethodDescriptor::parse(descriptor) {
            Some(d) => d,
            None => {
                return Outcome::Fatal(FatalError::BadDescriptor);
            },
        };
        if !args_match(args, &d, false) {
            return Outcome::Fatal(FatalError::CategoryMismatch);
        }
        let cid: usize = match self.methodarea.maybe_load_class(class) {
            Ok(cid) => cid,
            Err(e) => {
                return Outcome::Fatal(FatalError::Load(e));
            },
        };
        let target: MemberRef = match self.methodarea.lookup(cid, false, name, Some(descriptor)) {
            Some(m) => m,
            None => {
                return Outcome::Fatal(FatalError::NoSuchMethod);
            },
        };
        let frame: Frame = match self.methodarea.new_frame(target, args, 0, None) {
            Ok(f) => f,
            Err(e) => {
                return Outcome::Fatal(e);
            },
        };
        let ghost fv = frame@;
        self.frames.push(frame);
        self.state = ThreadState::Running;
        assert(self@.frames =~= seq![fv]);
        match self.ensure_initialized(cid) {
            InitCheck::Ready => Outcome::Continue,
            InitCheck::Started => Outcome::Continue,
            InitCheck::Errored => self.raise(JavaExceptionKind::NoClassDefFound),
            InitCheck::Fatal(e) => Outcome::Fatal(e),
        }
    }
}

/// The descriptor `Ljava/lang/String;`.
pub open spec fn string_descriptor() -> Seq<u8> {
    seq![76u8, 106, 97, 118, 97, 47, 108, 97, 110, 103, 47, 83, 116, 114, 105, 110, 103, 59]
}

/// The descriptor of the first method named `name` of the loaded class `cid`.
pub open spec fn spec_entry_descriptor(area: AreaView, cid: int, name: Seq<u8>) -> Option<Seq<u8>> {
    if cid < 0 || cid >= area.classes.len() {
        None
    } else {
        match spec_method_in(area.classes[cid].class, name, None) {
            None => None,
            Some(i) => match spec_utf8(
                area.classes[cid].class.constant_pool,
                area.classes[cid].class.methods[i].descriptor_index,
            ) {
                Ok(d) => Some(d),
                Err(_) => None,
            },
        }
    }
}

/// The thread after a string object for `text` was made and stored into component `i`
/// of the array `array`. Where `java/lang/String` cannot be loaded or instantiated, or
/// the array has no such component, the component stays as it is.
#[verifier::opaque]
pub open spec fn spec_fill_string(t: ThreadView, array: usize, text: Seq<u8>, i: int) -> ThreadView {
    let loaded = spec_load(t.area, string_name());
    if loaded.1 is Err || array >= t.heap.arrays.len() || i < 0 || i
        >= t.heap.arrays[array as int].items.len() || spec_string_object(
        t.heap,
        loaded.0,
        text,
    ).1 is None {
        with_area(t, loaded.0)
    } else {
        with_heap(
            with_area(t, loaded.0),
            with_component(
                with_object(
                    spec_string_object(t.heap, loaded.0, text).0,
                    spec_string_object(t.heap, loaded.0, text).1->Some_0,
                ),
                array as int,
                i,
                JvmValue::Reference(
                    JvmReferenceTargetType::Object(
                        spec_string_object(t.heap, loaded.0, text).0.objects.len() as usize,
                    ),
                ),
            ),
        )
    }
}

/// The thread after the string objects for the texts of `texts` from position `i` on
/// were made and stored into the array `array`.
pub open spec fn spec_fill_strings(t: ThreadView, array: usize, texts: Seq<Seq<u8>>, i: int) -> ThreadView
    decreases texts.len() - i,
{
    if i < 0 || i >= texts.len() {
        t
    } else {
        spec_fill_strings(spec_fill_string(t, array, texts[i], i), array, texts, i + 1)
    }
}

/// The thread after the argument of a `main` method was made from `texts`, and the
/// argument: a reference to a new array of strings, one for each text; the null
/// reference where the texts are too many for an array.
pub open spec fn spec_arguments(t: ThreadView, texts: Seq<Seq<u8>>) -> (ThreadView, JvmValue) {
    if texts.len() > i32::MAX {
        (t, JvmValue::Reference(JvmReferenceTargetType::Null))
    } else {
        (
            spec_fill_strings(
                with_heap(
                    t,
                    spec_heap_new_array(t.heap, string_descriptor(), texts.len() as i32).0,
                ),
                t.heap.arrays.len() as usize,
                texts,
                0,
            ),
            JvmValue::Reference(JvmReferenceTargetType::Array(t.heap.arrays.len() as usize)),
        )
    }
}

/// The thread after it was started with the first method named `name` of the class
/// named `class`. A method without parameters gets no argument; any other method gets
/// the one argument that `spec_arguments` makes of `texts`.
#[verifier::opaque]
pub open spec fn spec_launch(t: ThreadView, class: Seq<u8>, name: Seq<u8>, texts: Seq<Seq<u8>>) -> (
    ThreadView,
    Outcome,
) {
    if t.state != ThreadState::Ready || t.frames.len() != 0 {
        (t, Outcome::NotRunning)
    } else {
        let loaded = spec_load(t.area, class);
        match loaded.1 {
            Err(e) => (with_area(t, loaded.0), Outcome::Fatal(FatalError::Load(e))),
            Ok(cid) => match spec_entry_descriptor(loaded.0, cid, name) {
                None => (with_area(t, loaded.0), Outcome::Fatal(FatalError::NoSuchMethod)),
                Some(descriptor) => match spec_method_descriptor(descriptor) {
                    None => (with_area(t, loaded.0), Outcome::Fatal(FatalError::BadDescriptor)),
                    Some(d) => if d.params.len() == 0 {
                        spec_start(with_area(t, loaded.0), class, name, descriptor, Seq::empty())
                    } else {
                        spec_start(
                            spec_arguments(with_area(t, loaded.0), texts).0,
                            class,
                            name,
                            descriptor,
                            seq![spec_arguments(with_area(t, loaded.0), texts).1],
                        )
                    },
                },
            },
        }
    }
}

/// The views of the texts.
pub open spec fn text_views(texts: Seq<Vec<u8>>) -> Seq<Seq<u8>> {
    texts.map_values(|t: Vec<u8>| t@)
}

impl JvmThread {
    /// Makes a string object for `text` and stores it into component `i` of the array
    /// `array`.
    pub fn fill_string(&mut self, array: usize, text: &[u8], i: usize)
        ensures
            final(self)@ == spec_fill_string(old(self)@, array, text@, i as int),
    {
        reveal(spec_fill_string);
        let name: Vec<u8> = string_class_name();
        let loaded: bool = self.methodarea.maybe_load_class(name.as_slice()).is_ok();
        if !loaded || array >= self.heap.arrays.len() {
            return ;
        }
        assert(self@.heap.arrays[array as int] == self.heap.arrays@[array as int]@);
        if i >= self.heap.arrays[array].items.len() {
            return ;
        }
        let ghost before = self@.heap;
        match create_static_string_object(text, &mut self.heap, &self.methodarea) {
            Some(object) => {
                assert(self@.heap.arrays == before.arrays.push(
                    crate::heap::spec_text_array(text@),
                ));
                let id: usize = self.heap.add_object(object);
                let ghost added = self@.heap;
                assert(added.arrays.len() == self.heap.arrays@.len());
                assert(added.arrays[array as int] == self.heap.arrays@[array as int]@);
                assert(added.arrays[array as int] == before.arrays[array as int]);
                self.heap.arrays[array].items[i] = JvmValue::Reference(
                    JvmReferenceTargetType::Object(id),
                );
                assert(self@.heap.arrays =~= with_component(
                    added,
                    array as int,
                    i as int,
                    JvmValue::Reference(JvmReferenceTargetType::Object(id)),
                ).arrays);
                assert(self@.heap.objects =~= added.objects);
            },
            None => {},
        }
    }

    /// Makes the string objects for `texts` and stores them into the array `array`.
    pub fn fill_strings(&mut self, array: usize, texts: &Vec<Vec<u8>>)
        ensures
            final(self)@ == spec_fill_strings(old(self)@, array, text_views(texts@), 0),
    {
        let mut i: usize = 0;
        while i < texts.len()
            invariant
                i <= texts@.len(),
                spec_fill_strings(old(self)@, array, text_views(texts@), 0) == spec_fill_strings(
                    self@,
                    array,
                    text_views(texts@),
                    i as int,
                ),
            decreases texts@.len() - i,
        {
            assert(text_views(texts@)[i as int] == texts@[i as int]@);
            self.fill_string(array, texts[i].as_slice(), i);
            i = i + 1;
        }
    }

    /// Makes the argument of a `main` method from `texts`.
    pub fn arguments(&mut self, texts: &Vec<Vec<u8>>) -> (r: JvmValue)
        ensures
            (final(self)@, r) == spec_arguments(old(self)@, text_views(texts@)),
    {
        if texts.len() > 0x7fff_ffff {
            return JvmValue::Reference(JvmReferenceTargetType::Null);
        }
        let component: [u8; 18] = [
            76u8, 106, 97, 118, 97, 47, 108, 97, 110, 103, 47, 83, 116, 114, 105, 110, 103, 59,
        ];
        assert(component@ =~= string_descriptor());
        let id: usize = self.heap.arrays.len();
        let made: Result<usize, JavaExceptionKind> = self.heap.new_array(
            component.as_slice(),
            texts.len() as i32,
        );
        self.fill_strings(id, texts);
        JvmValue::Reference(JvmReferenceTargetType::Array(id))
    }

    /// The descriptor of the first method named `name` of the loaded class `cid`.
    pub fn entry_descriptor(&self, cid: usize, name: &[u8]) -> (r: Option<Vec<u8>>)
        ensures
            match r {
                Some(d) => spec_entry_descriptor(self@.area, cid as int, name@) == Some(d@),
                None => spec_entry_descriptor(self@.area, cid as int, name@) is None,
            },
    {
        if cid >= self.methodarea.classes.len() {
            return None;
        }
        assert(self@.area.classes[cid as int] == self.methodarea.classes@[cid as int]@);
        let class = &self.methodarea.classes[cid].class;
        match class.find_method(name, None) {
            None => None,
            Some(i) => {
                assert(class@.methods[i as int] == class.methods.items@[i as int]@);
                match class.constant_pool.resolve_utf8(class.methods.items[i].descriptor_index) {
                    Ok(d) => {
                        let owned: Vec<u8> = copy_range(d.as_slice(), 0, d.len());
                        assert(owned@ =~= d@);
                        Some(owned)
                    },
                    Err(_) => None,
                }
            },
        }
    }

    /// Starts the thread with the first method named `name` of the class named `class`.
    pub fn launch(&mut self, class: &[u8], name: &[u8], texts: &Vec<Vec<u8>>) -> (r: Outcome)
        ensures
            (final(self)@, r) == spec_launch(old(self)@, class@, name@, text_views(texts@)),
    {
        reveal(spec_launch);
        match self.state {
            ThreadState::Ready => {},
            _ => {
                return Outcome::NotRunning;
            },
        }
        if self.frames.len() != 0 {
            return Outcome::NotRunning;
        }
        let cid: usize = match self.methodarea.maybe_load_class(class) {
            Ok(cid) => cid,
            Err(e) => {
                return Outcome::Fatal(FatalError::Load(e));
            },
        };
        let descriptor: Vec<u8> = match self.entry_descriptor(cid, name) {
            Some(d) => d,
            None => {
                return Outcome::Fatal(FatalError::NoSuchMethod);
            },
        };
        let d: MethodDescriptor = match MethodDescriptor::parse(descriptor.as_slice()) {
            Some(d) => d,
            None => {
                return Outcome::Fatal(FatalError::BadDescriptor);
            },
        };
        if d.params.len() == 0 {
            let none: [JvmValue; 0] = [];
            assert(none@ =~= Seq::<JvmValue>::empty());
            self.start(class, name, descriptor.as_slice(), none.as_slice())
        } else {
            let argument: JvmValue = self.arguments(texts);
            let one: [JvmValue; 1] = [argument];
            assert(one@ =~= seq![argument]);
            self.start(class, name, descriptor.as_slice(), one.as_slice())
        }
    }
}

} // verus!
