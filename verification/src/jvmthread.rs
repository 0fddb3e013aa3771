//! A thread: a stack of frames over a method area and a heap.
use crate::exceptions::{
    exception_class, exception_class_name, find_handler, spec_find_handler, JavaExceptionKind,
};
use crate::floats::FloatRequest;
use crate::frame::{with_stack, FatalError, Frame, FrameView};
use crate::heap::{spec_new_object, Heap, HeapView};
use crate::methodarea::{spec_finish_init, spec_load, AreaView, MethodArea};
use crate::typevalues::{JvmReferenceTargetType, JvmValue};
use vstd::prelude::*;

verus! {

/// The states of a thread: `Ready` until it is started, `Running` while it has frames
/// to run, `Halted` once the last frame has returned, `Failed` once an exception has
/// left the last frame.
#[derive(Clone, Copy, Debug, PartialEq, Eq, Structural)]
pub enum ThreadState {
    Ready,
    Running,
    Halted,
    Failed,
}

/// How a step of a thread ended.
#[derive(Clone, Copy, Debug, PartialEq, Eq, Structural)]
pub enum Outcome {
    /// The thread is running and can take another step.
    Continue,
    /// The last frame has returned: the thread is `Halted`.
    Halted,
    /// An exception has left the last frame: the thread is `Failed`.
    Failed,
    /// The thread is not `Running`; nothing was done.
    NotRunning,
    /// The instruction at the program counter computes with floating-point numbers:
    /// here are its operands. The thread goes on once the result is handed in.
    Float(FloatRequest),
    /// An invariant of the machine is broken.
    Fatal(FatalError),
}

/// A frame that an exception has left: the class and the method of the frame, and the
/// program counter at which the exception passed.
#[derive(Clone, Copy, Debug, PartialEq, Eq, Structural)]
pub struct TraceEntry {
    pub class_id: usize,
    pub method_index: usize,
    pub pc: usize,
}

/// A thread. `result` is the value that the first frame returned, `thrown` the
/// exception that left it, `trace` the frames that the exception in flight has left,
/// innermost first, and `output` what the program has printed.
#[derive(Debug)]
pub struct JvmThread {
    pub frames: Vec<Frame>,
    pub methodarea: MethodArea,
    pub heap: Heap,
    pub state: ThreadState,
    pub result: Option<JvmValue>,
    pub thrown: Option<usize>,
    pub trace: Vec<TraceEntry>,
    pub output: Vec<u8>,
    pub debug: bool,
}

/// The mathematical value of a `JvmThread`.
pub struct ThreadView {
    pub frames: Seq<FrameView>,
    pub area: AreaView,
    pub heap: HeapView,
    pub state: ThreadState,
    pub result: Option<JvmValue>,
    pub thrown: Option<usize>,
    pub trace: Seq<TraceEntry>,
    pub output: Seq<u8>,
    pub debug: bool,
}

impl View for JvmThread {
    type V = ThreadView;

    open spec fn view(&self) -> ThreadView {
        ThreadView {
            frames: self.frames@.map_values(|f: Frame| f@),
            area: self.methodarea@,
            heap: self.heap@,
            state: self.state,
            result: self.result,
            thrown: self.thrown,
            trace: self.trace@,
            output: self.output@,
            debug: self.debug,
        }
    }
}

/// The thread with other frames.
pub open spec fn with_frames(t: ThreadView, frames: Seq<FrameView>) -> ThreadView {
    ThreadView {
        frames,
        area: t.area,
        heap: t.heap,
        state: t.state,
        result: t.result,
        thrown: t.thrown,
        trace: t.trace,
        output: t.output,
        debug: t.debug,
    }
}

/// The thread with another method area.
pub open spec fn with_area(t: ThreadView, area: AreaView) -> ThreadView {
    ThreadView {
        frames: t.frames,
        area,
        heap: t.heap,
        state: t.state,
        result: t.result,
        thrown: t.thrown,
        trace: t.trace,
        output: t.output,
        debug: t.debug,
    }
}

/// The thread with another heap.
pub open spec fn with_heap(t: ThreadView, heap: HeapView) -> ThreadView {
    ThreadView {
        frames: t.frames,
        area: t.area,
        heap,
        state: t.state,
        result: t.result,
        thrown: t.thrown,
        trace: t.trace,
        output: t.output,
        debug: t.debug,
    }
}

/// The thread with another output.
pub open spec fn with_output(t: ThreadView, output: Seq<u8>) -> ThreadView {
    ThreadView {
        frames: t.frames,
        area: t.area,
        heap: t.heap,
        state: t.state,
        result: t.result,
        thrown: t.thrown,
        trace: t.trace,
        output,
        debug: t.debug,
    }
}

/// The thread with another trace.
pub open spec fn with_trace(t: ThreadView, trace: Seq<TraceEntry>) -> ThreadView {
    ThreadView {
        frames: t.frames,
        area: t.area,
        heap: t.heap,
        state: t.state,
        result: t.result,
        thrown: t.thrown,
        trace,
        output: t.output,
        debug: t.debug,
    }
}

/// The thread after an exception has left its top frame: the frame is dropped and
/// noted in the trace.
pub open spec fn spec_leave(t: ThreadView) -> ThreadView {
    with_trace(
        with_frames(t, t.frames.drop_last()),
        t.trace.push(
            TraceEntry {
                class_id: t.frames.last().class_id,
                method_index: t.frames.last().method_index,
                pc: t.frames.last().pc,
            },
        ),
    )
}

/// The thread with its top frame replaced.
pub open spec fn with_top(t: ThreadView, f: FrameView) -> ThreadView {
    with_frames(t, t.frames.update(t.frames.len() - 1, f))
}

/// The thread at its end: without frames, in the state `state`.
pub open spec fn ended(
    t: ThreadView,
    state: ThreadState,
    result: Option<JvmValue>,
    thrown: Option<usize>,
) -> ThreadView {
    ThreadView {
        frames: t.frames,
        area: t.area,
        heap: t.heap,
        state,
        result,
        thrown,
        trace: t.trace,
        output: t.output,
        debug: t.debug,
    }
}

/// The thread after an exception object of kind `kind` was made, and the identifier of
/// the object: the class of the exception is loaded if need be, and an object of it is
/// put on the heap. `NoExceptionClass` where the class cannot be loaded or
/// instantiated.
#[verifier::opaque]
pub open spec fn spec_make_exception(t: ThreadView, kind: JavaExceptionKind) -> (
    ThreadView,
    Result<usize, FatalError>,
) {
    let loaded = spec_load(t.area, exception_class(kind));
    match loaded.1 {
        Err(_) => (with_area(t, loaded.0), Err(FatalError::NoExceptionClass(kind))),
        Ok(_) => match spec_new_object(t.heap, loaded.0, exception_class(kind)).1 {
            None => (with_area(t, loaded.0), Err(FatalError::NoExceptionClass(kind))),
            Some(id) => (
                with_heap(
                    with_area(t, loaded.0),
                    spec_new_object(t.heap, loaded.0, exception_class(kind)).0,
                ),
                Ok(id),
            ),
        },
    }
}

/// The thread after the exception object `id` was thrown in its top frame.
///
/// The frames are searched from the top: the first frame whose exception table has a
/// row that catches goes on at the handler of the first such row, with the exception
/// as the one value on its stack, and the trace is emptied. Every frame above it is
/// dropped and noted in the trace. A dropped frame that
/// ran the initializer of a class leaves the class `Errored`, and the search goes on
/// below it with a new exception of kind `ExceptionInInitializer`. Where no frame
/// catches, the thread is `Failed` and `thrown` is the exception.
pub open spec fn spec_unwind(t: ThreadView, id: usize) -> (ThreadView, Outcome)
    decreases t.frames.len(),
{
    if id >= t.heap.objects.len() {
        (t, Outcome::Fatal(FatalError::UnknownObject))
    } else if t.frames.len() == 0 {
        (ended(t, ThreadState::Failed, t.result, Some(id)), Outcome::Failed)
    } else if t.frames.last().class_id >= t.area.classes.len() {
        (t, Outcome::Fatal(FatalError::UnknownClass))
    } else {
        match spec_find_handler(
            t.frames.last().exception_table,
            t.area.classes[t.frames.last().class_id as int].class.constant_pool,
            t.frames.last().pc as int,
            t.heap.objects[id as int],
            0,
        ) {
            Some(k) => if t.frames.last().exception_table[k].handler_pc
                >= t.frames.last().code.len() {
                (t, Outcome::Fatal(FatalError::BadPc))
            } else if t.frames.last().max_stack < 1 {
                (t, Outcome::Fatal(FatalError::StackOverflow))
            } else {
                (
                    with_trace(
                        with_top(
                            t,
                            with_stack(
                                t.frames.last(),
                                seq![JvmValue::Reference(JvmReferenceTargetType::Object(id))],
                                t.frames.last().exception_table[k].handler_pc as usize,
                            ),
                        ),
                        Seq::empty(),
                    ),
                    Outcome::Continue,
                )
            },
            None => match t.frames.last().initializes {
                None => spec_unwind(spec_leave(t), id),
                Some(c) => {
                    let made = spec_make_exception(
                        with_area(spec_leave(t), spec_finish_init(t.area, c as int, false)),
                        JavaExceptionKind::ExceptionInInitializer,
                    );
                    match made.1 {
                        Err(e) => (made.0, Outcome::Fatal(e)),
                        Ok(wrapped) => if made.0.frames.len() < t.frames.len() {
                            spec_unwind(made.0, wrapped)
                        } else {
                            (made.0, Outcome::Fatal(FatalError::NoFrame))
                        },
                    }
                },
            },
        }
    }
}

/// The thread after the machine raised an exception of kind `kind` in its top frame:
/// an exception object of the kind is made and thrown.
#[verifier::opaque]
pub open spec fn spec_raise(t: ThreadView, kind: JavaExceptionKind) -> (ThreadView, Outcome) {
    match spec_make_exception(t, kind).1 {
        Err(e) => (spec_make_exception(t, kind).0, Outcome::Fatal(e)),
        Ok(id) => spec_unwind(spec_make_exception(t, kind).0, id),
    }
}

/// Making an exception object leaves the frames alone, and the object is on the heap.
pub proof fn lemma_make_exception(t: ThreadView, kind: JavaExceptionKind)
    ensures
        spec_make_exception(t, kind).0.frames == t.frames,
        spec_make_exception(t, kind).1 matches Ok(id) ==> id < spec_make_exception(
            t,
            kind,
        ).0.heap.objects.len(),
{
    reveal(spec_make_exception);
}

/// A thread that has not been started: `Ready`, without frames, over an empty heap.
pub open spec fn spec_fresh(area: AreaView, debug: bool) -> ThreadView {
    ThreadView {
        frames: Seq::empty(),
        area,
        heap: HeapView { objects: Seq::empty(), arrays: Seq::empty() },
        state: ThreadState::Ready,
        result: None,
        thrown: None,
        trace: Seq::empty(),
        output: Seq::empty(),
        debug,
    }
}

impl JvmThread {
    /// A thread in the state `Ready`, without frames, over an empty heap and the method
    /// area `methodarea`.
    pub fn new(methodarea: MethodArea, debug: bool) -> (r: JvmThread)
        ensures
            r@ == spec_fresh(methodarea@, debug),
    {
        let r = JvmThread {
            frames: Vec::new(),
            methodarea,
            heap: Heap::new(),
            state: ThreadState::Ready,
            result: None,
            thrown: None,
            trace: Vec::new(),
            output: Vec::new(),
            debug,
        };
        assert(r@.frames =~= Seq::<FrameView>::empty());
        assert(r@.output =~= Seq::<u8>::empty());
        assert(r@.trace =~= Seq::<TraceEntry>::empty());
        r
    }

    /// Makes an exception object of kind `kind` and returns its identifier.
    pub fn make_exception(&mut self, kind: JavaExceptionKind) -> (r: Result<usize, FatalError>)
        ensures
            (final(self)@, r) == spec_make_exception(old(self)@, kind),
    {
        reveal(spec_make_exception);
        let name: Vec<u8> = exception_class_name(kind);
        match self.methodarea.maybe_load_class(name.as_slice()) {
            Err(_) => {
                return Err(FatalError::NoExceptionClass(kind));
            },
            Ok(_) => {},
        }
        match self.heap.new_object(name.as_slice(), &self.methodarea) {
            None => Err(FatalError::NoExceptionClass(kind)),
            Some(id) => Ok(id),
        }
    }

    /// Throws the exception object `id` in the top frame.
    pub fn unwind(&mut self, id: usize) -> (r: Outcome)
        ensures
            (final(self)@, r) == spec_unwind(old(self)@, id),
    {
        let mut thrown: usize = id;
        loop
            invariant
                spec_unwind(old(self)@, id) == spec_unwind(self@, thrown),
            decreases self.frames@.len(),
        {
            if thrown >= self.heap.objects.len() {
                return Outcome::Fatal(FatalError::UnknownObject);
            }
            let n: usize = self.frames.len();
            if n == 0 {
                self.state = ThreadState::Failed;
                self.thrown = Some(thrown);
                return Outcome::Failed;
            }
            let ghost before = self@;
            assert(before.frames.last() == self.frames@[n - 1]@);
            let cid: usize = self.frames[n - 1].class_id;
            if cid >= self.methodarea.classes.len() {
                return Outcome::Fatal(FatalError::UnknownClass);
            }
            assert(self@.area.classes[cid as int] == self.methodarea.classes@[cid as int]@);
            assert(self@.heap.objects[thrown as int] == self.heap.objects@[thrown as int]@);
            let handler: Option<u16> = find_handler(
                &self.frames[n - 1].exception_table,
                &self.methodarea.classes[cid].class.constant_pool,
                self.frames[n - 1].pc,
                &self.heap.objects[thrown],
            );
            match handler {
                Some(h) => {
                    if h as usize >= self.frames[n - 1].code.len() {
                        return Outcome::Fatal(FatalError::BadPc);
                    }
                    if self.frames[n - 1].max_stack < 1 {
                        return Outcome::Fatal(FatalError::StackOverflow);
                    }
                    self.frames[n - 1].stack.clear();
                    self.frames[n - 1].stack.push(
                        JvmValue::Reference(JvmReferenceTargetType::Object(thrown)),
                    );
                    self.frames[n - 1].pc = h as usize;
                    self.trace.clear();
                    assert(self.frames@[n - 1]@.stack =~= seq![
                        JvmValue::Reference(JvmReferenceTargetType::Object(thrown)),
                    ]);
                    assert(self@.frames =~= before.frames.update(
                        n - 1,
                        with_stack(
                            before.frames.last(),
                            seq![JvmValue::Reference(JvmReferenceTargetType::Object(thrown))],
                            h as usize,
                        ),
                    ));
                    return Outcome::Continue;
                },
                None => {
                    let initializes: Option<usize> = self.frames[n - 1].initializes;
                    self.trace.push(
                        TraceEntry {
                            class_id: cid,
                            method_index: self.frames[n - 1].method_index,
                            pc: self.frames[n - 1].pc,
                        },
                    );
                    let left: Option<Frame> = self.frames.pop();
                    assert(self@.frames =~= before.frames.drop_last());
                    assert(self@ == spec_leave(before));
                    match initializes {
                        Some(c) => {
                            self.methodarea.finish_initialization(c, false);
                            proof {
                                lemma_make_exception(
                                    self@,
                                    JavaExceptionKind::ExceptionInInitializer,
                                );
                            }
                            match self.make_exception(JavaExceptionKind::ExceptionInInitializer) {
                                Ok(wrapped) => {
                                    thrown = wrapped;
                                },
                                Err(e) => {
                                    return Outcome::Fatal(e);
                                },
                            }
                        },
                        None => {},
                    }
                },
            }
        }
    }

    /// Raises an exception of kind `kind` in the top frame.
    pub fn raise(&mut self, kind: JavaExceptionKind) -> (r: Outcome)
        ensures
            (final(self)@, r) == spec_raise(old(self)@, kind),
    {
        reveal(spec_raise);
        match self.make_exception(kind) {
            Err(e) => Outcome::Fatal(e),
            Ok(id) => self.unwind(id),
        }
    }
}

} // verus!
