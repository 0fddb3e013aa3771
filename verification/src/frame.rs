//! Frames: the activation record of one method invocation.
use crate::code::ExceptionEntry;
use crate::exceptions::JavaExceptionKind;
use crate::methodarea::LoadError;
use crate::typevalues::JvmValue;
use vstd::prelude::*;

verus! {

/// A break of an invariant of the machine: a fault of the machine or of a class file,
/// not of the program that runs. Nothing can be done but to stop.
#[derive(Clone, Copy, Debug, PartialEq, Eq, Structural)]
pub enum FatalError {
    /// The byte at the program counter is no instruction that the machine knows.
    UnknownOpcode(u8),
    /// An instruction needs more operands than the stack holds.
    StackUnderflow,
    /// An instruction would push more than `max_stack` allows.
    StackOverflow,
    /// An operand or a local variable is of another kind than the instruction needs.
    CategoryMismatch,
    /// A local variable index lies outside the locals of the frame.
    BadLocal,
    /// The program counter, a branch target or an operand lies outside the code.
    BadPc,
    /// The constant-pool entry at this index is not of the kind the instruction needs.
    BadConstant(u16),
    /// A reference names an object or an array that the heap does not hold.
    UnknownObject,
    /// There is no frame to run.
    NoFrame,
    /// A frame names a class that the method area does not hold.
    UnknownClass,
    /// A class that the code refers to could not be loaded.
    Load(LoadError),
    /// The class of an exception that the machine raises could not be instantiated.
    NoExceptionClass(JavaExceptionKind),
    /// A descriptor names no type.
    BadDescriptor,
    /// A method without code was invoked and is none of the built-in native methods.
    NoCode,
    /// The `Code` attribute of a method cannot be decoded, or an instruction has an
    /// operand that it does not admit.
    BadCode,
    /// The method that the thread was to start with does not exist.
    NoSuchMethod,
}

/// What one instruction did to its frame.
#[derive(Clone, Copy, Debug, PartialEq, Eq, Structural)]
pub enum Step {
    /// The instruction is done and the frame is at the next instruction.
    Next,
    /// The instruction raises an exception; the frame is unchanged.
    Raise(JavaExceptionKind),
    /// The instruction cannot be carried out; the frame is unchanged.
    Fatal(FatalError),
}

/// The activation record of one invocation.
///
/// `resume` is the program counter at which the invoking frame goes on once this frame
/// has returned. `initializes` names the class whose initializer this frame runs.
#[derive(Debug)]
pub struct Frame {
    pub pc: usize,
    pub stack: Vec<JvmValue>,
    pub locals: Vec<JvmValue>,
    pub max_stack: u16,
    pub class_id: usize,
    pub method_index: usize,
    pub code: Vec<u8>,
    pub exception_table: Vec<ExceptionEntry>,
    pub resume: usize,
    pub initializes: Option<usize>,
}

/// The mathematical value of a `Frame`.
pub struct FrameView {
    pub pc: usize,
    pub stack: Seq<JvmValue>,
    pub locals: Seq<JvmValue>,
    pub max_stack: u16,
    pub class_id: usize,
    pub method_index: usize,
    pub code: Seq<u8>,
    pub exception_table: Seq<ExceptionEntry>,
    pub resume: usize,
    pub initializes: Option<usize>,
}

impl View for Frame {
    type V = FrameView;

    open spec fn view(&self) -> FrameView {
        FrameView {
            pc: self.pc,
            stack: self.stack@,
            locals: self.locals@,
            max_stack: self.max_stack,
            class_id: self.class_id,
            method_index: self.method_index,
            code: self.code@,
            exception_table: self.exception_table@,
            resume: self.resume,
            initializes: self.initializes,
        }
    }
}

/// The slots that the values take together.
pub open spec fn stack_slots(values: Seq<JvmValue>) -> nat
    decreases values.len(),
{
    if values.len() == 0 {
        0
    } else {
        stack_slots(values.drop_last()) + values.last().spec_category()
    }
}

/// The frame with another stack and program counter.
pub open spec fn with_stack(f: FrameView, stack: Seq<JvmValue>, pc: usize) -> FrameView {
    FrameView {
        pc,
        stack,
        locals: f.locals,
        max_stack: f.max_stack,
        class_id: f.class_id,
        method_index: f.method_index,
        code: f.code,
        exception_table: f.exception_table,
        resume: f.resume,
        initializes: f.initializes,
    }
}

/// The frame with other locals.
pub open spec fn with_locals(f: FrameView, locals: Seq<JvmValue>) -> FrameView {
    FrameView {
        pc: f.pc,
        stack: f.stack,
        locals,
        max_stack: f.max_stack,
        class_id: f.class_id,
        method_index: f.method_index,
        code: f.code,
        exception_table: f.exception_table,
        resume: f.resume,
        initializes: f.initializes,
    }
}

/// The value `k` places below the top of the stack; 0 is the top.
pub open spec fn peek(f: FrameView, k: int) -> JvmValue {
    f.stack[f.stack.len() - 1 - k]
}

/// The frame after an instruction took `pops` values off the stack, pushed `pushes` and
/// went on to `pc`. `StackUnderflow` where the stack holds fewer values, `StackOverflow`
/// where the new stack takes more than `max_stack` slots, `BadPc` where `pc` lies
/// outside the code; the frame is unchanged in these cases.
pub open spec fn spec_replace(f: FrameView, pops: nat, pushes: Seq<JvmValue>, pc: int) -> (
    FrameView,
    Step,
) {
    if f.stack.len() < pops {
        (f, Step::Fatal(FatalError::StackUnderflow))
    } else if stack_slots(f.stack.take(f.stack.len() - pops) + pushes) > f.max_stack {
        (f, Step::Fatal(FatalError::StackOverflow))
    } else if pc < 0 || pc >= f.code.len() {
        (f, Step::Fatal(FatalError::BadPc))
    } else {
        (with_stack(f, f.stack.take(f.stack.len() - pops) + pushes, pc as usize), Step::Next)
    }
}

/// The slots of two runs of values add up.
pub proof fn lemma_stack_slots_add(a: Seq<JvmValue>, b: Seq<JvmValue>)
    ensures
        stack_slots(a + b) == stack_slots(a) + stack_slots(b),
    decreases b.len(),
{
    if b.len() == 0 {
        assert(a + b =~= a);
    } else {
        assert((a + b).drop_last() =~= a + b.drop_last());
        lemma_stack_slots_add(a, b.drop_last());
    }
}

/// A run of values takes at least one slot and at most two for each value.
pub proof fn lemma_stack_slots_bounds(a: Seq<JvmValue>)
    ensures
        a.len() <= stack_slots(a) <= 2 * a.len(),
    decreases a.len(),
{
    if a.len() > 0 {
        lemma_stack_slots_bounds(a.drop_last());
    }
}

/// The slots that the first `upto` values of `values` take; `None` where there are
/// more than 65535 of them.
pub fn count_slots(values: &[JvmValue], upto: usize) -> (r: Option<usize>)
    requires
        upto <= values@.len(),
    ensures
        match r {
            Some(n) => n == stack_slots(values@.take(upto as int)) && n <= 2 * 0xffff,
            None => stack_slots(values@.take(upto as int)) > 0xffff,
        },
{
    proof {
        lemma_stack_slots_bounds(values@.take(upto as int));
    }
    if upto > 0xffff {
        return None;
    }
    let mut n: usize = 0;
    let mut i: usize = 0;
    assert(values@.take(0) =~= Seq::<JvmValue>::empty());
    while i < upto
        invariant
            i <= upto <= values@.len(),
            upto <= 0xffff,
            n == stack_slots(values@.take(i as int)),
            n <= 2 * i,
        decreases upto - i,
    {
        assert(values@.take(i + 1).drop_last() =~= values@.take(i as int));
        assert(values@.take(i + 1).last() == values@[i as int]);
        n = n + values[i].category();
        i = i + 1;
    }
    Some(n)
}

impl Frame {
    /// Takes `pops` values off the stack, pushes `pushes` and goes on to `pc`.
    pub fn replace(&mut self, pops: usize, pushes: &[JvmValue], pc: usize) -> (r: Step)
        ensures
            (final(self)@, r) == spec_replace(old(self)@, pops as nat, pushes@, pc as int),
    {
        if self.stack.len() < pops {
            return Step::Fatal(FatalError::StackUnderflow);
        }
        let keep: usize = self.stack.len() - pops;
        let ghost kept = self.stack@.take(keep as int);
        proof {
            lemma_stack_slots_add(kept, pushes@);
            lemma_stack_slots_bounds(kept);
            lemma_stack_slots_bounds(pushes@);
            assert(pushes@.take(pushes@.len() as int) =~= pushes@);
        }
        let below: usize = match count_slots(self.stack.as_slice(), keep) {
            Some(n) => n,
            None => {
                return Step::Fatal(FatalError::StackOverflow);
            },
        };
        let above: usize = match count_slots(pushes, pushes.len()) {
            Some(n) => n,
            None => {
                return Step::Fatal(FatalError::StackOverflow);
            },
        };
        if below + above > self.max_stack as usize {
            return Step::Fatal(FatalError::StackOverflow);
        }
        if pc >= self.code.len() {
            return Step::Fatal(FatalError::BadPc);
        }
        self.stack.truncate(keep);
        let mut i: usize = 0;
        while i < pushes.len()
            invariant
                i <= pushes@.len(),
                self.stack@ == kept + pushes@.take(i as int),
                self.pc == old(self).pc,
                self.locals == old(self).locals,
                self.max_stack == old(self).max_stack,
                self.class_id == old(self).class_id,
                self.method_index == old(self).method_index,
                self.code == old(self).code,
                self.exception_table == old(self).exception_table,
                self.resume == old(self).resume,
                self.initializes == old(self).initializes,
            decreases pushes@.len() - i,
        {
            self.stack.push(pushes[i]);
            i = i + 1;
            assert(self.stack@ =~= kept + pushes@.take(i as int));
        }
        self.pc = pc;
        Step::Next
    }
}

} // verus!
