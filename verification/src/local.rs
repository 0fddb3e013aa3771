//! The instructions that work on one frame alone: constants, local variables, the
//! operand stack, integer arithmetic and branches.
use crate::arith::{
    holds, int_op, long_op, long_order, long_to_int, narrow, spec_holds, spec_int_op,
    spec_long_op, spec_long_order, spec_long_to_int, spec_narrow, Condition, IntOp, Narrowing,
};
use crate::bytes::{be32, read_u32, signed32, to_i32};
use crate::exceptions::JavaExceptionKind;
use crate::frame::{
    peek, spec_replace, stack_slots, with_locals, FatalError, Frame, FrameView, Step,
};
use crate::instruction::{Instruction, LocalKind, StackOp};
use crate::typevalues::{
    spec_int_value, spec_long_value, JvmPrimitiveType, JvmReferenceTargetType, JvmValue,
};
use vstd::prelude::*;

verus! {

/// Whether the value `v` is of the kind `kind`.
pub open spec fn kind_matches(kind: LocalKind, v: JvmValue) -> bool {
    match kind {
        LocalKind::Int => v matches JvmValue::Primitive(JvmPrimitiveType::Int, _),
        LocalKind::Long => v matches JvmValue::Primitive(JvmPrimitiveType::Long, _),
        LocalKind::Float => v matches JvmValue::Primitive(JvmPrimitiveType::Float, _),
        LocalKind::Double => v matches JvmValue::Primitive(JvmPrimitiveType::Double, _),
        LocalKind::Reference => v is Reference,
    }
}

/// Whether the operation is a shift, whose second operand is an `int` count.
pub open spec fn is_shift(op: IntOp) -> bool {
    op == IntOp::Shl || op == IntOp::Shr || op == IntOp::Ushr
}

/// The frame after pushing the local variable `index`, which must be of kind `kind`.
pub open spec fn spec_load(f: FrameView, kind: LocalKind, index: int, next: int) -> (FrameView, Step) {
    if index >= f.locals.len() {
        (f, Step::Fatal(FatalError::BadLocal))
    } else if !kind_matches(kind, f.locals[index]) {
        (f, Step::Fatal(FatalError::CategoryMismatch))
    } else {
        spec_replace(f, 0, seq![f.locals[index]], next)
    }
}

/// The frame after popping a value of kind `kind` into the local variable `index`. A
/// `long` or a `double` needs the variable behind `index` too.
pub open spec fn spec_store(f: FrameView, kind: LocalKind, index: int, next: int) -> (
    FrameView,
    Step,
) {
    if f.stack.len() < 1 {
        (f, Step::Fatal(FatalError::StackUnderflow))
    } else if !kind_matches(kind, peek(f, 0)) {
        (f, Step::Fatal(FatalError::CategoryMismatch))
    } else if index + peek(f, 0).spec_category() > f.locals.len() {
        (f, Step::Fatal(FatalError::BadLocal))
    } else if spec_replace(f, 1, Seq::empty(), next).1 != Step::Next {
        (f, spec_replace(f, 1, Seq::empty(), next).1)
    } else {
        (
            with_locals(
                spec_replace(f, 1, Seq::empty(), next).0,
                f.locals.update(index, peek(f, 0)),
            ),
            Step::Next,
        )
    }
}

/// The frame after adding `delta` to the `int` local variable `index`.
pub open spec fn spec_increment(f: FrameView, index: int, delta: i32, next: int) -> (
    FrameView,
    Step,
) {
    if index >= f.locals.len() {
        (f, Step::Fatal(FatalError::BadLocal))
    } else {
        match f.locals[index].spec_as_int() {
            None => (f, Step::Fatal(FatalError::CategoryMismatch)),
            Some(v) => if spec_replace(f, 0, Seq::empty(), next).1 != Step::Next {
                (f, spec_replace(f, 0, Seq::empty(), next).1)
            } else {
                (
                    with_locals(
                        spec_replace(f, 0, Seq::empty(), next).0,
                        f.locals.update(
                            index,
                            spec_int_value(vstd::wrapping::i32_specs::wrapping_add(v, delta)),
                        ),
                    ),
                    Step::Next,
                )
            },
        }
    }
}

/// Whether the value `k` places below the top takes one slot.
pub open spec fn narrow_at(f: FrameView, k: int) -> bool {
    peek(f, k).spec_category() == 1
}

/// The frame after an instruction that rearranges the stack. The forms of an
/// instruction differ by the slots that the values on top take; a stack that fits no
/// form is `CategoryMismatch`, one that is too short is `StackUnderflow`.
pub open spec fn spec_stack_op(f: FrameView, op: StackOp, next: int) -> (FrameView, Step) {
    let n = f.stack.len();
    let v1 = peek(f, 0);
    let v2 = peek(f, 1);
    let v3 = peek(f, 2);
    let v4 = peek(f, 3);
    let short = (f, Step::Fatal(FatalError::StackUnderflow));
    let mismatch = (f, Step::Fatal(FatalError::CategoryMismatch));
    if n < 1 {
        short
    } else {
        match op {
            StackOp::Pop => if narrow_at(f, 0) {
                spec_replace(f, 1, Seq::empty(), next)
            } else {
                mismatch
            },
            StackOp::Pop2 => if !narrow_at(f, 0) {
                spec_replace(f, 1, Seq::empty(), next)
            } else if n < 2 {
                short
            } else if narrow_at(f, 1) {
                spec_replace(f, 2, Seq::empty(), next)
            } else {
                mismatch
            },
            StackOp::Dup => if narrow_at(f, 0) {
                spec_replace(f, 1, seq![v1, v1], next)
            } else {
                mismatch
            },
            StackOp::DupX1 => if n < 2 {
                short
            } else if narrow_at(f, 0) && narrow_at(f, 1) {
                spec_replace(f, 2, seq![v1, v2, v1], next)
            } else {
                mismatch
            },
            StackOp::DupX2 => if n < 2 {
                short
            } else if !narrow_at(f, 0) {
                mismatch
            } else if !narrow_at(f, 1) {
                spec_replace(f, 2, seq![v1, v2, v1], next)
            } else if n < 3 {
                short
            } else if narrow_at(f, 2) {
                spec_replace(f, 3, seq![v1, v3, v2, v1], next)
            } else {
                mismatch
            },
            StackOp::Dup2 => if !narrow_at(f, 0) {
                spec_replace(f, 1, seq![v1, v1], next)
            } else if n < 2 {
                short
            } else if narrow_at(f, 1) {
                spec_replace(f, 2, seq![v2, v1, v2, v1], next)
            } else {
                mismatch
            },
            StackOp::Dup2X1 => if n < 2 {
                short
            } else if !narrow_at(f, 0) {
                if narrow_at(f, 1) {
                    spec_replace(f, 2, seq![v1, v2, v1], next)
                } else {
                    mismatch
                }
            } else if n < 3 {
                short
            } else if narrow_at(f, 1) && narrow_at(f, 2) {
                spec_replace(f, 3, seq![v2, v1, v3, v2, v1], next)
            } else {
                mismatch
            },
            StackOp::Dup2X2 => if n < 2 {
                short
            } else if !narrow_at(f, 0) {
                if !narrow_at(f, 1) {
                    spec_replace(f, 2, seq![v1, v2, v1], next)
                } else if n < 3 {
                    short
                } else if narrow_at(f, 2) {
                    spec_replace(f, 3, seq![v1, v3, v2, v1], next)
                } else {
                    mismatch
                }
            } else if !narrow_at(f, 1) {
                mismatch
            } else if n < 3 {
                short
            } else if !narrow_at(f, 2) {
                spec_replace(f, 3, seq![v2, v1, v3, v2, v1], next)
            } else if n < 4 {
                short
            } else if narrow_at(f, 3) {
                spec_replace(f, 4, seq![v2, v1, v4, v3, v2, v1], next)
            } else {
                mismatch
            },
            StackOp::Swap => if n < 2 {
                short
            } else if narrow_at(f, 0) && narrow_at(f, 1) {
                spec_replace(f, 2, seq![v1, v2], next)
            } else {
                mismatch
            },
        }
    }
}

/// The frame after a binary operation on the two `int` values on top.
pub open spec fn spec_int_binary(f: FrameView, op: IntOp, next: int) -> (FrameView, Step) {
    if f.stack.len() < 2 {
        (f, Step::Fatal(FatalError::StackUnderflow))
    } else {
        match (peek(f, 1).spec_as_int(), peek(f, 0).spec_as_int()) {
            (Some(a), Some(b)) => match spec_int_op(op, a, b) {
                Ok(r) => spec_replace(f, 2, seq![spec_int_value(r)], next),
                Err(kind) => (f, Step::Raise(kind)),
            },
            _ => (f, Step::Fatal(FatalError::CategoryMismatch)),
        }
    }
}

/// The second operand of a binary operation on `long`: the `int` count of a shift,
/// widened, or a `long`.
pub open spec fn spec_long_operand(op: IntOp, v: JvmValue) -> Option<i64> {
    if is_shift(op) {
        match v.spec_as_int() {
            Some(c) => Some(c as i64),
            None => None,
        }
    } else {
        v.spec_as_long()
    }
}

/// The frame after a binary operation on the `long` below the top and the operand on
/// top.
pub open spec fn spec_long_binary(f: FrameView, op: IntOp, next: int) -> (FrameView, Step) {
    if f.stack.len() < 2 {
        (f, Step::Fatal(FatalError::StackUnderflow))
    } else {
        match (peek(f, 1).spec_as_long(), spec_long_operand(op, peek(f, 0))) {
            (Some(a), Some(b)) => match spec_long_op(op, a, b) {
                Ok(r) => spec_replace(f, 2, seq![spec_long_value(r)], next),
                Err(kind) => (f, Step::Raise(kind)),
            },
            _ => (f, Step::Fatal(FatalError::CategoryMismatch)),
        }
    }
}

/// The instructions that turn the one value on top into another.
#[derive(Clone, Copy, Debug, PartialEq, Eq, Structural)]
pub enum Unary {
    IntNeg,
    LongNeg,
    IntToLong,
    LongToInt,
    Narrow(Narrowing),
}

/// What a unary instruction makes of the value `v`; `None` where `v` is of another
/// kind than the instruction needs. Negation wraps round.
pub open spec fn spec_unary_value(u: Unary, v: JvmValue) -> Option<JvmValue> {
    match u {
        Unary::IntNeg => match v.spec_as_int() {
            Some(a) => Some(spec_int_value(vstd::wrapping::i32_specs::wrapping_sub(0, a))),
            None => None,
        },
        Unary::LongNeg => match v.spec_as_long() {
            Some(a) => Some(spec_long_value(vstd::wrapping::i64_specs::wrapping_sub(0, a))),
            None => None,
        },
        Unary::IntToLong => match v.spec_as_int() {
            Some(a) => Some(spec_long_value(a as i64)),
            None => None,
        },
        Unary::LongToInt => match v.spec_as_long() {
            Some(a) => Some(spec_int_value(spec_long_to_int(a))),
            None => None,
        },
        Unary::Narrow(to) => match v.spec_as_int() {
            Some(a) => Some(spec_int_value(spec_narrow(to, a))),
            None => None,
        },
    }
}

/// The frame after a unary instruction.
pub open spec fn spec_unary(f: FrameView, u: Unary, next: int) -> (FrameView, Step) {
    if f.stack.len() < 1 {
        (f, Step::Fatal(FatalError::StackUnderflow))
    } else {
        match spec_unary_value(u, peek(f, 0)) {
            Some(r) => spec_replace(f, 1, seq![r], next),
            None => (f, Step::Fatal(FatalError::CategoryMismatch)),
        }
    }
}

/// The frame after replacing the two `long` values on top by their order.
pub open spec fn spec_long_ordering(f: FrameView, next: int) -> (FrameView, Step) {
    if f.stack.len() < 2 {
        (f, Step::Fatal(FatalError::StackUnderflow))
    } else {
        match (peek(f, 1).spec_as_long(), peek(f, 0).spec_as_long()) {
            (Some(a), Some(b)) => spec_replace(
                f,
                2,
                seq![spec_int_value(spec_long_order(a, b))],
                next,
            ),
            _ => (f, Step::Fatal(FatalError::CategoryMismatch)),
        }
    }
}

/// The frame after a branch on the `int` on top and zero: the branch goes `offset`
/// bytes from the instruction where the condition holds, else to `next`.
pub open spec fn spec_if_zero(f: FrameView, c: Condition, offset: i32, next: int) -> (
    FrameView,
    Step,
) {
    if f.stack.len() < 1 {
        (f, Step::Fatal(FatalError::StackUnderflow))
    } else {
        match peek(f, 0).spec_as_int() {
            Some(a) => spec_replace(
                f,
                1,
                Seq::empty(),
                if spec_holds(c, a, 0) {
                    f.pc + offset
                } else {
                    next
                },
            ),
            None => (f, Step::Fatal(FatalError::CategoryMismatch)),
        }
    }
}

/// The frame after a branch on the two `int` values on top.
pub open spec fn spec_if_ints(f: FrameView, c: Condition, offset: i32, next: int) -> (
    FrameView,
    Step,
) {
    if f.stack.len() < 2 {
        (f, Step::Fatal(FatalError::StackUnderflow))
    } else {
        match (peek(f, 1).spec_as_int(), peek(f, 0).spec_as_int()) {
            (Some(a), Some(b)) => spec_replace(
                f,
                2,
                Seq::empty(),
                if spec_holds(c, a, b) {
                    f.pc + offset
                } else {
                    next
                },
            ),
            _ => (f, Step::Fatal(FatalError::CategoryMismatch)),
        }
    }
}

/// The frame after a branch on whether the two references on top are the same.
pub open spec fn spec_if_same(f: FrameView, same: bool, offset: i32, next: int) -> (
    FrameView,
    Step,
) {
    if f.stack.len() < 2 {
        (f, Step::Fatal(FatalError::StackUnderflow))
    } else {
        match (peek(f, 1).spec_as_reference(), peek(f, 0).spec_as_reference()) {
            (Some(a), Some(b)) => spec_replace(
                f,
                2,
                Seq::empty(),
                if (a == b) == same {
                    f.pc + offset
                } else {
                    next
                },
            ),
            _ => (f, Step::Fatal(FatalError::CategoryMismatch)),
        }
    }
}

/// The frame after a branch on whether the reference on top is null.
pub open spec fn spec_if_null(f: FrameView, null: bool, offset: i32, next: int) -> (
    FrameView,
    Step,
) {
    if f.stack.len() < 1 {
        (f, Step::Fatal(FatalError::StackUnderflow))
    } else {
        match peek(f, 0).spec_as_reference() {
            Some(a) => spec_replace(
                f,
                1,
                Seq::empty(),
                if (a == JvmReferenceTargetType::Null) == null {
                    f.pc + offset
                } else {
                    next
                },
            ),
            None => (f, Step::Fatal(FatalError::CategoryMismatch)),
        }
    }
}

/// The frame after entering or leaving the monitor of the object on top: with one
/// thread there is nothing to wait for, and only a null reference is answered, with
/// `NullPointer`.
pub open spec fn spec_monitor(f: FrameView, next: int) -> (FrameView, Step) {
    if f.stack.len() < 1 {
        (f, Step::Fatal(FatalError::StackUnderflow))
    } else {
        match peek(f, 0).spec_as_reference() {
            Some(JvmReferenceTargetType::Null) => (f, Step::Raise(JavaExceptionKind::NullPointer)),
            Some(_) => spec_replace(f, 1, Seq::empty(), next),
            None => (f, Step::Fatal(FatalError::CategoryMismatch)),
        }
    }
}

/// The signed 32-bit number that stands at `at`.
pub open spec fn spec_operand32(code: Seq<u8>, at: int) -> i32 {
    signed32(be32(code, at) as u32)
}

/// The address behind the padding of a switch at `pc`: the first address behind the
/// opcode that is a multiple of four.
pub open spec fn spec_switch_base(pc: int) -> int {
    pc + 1 + (4 - (pc + 1) % 4) % 4
}

/// The frame after a branch through a table of offsets.
///
/// Behind the padding stand the default offset, the least and the greatest value of
/// the table, and one offset for each value between them. The `int` on top is taken
/// off; the branch goes by the offset of that value, or by the default where it lies
/// outside the table. Offsets count from the address of the instruction.
pub open spec fn spec_table_switch(f: FrameView) -> (FrameView, Step) {
    let base = spec_switch_base(f.pc as int);
    if base + 12 > f.code.len() {
        (f, Step::Fatal(FatalError::BadPc))
    } else if spec_operand32(f.code, base + 4) > spec_operand32(f.code, base + 8) {
        (f, Step::Fatal(FatalError::BadCode))
    } else if base + 12 + 4 * (spec_operand32(f.code, base + 8) - spec_operand32(f.code, base + 4)
        + 1) > f.code.len() {
        (f, Step::Fatal(FatalError::BadPc))
    } else if f.stack.len() < 1 {
        (f, Step::Fatal(FatalError::StackUnderflow))
    } else {
        match peek(f, 0).spec_as_int() {
            None => (f, Step::Fatal(FatalError::CategoryMismatch)),
            Some(index) => spec_replace(
                f,
                1,
                Seq::empty(),
                f.pc + (if spec_operand32(f.code, base + 4) <= index <= spec_operand32(
                    f.code,
                    base + 8,
                ) {
                    spec_operand32(
                        f.code,
                        base + 12 + 4 * (index - spec_operand32(f.code, base + 4)),
                    )
                } else {
                    spec_operand32(f.code, base)
                }),
            ),
        }
    }
}

/// The offset of the first pair from position `i` on whose value is `key`, among
/// `count` pairs of a value and an offset that start at `at`.
pub open spec fn spec_pair_offset(code: Seq<u8>, at: int, count: int, key: i32, i: int) -> Option<i32>
    decreases count - i,
{
    if i < 0 || i >= count {
        None
    } else if spec_operand32(code, at + 8 * i) == key {
        Some(spec_operand32(code, at + 8 * i + 4))
    } else {
        spec_pair_offset(code, at, count, key, i + 1)
    }
}

/// The frame after a branch through a list of pairs.
///
/// Behind the padding stand the default offset, the number of pairs, and the pairs.
/// The `int` on top is taken off; the branch goes by the offset of the first pair with
/// that value, or by the default where there is none.
pub open spec fn spec_lookup_switch(f: FrameView) -> (FrameView, Step) {
    let base = spec_switch_base(f.pc as int);
    if base + 8 > f.code.len() {
        (f, Step::Fatal(FatalError::BadPc))
    } else if spec_operand32(f.code, base + 4) < 0 {
        (f, Step::Fatal(FatalError::BadCode))
    } else if base + 8 + 8 * spec_operand32(f.code, base + 4) > f.code.len() {
        (f, Step::Fatal(FatalError::BadPc))
    } else if f.stack.len() < 1 {
        (f, Step::Fatal(FatalError::StackUnderflow))
    } else {
        match peek(f, 0).spec_as_int() {
            None => (f, Step::Fatal(FatalError::CategoryMismatch)),
            Some(key) => spec_replace(
                f,
                1,
                Seq::empty(),
                f.pc + (match spec_pair_offset(
                    f.code,
                    base + 8,
                    spec_operand32(f.code, base + 4) as int,
                    key,
                    0,
                ) {
                    Some(offset) => offset,
                    None => spec_operand32(f.code, base),
                }),
            ),
        }
    }
}

/// What the instruction `i` of `length` bytes does to the frame `f`, where the
/// instruction works on the frame alone; `None` for the instructions that need the heap
/// or the method area.
pub open spec fn spec_execute_local(f: FrameView, i: Instruction, length: int) -> Option<
    (FrameView, Step),
> {
    let next = f.pc + length;
    match i {
        Instruction::Nop => Some(spec_replace(f, 0, Seq::empty(), next)),
        Instruction::Const(v) => Some(spec_replace(f, 0, seq![v], next)),
        Instruction::Load(kind, index) => Some(spec_load(f, kind, index as int, next)),
        Instruction::Store(kind, index) => Some(spec_store(f, kind, index as int, next)),
        Instruction::Stack(op) => Some(spec_stack_op(f, op, next)),
        Instruction::IntBinary(op) => Some(spec_int_binary(f, op, next)),
        Instruction::LongBinary(op) => Some(spec_long_binary(f, op, next)),
        Instruction::IntNeg => Some(spec_unary(f, Unary::IntNeg, next)),
        Instruction::LongNeg => Some(spec_unary(f, Unary::LongNeg, next)),
        Instruction::Increment(index, delta) => Some(spec_increment(f, index as int, delta, next)),
        Instruction::IntToLong => Some(spec_unary(f, Unary::IntToLong, next)),
        Instruction::LongToInt => Some(spec_unary(f, Unary::LongToInt, next)),
        Instruction::Narrow(to) => Some(spec_unary(f, Unary::Narrow(to), next)),
        Instruction::LongOrder => Some(spec_long_ordering(f, next)),
        Instruction::IfZero(c, offset) => Some(spec_if_zero(f, c, offset, next)),
        Instruction::IfInts(c, offset) => Some(spec_if_ints(f, c, offset, next)),
        Instruction::IfSame(same, offset) => Some(spec_if_same(f, same, offset, next)),
        Instruction::IfNull(null, offset) => Some(spec_if_null(f, null, offset, next)),
        Instruction::Goto(offset) => Some(spec_replace(f, 0, Seq::empty(), f.pc + offset)),
        Instruction::Monitor => Some(spec_monitor(f, next)),
        Instruction::TableSwitch => Some(spec_table_switch(f)),
        Instruction::LookupSwitch => Some(spec_lookup_switch(f)),
        _ => None,
    }
}

/// The address `delta` bytes from the program counter of `f`; where that lies outside
/// the code, the length of the code, which is no address of an instruction.
pub open spec fn spec_target(f: FrameView, delta: int) -> usize {
    if 0 <= f.pc + delta < f.code.len() {
        (f.pc + delta) as usize
    } else {
        f.code.len() as usize
    }
}

/// Whether the value `v` is of the kind `kind`.
pub fn matches_kind(kind: LocalKind, v: &JvmValue) -> (r: bool)
    ensures
        r == kind_matches(kind, *v),
{
    match (kind, v) {
        (LocalKind::Int, JvmValue::Primitive(JvmPrimitiveType::Int, _)) => true,
        (LocalKind::Long, JvmValue::Primitive(JvmPrimitiveType::Long, _)) => true,
        (LocalKind::Float, JvmValue::Primitive(JvmPrimitiveType::Float, _)) => true,
        (LocalKind::Double, JvmValue::Primitive(JvmPrimitiveType::Double, _)) => true,
        (LocalKind::Reference, JvmValue::Reference(_)) => true,
        _ => false,
    }
}

impl Frame {
    /// The address `delta` bytes from the program counter; where that lies outside the
    /// code, the length of the code, which is no address of an instruction.
    pub fn target(&self, delta: i64) -> (r: usize)
        ensures
            r == spec_target(self@, delta as int),
            0 <= self@.pc + delta < self@.code.len() ==> r == self@.pc + delta,
            !(0 <= self@.pc + delta < self@.code.len()) ==> r == self@.code.len(),
    {
        let size: usize = self.code.len();
        if self.pc >= size {
            if delta < 0 {
                let back: u64 = (0 - (delta as i128)) as u64;
                if back <= self.pc as u64 && self.pc - (back as usize) < size {
                    return self.pc - (back as usize);
                }
            }
            return size;
        }
        if delta >= 0 {
            let forward: u64 = delta as u64;
            if forward < (size - self.pc) as u64 {
                self.pc + (forward as usize)
            } else {
                size
            }
        } else {
            let back: u64 = (0 - (delta as i128)) as u64;
            if back <= self.pc as u64 {
                self.pc - (back as usize)
            } else {
                size
            }
        }
    }

    /// The address `length` bytes behind the program counter; where that lies outside
    /// the code, the length of the code.
    pub fn address_behind(&self, length: usize) -> (r: usize)
        ensures
            r == spec_target(self@, length as int),
            self@.pc + length < self@.code.len() ==> r == self@.pc + length,
            !(self@.pc + length < self@.code.len()) ==> r == self@.code.len(),
    {
        let size: usize = self.code.len();
        if self.pc < size && length < size - self.pc {
            self.pc + length
        } else {
            size
        }
    }

    /// The value `k` places below the top of the stack.
    pub fn peek(&self, k: usize) -> (v: JvmValue)
        requires
            k < self@.stack.len(),
        ensures
            v == peek(self@, k as int),
    {
        self.stack[self.stack.len() - 1 - k]
    }

    /// Whether the value `k` places below the top takes one slot.
    pub fn narrow_at(&self, k: usize) -> (r: bool)
        requires
            k < self@.stack.len(),
        ensures
            r == narrow_at(self@, k as int),
    {
        self.peek(k).category() == 1
    }

    /// Pushes the local variable `index`.
    pub fn load(&mut self, kind: LocalKind, index: u16, next: usize) -> (r: Step)
        ensures
            (final(self)@, r) == spec_load(old(self)@, kind, index as int, next as int),
    {
        let at: usize = index as usize;
        if at >= self.locals.len() {
            return Step::Fatal(FatalError::BadLocal);
        }
        let v: JvmValue = self.locals[at];
        if !matches_kind(kind, &v) {
            return Step::Fatal(FatalError::CategoryMismatch);
        }
        let pushes: [JvmValue; 1] = [v];
        assert(pushes@ =~= seq![v]);
        self.replace(0, pushes.as_slice(), next)
    }

    /// Pops into the local variable `index`.
    pub fn store(&mut self, kind: LocalKind, index: u16, next: usize) -> (r: Step)
        ensures
            (final(self)@, r) == spec_store(old(self)@, kind, index as int, next as int),
    {
        if self.stack.len() < 1 {
            return Step::Fatal(FatalError::StackUnderflow);
        }
        let v: JvmValue = self.peek(0);
        if !matches_kind(kind, &v) {
            return Step::Fatal(FatalError::CategoryMismatch);
        }
        let at: usize = index as usize;
        if at >= self.locals.len() || v.category() > self.locals.len() - at {
            return Step::Fatal(FatalError::BadLocal);
        }
        let pushes: [JvmValue; 0] = [];
        assert(pushes@ =~= Seq::<JvmValue>::empty());
        let step: Step = self.replace(1, pushes.as_slice(), next);
        match step {
            Step::Next => {
                self.locals[at] = v;
                Step::Next
            },
            other => other,
        }
    }

    /// Adds `delta` to the `int` local variable `index`.
    pub fn increment(&mut self, index: u16, delta: i32, next: usize) -> (r: Step)
        ensures
            (final(self)@, r) == spec_increment(old(self)@, index as int, delta, next as int),
    {
        let at: usize = index as usize;
        if at >= self.locals.len() {
            return Step::Fatal(FatalError::BadLocal);
        }
        let v: i32 = match self.locals[at].as_int() {
            Some(v) => v,
            None => {
                return Step::Fatal(FatalError::CategoryMismatch);
            },
        };
        let pushes: [JvmValue; 0] = [];
        assert(pushes@ =~= Seq::<JvmValue>::empty());
        let step: Step = self.replace(0, pushes.as_slice(), next);
        match step {
            Step::Next => {
                self.locals[at] = JvmValue::from_int(v.wrapping_add(delta));
                Step::Next
            },
            other => other,
        }
    }

    /// Takes `pops` values off and pushes the values of `pushes`.
    pub fn rearrange(&mut self, pops: usize, pushes: Vec<JvmValue>, next: usize) -> (r: Step)
        ensures
            (final(self)@, r) == spec_replace(old(self)@, pops as nat, pushes@, next as int),
    {
        self.replace(pops, pushes.as_slice(), next)
    }

    /// Takes `pops` values off and pushes `v`.
    pub fn replace_one(&mut self, pops: usize, v: JvmValue, next: usize) -> (r: Step)
        ensures
            (final(self)@, r) == spec_replace(old(self)@, pops as nat, seq![v], next as int),
    {
        let pushes: [JvmValue; 1] = [v];
        assert(pushes@ =~= seq![v]);
        self.replace(pops, pushes.as_slice(), next)
    }

    /// Takes `pops` values off.
    pub fn drop_values(&mut self, pops: usize, next: usize) -> (r: Step)
        ensures
            (final(self)@, r) == spec_replace(old(self)@, pops as nat, Seq::empty(), next as int),
    {
        let pushes: [JvmValue; 0] = [];
        assert(pushes@ =~= Seq::<JvmValue>::empty());
        self.replace(pops, pushes.as_slice(), next)
    }

    /// Carries out an instruction that rearranges the stack.
    pub fn stack_op(&mut self, op: StackOp, next: usize) -> (r: Step)
        ensures
            (final(self)@, r) == spec_stack_op(old(self)@, op, next as int),
    {
        let n: usize = self.stack.len();
        if n < 1 {
            return Step::Fatal(FatalError::StackUnderflow);
        }
        let v1: JvmValue = self.peek(0);
        let n1: bool = self.narrow_at(0);
        if n < 2 {
            return match op {
                StackOp::Pop => if n1 {
                    self.drop_values(1, next)
                } else {
                    Step::Fatal(FatalError::CategoryMismatch)
                },
                StackOp::Pop2 => if !n1 {
                    self.drop_values(1, next)
                } else {
                    Step::Fatal(FatalError::StackUnderflow)
                },
                StackOp::Dup => if n1 {
                    self.rearrange(1, vec![v1, v1], next)
                } else {
                    Step::Fatal(FatalError::CategoryMismatch)
                },
                StackOp::Dup2 => if !n1 {
                    self.rearrange(1, vec![v1, v1], next)
                } else {
                    Step::Fatal(FatalError::StackUnderflow)
                },
                _ => Step::Fatal(FatalError::StackUnderflow),
            };
        }
        let v2: JvmValue = self.peek(1);
        let n2: bool = self.narrow_at(1);
        match op {
            StackOp::Pop => if n1 {
                self.drop_values(1, next)
            } else {
                Step::Fatal(FatalError::CategoryMismatch)
            },
            StackOp::Pop2 => if !n1 {
                self.drop_values(1, next)
            } else if n2 {
                self.drop_values(2, next)
            } else {
                Step::Fatal(FatalError::CategoryMismatch)
            },
            StackOp::Dup => if n1 {
                self.rearrange(1, vec![v1, v1], next)
            } else {
                Step::Fatal(FatalError::CategoryMismatch)
            },
            StackOp::DupX1 => if n1 && n2 {
                self.rearrange(2, vec![v1, v2, v1], next)
            } else {
                Step::Fatal(FatalError::CategoryMismatch)
            },
            StackOp::Dup2 => if !n1 {
                self.rearrange(1, vec![v1, v1], next)
            } else if n2 {
                self.rearrange(2, vec![v2, v1, v2, v1], next)
            } else {
                Step::Fatal(FatalError::CategoryMismatch)
            },
            StackOp::Swap => if n1 && n2 {
                self.rearrange(2, vec![v1, v2], next)
            } else {
                Step::Fatal(FatalError::CategoryMismatch)
            },
            StackOp::DupX2 => if !n1 {
                Step::Fatal(FatalError::CategoryMismatch)
            } else if !n2 {
                self.rearrange(2, vec![v1, v2, v1], next)
            } else if n < 3 {
                Step::Fatal(FatalError::StackUnderflow)
            } else if self.narrow_at(2) {
                let v3: JvmValue = self.peek(2);
                self.rearrange(3, vec![v1, v3, v2, v1], next)
            } else {
                Step::Fatal(FatalError::CategoryMismatch)
            },
            StackOp::Dup2X1 => if !n1 {
                if n2 {
                    self.rearrange(2, vec![v1, v2, v1], next)
                } else {
                    Step::Fatal(FatalError::CategoryMismatch)
                }
            } else if n < 3 {
                Step::Fatal(FatalError::StackUnderflow)
            } else if n2 && self.narrow_at(2) {
                let v3: JvmValue = self.peek(2);
                self.rearrange(3, vec![v2, v1, v3, v2, v1], next)
            } else {
                Step::Fatal(FatalError::CategoryMismatch)
            },
            StackOp::Dup2X2 => self.dup2_x2(next),
        }
    }

    /// Carries out the instruction that copies the one or two values on top below the
    /// one or two values under them.
    fn dup2_x2(&mut self, next: usize) -> (r: Step)
        requires
            old(self)@.stack.len() >= 2,
        ensures
            (final(self)@, r) == spec_stack_op(old(self)@, StackOp::Dup2X2, next as int),
    {
        let n: usize = self.stack.len();
        let v1: JvmValue = self.peek(0);
        let v2: JvmValue = self.peek(1);
        let n1: bool = self.narrow_at(0);
        let n2: bool = self.narrow_at(1);
        if !n1 {
            if !n2 {
                self.rearrange(2, vec![v1, v2, v1], next)
            } else if n < 3 {
                Step::Fatal(FatalError::StackUnderflow)
            } else if self.narrow_at(2) {
                let v3: JvmValue = self.peek(2);
                self.rearrange(3, vec![v1, v3, v2, v1], next)
            } else {
                Step::Fatal(FatalError::CategoryMismatch)
            }
        } else if !n2 {
            Step::Fatal(FatalError::CategoryMismatch)
        } else if n < 3 {
            Step::Fatal(FatalError::StackUnderflow)
        } else if !self.narrow_at(2) {
            let v3: JvmValue = self.peek(2);
            self.rearrange(3, vec![v2, v1, v3, v2, v1], next)
        } else if n < 4 {
            Step::Fatal(FatalError::StackUnderflow)
        } else if self.narrow_at(3) {
            let v3: JvmValue = self.peek(2);
            let v4: JvmValue = self.peek(3);
            self.rearrange(4, vec![v2, v1, v4, v3, v2, v1], next)
        } else {
            Step::Fatal(FatalError::CategoryMismatch)
        }
    }

    /// Carries out a binary operation on the two `int` values on top.
    pub fn int_binary(&mut self, op: IntOp, next: usize) -> (r: Step)
        ensures
            (final(self)@, r) == spec_int_binary(old(self)@, op, next as int),
    {
        if self.stack.len() < 2 {
            return Step::Fatal(FatalError::StackUnderflow);
        }
        match (self.peek(1).as_int(), self.peek(0).as_int()) {
            (Some(a), Some(b)) => match int_op(op, a, b) {
                Ok(r) => self.replace_one(2, JvmValue::from_int(r), next),
                Err(kind) => Step::Raise(kind),
            },
            _ => Step::Fatal(FatalError::CategoryMismatch),
        }
    }

    /// Carries out a binary operation on the `long` below the top and the operand on
    /// top.
    pub fn long_binary(&mut self, op: IntOp, next: usize) -> (r: Step)
        ensures
            (final(self)@, r) == spec_long_binary(old(self)@, op, next as int),
    {
        if self.stack.len() < 2 {
            return Step::Fatal(FatalError::StackUnderflow);
        }
        let shift: bool = match op {
            IntOp::Shl => true,
            IntOp::Shr => true,
            IntOp::Ushr => true,
            _ => false,
        };
        let second: Option<i64> = if shift {
            match self.peek(0).as_int() {
                Some(c) => Some(c as i64),
                None => None,
            }
        } else {
            self.peek(0).as_long()
        };
        match (self.peek(1).as_long(), second) {
            (Some(a), Some(b)) => match long_op(op, a, b) {
                Ok(r) => self.replace_one(2, JvmValue::from_long(r), next),
                Err(kind) => Step::Raise(kind),
            },
            _ => Step::Fatal(FatalError::CategoryMismatch),
        }
    }

    /// Carries out a unary instruction.
    pub fn unary(&mut self, u: Unary, next: usize) -> (r: Step)
        ensures
            (final(self)@, r) == spec_unary(old(self)@, u, next as int),
    {
        if self.stack.len() < 1 {
            return Step::Fatal(FatalError::StackUnderflow);
        }
        let v: JvmValue = self.peek(0);
        let made: Option<JvmValue> = match u {
            Unary::IntNeg => match v.as_int() {
                Some(a) => Some(JvmValue::from_int(0i32.wrapping_sub(a))),
                None => None,
            },
            Unary::LongNeg => match v.as_long() {
                Some(a) => Some(JvmValue::from_long(0i64.wrapping_sub(a))),
                None => None,
            },
            Unary::IntToLong => match v.as_int() {
                Some(a) => Some(JvmValue::from_long(a as i64)),
                None => None,
            },
            Unary::LongToInt => match v.as_long() {
                Some(a) => Some(JvmValue::from_int(long_to_int(a))),
                None => None,
            },
            Unary::Narrow(to) => match v.as_int() {
                Some(a) => Some(JvmValue::from_int(narrow(to, a))),
                None => None,
            },
        };
        match made {
            Some(r) => self.replace_one(1, r, next),
            None => Step::Fatal(FatalError::CategoryMismatch),
        }
    }

    /// Replaces the two `long` values on top by their order.
    pub fn long_ordering(&mut self, next: usize) -> (r: Step)
        ensures
            (final(self)@, r) == spec_long_ordering(old(self)@, next as int),
    {
        if self.stack.len() < 2 {
            return Step::Fatal(FatalError::StackUnderflow);
        }
        match (self.peek(1).as_long(), self.peek(0).as_long()) {
            (Some(a), Some(b)) => self.replace_one(2, JvmValue::from_int(long_order(a, b)), next),
            _ => Step::Fatal(FatalError::CategoryMismatch),
        }
    }

    /// Branches on the `int` on top and zero.
    pub fn if_zero(&mut self, c: Condition, offset: i32, next: usize) -> (r: Step)
        ensures
            (final(self)@, r) == spec_if_zero(old(self)@, c, offset, next as int),
    {
        if self.stack.len() < 1 {
            return Step::Fatal(FatalError::StackUnderflow);
        }
        match self.peek(0).as_int() {
            Some(a) => {
                let taken: bool = holds(c, a, 0);
                self.branch(1, taken, offset, next)
            },
            None => Step::Fatal(FatalError::CategoryMismatch),
        }
    }

    /// Takes `pops` values off and goes `offset` bytes from the instruction where
    /// `taken` holds, else to `next`.
    pub fn branch(&mut self, pops: usize, taken: bool, offset: i32, next: usize) -> (r: Step)
        ensures
            (final(self)@, r) == spec_replace(
                old(self)@,
                pops as nat,
                Seq::empty(),
                if taken {
                    old(self)@.pc + offset
                } else {
                    next as int
                },
            ),
    {
        if taken {
            let to: usize = self.target(offset as i64);
            self.drop_values(pops, to)
        } else {
            self.drop_values(pops, next)
        }
    }

    /// Branches on the two `int` values on top.
    pub fn if_ints(&mut self, c: Condition, offset: i32, next: usize) -> (r: Step)
        ensures
            (final(self)@, r) == spec_if_ints(old(self)@, c, offset, next as int),
    {
        if self.stack.len() < 2 {
            return Step::Fatal(FatalError::StackUnderflow);
        }
        match (self.peek(1).as_int(), self.peek(0).as_int()) {
            (Some(a), Some(b)) => {
                let taken: bool = holds(c, a, b);
                self.branch(2, taken, offset, next)
            },
            _ => Step::Fatal(FatalError::CategoryMismatch),
        }
    }

    /// Branches on whether the two references on top are the same.
    pub fn if_same(&mut self, same: bool, offset: i32, next: usize) -> (r: Step)
        ensures
            (final(self)@, r) == spec_if_same(old(self)@, same, offset, next as int),
    {
        if self.stack.len() < 2 {
            return Step::Fatal(FatalError::StackUnderflow);
        }
        match (self.peek(1).as_reference(), self.peek(0).as_reference()) {
            (Some(a), Some(b)) => {
                let taken: bool = (a == b) == same;
                self.branch(2, taken, offset, next)
            },
            _ => Step::Fatal(FatalError::CategoryMismatch),
        }
    }

    /// Branches on whether the reference on top is null.
    pub fn if_null(&mut self, null: bool, offset: i32, next: usize) -> (r: Step)
        ensures
            (final(self)@, r) == spec_if_null(old(self)@, null, offset, next as int),
    {
        if self.stack.len() < 1 {
            return Step::Fatal(FatalError::StackUnderflow);
        }
        match self.peek(0).as_reference() {
            Some(a) => {
                let taken: bool = (a == JvmReferenceTargetType::Null) == null;
                self.branch(1, taken, offset, next)
            },
            None => Step::Fatal(FatalError::CategoryMismatch),
        }
    }

    /// Enters or leaves the monitor of the object on top.
    pub fn monitor(&mut self, next: usize) -> (r: Step)
        ensures
            (final(self)@, r) == spec_monitor(old(self)@, next as int),
    {
        if self.stack.len() < 1 {
            return Step::Fatal(FatalError::StackUnderflow);
        }
        match self.peek(0).as_reference() {
            Some(JvmReferenceTargetType::Null) => Step::Raise(JavaExceptionKind::NullPointer),
            Some(_) => self.drop_values(1, next),
            None => Step::Fatal(FatalError::CategoryMismatch),
        }
    }

    /// Carries out the instruction `i` of `length` bytes where it works on the frame
    /// alone; `None`, and no change, for the instructions that need the heap or the
    /// method area.
    pub fn execute_local(&mut self, i: Instruction, length: usize) -> (r: Option<Step>)
        ensures
            match r {
                Some(step) => spec_execute_local(old(self)@, i, length as int) == Some(
                    (final(self)@, step),
                ),
                None => spec_execute_local(old(self)@, i, length as int) is None && final(self)@
                    == old(self)@,
            },
    {
        let next: usize = self.address_behind(length);
        proof {
            lemma_replace_outside(self@, self@.pc + length);
        }
        match i {
            Instruction::Nop => Some(self.drop_values(0, next)),
            Instruction::Const(v) => Some(self.replace_one(0, v, next)),
            Instruction::Load(kind, index) => Some(self.load(kind, index, next)),
            Instruction::Store(kind, index) => Some(self.store(kind, index, next)),
            Instruction::Stack(op) => Some(self.stack_op(op, next)),
            Instruction::IntBinary(op) => Some(self.int_binary(op, next)),
            Instruction::LongBinary(op) => Some(self.long_binary(op, next)),
            Instruction::IntNeg => Some(self.unary(Unary::IntNeg, next)),
            Instruction::LongNeg => Some(self.unary(Unary::LongNeg, next)),
            Instruction::Increment(index, delta) => Some(self.increment(index, delta, next)),
            Instruction::IntToLong => Some(self.unary(Unary::IntToLong, next)),
            Instruction::LongToInt => Some(self.unary(Unary::LongToInt, next)),
            Instruction::Narrow(to) => Some(self.unary(Unary::Narrow(to), next)),
            Instruction::LongOrder => Some(self.long_ordering(next)),
            Instruction::IfZero(c, offset) => Some(self.if_zero(c, offset, next)),
            Instruction::IfInts(c, offset) => Some(self.if_ints(c, offset, next)),
            Instruction::IfSame(same, offset) => Some(self.if_same(same, offset, next)),
            Instruction::IfNull(null, offset) => Some(self.if_null(null, offset, next)),
            Instruction::Goto(offset) => {
                let to: usize = self.target(offset as i64);
                Some(self.drop_values(0, to))
            },
            Instruction::Monitor => Some(self.monitor(next)),
            Instruction::TableSwitch => Some(self.table_switch()),
            Instruction::LookupSwitch => Some(self.lookup_switch()),
            _ => None,
        }
    }

    /// The signed 32-bit operand that stands at `at`.
    fn operand32(&self, at: usize) -> (r: i32)
        requires
            at + 4 <= self@.code.len(),
        ensures
            r == spec_operand32(self@.code, at as int),
    {
        match read_u32(self.code.as_slice(), at) {
            Ok(v) => to_i32(v),
            Err(_) => 0,
        }
    }

    /// The address behind the padding of a switch at the program counter.
    pub fn switch_base(&self) -> (r: Option<usize>)
        ensures
            match r {
                Some(base) => base == spec_switch_base(self@.pc as int) && base
                    <= self@.code.len(),
                None => spec_switch_base(self@.pc as int) > self@.code.len(),
            },
    {
        let size: usize = self.code.len();
        if self.pc >= size {
            return None;
        }
        let behind: usize = self.pc + 1;
        let padding: usize = (4 - behind % 4) % 4;
        if padding > size - behind {
            None
        } else {
            Some(behind + padding)
        }
    }

    /// Branches through a table of offsets.
    pub fn table_switch(&mut self) -> (r: Step)
        ensures
            (final(self)@, r) == spec_table_switch(old(self)@),
    {
        let size: usize = self.code.len();
        let base: usize = match self.switch_base() {
            Some(base) => base,
            None => {
                return Step::Fatal(FatalError::BadPc);
            },
        };
        if size - base < 12 {
            return Step::Fatal(FatalError::BadPc);
        }
        let default: i32 = self.operand32(base);
        let low: i32 = self.operand32(base + 4);
        let high: i32 = self.operand32(base + 8);
        if low > high {
            return Step::Fatal(FatalError::BadCode);
        }
        let entries: u64 = (high as i64 - low as i64 + 1) as u64;
        if entries > ((size - base - 12) / 4) as u64 {
            return Step::Fatal(FatalError::BadPc);
        }
        if self.stack.len() < 1 {
            return Step::Fatal(FatalError::StackUnderflow);
        }
        let index: i32 = match self.peek(0).as_int() {
            Some(i) => i,
            None => {
                return Step::Fatal(FatalError::CategoryMismatch);
            },
        };
        let offset: i32 = if low <= index && index <= high {
            let place: usize = (index as i64 - low as i64) as usize;
            self.operand32(base + 12 + 4 * place)
        } else {
            default
        };
        let to: usize = self.target(offset as i64);
        self.drop_values(1, to)
    }

    /// Branches through a list of pairs of a value and an offset.
    pub fn lookup_switch(&mut self) -> (r: Step)
        ensures
            (final(self)@, r) == spec_lookup_switch(old(self)@),
    {
        let size: usize = self.code.len();
        let base: usize = match self.switch_base() {
            Some(base) => base,
            None => {
                return Step::Fatal(FatalError::BadPc);
            },
        };
        if size - base < 8 {
            return Step::Fatal(FatalError::BadPc);
        }
        let default: i32 = self.operand32(base);
        let pairs: i32 = self.operand32(base + 4);
        if pairs < 0 {
            return Step::Fatal(FatalError::BadCode);
        }
        if pairs as u64 > ((size - base - 8) / 8) as u64 {
            return Step::Fatal(FatalError::BadPc);
        }
        if self.stack.len() < 1 {
            return Step::Fatal(FatalError::StackUnderflow);
        }
        let key: i32 = match self.peek(0).as_int() {
            Some(k) => k,
            None => {
                return Step::Fatal(FatalError::CategoryMismatch);
            },
        };
        let count: usize = pairs as usize;
        let mut offset: i32 = default;
        let mut i: usize = 0;
        while i < count
            invariant_except_break
                spec_pair_offset(self@.code, base + 8, count as int, key, 0) == spec_pair_offset(
                    self@.code,
                    base + 8,
                    count as int,
                    key,
                    i as int,
                ),
                offset == default,
            invariant
                i <= count,
                base + 8 + 8 * count <= self@.code.len(),
                self@.code.len() == size,
                self@ == old(self)@,
            ensures
                offset == (match spec_pair_offset(self@.code, base + 8, count as int, key, 0) {
                    Some(found) => found,
                    None => default,
                }),
            decreases count - i,
        {
            if self.operand32(base + 8 + 8 * i) == key {
                offset = self.operand32(base + 8 + 8 * i + 4);
                break ;
            }
            i = i + 1;
        }
        let to: usize = self.target(offset as i64);
        self.drop_values(1, to)
    }
}

/// An address outside the code has the same effect as any other address outside the
/// code: the instruction fails in the same way.
pub proof fn lemma_replace_outside(f: FrameView, pc: int)
    ensures
        forall|pops: nat, pushes: Seq<JvmValue>|
            !(0 <= pc < f.code.len()) ==> #[trigger] spec_replace(f, pops, pushes, pc)
                == spec_replace(f, pops, pushes, f.code.len() as int),
{
}

/// The invariant of a frame: the program counter lies inside the code, and the operand
/// stack takes no more slots than `max_stack`.
pub open spec fn frame_in_bounds(f: FrameView) -> bool {
    f.pc < f.code.len() && stack_slots(f.stack) <= f.max_stack
}

/// What every instruction on a frame keeps: one that is done leaves the frame in
/// bounds, with the same code, the same limits, the same class and method, and as many
/// local variables as before; one that is not done leaves the frame as it was.
pub open spec fn keeps_frame(f: FrameView, r: (FrameView, Step)) -> bool {
    &&& r.1 == Step::Next ==> {
        &&& frame_in_bounds(r.0)
        &&& r.0.code == f.code
        &&& r.0.max_stack == f.max_stack
        &&& r.0.locals.len() == f.locals.len()
        &&& r.0.class_id == f.class_id
        &&& r.0.method_index == f.method_index
        &&& r.0.exception_table == f.exception_table
        &&& r.0.resume == f.resume
        &&& r.0.initializes == f.initializes
    }
    &&& r.1 != Step::Next ==> r.0 == f
}

/// Replacing values on the stack keeps the frame.
pub proof fn lemma_replace_keeps(f: FrameView, pops: nat, pushes: Seq<JvmValue>, pc: int)
    ensures
        keeps_frame(f, spec_replace(f, pops, pushes, pc)),
{
}

/// The instruction keeps the frame.
pub proof fn lemma_load_keeps(f: FrameView, kind: LocalKind, index: int, next: int)
    ensures
        keeps_frame(f, spec_load(f, kind, index, next)),
{
}

/// The instruction keeps the frame.
pub proof fn lemma_store_keeps(f: FrameView, kind: LocalKind, index: int, next: int)
    requires
        0 <= index,
    ensures
        keeps_frame(f, spec_store(f, kind, index, next)),
{
}

/// The instruction keeps the frame.
pub proof fn lemma_increment_keeps(f: FrameView, index: int, delta: i32, next: int)
    requires
        0 <= index,
    ensures
        keeps_frame(f, spec_increment(f, index, delta, next)),
{
}

/// The instruction keeps the frame.
pub proof fn lemma_stack_op_keeps(f: FrameView, op: StackOp, next: int)
    ensures
        keeps_frame(f, spec_stack_op(f, op, next)),
{
    assert forall|pops: nat, pushes: Seq<JvmValue>|
        keeps_frame(f, #[trigger] spec_replace(f, pops, pushes, next)) by {
        lemma_replace_keeps(f, pops, pushes, next);
    }
    match op {
        StackOp::Pop => {},
        StackOp::Pop2 => {},
        StackOp::Dup => {},
        StackOp::DupX1 => {},
        StackOp::DupX2 => {},
        StackOp::Dup2 => {},
        StackOp::Dup2X1 => {},
        StackOp::Dup2X2 => {},
        StackOp::Swap => {},
    }
}

/// The instruction keeps the frame.
pub proof fn lemma_int_binary_keeps(f: FrameView, op: IntOp, next: int)
    ensures
        keeps_frame(f, spec_int_binary(f, op, next)),
{
}

/// The instruction keeps the frame.
pub proof fn lemma_long_binary_keeps(f: FrameView, op: IntOp, next: int)
    ensures
        keeps_frame(f, spec_long_binary(f, op, next)),
{
}

/// The instruction keeps the frame.
pub proof fn lemma_unary_keeps(f: FrameView, u: Unary, next: int)
    ensures
        keeps_frame(f, spec_unary(f, u, next)),
{
}

/// The instruction keeps the frame.
pub proof fn lemma_long_ordering_keeps(f: FrameView, next: int)
    ensures
        keeps_frame(f, spec_long_ordering(f, next)),
{
}

/// The instruction keeps the frame.
pub proof fn lemma_if_zero_keeps(f: FrameView, c: Condition, offset: i32, next: int)
    ensures
        keeps_frame(f, spec_if_zero(f, c, offset, next)),
{
}

/// The instruction keeps the frame.
pub proof fn lemma_if_ints_keeps(f: FrameView, c: Condition, offset: i32, next: int)
    ensures
        keeps_frame(f, spec_if_ints(f, c, offset, next)),
{
}

/// The instruction keeps the frame.
pub proof fn lemma_if_same_keeps(f: FrameView, same: bool, offset: i32, next: int)
    ensures
        keeps_frame(f, spec_if_same(f, same, offset, next)),
{
}

/// The instruction keeps the frame.
pub proof fn lemma_if_null_keeps(f: FrameView, null: bool, offset: i32, next: int)
    ensures
        keeps_frame(f, spec_if_null(f, null, offset, next)),
{
}

/// The instruction keeps the frame.
pub proof fn lemma_monitor_keeps(f: FrameView, next: int)
    ensures
        keeps_frame(f, spec_monitor(f, next)),
{
}

/// The instruction keeps the frame.
pub proof fn lemma_table_switch_keeps(f: FrameView)
    ensures
        keeps_frame(f, spec_table_switch(f)),
{
}

/// The instruction keeps the frame.
pub proof fn lemma_lookup_switch_keeps(f: FrameView)
    ensures
        keeps_frame(f, spec_lookup_switch(f)),
{
}

/// The invariant of frames: every instruction that works on a frame alone keeps the
/// program counter inside the code and the operand stack within `max_stack` slots.
pub proof fn lemma_local_step_keeps_frame(f: FrameView, i: Instruction, length: int)
    requires
        spec_execute_local(f, i, length) is Some,
    ensures
        keeps_frame(f, spec_execute_local(f, i, length)->Some_0),
{
    let next = f.pc + length;
    match i {
        Instruction::Nop => lemma_replace_keeps(f, 0, Seq::empty(), next),
        Instruction::Const(v) => lemma_replace_keeps(f, 0, seq![v], next),
        Instruction::Load(kind, index) => lemma_load_keeps(f, kind, index as int, next),
        Instruction::Store(kind, index) => lemma_store_keeps(f, kind, index as int, next),
        Instruction::Stack(op) => lemma_stack_op_keeps(f, op, next),
        Instruction::IntBinary(op) => lemma_int_binary_keeps(f, op, next),
        Instruction::LongBinary(op) => lemma_long_binary_keeps(f, op, next),
        Instruction::IntNeg => lemma_unary_keeps(f, Unary::IntNeg, next),
        Instruction::LongNeg => lemma_unary_keeps(f, Unary::LongNeg, next),
        Instruction::Increment(index, delta) => lemma_increment_keeps(
            f,
            index as int,
            delta,
            next,
        ),
        Instruction::IntToLong => lemma_unary_keeps(f, Unary::IntToLong, next),
        Instruction::LongToInt => lemma_unary_keeps(f, Unary::LongToInt, next),
        Instruction::Narrow(to) => lemma_unary_keeps(f, Unary::Narrow(to), next),
        Instruction::LongOrder => lemma_long_ordering_keeps(f, next),
        Instruction::IfZero(c, offset) => lemma_if_zero_keeps(f, c, offset, next),
        Instruction::IfInts(c, offset) => lemma_if_ints_keeps(f, c, offset, next),
        Instruction::IfSame(same, offset) => lemma_if_same_keeps(f, same, offset, next),
        Instruction::IfNull(null, offset) => lemma_if_null_keeps(f, null, offset, next),
        Instruction::Goto(offset) => lemma_replace_keeps(f, 0, Seq::empty(), f.pc + offset),
        Instruction::Monitor => lemma_monitor_keeps(f, next),
        Instruction::TableSwitch => lemma_table_switch_keeps(f),
        Instruction::LookupSwitch => lemma_lookup_switch_keeps(f),
        _ => {},
    }
}

} // verus!
