//! Floating-point instructions. The machine moves the bit patterns and checks the
//! kinds of operands and results; the arithmetic itself is done by whoever drives the
//! thread, who is handed the operands and hands back the result.
use crate::frame::{peek, spec_replace, FatalError, Frame, FrameView, Step};
use crate::typevalues::{JvmPrimitiveType, JvmValue};
use vstd::prelude::*;

verus! {

/// The four kinds of number that the machine computes with.
#[derive(Clone, Copy, Debug, PartialEq, Eq, Structural)]
pub enum NumberKind {
    Int,
    Long,
    Float,
    Double,
}

/// The binary operations of floating-point arithmetic.
#[derive(Clone, Copy, Debug, PartialEq, Eq, Structural)]
pub enum FloatArith {
    Add,
    Sub,
    Mul,
    Div,
    Rem,
}

/// The instructions that compute with floating-point numbers.
#[derive(Clone, Copy, Debug, PartialEq, Eq, Structural)]
pub enum FloatOp {
    /// A binary operation on two numbers of one kind, `Float` or `Double`.
    Binary(FloatArith, NumberKind),
    /// The negation of a `Float` or a `Double`.
    Neg(NumberKind),
    /// The order of two numbers of one kind as an `int`: 1, 0 or -1; where one of them
    /// is no number, 1 if the flag holds and -1 if not.
    Order(NumberKind, bool),
    /// The conversion of a number of the first kind into one of the second.
    Convert(NumberKind, NumberKind),
}

/// The operands of a floating-point instruction, as the bit patterns of their
/// payloads, the one deeper in the stack first; `b` is 0 for an instruction with one
/// operand.
#[derive(Clone, Copy, Debug, PartialEq, Eq, Structural)]
pub struct FloatRequest {
    pub op: FloatOp,
    pub a: u64,
    pub b: u64,
}

/// The primitive kind that stands for a kind of number.
pub open spec fn spec_primitive(kind: NumberKind) -> JvmPrimitiveType {
    match kind {
        NumberKind::Int => JvmPrimitiveType::Int,
        NumberKind::Long => JvmPrimitiveType::Long,
        NumberKind::Float => JvmPrimitiveType::Float,
        NumberKind::Double => JvmPrimitiveType::Double,
    }
}

/// Whether a payload fits the kind: an `Int` and a `Float` have 32 bits.
pub open spec fn spec_fits(kind: NumberKind, bits: u64) -> bool {
    kind == NumberKind::Long || kind == NumberKind::Double || bits <= u32::MAX
}

/// The payload of `v` where `v` is a number of kind `kind` whose payload fits.
pub open spec fn spec_payload(kind: NumberKind, v: JvmValue) -> Option<u64> {
    match v {
        JvmValue::Primitive(p, bits) => if p == spec_primitive(kind) && spec_fits(kind, bits) {
            Some(bits)
        } else {
            None
        },
        JvmValue::Reference(_) => None,
    }
}

/// The kind of the operand deeper in the stack, or of the only operand.
pub open spec fn spec_first_kind(op: FloatOp) -> NumberKind {
    match op {
        FloatOp::Binary(_, k) => k,
        FloatOp::Neg(k) => k,
        FloatOp::Order(k, _) => k,
        FloatOp::Convert(from, _) => from,
    }
}

/// Whether the instruction takes two operands.
pub open spec fn spec_is_binary(op: FloatOp) -> bool {
    op is Binary || op is Order
}

/// The kind of the result.
pub open spec fn spec_result_kind(op: FloatOp) -> NumberKind {
    match op {
        FloatOp::Binary(_, k) => k,
        FloatOp::Neg(k) => k,
        FloatOp::Order(_, _) => NumberKind::Int,
        FloatOp::Convert(_, to) => to,
    }
}

/// The operands of the instruction `op`, taken from the top of the stack of `f`.
/// `StackUnderflow` where the stack is too short, `CategoryMismatch` where an operand
/// is of another kind than the instruction needs.
pub open spec fn spec_float_request(f: FrameView, op: FloatOp) -> Result<FloatRequest, FatalError> {
    if spec_is_binary(op) {
        if f.stack.len() < 2 {
            Err(FatalError::StackUnderflow)
        } else {
            match (
                spec_payload(spec_first_kind(op), peek(f, 1)),
                spec_payload(spec_first_kind(op), peek(f, 0)),
            ) {
                (Some(a), Some(b)) => Ok(FloatRequest { op, a, b }),
                _ => Err(FatalError::CategoryMismatch),
            }
        }
    } else if f.stack.len() < 1 {
        Err(FatalError::StackUnderflow)
    } else {
        match spec_payload(spec_first_kind(op), peek(f, 0)) {
            Some(a) => Ok(FloatRequest { op, a, b: 0 }),
            None => Err(FatalError::CategoryMismatch),
        }
    }
}

/// The frame after the instruction `op` was completed with the result `bits`: the
/// operands are replaced by a number of the result kind with that payload. A payload
/// that does not fit the result kind is `CategoryMismatch`.
pub open spec fn spec_float_complete(f: FrameView, op: FloatOp, bits: u64, next: int) -> (
    FrameView,
    Step,
) {
    match spec_float_request(f, op) {
        Err(e) => (f, Step::Fatal(e)),
        Ok(_) => if !spec_fits(spec_result_kind(op), bits) {
            (f, Step::Fatal(FatalError::CategoryMismatch))
        } else {
            spec_replace(
                f,
                if spec_is_binary(op) {
                    2
                } else {
                    1
                },
                seq![JvmValue::Primitive(spec_primitive(spec_result_kind(op)), bits)],
                next,
            )
        },
    }
}

/// The primitive kind that stands for a kind of number.
pub fn primitive(kind: NumberKind) -> (r: JvmPrimitiveType)
    ensures
        r == spec_primitive(kind),
{
    match kind {
        NumberKind::Int => JvmPrimitiveType::Int,
        NumberKind::Long => JvmPrimitiveType::Long,
        NumberKind::Float => JvmPrimitiveType::Float,
        NumberKind::Double => JvmPrimitiveType::Double,
    }
}

/// Whether a payload fits the kind.
pub fn fits(kind: NumberKind, bits: u64) -> (r: bool)
    ensures
        r == spec_fits(kind, bits),
{
    match kind {
        NumberKind::Long => true,
        NumberKind::Double => true,
        _ => bits <= 0xffff_ffff,
    }
}

/// The payload of `v` where `v` is a number of kind `kind`.
pub fn payload(kind: NumberKind, v: &JvmValue) -> (r: Option<u64>)
    ensures
        r == spec_payload(kind, *v),
{
    match v {
        JvmValue::Primitive(p, bits) => if *p == primitive(kind) && fits(kind, *bits) {
            Some(*bits)
        } else {
            None
        },
        JvmValue::Reference(_) => None,
    }
}

/// The kind of the operand deeper in the stack, or of the only operand.
pub fn first_kind(op: FloatOp) -> (r: NumberKind)
    ensures
        r == spec_first_kind(op),
{
    match op {
        FloatOp::Binary(_, k) => k,
        FloatOp::Neg(k) => k,
        FloatOp::Order(k, _) => k,
        FloatOp::Convert(from, _) => from,
    }
}

/// Whether the instruction takes two operands.
pub fn is_binary(op: FloatOp) -> (r: bool)
    ensures
        r == spec_is_binary(op),
{
    match op {
        FloatOp::Binary(_, _) => true,
        FloatOp::Order(_, _) => true,
        _ => false,
    }
}

/// The kind of the result.
pub fn result_kind(op: FloatOp) -> (r: NumberKind)
    ensures
        r == spec_result_kind(op),
{
    match op {
        FloatOp::Binary(_, k) => k,
        FloatOp::Neg(k) => k,
        FloatOp::Order(_, _) => NumberKind::Int,
        FloatOp::Convert(_, to) => to,
    }
}

impl Frame {
    /// The operands of the floating-point instruction `op`.
    pub fn float_request(&self, op: FloatOp) -> (r: Result<FloatRequest, FatalError>)
        ensures
            r == spec_float_request(self@, op),
    {
        let kind: NumberKind = first_kind(op);
        if is_binary(op) {
            if self.stack.len() < 2 {
                return Err(FatalError::StackUnderflow);
            }
            match (payload(kind, &self.peek(1)), payload(kind, &self.peek(0))) {
                (Some(a), Some(b)) => Ok(FloatRequest { op, a, b }),
                _ => Err(FatalError::CategoryMismatch),
            }
        } else {
            if self.stack.len() < 1 {
                return Err(FatalError::StackUnderflow);
            }
            match payload(kind, &self.peek(0)) {
                Some(a) => Ok(FloatRequest { op, a, b: 0 }),
                None => Err(FatalError::CategoryMismatch),
            }
        }
    }

    /// Completes the floating-point instruction `op` with the result `bits`.
    pub fn float_complete(&mut self, op: FloatOp, bits: u64, next: usize) -> (r: Step)
        ensures
            (final(self)@, r) == spec_float_complete(old(self)@, op, bits, next as int),
    {
        match self.float_request(op) {
            Err(e) => {
                return Step::Fatal(e);
            },
            Ok(_) => {},
        }
        let kind: NumberKind = result_kind(op);
        if !fits(kind, bits) {
            return Step::Fatal(FatalError::CategoryMismatch);
        }
        let pops: usize = if is_binary(op) {
            2
        } else {
            1
        };
        self.replace_one(pops, JvmValue::Primitive(primitive(kind), bits), next)
    }
}

} // verus!
