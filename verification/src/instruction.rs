//! The instructions of the machine and their decoding from bytecode.
use crate::arith::{Condition, IntOp, Narrowing};
use crate::bytes::{be16, be32, read_u16, read_u32, signed32, to_i32};
use crate::floats::{FloatArith, FloatOp, NumberKind};
use crate::frame::FatalError;
use crate::typevalues::{
    spec_int_value, spec_long_value, JvmPrimitiveType, JvmReferenceTargetType, JvmValue,
};
use vstd::prelude::*;

verus! {

/// The kinds of value that an instruction on local variables or a return moves.
#[derive(Clone, Copy, Debug, PartialEq, Eq, Structural)]
pub enum LocalKind {
    Int,
    Long,
    Float,
    Double,
    Reference,
}

/// The kinds of array component that an array instruction reads or writes. `Byte`
/// serves arrays of `byte` and of `boolean`.
#[derive(Clone, Copy, Debug, PartialEq, Eq, Structural)]
pub enum ArrayKind {
    Int,
    Long,
    Float,
    Double,
    Reference,
    Byte,
    Char,
    Short,
}

/// The four ways to invoke a method.
#[derive(Clone, Copy, Debug, PartialEq, Eq, Structural)]
pub enum InvokeKind {
    Virtual,
    Special,
    Static,
    Interface,
}

/// The instructions that only rearrange the operand stack.
#[derive(Clone, Copy, Debug, PartialEq, Eq, Structural)]
pub enum StackOp {
    Pop,
    Pop2,
    Dup,
    DupX1,
    DupX2,
    Dup2,
    Dup2X1,
    Dup2X2,
    Swap,
}

/// One instruction with its operands. Branch offsets count from the address of the
/// instruction.
#[derive(Clone, Copy, Debug, PartialEq, Eq, Structural)]
pub enum Instruction {
    Nop,
    /// Push a constant that the instruction itself holds.
    Const(JvmValue),
    /// Push the local variable at an index.
    Load(LocalKind, u16),
    /// Pop into the local variable at an index.
    Store(LocalKind, u16),
    Stack(StackOp),
    IntBinary(IntOp),
    /// A binary operation on `long`; for a shift the count on top is an `int`.
    LongBinary(IntOp),
    IntNeg,
    LongNeg,
    /// Add a constant to the `int` local variable at an index.
    Increment(u16, i32),
    IntToLong,
    LongToInt,
    Narrow(Narrowing),
    /// Replace two `long` values by 1, 0 or -1 as the first is greater, equal or less.
    LongOrder,
    /// Branch where the condition holds of the `int` on top and zero.
    IfZero(Condition, i32),
    /// Branch where the condition holds of the two `int` values on top.
    IfInts(Condition, i32),
    /// Branch where the two references on top are the same (`true`) or not (`false`).
    IfSame(bool, i32),
    /// Branch where the reference on top is null (`true`) or is not (`false`).
    IfNull(bool, i32),
    Goto(i32),
    /// Push the constant at a pool index; `true` for the form that loads `long` and
    /// `double`.
    LoadConstant(u16, bool),
    ArrayLoad(ArrayKind),
    ArrayStore(ArrayKind),
    ArrayLength,
    /// Make an array of a primitive type, given by the letter of its descriptor.
    NewArray(u8),
    /// Make an array of references to the class at a pool index.
    NewReferenceArray(u16),
    GetStatic(u16),
    PutStatic(u16),
    GetField(u16),
    PutField(u16),
    New(u16),
    CheckCast(u16),
    InstanceOf(u16),
    Invoke(InvokeKind, u16),
    /// Return a value of a kind, or nothing.
    Return(Option<LocalKind>),
    Throw,
    /// Enter or leave the monitor of the object on top.
    Monitor,
    /// Compute with floating-point numbers.
    Float(FloatOp),
    /// Branch by the `int` on top through a table of offsets for a range of values; the
    /// table stands in the code behind the instruction.
    TableSwitch,
    /// Branch by the `int` on top through a list of pairs of a value and an offset.
    LookupSwitch,
}

/// The signed reading of a byte.
pub open spec fn signed8(b: u8) -> i32 {
    if b < 128 {
        b as i32
    } else {
        (b - 256) as i32
    }
}

/// The signed reading of a 16-bit pattern.
pub open spec fn signed16(v: int) -> i32 {
    if v < 32768 {
        v as i32
    } else {
        (v - 65536) as i32
    }
}

/// The kind that stands at position `k` in the order int, long, float, double,
/// reference.
pub open spec fn spec_local_kind(k: int) -> LocalKind {
    if k == 0 {
        LocalKind::Int
    } else if k == 1 {
        LocalKind::Long
    } else if k == 2 {
        LocalKind::Float
    } else if k == 3 {
        LocalKind::Double
    } else {
        LocalKind::Reference
    }
}

/// The array kind that stands at position `k` in the order int, long, float, double,
/// reference, byte, char, short.
pub open spec fn spec_array_kind(k: int) -> ArrayKind {
    if k == 0 {
        ArrayKind::Int
    } else if k == 1 {
        ArrayKind::Long
    } else if k == 2 {
        ArrayKind::Float
    } else if k == 3 {
        ArrayKind::Double
    } else if k == 4 {
        ArrayKind::Reference
    } else if k == 5 {
        ArrayKind::Byte
    } else if k == 6 {
        ArrayKind::Char
    } else {
        ArrayKind::Short
    }
}

/// The condition that stands at position `k` in the order eq, ne, lt, ge, gt, le.
pub open spec fn spec_condition(k: int) -> Condition {
    if k == 0 {
        Condition::Eq
    } else if k == 1 {
        Condition::Ne
    } else if k == 2 {
        Condition::Lt
    } else if k == 3 {
        Condition::Ge
    } else if k == 4 {
        Condition::Gt
    } else {
        Condition::Le
    }
}

/// The arithmetic operation that stands at position `k` in the order add, sub, mul,
/// div, rem.
pub open spec fn spec_arithmetic(k: int) -> IntOp {
    if k == 0 {
        IntOp::Add
    } else if k == 1 {
        IntOp::Sub
    } else if k == 2 {
        IntOp::Mul
    } else if k == 3 {
        IntOp::Div
    } else {
        IntOp::Rem
    }
}

/// The bitwise operation that stands at position `k` in the order shl, shr, ushr, and,
/// or, xor.
pub open spec fn spec_bitwise(k: int) -> IntOp {
    if k == 0 {
        IntOp::Shl
    } else if k == 1 {
        IntOp::Shr
    } else if k == 2 {
        IntOp::Ushr
    } else if k == 3 {
        IntOp::And
    } else if k == 4 {
        IntOp::Or
    } else {
        IntOp::Xor
    }
}

/// The descriptor letter of the primitive type that the type code `t` of an array
/// creation names; `None` for a code that names none.
pub open spec fn spec_array_letter(t: u8) -> Option<u8> {
    if t == 4 {
        Some(90u8)
    } else if t == 5 {
        Some(67u8)
    } else if t == 6 {
        Some(70u8)
    } else if t == 7 {
        Some(68u8)
    } else if t == 8 {
        Some(66u8)
    } else if t == 9 {
        Some(83u8)
    } else if t == 10 {
        Some(73u8)
    } else if t == 11 {
        Some(74u8)
    } else {
        None
    }
}

/// The floating-point arithmetic that stands at position `k` in the order add, sub,
/// mul, div, rem.
pub open spec fn spec_float_arith(k: int) -> FloatArith {
    if k == 0 {
        FloatArith::Add
    } else if k == 1 {
        FloatArith::Sub
    } else if k == 2 {
        FloatArith::Mul
    } else if k == 3 {
        FloatArith::Div
    } else {
        FloatArith::Rem
    }
}

/// The kind of number that stands at position `k` in the order int, long, float,
/// double.
pub open spec fn spec_number_kind(k: int) -> NumberKind {
    if k == 0 {
        NumberKind::Int
    } else if k == 1 {
        NumberKind::Long
    } else if k == 2 {
        NumberKind::Float
    } else {
        NumberKind::Double
    }
}

/// The conversion with the opcode `op`, from `0x85` to `0x90`: three for each kind of
/// number, to the three other kinds in the order int, long, float, double.
pub open spec fn spec_conversion(op: u8) -> (NumberKind, NumberKind) {
    (
        spec_number_kind((op - 0x85) / 3),
        spec_number_kind(
            if (op - 0x85) % 3 < (op - 0x85) / 3 {
                (op - 0x85) % 3
            } else {
                (op - 0x85) % 3 + 1
            },
        ),
    )
}

/// The number of operand bytes behind the opcode `op`; `None` for a byte that is no
/// instruction of this machine. The operands of a switch are not counted: they are
/// read when the switch is carried out. The prefix `wide` is decoded apart.
/// Subroutines, `multianewarray` and `invokedynamic` are not among the instructions.
pub open spec fn spec_operand_bytes(op: u8) -> Option<int> {
    if op == 0x10 || op == 0x12 || (0x15 <= op <= 0x19) || (0x36 <= op <= 0x3a) || op == 0xbc {
        Some(1)
    } else if op == 0x11 || op == 0x13 || op == 0x14 || op == 0x84 || (0x99 <= op <= 0xa7) || (0xb2
        <= op <= 0xb8) || op == 0xbb || op == 0xbd || op == 0xc0 || op == 0xc1 || op == 0xc6
        || op == 0xc7 {
        Some(2)
    } else if op == 0xb9 || op == 0xc8 {
        Some(4)
    } else if op <= 0x0f || (0x1a <= op <= 0x35) || (0x3b <= op <= 0x5f) {
        Some(0)
    } else if (0x60 <= op <= 0x83) || (0x85 <= op <= 0x98) || (0xaa <= op <= 0xb1) || op == 0xbe
        || op == 0xbf || op == 0xc2 || op == 0xc3 {
        Some(0)
    } else {
        None
    }
}

/// The instruction with the opcode `op` whose operand bytes stand in `code` from `at`
/// on; all of them are there. `BadCode` for an operand that the instruction does not
/// admit.
pub open spec fn spec_instruction(code: Seq<u8>, op: u8, at: int) -> Result<Instruction, FatalError> {
    if op == 0x00 {
        Ok(Instruction::Nop)
    } else if op == 0x01 {
        Ok(Instruction::Const(JvmValue::Reference(JvmReferenceTargetType::Null)))
    } else if op <= 0x08 {
        Ok(Instruction::Const(spec_int_value((op - 3) as i32)))
    } else if op <= 0x0a {
        Ok(Instruction::Const(spec_long_value((op - 9) as i64)))
    } else if op == 0x0b {
        Ok(Instruction::Const(JvmValue::Primitive(JvmPrimitiveType::Float, 0)))
    } else if op == 0x0c {
        Ok(Instruction::Const(JvmValue::Primitive(JvmPrimitiveType::Float, 0x3f80_0000)))
    } else if op == 0x0d {
        Ok(Instruction::Const(JvmValue::Primitive(JvmPrimitiveType::Float, 0x4000_0000)))
    } else if op == 0x0e {
        Ok(Instruction::Const(JvmValue::Primitive(JvmPrimitiveType::Double, 0)))
    } else if op == 0x0f {
        Ok(
            Instruction::Const(
                JvmValue::Primitive(JvmPrimitiveType::Double, 0x3ff0_0000_0000_0000),
            ),
        )
    } else if op == 0x10 {
        Ok(Instruction::Const(spec_int_value(signed8(code[at]))))
    } else if op == 0x11 {
        Ok(Instruction::Const(spec_int_value(signed16(be16(code, at)))))
    } else if op == 0x12 {
        Ok(Instruction::LoadConstant(code[at] as u16, false))
    } else if op == 0x13 {
        Ok(Instruction::LoadConstant(be16(code, at) as u16, false))
    } else if op == 0x14 {
        Ok(Instruction::LoadConstant(be16(code, at) as u16, true))
    } else if op <= 0x19 {
        Ok(Instruction::Load(spec_local_kind(op - 0x15), code[at] as u16))
    } else if op <= 0x2d {
        Ok(Instruction::Load(spec_local_kind((op - 0x1a) / 4), ((op - 0x1a) % 4) as u16))
    } else if op <= 0x35 {
        Ok(Instruction::ArrayLoad(spec_array_kind(op - 0x2e)))
    } else if op <= 0x3a {
        Ok(Instruction::Store(spec_local_kind(op - 0x36), code[at] as u16))
    } else if op <= 0x4e {
        Ok(Instruction::Store(spec_local_kind((op - 0x3b) / 4), ((op - 0x3b) % 4) as u16))
    } else if op <= 0x56 {
        Ok(Instruction::ArrayStore(spec_array_kind(op - 0x4f)))
    } else if op == 0x57 {
        Ok(Instruction::Stack(StackOp::Pop))
    } else if op == 0x58 {
        Ok(Instruction::Stack(StackOp::Pop2))
    } else if op == 0x59 {
        Ok(Instruction::Stack(StackOp::Dup))
    } else if op == 0x5a {
        Ok(Instruction::Stack(StackOp::DupX1))
    } else if op == 0x5b {
        Ok(Instruction::Stack(StackOp::DupX2))
    } else if op == 0x5c {
        Ok(Instruction::Stack(StackOp::Dup2))
    } else if op == 0x5d {
        Ok(Instruction::Stack(StackOp::Dup2X1))
    } else if op == 0x5e {
        Ok(Instruction::Stack(StackOp::Dup2X2))
    } else if op == 0x5f {
        Ok(Instruction::Stack(StackOp::Swap))
    } else if op <= 0x73 {
        if (op - 0x60) % 4 == 0 {
            Ok(Instruction::IntBinary(spec_arithmetic((op - 0x60) / 4)))
        } else if (op - 0x60) % 4 == 1 {
            Ok(Instruction::LongBinary(spec_arithmetic((op - 0x60) / 4)))
        } else {
            Ok(
                Instruction::Float(
                    FloatOp::Binary(
                        spec_float_arith((op - 0x60) / 4),
                        spec_number_kind((op - 0x60) % 4),
                    ),
                ),
            )
        }
    } else if op == 0x74 {
        Ok(Instruction::IntNeg)
    } else if op == 0x75 {
        Ok(Instruction::LongNeg)
    } else if op <= 0x77 {
        Ok(Instruction::Float(FloatOp::Neg(spec_number_kind(op - 0x74))))
    } else if op <= 0x83 {
        if (op - 0x78) % 2 == 0 {
            Ok(Instruction::IntBinary(spec_bitwise((op - 0x78) / 2)))
        } else {
            Ok(Instruction::LongBinary(spec_bitwise((op - 0x78) / 2)))
        }
    } else if op == 0x84 {
        Ok(Instruction::Increment(code[at] as u16, signed8(code[at + 1])))
    } else if op == 0x85 {
        Ok(Instruction::IntToLong)
    } else if op == 0x88 {
        Ok(Instruction::LongToInt)
    } else if op <= 0x90 {
        Ok(Instruction::Float(FloatOp::Convert(spec_conversion(op).0, spec_conversion(op).1)))
    } else if op == 0x91 {
        Ok(Instruction::Narrow(Narrowing::Byte))
    } else if op == 0x92 {
        Ok(Instruction::Narrow(Narrowing::Char))
    } else if op == 0x93 {
        Ok(Instruction::Narrow(Narrowing::Short))
    } else if op == 0x94 {
        Ok(Instruction::LongOrder)
    } else if op <= 0x96 {
        Ok(Instruction::Float(FloatOp::Order(NumberKind::Float, op == 0x96)))
    } else if op <= 0x98 {
        Ok(Instruction::Float(FloatOp::Order(NumberKind::Double, op == 0x98)))
    } else if op <= 0x9e {
        Ok(Instruction::IfZero(spec_condition(op - 0x99), signed16(be16(code, at))))
    } else if op <= 0xa4 {
        Ok(Instruction::IfInts(spec_condition(op - 0x9f), signed16(be16(code, at))))
    } else if op <= 0xa6 {
        Ok(Instruction::IfSame(op == 0xa5, signed16(be16(code, at))))
    } else if op == 0xa7 {
        Ok(Instruction::Goto(signed16(be16(code, at))))
    } else if op == 0xaa {
        Ok(Instruction::TableSwitch)
    } else if op == 0xab {
        Ok(Instruction::LookupSwitch)
    } else if op <= 0xb0 {
        Ok(Instruction::Return(Some(spec_local_kind(op - 0xac))))
    } else if op == 0xb1 {
        Ok(Instruction::Return(None))
    } else if op == 0xb2 {
        Ok(Instruction::GetStatic(be16(code, at) as u16))
    } else if op == 0xb3 {
        Ok(Instruction::PutStatic(be16(code, at) as u16))
    } else if op == 0xb4 {
        Ok(Instruction::GetField(be16(code, at) as u16))
    } else if op == 0xb5 {
        Ok(Instruction::PutField(be16(code, at) as u16))
    } else if op == 0xb6 {
        Ok(Instruction::Invoke(InvokeKind::Virtual, be16(code, at) as u16))
    } else if op == 0xb7 {
        Ok(Instruction::Invoke(InvokeKind::Special, be16(code, at) as u16))
    } else if op == 0xb8 {
        Ok(Instruction::Invoke(InvokeKind::Static, be16(code, at) as u16))
    } else if op == 0xb9 {
        if code[at + 2] == 0 || code[at + 3] != 0 {
            Err(FatalError::BadCode)
        } else {
            Ok(Instruction::Invoke(InvokeKind::Interface, be16(code, at) as u16))
        }
    } else if op == 0xbb {
        Ok(Instruction::New(be16(code, at) as u16))
    } else if op == 0xbc {
        match spec_array_letter(code[at]) {
            Some(letter) => Ok(Instruction::NewArray(letter)),
            None => Err(FatalError::BadCode),
        }
    } else if op == 0xbd {
        Ok(Instruction::NewReferenceArray(be16(code, at) as u16))
    } else if op == 0xbe {
        Ok(Instruction::ArrayLength)
    } else if op == 0xbf {
        Ok(Instruction::Throw)
    } else if op == 0xc0 {
        Ok(Instruction::CheckCast(be16(code, at) as u16))
    } else if op == 0xc1 {
        Ok(Instruction::InstanceOf(be16(code, at) as u16))
    } else if op <= 0xc3 {
        Ok(Instruction::Monitor)
    } else if op <= 0xc7 {
        Ok(Instruction::IfNull(op == 0xc6, signed16(be16(code, at))))
    } else {
        Ok(Instruction::Goto(signed32(be32(code, at) as u32)))
    }
}

/// The instruction behind the prefix `wide` at `pc`: a load or a store with a 16-bit
/// index, of four bytes, or an increment with a 16-bit index and a 16-bit constant, of
/// six. `BadCode` where the prefix stands before another instruction.
pub open spec fn spec_decode_wide(code: Seq<u8>, pc: int) -> Result<(Instruction, int), FatalError> {
    if pc + 2 > code.len() {
        Err(FatalError::BadPc)
    } else if 0x15 <= code[pc + 1] <= 0x19 {
        if pc + 4 > code.len() {
            Err(FatalError::BadPc)
        } else {
            Ok(
                (
                    Instruction::Load(
                        spec_local_kind(code[pc + 1] - 0x15),
                        be16(code, pc + 2) as u16,
                    ),
                    4,
                ),
            )
        }
    } else if 0x36 <= code[pc + 1] <= 0x3a {
        if pc + 4 > code.len() {
            Err(FatalError::BadPc)
        } else {
            Ok(
                (
                    Instruction::Store(
                        spec_local_kind(code[pc + 1] - 0x36),
                        be16(code, pc + 2) as u16,
                    ),
                    4,
                ),
            )
        }
    } else if code[pc + 1] == 0x84 {
        if pc + 6 > code.len() {
            Err(FatalError::BadPc)
        } else {
            Ok(
                (
                    Instruction::Increment(
                        be16(code, pc + 2) as u16,
                        signed16(be16(code, pc + 4)),
                    ),
                    6,
                ),
            )
        }
    } else {
        Err(FatalError::BadCode)
    }
}

/// The instruction at `pc` and its length in bytes. `BadPc` where `pc` or an operand
/// lies outside the code, `UnknownOpcode` for a byte that is no instruction.
pub open spec fn spec_decode(code: Seq<u8>, pc: int) -> Result<(Instruction, int), FatalError> {
    if pc < 0 || pc >= code.len() {
        Err(FatalError::BadPc)
    } else if code[pc] == 0xc4 {
        spec_decode_wide(code, pc)
    } else {
        match spec_operand_bytes(code[pc]) {
            None => Err(FatalError::UnknownOpcode(code[pc])),
            Some(n) => if pc + 1 + n > code.len() {
                Err(FatalError::BadPc)
            } else {
                match spec_instruction(code, code[pc], pc + 1) {
                    Err(e) => Err(e),
                    Ok(i) => Ok((i, 1 + n)),
                }
            },
        }
    }
}

/// The signed reading of a byte.
pub fn to_signed8(b: u8) -> (r: i32)
    ensures
        r == signed8(b),
{
    if b < 128 {
        b as i32
    } else {
        (b as i32) - 256
    }
}

/// The signed reading of a 16-bit pattern.
pub fn to_signed16(v: u16) -> (r: i32)
    ensures
        r == signed16(v as int),
{
    if v < 32768 {
        v as i32
    } else {
        (v as i32) - 65536
    }
}

/// The kind at position `k`.
pub fn local_kind(k: u8) -> (r: LocalKind)
    ensures
        r == spec_local_kind(k as int),
{
    if k == 0 {
        LocalKind::Int
    } else if k == 1 {
        LocalKind::Long
    } else if k == 2 {
        LocalKind::Float
    } else if k == 3 {
        LocalKind::Double
    } else {
        LocalKind::Reference
    }
}

/// The array kind at position `k`.
pub fn array_kind(k: u8) -> (r: ArrayKind)
    ensures
        r == spec_array_kind(k as int),
{
    if k == 0 {
        ArrayKind::Int
    } else if k == 1 {
        ArrayKind::Long
    } else if k == 2 {
        ArrayKind::Float
    } else if k == 3 {
        ArrayKind::Double
    } else if k == 4 {
        ArrayKind::Reference
    } else if k == 5 {
        ArrayKind::Byte
    } else if k == 6 {
        ArrayKind::Char
    } else {
        ArrayKind::Short
    }
}

/// The condition at position `k`.
pub fn condition(k: u8) -> (r: Condition)
    ensures
        r == spec_condition(k as int),
{
    if k == 0 {
        Condition::Eq
    } else if k == 1 {
        Condition::Ne
    } else if k == 2 {
        Condition::Lt
    } else if k == 3 {
        Condition::Ge
    } else if k == 4 {
        Condition::Gt
    } else {
        Condition::Le
    }
}

/// The arithmetic operation at position `k`.
pub fn arithmetic(k: u8) -> (r: IntOp)
    ensures
        r == spec_arithmetic(k as int),
{
    if k == 0 {
        IntOp::Add
    } else if k == 1 {
        IntOp::Sub
    } else if k == 2 {
        IntOp::Mul
    } else if k == 3 {
        IntOp::Div
    } else {
        IntOp::Rem
    }
}

/// The bitwise operation at position `k`.
pub fn bitwise(k: u8) -> (r: IntOp)
    ensures
        r == spec_bitwise(k as int),
{
    if k == 0 {
        IntOp::Shl
    } else if k == 1 {
        IntOp::Shr
    } else if k == 2 {
        IntOp::Ushr
    } else if k == 3 {
        IntOp::And
    } else if k == 4 {
        IntOp::Or
    } else {
        IntOp::Xor
    }
}

/// The number of operand bytes behind the opcode `op`.
pub fn operand_bytes(op: u8) -> (r: Option<usize>)
    ensures
        match r {
            Some(n) => spec_operand_bytes(op) == Some(n as int) && n <= 4,
            None => spec_operand_bytes(op) is None,
        },
{
    if op == 0x10 || op == 0x12 || (0x15 <= op && op <= 0x19) || (0x36 <= op && op <= 0x3a) || op
        == 0xbc {
        Some(1)
    } else if op == 0x11 || op == 0x13 || op == 0x14 || op == 0x84 || (0x99 <= op && op <= 0xa7)
        || (0xb2 <= op && op <= 0xb8) || op == 0xbb || op == 0xbd || op == 0xc0 || op == 0xc1
        || op == 0xc6 || op == 0xc7 {
        Some(2)
    } else if op == 0xb9 || op == 0xc8 {
        Some(4)
    } else if op <= 0x0f || (0x1a <= op && op <= 0x35) || (0x3b <= op && op <= 0x5f) {
        Some(0)
    } else if (0x60 <= op && op <= 0x83) || (0x85 <= op && op <= 0x98) || (0xaa <= op && op
        <= 0xb1) || op == 0xbe || op == 0xbf || op == 0xc2 || op == 0xc3 {
        Some(0)
    } else {
        None
    }
}

/// The floating-point arithmetic at position `k`.
pub fn float_arith(k: u8) -> (r: FloatArith)
    ensures
        r == spec_float_arith(k as int),
{
    if k == 0 {
        FloatArith::Add
    } else if k == 1 {
        FloatArith::Sub
    } else if k == 2 {
        FloatArith::Mul
    } else if k == 3 {
        FloatArith::Div
    } else {
        FloatArith::Rem
    }
}

/// The kind of number at position `k`.
pub fn number_kind(k: u8) -> (r: NumberKind)
    ensures
        r == spec_number_kind(k as int),
{
    if k == 0 {
        NumberKind::Int
    } else if k == 1 {
        NumberKind::Long
    } else if k == 2 {
        NumberKind::Float
    } else {
        NumberKind::Double
    }
}

/// The conversion with the opcode `op`.
pub fn conversion(op: u8) -> (r: (NumberKind, NumberKind))
    requires
        0x85 <= op <= 0x90,
    ensures
        r == spec_conversion(op),
{
    let from: u8 = (op - 0x85) / 3;
    let place: u8 = (op - 0x85) % 3;
    let to: u8 = if place < from {
        place
    } else {
        place + 1
    };
    (number_kind(from), number_kind(to))
}

/// The descriptor letter for the type code `t` of an array creation.
pub fn array_letter(t: u8) -> (r: Option<u8>)
    ensures
        r == spec_array_letter(t),
{
    if t == 4 {
        Some(90u8)
    } else if t == 5 {
        Some(67u8)
    } else if t == 6 {
        Some(70u8)
    } else if t == 7 {
        Some(68u8)
    } else if t == 8 {
        Some(66u8)
    } else if t == 9 {
        Some(83u8)
    } else if t == 10 {
        Some(73u8)
    } else if t == 11 {
        Some(74u8)
    } else {
        None
    }
}

/// The 16-bit operand that stands at `at`.
fn operand16(code: &[u8], at: usize) -> (r: u16)
    requires
        at + 2 <= code@.len(),
    ensures
        r == be16(code@, at as int),
{
    match read_u16(code, at) {
        Ok(v) => v,
        Err(_) => 0,
    }
}

/// The instructions from `0x00` to `0x5f`: constants, loads and stores, and the
/// instructions on the stack.
fn decode_low(code: &[u8], op: u8, at: usize) -> (r: Result<Instruction, FatalError>)
    requires
        op <= 0x5f,
        spec_operand_bytes(op) is Some,
        at + spec_operand_bytes(op)->Some_0 <= code@.len(),
    ensures
        r == spec_instruction(code@, op, at as int),
{
    if op == 0x00 {
        Ok(Instruction::Nop)
    } else if op == 0x01 {
        Ok(Instruction::Const(JvmValue::Reference(JvmReferenceTargetType::Null)))
    } else if op <= 0x08 {
        Ok(Instruction::Const(JvmValue::from_int((op as i32) - 3)))
    } else if op <= 0x0a {
        Ok(Instruction::Const(JvmValue::from_long((op as i64) - 9)))
    } else if op == 0x0b {
        Ok(Instruction::Const(JvmValue::Primitive(JvmPrimitiveType::Float, 0)))
    } else if op == 0x0c {
        Ok(Instruction::Const(JvmValue::Primitive(JvmPrimitiveType::Float, 0x3f80_0000)))
    } else if op == 0x0d {
        Ok(Instruction::Const(JvmValue::Primitive(JvmPrimitiveType::Float, 0x4000_0000)))
    } else if op == 0x0e {
        Ok(Instruction::Const(JvmValue::Primitive(JvmPrimitiveType::Double, 0)))
    } else if op == 0x0f {
        Ok(
            Instruction::Const(
                JvmValue::Primitive(JvmPrimitiveType::Double, 0x3ff0_0000_0000_0000),
            ),
        )
    } else if op == 0x10 {
        Ok(Instruction::Const(JvmValue::from_int(to_signed8(code[at]))))
    } else if op == 0x11 {
        Ok(Instruction::Const(JvmValue::from_int(to_signed16(operand16(code, at)))))
    } else if op == 0x12 {
        Ok(Instruction::LoadConstant(code[at] as u16, false))
    } else if op == 0x13 {
        Ok(Instruction::LoadConstant(operand16(code, at), false))
    } else if op == 0x14 {
        Ok(Instruction::LoadConstant(operand16(code, at), true))
    } else if op <= 0x19 {
        Ok(Instruction::Load(local_kind(op - 0x15), code[at] as u16))
    } else if op <= 0x2d {
        Ok(Instruction::Load(local_kind((op - 0x1a) / 4), ((op - 0x1a) % 4) as u16))
    } else if op <= 0x35 {
        Ok(Instruction::ArrayLoad(array_kind(op - 0x2e)))
    } else if op <= 0x3a {
        Ok(Instruction::Store(local_kind(op - 0x36), code[at] as u16))
    } else if op <= 0x4e {
        Ok(Instruction::Store(local_kind((op - 0x3b) / 4), ((op - 0x3b) % 4) as u16))
    } else if op <= 0x56 {
        Ok(Instruction::ArrayStore(array_kind(op - 0x4f)))
    } else if op == 0x57 {
        Ok(Instruction::Stack(StackOp::Pop))
    } else if op == 0x58 {
        Ok(Instruction::Stack(StackOp::Pop2))
    } else if op == 0x59 {
        Ok(Instruction::Stack(StackOp::Dup))
    } else if op == 0x5a {
        Ok(Instruction::Stack(StackOp::DupX1))
    } else if op == 0x5b {
        Ok(Instruction::Stack(StackOp::DupX2))
    } else if op == 0x5c {
        Ok(Instruction::Stack(StackOp::Dup2))
    } else if op == 0x5d {
        Ok(Instruction::Stack(StackOp::Dup2X1))
    } else if op == 0x5e {
        Ok(Instruction::Stack(StackOp::Dup2X2))
    } else {
        Ok(Instruction::Stack(StackOp::Swap))
    }
}

/// The instructions from `0x60` on: arithmetic, conversions, branches, returns, and
/// the instructions on fields, methods, objects and arrays.
fn decode_high(code: &[u8], op: u8, at: usize) -> (r: Result<Instruction, FatalError>)
    requires
        op >= 0x60,
        spec_operand_bytes(op) is Some,
        at + spec_operand_bytes(op)->Some_0 <= code@.len(),
    ensures
        r == spec_instruction(code@, op, at as int),
{
    let size: usize = code.len();
    if op <= 0x73 {
        if (op - 0x60) % 4 == 0 {
            Ok(Instruction::IntBinary(arithmetic((op - 0x60) / 4)))
        } else if (op - 0x60) % 4 == 1 {
            Ok(Instruction::LongBinary(arithmetic((op - 0x60) / 4)))
        } else {
            Ok(
                Instruction::Float(
                    FloatOp::Binary(float_arith((op - 0x60) / 4), number_kind((op - 0x60) % 4)),
                ),
            )
        }
    } else if op == 0x74 {
        Ok(Instruction::IntNeg)
    } else if op == 0x75 {
        Ok(Instruction::LongNeg)
    } else if op <= 0x77 {
        Ok(Instruction::Float(FloatOp::Neg(number_kind(op - 0x74))))
    } else if op <= 0x83 {
        if (op - 0x78) % 2 == 0 {
            Ok(Instruction::IntBinary(bitwise((op - 0x78) / 2)))
        } else {
            Ok(Instruction::LongBinary(bitwise((op - 0x78) / 2)))
        }
    } else if op == 0x84 {
        Ok(Instruction::Increment(code[at] as u16, to_signed8(code[at + 1])))
    } else if op == 0x85 {
        Ok(Instruction::IntToLong)
    } else if op == 0x88 {
        Ok(Instruction::LongToInt)
    } else if op <= 0x90 {
        let (from, to): (NumberKind, NumberKind) = conversion(op);
        Ok(Instruction::Float(FloatOp::Convert(from, to)))
    } else if op == 0x91 {
        Ok(Instruction::Narrow(Narrowing::Byte))
    } else if op == 0x92 {
        Ok(Instruction::Narrow(Narrowing::Char))
    } else if op == 0x93 {
        Ok(Instruction::Narrow(Narrowing::Short))
    } else if op == 0x94 {
        Ok(Instruction::LongOrder)
    } else if op <= 0x96 {
        Ok(Instruction::Float(FloatOp::Order(NumberKind::Float, op == 0x96)))
    } else if op <= 0x98 {
        Ok(Instruction::Float(FloatOp::Order(NumberKind::Double, op == 0x98)))
    } else if op <= 0x9e {
        Ok(Instruction::IfZero(condition(op - 0x99), to_signed16(operand16(code, at))))
    } else if op <= 0xa4 {
        Ok(Instruction::IfInts(condition(op - 0x9f), to_signed16(operand16(code, at))))
    } else if op <= 0xa6 {
        Ok(Instruction::IfSame(op == 0xa5, to_signed16(operand16(code, at))))
    } else if op == 0xa7 {
        Ok(Instruction::Goto(to_signed16(operand16(code, at))))
    } else if op == 0xaa {
        Ok(Instruction::TableSwitch)
    } else if op == 0xab {
        Ok(Instruction::LookupSwitch)
    } else if op <= 0xb0 {
        Ok(Instruction::Return(Some(local_kind(op - 0xac))))
    } else if op == 0xb1 {
        Ok(Instruction::Return(None))
    } else if op == 0xb2 {
        Ok(Instruction::GetStatic(operand16(code, at)))
    } else if op == 0xb3 {
        Ok(Instruction::PutStatic(operand16(code, at)))
    } else if op == 0xb4 {
        Ok(Instruction::GetField(operand16(code, at)))
    } else if op == 0xb5 {
        Ok(Instruction::PutField(operand16(code, at)))
    } else if op == 0xb6 {
        Ok(Instruction::Invoke(InvokeKind::Virtual, operand16(code, at)))
    } else if op == 0xb7 {
        Ok(Instruction::Invoke(InvokeKind::Special, operand16(code, at)))
    } else if op == 0xb8 {
        Ok(Instruction::Invoke(InvokeKind::Static, operand16(code, at)))
    } else if op == 0xb9 {
        if code[at + 2] == 0 || code[at + 3] != 0 {
            Err(FatalError::BadCode)
        } else {
            Ok(Instruction::Invoke(InvokeKind::Interface, operand16(code, at)))
        }
    } else if op == 0xbb {
        Ok(Instruction::New(operand16(code, at)))
    } else if op == 0xbc {
        match array_letter(code[at]) {
            Some(letter) => Ok(Instruction::NewArray(letter)),
            None => Err(FatalError::BadCode),
        }
    } else if op == 0xbd {
        Ok(Instruction::NewReferenceArray(operand16(code, at)))
    } else if op == 0xbe {
        Ok(Instruction::ArrayLength)
    } else if op == 0xbf {
        Ok(Instruction::Throw)
    } else if op == 0xc0 {
        Ok(Instruction::CheckCast(operand16(code, at)))
    } else if op == 0xc1 {
        Ok(Instruction::InstanceOf(operand16(code, at)))
    } else if op <= 0xc3 {
        Ok(Instruction::Monitor)
    } else if op <= 0xc7 {
        Ok(Instruction::IfNull(op == 0xc6, to_signed16(operand16(code, at))))
    } else {
        match read_u32(code, at) {
            Ok(v) => Ok(Instruction::Goto(to_i32(v))),
            Err(_) => Err(FatalError::BadPc),
        }
    }
}

/// Decodes the instruction behind the prefix `wide` at `pc`.
fn decode_wide(code: &[u8], pc: usize) -> (r: Result<(Instruction, usize), FatalError>)
    requires
        pc < code@.len(),
    ensures
        match r {
            Ok((i, n)) => spec_decode_wide(code@, pc as int) == Ok::<(Instruction, int), FatalError>(
                (i, n as int),
            ) && pc + n <= code@.len() && 1 <= n <= 6,
            Err(e) => spec_decode_wide(code@, pc as int) == Err::<(Instruction, int), FatalError>(
                e,
            ),
        },
{
    let left: usize = code.len() - pc;
    if left < 2 {
        return Err(FatalError::BadPc);
    }
    let op: u8 = code[pc + 1];
    if 0x15 <= op && op <= 0x19 {
        if left < 4 {
            return Err(FatalError::BadPc);
        }
        Ok((Instruction::Load(local_kind(op - 0x15), operand16(code, pc + 2)), 4))
    } else if 0x36 <= op && op <= 0x3a {
        if left < 4 {
            return Err(FatalError::BadPc);
        }
        Ok((Instruction::Store(local_kind(op - 0x36), operand16(code, pc + 2)), 4))
    } else if op == 0x84 {
        if left < 6 {
            return Err(FatalError::BadPc);
        }
        Ok(
            (
                Instruction::Increment(
                    operand16(code, pc + 2),
                    to_signed16(operand16(code, pc + 4)),
                ),
                6,
            ),
        )
    } else {
        Err(FatalError::BadCode)
    }
}

/// Decodes the instruction at `pc`; returns it with its length in bytes.
pub fn decode(code: &[u8], pc: usize) -> (r: Result<(Instruction, usize), FatalError>)
    ensures
        match r {
            Ok((i, n)) => spec_decode(code@, pc as int) == Ok::<(Instruction, int), FatalError>(
                (i, n as int),
            ) && pc + n <= code@.len() && 1 <= n <= 6,
            Err(e) => spec_decode(code@, pc as int) == Err::<(Instruction, int), FatalError>(e),
        },
{
    if pc >= code.len() {
        return Err(FatalError::BadPc);
    }
    let op: u8 = code[pc];
    if op == 0xc4 {
        return decode_wide(code, pc);
    }
    let n: usize = match operand_bytes(op) {
        Some(n) => n,
        None => {
            return Err(FatalError::UnknownOpcode(op));
        },
    };
    if n > code.len() - pc - 1 {
        return Err(FatalError::BadPc);
    }
    let found: Result<Instruction, FatalError> = if op <= 0x5f {
        decode_low(code, op, pc + 1)
    } else {
        decode_high(code, op, pc + 1)
    };
    match found {
        Ok(i) => Ok((i, 1 + n)),
        Err(e) => Err(e),
    }
}

} // verus!
