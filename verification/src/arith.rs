//! Integer arithmetic of the machine: 32-bit and 64-bit two's complement.
use crate::bytes::{from_i32, from_i64, signed32, signed64, to_i32, to_i64, unsigned32, unsigned64};
use crate::exceptions::JavaExceptionKind;
use vstd::prelude::*;
use vstd::wrapping::{i32_specs, i64_specs};

verus! {

/// The binary operations on integers.
#[derive(Clone, Copy, Debug, PartialEq, Eq, Structural)]
pub enum IntOp {
    Add,
    Sub,
    Mul,
    Div,
    Rem,
    And,
    Or,
    Xor,
    Shl,
    Shr,
    Ushr,
}

/// The quotient of `a` by `b`, rounded towards zero; `b` is not zero.
pub open spec fn trunc_div(a: int, b: int) -> int {
    if a >= 0 {
        if b > 0 {
            a / b
        } else {
            -(a / (-b))
        }
    } else {
        if b > 0 {
            -((-a) / b)
        } else {
            (-a) / (-b)
        }
    }
}

/// The remainder that goes with `trunc_div`: it has the sign of `a`.
pub open spec fn trunc_rem(a: int, b: int) -> int {
    a - trunc_div(a, b) * b
}

/// The result of a binary operation on two `int` values.
///
/// Sums, differences and products wrap round. Division rounds towards zero, and the one
/// quotient that does not fit, that of the least value by -1, is the least value; a
/// zero divisor is answered with `Arithmetic`. A shift uses the low five bits of `b`;
/// `Shr` keeps the sign, `Ushr` fills with zeros.
pub open spec fn spec_int_op(op: IntOp, a: i32, b: i32) -> Result<i32, JavaExceptionKind> {
    match op {
        IntOp::Add => Ok(i32_specs::wrapping_add(a, b)),
        IntOp::Sub => Ok(i32_specs::wrapping_sub(a, b)),
        IntOp::Mul => Ok(i32_specs::wrapping_mul(a, b)),
        IntOp::Div => if b == 0 {
            Err(JavaExceptionKind::Arithmetic)
        } else if a == i32::MIN && b == -1 {
            Ok(i32::MIN)
        } else {
            Ok(trunc_div(a as int, b as int) as i32)
        },
        IntOp::Rem => if b == 0 {
            Err(JavaExceptionKind::Arithmetic)
        } else {
            Ok(trunc_rem(a as int, b as int) as i32)
        },
        IntOp::And => Ok(a & b),
        IntOp::Or => Ok(a | b),
        IntOp::Xor => Ok(a ^ b),
        IntOp::Shl => Ok(signed32(unsigned32(a) << ((unsigned32(b) % 32) as u32))),
        IntOp::Shr => Ok(a >> ((unsigned32(b) % 32) as u32)),
        IntOp::Ushr => Ok(signed32(unsigned32(a) >> ((unsigned32(b) % 32) as u32))),
    }
}

/// The absolute value of `a`.
pub fn magnitude32(a: i32) -> (r: u32)
    ensures
        r == (if a >= 0 {
            a as int
        } else {
            -(a as int)
        }),
{
    if a >= 0 {
        a as u32
    } else {
        let up: u32 = (a + 0x7fff_ffff + 1) as u32;
        0x8000_0000 - up
    }
}

/// The quotient of `a` by `b`, rounded towards zero, for a `b` that is not zero and
/// operands that are not the least value and -1.
pub fn int_div(a: i32, b: i32) -> (r: i32)
    requires
        b != 0,
        !(a == i32::MIN && b == -1),
    ensures
        r == trunc_div(a as int, b as int),
{
    let ma: u32 = magnitude32(a);
    let mb: u32 = magnitude32(b);
    let q: u32 = ma / mb;
    assert(q * mb <= ma && q <= ma) by (nonlinear_arith)
        requires
            q == ma / mb,
            mb >= 1,
    ;
    assert(mb >= 2 ==> 2 * q <= q * mb) by (nonlinear_arith);
    let wide: i64 = q as i64;
    if (a >= 0) == (b > 0) {
        wide as i32
    } else {
        (0 - wide) as i32
    }
}

/// The remainder of `a` by `b` with the sign of `a`, for a `b` that is not zero.
pub fn int_rem(a: i32, b: i32) -> (r: i32)
    requires
        b != 0,
    ensures
        r == trunc_rem(a as int, b as int),
{
    let ma: u32 = magnitude32(a);
    let mb: u32 = magnitude32(b);
    let m: u32 = ma % mb;
    assert(ma == (ma / mb) * mb + m && m < mb) by (nonlinear_arith)
        requires
            m == ma % mb,
            mb >= 1,
    ;
    let ghost q: int = (ma / mb) as int;
    let ghost d: int = mb as int;
    assert((-q) * d == -(q * d) && q * (-d) == -(q * d) && (-q) * (-d) == q * d)
        by (nonlinear_arith);
    let wide: i64 = m as i64;
    if a >= 0 {
        wide as i32
    } else {
        (0 - wide) as i32
    }
}

/// Computes a binary operation on two `int` values.
pub fn int_op(op: IntOp, a: i32, b: i32) -> (r: Result<i32, JavaExceptionKind>)
    ensures
        r == spec_int_op(op, a, b),
{
    match op {
        IntOp::Add => Ok(a.wrapping_add(b)),
        IntOp::Sub => Ok(a.wrapping_sub(b)),
        IntOp::Mul => Ok(a.wrapping_mul(b)),
        IntOp::Div => {
            if b == 0 {
                Err(JavaExceptionKind::Arithmetic)
            } else if a == i32::MIN && b == -1 {
                Ok(i32::MIN)
            } else {
                Ok(int_div(a, b))
            }
        },
        IntOp::Rem => {
            if b == 0 {
                Err(JavaExceptionKind::Arithmetic)
            } else {
                Ok(int_rem(a, b))
            }
        },
        IntOp::And => Ok(a & b),
        IntOp::Or => Ok(a | b),
        IntOp::Xor => Ok(a ^ b),
        IntOp::Shl => Ok(to_i32(from_i32(a) << (from_i32(b) % 32))),
        IntOp::Shr => Ok(a >> (from_i32(b) % 32)),
        IntOp::Ushr => Ok(to_i32(from_i32(a) >> (from_i32(b) % 32))),
    }
}

/// The result of a binary operation on two `long` values; for a shift, `b` is the
/// shift count, of which the low six bits are used.
pub open spec fn spec_long_op(op: IntOp, a: i64, b: i64) -> Result<i64, JavaExceptionKind> {
    match op {
        IntOp::Add => Ok(i64_specs::wrapping_add(a, b)),
        IntOp::Sub => Ok(i64_specs::wrapping_sub(a, b)),
        IntOp::Mul => Ok(i64_specs::wrapping_mul(a, b)),
        IntOp::Div => if b == 0 {
            Err(JavaExceptionKind::Arithmetic)
        } else if a == i64::MIN && b == -1 {
            Ok(i64::MIN)
        } else {
            Ok(trunc_div(a as int, b as int) as i64)
        },
        IntOp::Rem => if b == 0 {
            Err(JavaExceptionKind::Arithmetic)
        } else {
            Ok(trunc_rem(a as int, b as int) as i64)
        },
        IntOp::And => Ok(a & b),
        IntOp::Or => Ok(a | b),
        IntOp::Xor => Ok(a ^ b),
        IntOp::Shl => Ok(signed64(unsigned64(a) << ((unsigned64(b) % 64) as u64))),
        IntOp::Shr => Ok(a >> ((unsigned64(b) % 64) as u64)),
        IntOp::Ushr => Ok(signed64(unsigned64(a) >> ((unsigned64(b) % 64) as u64))),
    }
}

/// The absolute value of `a`.
pub fn magnitude64(a: i64) -> (r: u64)
    ensures
        r == (if a >= 0 {
            a as int
        } else {
            -(a as int)
        }),
{
    if a >= 0 {
        a as u64
    } else {
        let up: u64 = (a + 0x7fff_ffff_ffff_ffff + 1) as u64;
        0x8000_0000_0000_0000 - up
    }
}

/// The quotient of `a` by `b`, rounded towards zero, for a `b` that is not zero and
/// operands that are not the least value and -1.
pub fn long_div(a: i64, b: i64) -> (r: i64)
    requires
        b != 0,
        !(a == i64::MIN && b == -1),
    ensures
        r == trunc_div(a as int, b as int),
{
    let ma: u64 = magnitude64(a);
    let mb: u64 = magnitude64(b);
    let q: u64 = ma / mb;
    assert(q * mb <= ma && q <= ma) by (nonlinear_arith)
        requires
            q == ma / mb,
            mb >= 1,
    ;
    assert(mb >= 2 ==> 2 * q <= q * mb) by (nonlinear_arith);
    let wide: i128 = q as i128;
    if (a >= 0) == (b > 0) {
        wide as i64
    } else {
        (0 - wide) as i64
    }
}

/// The remainder of `a` by `b` with the sign of `a`, for a `b` that is not zero.
pub fn long_rem(a: i64, b: i64) -> (r: i64)
    requires
        b != 0,
    ensures
        r == trunc_rem(a as int, b as int),
{
    let ma: u64 = magnitude64(a);
    let mb: u64 = magnitude64(b);
    let m: u64 = ma % mb;
    assert(ma == (ma / mb) * mb + m && m < mb) by (nonlinear_arith)
        requires
            m == ma % mb,
            mb >= 1,
    ;
    let ghost q: int = (ma / mb) as int;
    let ghost d: int = mb as int;
    assert((-q) * d == -(q * d) && q * (-d) == -(q * d) && (-q) * (-d) == q * d)
        by (nonlinear_arith);
    let wide: i128 = m as i128;
    if a >= 0 {
        wide as i64
    } else {
        (0 - wide) as i64
    }
}

/// Computes a binary operation on two `long` values.
pub fn long_op(op: IntOp, a: i64, b: i64) -> (r: Result<i64, JavaExceptionKind>)
    ensures
        r == spec_long_op(op, a, b),
{
    match op {
        IntOp::Add => Ok(a.wrapping_add(b)),
        IntOp::Sub => Ok(a.wrapping_sub(b)),
        IntOp::Mul => Ok(a.wrapping_mul(b)),
        IntOp::Div => {
            if b == 0 {
                Err(JavaExceptionKind::Arithmetic)
            } else if a == i64::MIN && b == -1 {
                Ok(i64::MIN)
            } else {
                Ok(long_div(a, b))
            }
        },
        IntOp::Rem => {
            if b == 0 {
                Err(JavaExceptionKind::Arithmetic)
            } else {
                Ok(long_rem(a, b))
            }
        },
        IntOp::And => Ok(a & b),
        IntOp::Or => Ok(a | b),
        IntOp::Xor => Ok(a ^ b),
        IntOp::Shl => Ok(to_i64(from_i64(a) << (from_i64(b) % 64))),
        IntOp::Shr => Ok(a >> (from_i64(b) % 64)),
        IntOp::Ushr => Ok(to_i64(from_i64(a) >> (from_i64(b) % 64))),
    }
}

/// The conversions between integer kinds.
#[derive(Clone, Copy, Debug, PartialEq, Eq, Structural)]
pub enum Narrowing {
    /// `int` to `byte`: the low eight bits, read as a signed number.
    Byte,
    /// `int` to `char`: the low sixteen bits, read as an unsigned number.
    Char,
    /// `int` to `short`: the low sixteen bits, read as a signed number.
    Short,
}

/// The value of the low `2^k = modulus` part of the pattern of `a`, read as a signed
/// number where `signed` holds.
pub open spec fn low_bits(a: i32, modulus: int, signed: bool) -> i32 {
    if signed && unsigned32(a) % (modulus as u32) >= modulus / 2 {
        (unsigned32(a) % (modulus as u32) - modulus) as i32
    } else {
        (unsigned32(a) % (modulus as u32)) as i32
    }
}

/// The result of narrowing the `int` value `a`.
pub open spec fn spec_narrow(to: Narrowing, a: i32) -> i32 {
    match to {
        Narrowing::Byte => low_bits(a, 256, true),
        Narrowing::Char => low_bits(a, 65536, false),
        Narrowing::Short => low_bits(a, 65536, true),
    }
}

/// Narrows the `int` value `a`.
pub fn narrow(to: Narrowing, a: i32) -> (r: i32)
    ensures
        r == spec_narrow(to, a),
{
    let u: u32 = from_i32(a);
    match to {
        Narrowing::Byte => {
            let low: u32 = u % 256;
            if low >= 128 {
                (low as i32) - 256
            } else {
                low as i32
            }
        },
        Narrowing::Char => (u % 65536) as i32,
        Narrowing::Short => {
            let low: u32 = u % 65536;
            if low >= 32768 {
                (low as i32) - 65536
            } else {
                low as i32
            }
        },
    }
}

/// The `int` that a `long` narrows to: its low 32 bits, read as a signed number.
pub open spec fn spec_long_to_int(a: i64) -> i32 {
    signed32((unsigned64(a) % 0x1_0000_0000) as u32)
}

/// Narrows the `long` value `a` to `int`.
pub fn long_to_int(a: i64) -> (r: i32)
    ensures
        r == spec_long_to_int(a),
{
    to_i32((from_i64(a) % 0x1_0000_0000) as u32)
}

/// How two `long` values stand to each other: 1 where `a` is greater, 0 where they are
/// equal, -1 where `a` is less.
pub open spec fn spec_long_order(a: i64, b: i64) -> i32 {
    if a > b {
        1i32
    } else if a == b {
        0i32
    } else {
        (-1i32) as i32
    }
}

/// How two `long` values stand to each other.
pub fn long_order(a: i64, b: i64) -> (r: i32)
    ensures
        r == spec_long_order(a, b),
{
    if a > b {
        1
    } else if a == b {
        0
    } else {
        -1
    }
}

/// The conditions of a branch on one `int` held against zero, or on two `int` values.
#[derive(Clone, Copy, Debug, PartialEq, Eq, Structural)]
pub enum Condition {
    Eq,
    Ne,
    Lt,
    Ge,
    Gt,
    Le,
}

/// Whether the condition holds of `a` and `b`.
pub open spec fn spec_holds(c: Condition, a: i32, b: i32) -> bool {
    match c {
        Condition::Eq => a == b,
        Condition::Ne => a != b,
        Condition::Lt => a < b,
        Condition::Ge => a >= b,
        Condition::Gt => a > b,
        Condition::Le => a <= b,
    }
}

/// Whether the condition holds of `a` and `b`.
pub fn holds(c: Condition, a: i32, b: i32) -> (r: bool)
    ensures
        r == spec_holds(c, a, b),
{
    match c {
        Condition::Eq => a == b,
        Condition::Ne => a != b,
        Condition::Lt => a < b,
        Condition::Ge => a >= b,
        Condition::Gt => a > b,
        Condition::Le => a <= b,
    }
}

} // verus!
