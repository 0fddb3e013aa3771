use jvm::arith::{
    holds, int_op, long_op, long_order, long_to_int, narrow, Condition, IntOp, Narrowing,
};
use jvm::exceptions::JavaExceptionKind;
use jvm::floats::{FloatArith, FloatOp, FloatRequest, NumberKind};
use jvm::frame::{FatalError, Frame, Step};
use jvm::instruction::{decode, ArrayKind, Instruction, InvokeKind, LocalKind, StackOp};
use jvm::invoke::{args_match, make_locals};
use jvm::natives::{native_kind, push_decimal, NativeMethod};
use jvm::typevalues::{
    create_null_value, JvmPrimitiveType, JvmReferenceTargetType, JvmReferenceType, JvmType,
    JvmValue, MethodDescriptor,
};

fn num(v: i32) -> JvmValue {
    JvmValue::from_int(v)
}

fn wide(v: i64) -> JvmValue {
    JvmValue::from_long(v)
}

fn null() -> JvmValue {
    create_null_value()
}

fn frame(code: Vec<u8>, stack: Vec<JvmValue>, locals: Vec<JvmValue>, max_stack: u16) -> Frame {
    Frame {
        pc: 0,
        stack,
        locals,
        max_stack,
        class_id: 0,
        method_index: 0,
        code,
        exception_table: Vec::new(),
        resume: 0,
        initializes: None,
    }
}

/// Decodes and carries out the instruction at the program counter.
fn step(f: &mut Frame) -> Option<Step> {
    let (i, n) = decode(&f.code, f.pc).unwrap();
    f.execute_local(i, n)
}

#[test]
fn field_descriptors_name_types() {
    assert!(matches!(JvmType::from_descriptor(b"B"), Some(JvmType::Primitive(JvmPrimitiveType::Byte))));
    assert!(matches!(JvmType::from_descriptor(b"C"), Some(JvmType::Primitive(JvmPrimitiveType::Char))));
    assert!(matches!(JvmType::from_descriptor(b"D"), Some(JvmType::Primitive(JvmPrimitiveType::Double))));
    assert!(matches!(JvmType::from_descriptor(b"F"), Some(JvmType::Primitive(JvmPrimitiveType::Float))));
    assert!(matches!(JvmType::from_descriptor(b"I"), Some(JvmType::Primitive(JvmPrimitiveType::Int))));
    assert!(matches!(JvmType::from_descriptor(b"J"), Some(JvmType::Primitive(JvmPrimitiveType::Long))));
    assert!(matches!(JvmType::from_descriptor(b"S"), Some(JvmType::Primitive(JvmPrimitiveType::Short))));
    assert!(matches!(JvmType::from_descriptor(b"Z"), Some(JvmType::Primitive(JvmPrimitiveType::Boolean))));
    match JvmType::from_descriptor(b"Ljava/lang/String;") {
        Some(JvmType::Reference(JvmReferenceType::Class(name))) => assert_eq!(name, b"java/lang/String".to_vec()),
        other => panic!("unexpected {:?}", other),
    }
    match JvmType::from_descriptor(b"[[I") {
        Some(JvmType::Reference(JvmReferenceType::Array(component))) => assert_eq!(component, b"[I".to_vec()),
        other => panic!("unexpected {:?}", other),
    }
    match JvmType::from_descriptor(b"[Lp/Q;") {
        Some(JvmType::Reference(JvmReferenceType::Array(component))) => assert_eq!(component, b"Lp/Q;".to_vec()),
        other => panic!("unexpected {:?}", other),
    }
    for bad in [&b""[..], b"V", b"L;", b"Lfoo", b"[", b"II", b"X", b"I;", b"[V"] {
        assert!(JvmType::from_descriptor(bad).is_none(), "{:?}", bad);
    }
    let (t, end) = JvmType::parse_at(b"(IJ)V", 2).unwrap();
    assert!(matches!(t, JvmType::Primitive(JvmPrimitiveType::Long)));
    assert_eq!(end, 3);
}

#[test]
fn long_and_double_take_two_slots() {
    assert_eq!(JvmType::from_descriptor(b"J").unwrap().slots(), 2);
    assert_eq!(JvmType::from_descriptor(b"D").unwrap().slots(), 2);
    for one in [&b"I"[..], b"Z", b"B", b"C", b"S", b"F", b"Lp/Q;", b"[J", b"[[D"] {
        assert_eq!(JvmType::from_descriptor(one).unwrap().slots(), 1);
    }
    assert_eq!(wide(1).category(), 2);
    assert_eq!(JvmValue::Primitive(JvmPrimitiveType::Double, 0).category(), 2);
    assert_eq!(num(1).category(), 1);
    assert_eq!(null().category(), 1);
}

#[test]
fn default_values_are_zero_and_null() {
    assert_eq!(
        JvmType::from_descriptor(b"J").unwrap().default_value(),
        JvmValue::Primitive(JvmPrimitiveType::Long, 0)
    );
    assert_eq!(
        JvmType::from_descriptor(b"Z").unwrap().default_value(),
        JvmValue::Primitive(JvmPrimitiveType::Boolean, 0)
    );
    assert_eq!(
        JvmType::from_descriptor(b"[I").unwrap().default_value(),
        JvmValue::Reference(JvmReferenceTargetType::Null)
    );
    assert_eq!(null(), JvmValue::Reference(JvmReferenceTargetType::Null));
}

#[test]
fn method_descriptors_are_parsed() {
    let d = MethodDescriptor::parse(b"(IJ[Ljava/lang/String;DLp/Q;)V").unwrap();
    assert_eq!(d.params.len(), 5);
    assert!(matches!(d.ret, JvmType::Primitive(JvmPrimitiveType::Void)));
    assert_eq!(d.param_slots(), 7);
    let d = MethodDescriptor::parse(b"()[I").unwrap();
    assert_eq!(d.params.len(), 0);
    assert_eq!(d.param_slots(), 0);
    assert!(matches!(d.ret, JvmType::Reference(JvmReferenceType::Array(_))));
    for bad in [&b""[..], b"()", b"(", b"I", b"(V)V", b"(I)", b"(I)VV", b"(I)II", b"(L;)V", b"()V "] {
        assert!(MethodDescriptor::parse(bad).is_none(), "{:?}", bad);
    }
}

#[test]
fn arguments_fill_the_slots_of_their_types() {
    // An instance method (IJD)V: the receiver, an int, a long and a double fill 1 + 1 + 2 + 2 locals.
    let d = MethodDescriptor::parse(b"(IJD)V").unwrap();
    let double = JvmValue::Primitive(JvmPrimitiveType::Double, 0x4000_0000_0000_0000);
    let args = vec![null(), num(7), wide(-1), double];
    assert!(args_match(&args, &d, true));
    assert!(!args_match(&args, &d, false));
    assert!(!args_match(&args[1..], &d, true));
    assert!(args_match(&args[1..], &d, false));
    assert_eq!(d.param_slots() + 1, 6);
    let locals = make_locals(&args, 8).unwrap();
    let filler = JvmValue::Primitive(JvmPrimitiveType::Int, 0);
    assert_eq!(locals, vec![null(), num(7), wide(-1), wide(-1), double, double, filler, filler]);
    assert_eq!(make_locals(&args, 6).unwrap().len(), 6);
    assert!(make_locals(&args, 5).is_none());
    // A static method has no receiver.
    let locals = make_locals(&args[1..], 5).unwrap();
    assert_eq!(locals.len(), 5);
    assert_eq!(locals[0], num(7));
    assert!(!args_match(&[num(1), num(2), wide(0), double], &d, true));
    assert!(!args_match(&[null(), wide(7), wide(0), double], &d, true));
}

#[test]
fn int_arithmetic_wraps_round() {
    assert_eq!(int_op(IntOp::Add, 2, 3), Ok(5));
    assert_eq!(int_op(IntOp::Add, i32::MAX, 1), Ok(i32::MIN));
    assert_eq!(int_op(IntOp::Sub, i32::MIN, 1), Ok(i32::MAX));
    assert_eq!(int_op(IntOp::Mul, 0x10000, 0x10000), Ok(0));
    assert_eq!(int_op(IntOp::Mul, 46341, 46341), Ok(-2147479015));
    assert_eq!(int_op(IntOp::Mul, -7, 6), Ok(-42));
}

#[test]
fn int_division_rounds_towards_zero() {
    assert_eq!(int_op(IntOp::Div, 7, 2), Ok(3));
    assert_eq!(int_op(IntOp::Div, -7, 2), Ok(-3));
    assert_eq!(int_op(IntOp::Div, 7, -2), Ok(-3));
    assert_eq!(int_op(IntOp::Div, -7, -2), Ok(3));
    assert_eq!(int_op(IntOp::Div, i32::MIN, -1), Ok(i32::MIN));
    assert_eq!(int_op(IntOp::Div, i32::MIN, 1), Ok(i32::MIN));
    assert_eq!(int_op(IntOp::Div, i32::MIN, i32::MIN), Ok(1));
    assert_eq!(int_op(IntOp::Div, 1, 0), Err(JavaExceptionKind::Arithmetic));
    assert_eq!(int_op(IntOp::Rem, 7, 2), Ok(1));
    assert_eq!(int_op(IntOp::Rem, -7, 2), Ok(-1));
    assert_eq!(int_op(IntOp::Rem, 7, -2), Ok(1));
    assert_eq!(int_op(IntOp::Rem, -7, -2), Ok(-1));
    assert_eq!(int_op(IntOp::Rem, i32::MIN, -1), Ok(0));
    assert_eq!(int_op(IntOp::Rem, 5, 0), Err(JavaExceptionKind::Arithmetic));
}

#[test]
fn int_shifts_use_five_bits_of_the_count() {
    assert_eq!(int_op(IntOp::Shl, 1, 4), Ok(16));
    assert_eq!(int_op(IntOp::Shl, 1, 33), Ok(2));
    assert_eq!(int_op(IntOp::Shl, 1, 31), Ok(i32::MIN));
    assert_eq!(int_op(IntOp::Shl, 1, -1), Ok(i32::MIN));
    assert_eq!(int_op(IntOp::Shl, -1, 32), Ok(-1));
    assert_eq!(int_op(IntOp::Shr, -16, 2), Ok(-4));
    assert_eq!(int_op(IntOp::Shr, -1, 31), Ok(-1));
    assert_eq!(int_op(IntOp::Shr, 16, 34), Ok(4));
    assert_eq!(int_op(IntOp::Ushr, -1, 28), Ok(15));
    assert_eq!(int_op(IntOp::Ushr, -16, 2), Ok(0x3fff_fffc));
    assert_eq!(int_op(IntOp::Ushr, 16, 2), Ok(4));
    assert_eq!(int_op(IntOp::And, 0b1100, 0b1010), Ok(0b1000));
    assert_eq!(int_op(IntOp::Or, 0b1100, 0b1010), Ok(0b1110));
    assert_eq!(int_op(IntOp::Xor, 0b1100, 0b1010), Ok(0b0110));
    assert_eq!(int_op(IntOp::And, -1, 0x7f), Ok(0x7f));
}

#[test]
fn long_arithmetic_follows_the_same_rules() {
    assert_eq!(long_op(IntOp::Add, i64::MAX, 1), Ok(i64::MIN));
    assert_eq!(long_op(IntOp::Sub, 0, i64::MIN), Ok(i64::MIN));
    assert_eq!(long_op(IntOp::Mul, 1 << 32, 1 << 32), Ok(0));
    assert_eq!(long_op(IntOp::Mul, 3_000_000_000, 3), Ok(9_000_000_000));
    assert_eq!(long_op(IntOp::Div, -9, 4), Ok(-2));
    assert_eq!(long_op(IntOp::Div, i64::MIN, -1), Ok(i64::MIN));
    assert_eq!(long_op(IntOp::Div, 1, 0), Err(JavaExceptionKind::Arithmetic));
    assert_eq!(long_op(IntOp::Rem, -9, 4), Ok(-1));
    assert_eq!(long_op(IntOp::Rem, 9, -4), Ok(1));
    assert_eq!(long_op(IntOp::Rem, 9, 0), Err(JavaExceptionKind::Arithmetic));
    assert_eq!(long_op(IntOp::Shl, 1, 65), Ok(2));
    assert_eq!(long_op(IntOp::Shl, 1, 63), Ok(i64::MIN));
    assert_eq!(long_op(IntOp::Shr, -16, 2), Ok(-4));
    assert_eq!(long_op(IntOp::Ushr, -1, 60), Ok(15));
    assert_eq!(long_op(IntOp::Xor, -1, 1), Ok(-2));
    assert_eq!(long_order(3, 2), 1);
    assert_eq!(long_order(2, 2), 0);
    assert_eq!(long_order(i64::MIN, 2), -1);
}

#[test]
fn conversions_keep_the_low_bits() {
    assert_eq!(narrow(Narrowing::Byte, 0x1ff), -1);
    assert_eq!(narrow(Narrowing::Byte, 0x17f), 127);
    assert_eq!(narrow(Narrowing::Byte, 128), -128);
    assert_eq!(narrow(Narrowing::Byte, -129), 127);
    assert_eq!(narrow(Narrowing::Char, 0x1ffff), 0xffff);
    assert_eq!(narrow(Narrowing::Char, -1), 0xffff);
    assert_eq!(narrow(Narrowing::Short, 0x8000), -32768);
    assert_eq!(narrow(Narrowing::Short, 0x17fff), 32767);
    assert_eq!(long_to_int(0x1_0000_0005), 5);
    assert_eq!(long_to_int(0xffff_ffff), -1);
    assert_eq!(long_to_int(-1), -1);
    assert_eq!(long_to_int(i64::MIN), 0);
}

#[test]
fn conditions_hold_as_named() {
    assert!(holds(Condition::Eq, 3, 3) && !holds(Condition::Eq, 3, 4));
    assert!(holds(Condition::Ne, 3, 4) && !holds(Condition::Ne, 3, 3));
    assert!(holds(Condition::Lt, -1, 0) && !holds(Condition::Lt, 0, 0));
    assert!(holds(Condition::Ge, 0, 0) && !holds(Condition::Ge, -1, 0));
    assert!(holds(Condition::Gt, 1, 0) && !holds(Condition::Gt, 0, 0));
    assert!(holds(Condition::Le, 0, 0) && !holds(Condition::Le, 1, 0));
}

#[test]
fn values_carry_their_patterns() {
    assert_eq!(num(-1), JvmValue::Primitive(JvmPrimitiveType::Int, 0xffff_ffff));
    assert_eq!(num(-1).as_int(), Some(-1));
    assert_eq!(wide(-1), JvmValue::Primitive(JvmPrimitiveType::Long, u64::MAX));
    assert_eq!(wide(i64::MIN).as_long(), Some(i64::MIN));
    assert_eq!(num(1).as_long(), None);
    assert_eq!(wide(1).as_int(), None);
    assert_eq!(JvmValue::Primitive(JvmPrimitiveType::Int, 1 << 32).as_int(), None);
    assert_eq!(null().as_reference(), Some(JvmReferenceTargetType::Null));
    assert_eq!(num(1).as_reference(), None);
    // Two references are the same exactly when their identifiers are.
    let a = JvmValue::Reference(JvmReferenceTargetType::Object(3));
    assert_eq!(a, JvmValue::Reference(JvmReferenceTargetType::Object(3)));
    assert_ne!(a, JvmValue::Reference(JvmReferenceTargetType::Object(4)));
    assert_ne!(a, JvmValue::Reference(JvmReferenceTargetType::Array(3)));
}

#[test]
fn instructions_are_decoded() {
    assert_eq!(decode(&[0x00], 0), Ok((Instruction::Nop, 1)));
    assert_eq!(decode(&[0x02], 0), Ok((Instruction::Const(num(-1)), 1)));
    assert_eq!(decode(&[0x08], 0), Ok((Instruction::Const(num(5)), 1)));
    assert_eq!(decode(&[0x0a], 0), Ok((Instruction::Const(wide(1)), 1)));
    assert_eq!(
        decode(&[0x0d], 0),
        Ok((Instruction::Const(JvmValue::Primitive(JvmPrimitiveType::Float, 0x4000_0000)), 1))
    );
    assert_eq!(decode(&[0x10, 0xff], 0), Ok((Instruction::Const(num(-1)), 2)));
    assert_eq!(decode(&[0x11, 0x80, 0x00], 0), Ok((Instruction::Const(num(-32768)), 3)));
    assert_eq!(decode(&[0x12, 9], 0), Ok((Instruction::LoadConstant(9, false), 2)));
    assert_eq!(decode(&[0x13, 1, 2], 0), Ok((Instruction::LoadConstant(0x102, false), 3)));
    assert_eq!(decode(&[0x14, 1, 2], 0), Ok((Instruction::LoadConstant(0x102, true), 3)));
    assert_eq!(decode(&[0x15, 200], 0), Ok((Instruction::Load(LocalKind::Int, 200), 2)));
    assert_eq!(decode(&[0x1d], 0), Ok((Instruction::Load(LocalKind::Int, 3), 1)));
    assert_eq!(decode(&[0x1e], 0), Ok((Instruction::Load(LocalKind::Long, 0), 1)));
    assert_eq!(decode(&[0x2a], 0), Ok((Instruction::Load(LocalKind::Reference, 0), 1)));
    assert_eq!(decode(&[0x2d], 0), Ok((Instruction::Load(LocalKind::Reference, 3), 1)));
    assert_eq!(decode(&[0x33], 0), Ok((Instruction::ArrayLoad(ArrayKind::Byte), 1)));
    assert_eq!(decode(&[0x3a, 4], 0), Ok((Instruction::Store(LocalKind::Reference, 4), 2)));
    assert_eq!(decode(&[0x47], 0), Ok((Instruction::Store(LocalKind::Double, 0), 1)));
    assert_eq!(decode(&[0x56], 0), Ok((Instruction::ArrayStore(ArrayKind::Short), 1)));
    assert_eq!(decode(&[0x5e], 0), Ok((Instruction::Stack(StackOp::Dup2X2), 1)));
    assert_eq!(decode(&[0x60], 0), Ok((Instruction::IntBinary(IntOp::Add), 1)));
    assert_eq!(decode(&[0x71], 0), Ok((Instruction::LongBinary(IntOp::Rem), 1)));
    assert_eq!(decode(&[0x74], 0), Ok((Instruction::IntNeg, 1)));
    assert_eq!(decode(&[0x75], 0), Ok((Instruction::LongNeg, 1)));
    assert_eq!(decode(&[0x7c], 0), Ok((Instruction::IntBinary(IntOp::Ushr), 1)));
    assert_eq!(decode(&[0x7b], 0), Ok((Instruction::LongBinary(IntOp::Shr), 1)));
    assert_eq!(decode(&[0x83], 0), Ok((Instruction::LongBinary(IntOp::Xor), 1)));
    assert_eq!(decode(&[0x84, 2, 0xfe], 0), Ok((Instruction::Increment(2, -2), 3)));
    assert_eq!(decode(&[0x92], 0), Ok((Instruction::Narrow(Narrowing::Char), 1)));
    assert_eq!(decode(&[0x9b, 0xff, 0xfd], 0), Ok((Instruction::IfZero(Condition::Lt, -3), 3)));
    assert_eq!(decode(&[0xa4, 0, 8], 0), Ok((Instruction::IfInts(Condition::Le, 8), 3)));
    assert_eq!(decode(&[0xa6, 0, 8], 0), Ok((Instruction::IfSame(false, 8), 3)));
    assert_eq!(decode(&[0xa7, 0xff, 0xff], 0), Ok((Instruction::Goto(-1), 3)));
    assert_eq!(decode(&[0xc8, 0xff, 0xff, 0xff, 0xfe], 0), Ok((Instruction::Goto(-2), 5)));
    assert_eq!(decode(&[0xc6, 0, 3], 0), Ok((Instruction::IfNull(true, 3), 3)));
    assert_eq!(decode(&[0xc7, 0, 3], 0), Ok((Instruction::IfNull(false, 3), 3)));
    assert_eq!(decode(&[0xac], 0), Ok((Instruction::Return(Some(LocalKind::Int)), 1)));
    assert_eq!(decode(&[0xb0], 0), Ok((Instruction::Return(Some(LocalKind::Reference)), 1)));
    assert_eq!(decode(&[0xb1], 0), Ok((Instruction::Return(None), 1)));
    assert_eq!(decode(&[0xb6, 0, 7], 0), Ok((Instruction::Invoke(InvokeKind::Virtual, 7), 3)));
    assert_eq!(decode(&[0xb9, 0, 7, 1, 0], 0), Ok((Instruction::Invoke(InvokeKind::Interface, 7), 5)));
    assert_eq!(decode(&[0xbc, 10], 0), Ok((Instruction::NewArray(b'I'), 2)));
    assert_eq!(decode(&[0xbc, 4], 0), Ok((Instruction::NewArray(b'Z'), 2)));
    assert_eq!(decode(&[0xbf], 0), Ok((Instruction::Throw, 1)));
    assert_eq!(decode(&[0xc2], 0), Ok((Instruction::Monitor, 1)));
    assert_eq!(decode(&[0, 0, 0x04], 2), Ok((Instruction::Const(num(1)), 1)));
    assert_eq!(decode(&[0xc4, 0x15, 1, 2], 0), Ok((Instruction::Load(LocalKind::Int, 0x102), 4)));
    assert_eq!(decode(&[0xc4, 0x3a, 1, 2], 0), Ok((Instruction::Store(LocalKind::Reference, 0x102), 4)));
    assert_eq!(decode(&[0xc4, 0x84, 1, 2, 0xff, 0x00], 0), Ok((Instruction::Increment(0x102, -256), 6)));
    assert_eq!(decode(&[0xaa], 0), Ok((Instruction::TableSwitch, 1)));
    assert_eq!(decode(&[0xab], 0), Ok((Instruction::LookupSwitch, 1)));
}

#[test]
fn floating_point_instructions_are_decoded() {
    let float = |op: FloatOp| Ok((Instruction::Float(op), 1));
    assert_eq!(decode(&[0x62], 0), float(FloatOp::Binary(FloatArith::Add, NumberKind::Float)));
    assert_eq!(decode(&[0x63], 0), float(FloatOp::Binary(FloatArith::Add, NumberKind::Double)));
    assert_eq!(decode(&[0x66], 0), float(FloatOp::Binary(FloatArith::Sub, NumberKind::Float)));
    assert_eq!(decode(&[0x6b], 0), float(FloatOp::Binary(FloatArith::Mul, NumberKind::Double)));
    assert_eq!(decode(&[0x6e], 0), float(FloatOp::Binary(FloatArith::Div, NumberKind::Float)));
    assert_eq!(decode(&[0x73], 0), float(FloatOp::Binary(FloatArith::Rem, NumberKind::Double)));
    assert_eq!(decode(&[0x76], 0), float(FloatOp::Neg(NumberKind::Float)));
    assert_eq!(decode(&[0x77], 0), float(FloatOp::Neg(NumberKind::Double)));
    assert_eq!(decode(&[0x86], 0), float(FloatOp::Convert(NumberKind::Int, NumberKind::Float)));
    assert_eq!(decode(&[0x87], 0), float(FloatOp::Convert(NumberKind::Int, NumberKind::Double)));
    assert_eq!(decode(&[0x89], 0), float(FloatOp::Convert(NumberKind::Long, NumberKind::Float)));
    assert_eq!(decode(&[0x8a], 0), float(FloatOp::Convert(NumberKind::Long, NumberKind::Double)));
    assert_eq!(decode(&[0x8b], 0), float(FloatOp::Convert(NumberKind::Float, NumberKind::Int)));
    assert_eq!(decode(&[0x8c], 0), float(FloatOp::Convert(NumberKind::Float, NumberKind::Long)));
    assert_eq!(decode(&[0x8d], 0), float(FloatOp::Convert(NumberKind::Float, NumberKind::Double)));
    assert_eq!(decode(&[0x8e], 0), float(FloatOp::Convert(NumberKind::Double, NumberKind::Int)));
    assert_eq!(decode(&[0x8f], 0), float(FloatOp::Convert(NumberKind::Double, NumberKind::Long)));
    assert_eq!(decode(&[0x90], 0), float(FloatOp::Convert(NumberKind::Double, NumberKind::Float)));
    assert_eq!(decode(&[0x95], 0), float(FloatOp::Order(NumberKind::Float, false)));
    assert_eq!(decode(&[0x96], 0), float(FloatOp::Order(NumberKind::Float, true)));
    assert_eq!(decode(&[0x97], 0), float(FloatOp::Order(NumberKind::Double, false)));
    assert_eq!(decode(&[0x98], 0), float(FloatOp::Order(NumberKind::Double, true)));
    assert_eq!(decode(&[0x85], 0), Ok((Instruction::IntToLong, 1)));
    assert_eq!(decode(&[0x88], 0), Ok((Instruction::LongToInt, 1)));
}

#[test]
fn floating_point_operands_are_checked_and_results_placed() {
    let single = |bits: u64| JvmValue::Primitive(JvmPrimitiveType::Float, bits);
    let double = |bits: u64| JvmValue::Primitive(JvmPrimitiveType::Double, bits);
    let add = FloatOp::Binary(FloatArith::Add, NumberKind::Float);
    let mut f = frame(vec![0x62, 0x00], vec![num(9), single(0x3f80_0000), single(0x4000_0000)], vec![], 4);
    assert_eq!(step(&mut f), None);
    assert_eq!(f.float_request(add), Ok(FloatRequest { op: add, a: 0x3f80_0000, b: 0x4000_0000 }));
    assert_eq!(f.float_complete(add, 0x4040_0000, 1), Step::Next);
    assert_eq!(f.stack, vec![num(9), single(0x4040_0000)]);
    assert_eq!(f.pc, 1);
    // the operands are missing, or of another kind
    assert_eq!(f.float_request(add), Err(FatalError::CategoryMismatch));
    assert_eq!(f.float_complete(add, 0, 1), Step::Fatal(FatalError::CategoryMismatch));
    let short = frame(vec![0x62, 0x00], vec![single(0)], vec![], 4);
    assert_eq!(short.float_request(add), Err(FatalError::StackUnderflow));
    let mixed = frame(vec![0x62, 0x00], vec![single(0), double(0)], vec![], 4);
    assert_eq!(mixed.float_request(add), Err(FatalError::CategoryMismatch));
    // a result of a kind of 32 bits cannot have more
    let mut f = frame(vec![0x62, 0x00], vec![single(1), single(2)], vec![], 4);
    assert_eq!(f.float_complete(add, 1 << 32, 1), Step::Fatal(FatalError::CategoryMismatch));
    assert_eq!(f.stack, vec![single(1), single(2)]);
    // one operand; the result is of the kind that the conversion goes to
    let widen = FloatOp::Convert(NumberKind::Int, NumberKind::Double);
    let mut f = frame(vec![0x87, 0x00], vec![num(3)], vec![], 4);
    assert_eq!(f.float_request(widen), Ok(FloatRequest { op: widen, a: 3, b: 0 }));
    assert_eq!(f.float_complete(widen, 0x4008_0000_0000_0000, 1), Step::Next);
    assert_eq!(f.stack, vec![double(0x4008_0000_0000_0000)]);
    // two doubles in, an int out
    let order = FloatOp::Order(NumberKind::Double, true);
    let mut f = frame(vec![0x98, 0x00], vec![double(7), double(8)], vec![], 4);
    assert_eq!(f.float_request(order), Ok(FloatRequest { op: order, a: 7, b: 8 }));
    assert_eq!(f.float_complete(order, 0xffff_ffff, 1), Step::Next);
    assert_eq!(f.stack, vec![num(-1)]);
    // a double takes two slots
    let mut f = frame(vec![0x87, 0x00], vec![num(3)], vec![], 1);
    assert_eq!(f.float_complete(widen, 0, 1), Step::Fatal(FatalError::StackOverflow));
}

#[test]
fn bad_code_is_refused() {
    assert_eq!(decode(&[], 0), Err(FatalError::BadPc));
    assert_eq!(decode(&[0x00], 1), Err(FatalError::BadPc));
    assert_eq!(decode(&[0x10], 0), Err(FatalError::BadPc));
    assert_eq!(decode(&[0xb6, 0], 0), Err(FatalError::BadPc));
    assert_eq!(decode(&[0xc8, 0, 0, 0], 0), Err(FatalError::BadPc));
    // Switches, subroutines and the like are no instructions here.
    for op in [0xa8u8, 0xa9, 0xba, 0xc5, 0xc9, 0xca, 0xff] {
        assert_eq!(decode(&[op, 0, 0, 0, 0], 0), Err(FatalError::UnknownOpcode(op)));
    }
    // An interface call needs a count and a zero behind it.
    assert_eq!(decode(&[0xb9, 0, 7, 0, 0], 0), Err(FatalError::BadCode));
    assert_eq!(decode(&[0xb9, 0, 7, 1, 1], 0), Err(FatalError::BadCode));
    assert_eq!(decode(&[0xbc, 3], 0), Err(FatalError::BadCode));
    // The prefix for wide indices stands before loads, stores and increments only.
    assert_eq!(decode(&[0xc4, 0x60, 0, 0], 0), Err(FatalError::BadCode));
    assert_eq!(decode(&[0xc4], 0), Err(FatalError::BadPc));
    assert_eq!(decode(&[0xc4, 0x15, 1], 0), Err(FatalError::BadPc));
    assert_eq!(decode(&[0xc4, 0x84, 1, 0, 0], 0), Err(FatalError::BadPc));
    assert_eq!(decode(&[0xbc, 12], 0), Err(FatalError::BadCode));
}

#[test]
fn constants_and_arithmetic_work_on_the_stack() {
    // iconst_2; iconst_3; iadd; ineg; i2l; lconst_1; lsub; l2i
    let mut f = frame(vec![0x05, 0x06, 0x60, 0x74, 0x85, 0x0a, 0x65, 0x88, 0x00], vec![], vec![], 4);
    assert_eq!(step(&mut f), Some(Step::Next));
    assert_eq!(step(&mut f), Some(Step::Next));
    assert_eq!(f.stack, vec![num(2), num(3)]);
    assert_eq!(step(&mut f), Some(Step::Next));
    assert_eq!(f.stack, vec![num(5)]);
    assert_eq!(f.pc, 3);
    assert_eq!(step(&mut f), Some(Step::Next));
    assert_eq!(f.stack, vec![num(-5)]);
    assert_eq!(step(&mut f), Some(Step::Next));
    assert_eq!(f.stack, vec![wide(-5)]);
    assert_eq!(step(&mut f), Some(Step::Next));
    assert_eq!(step(&mut f), Some(Step::Next));
    assert_eq!(f.stack, vec![wide(-6)]);
    assert_eq!(step(&mut f), Some(Step::Next));
    assert_eq!(f.stack, vec![num(-6)]);
    assert_eq!(f.pc, 8);
}

#[test]
fn faults_leave_the_frame_unchanged() {
    // iadd on one value
    let mut f = frame(vec![0x60, 0x00], vec![num(1)], vec![], 4);
    assert_eq!(step(&mut f), Some(Step::Fatal(FatalError::StackUnderflow)));
    assert_eq!((f.pc, f.stack.clone()), (0, vec![num(1)]));
    // iadd on an int and a long
    let mut f = frame(vec![0x60, 0x00], vec![num(1), wide(1)], vec![], 4);
    assert_eq!(step(&mut f), Some(Step::Fatal(FatalError::CategoryMismatch)));
    // iconst_0 on a full stack; a long fills two slots
    let mut f = frame(vec![0x03, 0x00], vec![wide(1)], vec![], 2);
    assert_eq!(step(&mut f), Some(Step::Fatal(FatalError::StackOverflow)));
    assert_eq!(f.stack, vec![wide(1)]);
    let mut f = frame(vec![0x03, 0x00], vec![num(1)], vec![], 2);
    assert_eq!(step(&mut f), Some(Step::Next));
    // idiv by zero raises and changes nothing
    let mut f = frame(vec![0x6c, 0x00], vec![num(1), num(0)], vec![], 2);
    assert_eq!(step(&mut f), Some(Step::Raise(JavaExceptionKind::Arithmetic)));
    assert_eq!((f.pc, f.stack.clone()), (0, vec![num(1), num(0)]));
    // the last instruction cannot fall off the end of the code
    let mut f = frame(vec![0x03], vec![], vec![], 2);
    assert_eq!(step(&mut f), Some(Step::Fatal(FatalError::BadPc)));
    assert!(f.stack.is_empty());
    // a branch outside the code
    let mut f = frame(vec![0xa7, 0x00, 0x09, 0x00], vec![], vec![], 2);
    assert_eq!(step(&mut f), Some(Step::Fatal(FatalError::BadPc)));
    let mut f = frame(vec![0xa7, 0xff, 0xff, 0x00], vec![], vec![], 2);
    assert_eq!(step(&mut f), Some(Step::Fatal(FatalError::BadPc)));
    // instructions on the heap are none of these
    let mut f = frame(vec![0xbe, 0x00], vec![null()], vec![], 2);
    assert_eq!(step(&mut f), None);
    assert_eq!((f.pc, f.stack.clone()), (0, vec![null()]));
}

#[test]
fn locals_are_loaded_and_stored() {
    // lload_1; lstore_3; iinc 0 -3; iload_0; istore 5
    let mut f = frame(
        vec![0x1f, 0x42, 0x84, 0, 0xfd, 0x1a, 0x36, 5, 0x00],
        vec![],
        vec![num(i32::MIN + 1), wide(9), wide(9), num(0), num(0), num(0)],
        4,
    );
    assert_eq!(step(&mut f), Some(Step::Next));
    assert_eq!(f.stack, vec![wide(9)]);
    assert_eq!(step(&mut f), Some(Step::Next));
    assert!(f.stack.is_empty());
    assert_eq!(f.locals[3], wide(9));
    assert_eq!(step(&mut f), Some(Step::Next));
    assert_eq!(f.locals[0], num(i32::MAX - 1));
    assert_eq!(f.pc, 5);
    assert_eq!(step(&mut f), Some(Step::Next));
    assert_eq!(step(&mut f), Some(Step::Next));
    assert_eq!(f.locals[5], num(i32::MAX - 1));

    // iload_1 finds a long
    let mut f = frame(vec![0x1b, 0x00], vec![], vec![num(0), wide(9)], 4);
    assert_eq!(step(&mut f), Some(Step::Fatal(FatalError::CategoryMismatch)));
    // aload 9 lies outside the locals
    let mut f = frame(vec![0x19, 9, 0x00], vec![], vec![num(0)], 4);
    assert_eq!(step(&mut f), Some(Step::Fatal(FatalError::BadLocal)));
    // lstore_0 needs two locals
    let mut f = frame(vec![0x3f, 0x00], vec![wide(1)], vec![num(0)], 4);
    assert_eq!(step(&mut f), Some(Step::Fatal(FatalError::BadLocal)));
    assert_eq!(f.stack, vec![wide(1)]);
    // iinc on a reference
    let mut f = frame(vec![0x84, 0, 1, 0x00], vec![], vec![null()], 4);
    assert_eq!(step(&mut f), Some(Step::Fatal(FatalError::CategoryMismatch)));
}

#[test]
fn stack_instructions_follow_the_categories() {
    let run = |op: u8, stack: Vec<JvmValue>| -> (Option<Step>, Vec<JvmValue>) {
        let mut f = frame(vec![op, 0x00], stack, vec![], 16);
        let s = step(&mut f);
        (s, f.stack)
    };
    let (a, b, c, d) = (num(1), num(2), num(3), num(4));
    let (x, y) = (wide(10), wide(20));
    assert_eq!(run(0x57, vec![a, b]), (Some(Step::Next), vec![a]));
    assert_eq!(run(0x57, vec![x]), (Some(Step::Fatal(FatalError::CategoryMismatch)), vec![x]));
    assert_eq!(run(0x58, vec![a, b, c]), (Some(Step::Next), vec![a]));
    assert_eq!(run(0x58, vec![a, x]), (Some(Step::Next), vec![a]));
    assert_eq!(run(0x58, vec![x, a]), (Some(Step::Fatal(FatalError::CategoryMismatch)), vec![x, a]));
    assert_eq!(run(0x58, vec![a]), (Some(Step::Fatal(FatalError::StackUnderflow)), vec![a]));
    assert_eq!(run(0x59, vec![a]), (Some(Step::Next), vec![a, a]));
    assert_eq!(run(0x59, vec![x]), (Some(Step::Fatal(FatalError::CategoryMismatch)), vec![x]));
    assert_eq!(run(0x59, vec![]), (Some(Step::Fatal(FatalError::StackUnderflow)), vec![]));
    assert_eq!(run(0x5a, vec![a, b]), (Some(Step::Next), vec![b, a, b]));
    assert_eq!(run(0x5b, vec![a, b, c]), (Some(Step::Next), vec![c, a, b, c]));
    assert_eq!(run(0x5b, vec![x, c]), (Some(Step::Next), vec![c, x, c]));
    assert_eq!(run(0x5c, vec![a, b]), (Some(Step::Next), vec![a, b, a, b]));
    assert_eq!(run(0x5c, vec![x]), (Some(Step::Next), vec![x, x]));
    assert_eq!(run(0x5d, vec![a, b, c]), (Some(Step::Next), vec![b, c, a, b, c]));
    assert_eq!(run(0x5d, vec![a, x]), (Some(Step::Next), vec![x, a, x]));
    assert_eq!(run(0x5e, vec![a, b, c, d]), (Some(Step::Next), vec![c, d, a, b, c, d]));
    assert_eq!(run(0x5e, vec![a, b, x]), (Some(Step::Next), vec![x, a, b, x]));
    assert_eq!(run(0x5e, vec![x, a, b]), (Some(Step::Next), vec![a, b, x, a, b]));
    assert_eq!(run(0x5e, vec![x, y]), (Some(Step::Next), vec![y, x, y]));
    assert_eq!(run(0x5f, vec![a, b]), (Some(Step::Next), vec![b, a]));
    assert_eq!(run(0x5f, vec![a, x]), (Some(Step::Fatal(FatalError::CategoryMismatch)), vec![a, x]));
}

#[test]
fn branches_count_from_the_instruction() {
    // 0: iconst_0  1: ifeq +5 (to 6)  4: nop  5: nop  6: iconst_1  7: iconst_1  8: if_icmpne -4  11: goto -11 (to 0)
    let code = vec![0x03, 0x99, 0, 5, 0x00, 0x00, 0x04, 0x04, 0xa0, 0xff, 0xfc, 0xa7, 0xff, 0xf5];
    let mut f = frame(code, vec![], vec![], 4);
    assert_eq!(step(&mut f), Some(Step::Next));
    assert_eq!(step(&mut f), Some(Step::Next));
    assert_eq!(f.pc, 6);
    assert_eq!(step(&mut f), Some(Step::Next));
    assert_eq!(step(&mut f), Some(Step::Next));
    assert_eq!(step(&mut f), Some(Step::Next));
    assert_eq!(f.pc, 11);
    assert!(f.stack.is_empty());
    assert_eq!(step(&mut f), Some(Step::Next));
    assert_eq!(f.pc, 0);

    // ifnull / ifnonnull / if_acmpeq
    let here = JvmValue::Reference(JvmReferenceTargetType::Object(1));
    let mut f = frame(vec![0xc6, 0, 4, 0x00, 0x00], vec![null()], vec![], 4);
    assert_eq!(step(&mut f), Some(Step::Next));
    assert_eq!(f.pc, 4);
    let mut f = frame(vec![0xc7, 0, 4, 0x00, 0x00], vec![null()], vec![], 4);
    assert_eq!(step(&mut f), Some(Step::Next));
    assert_eq!(f.pc, 3);
    let mut f = frame(vec![0xa5, 0, 4, 0x00, 0x00], vec![here, here], vec![], 4);
    assert_eq!(step(&mut f), Some(Step::Next));
    assert_eq!(f.pc, 4);
    let mut f = frame(vec![0xa5, 0, 4, 0x00, 0x00], vec![here, null()], vec![], 4);
    assert_eq!(step(&mut f), Some(Step::Next));
    assert_eq!(f.pc, 3);
    // lcmp
    let mut f = frame(vec![0x94, 0x00], vec![wide(1), wide(2)], vec![], 4);
    assert_eq!(step(&mut f), Some(Step::Next));
    assert_eq!(f.stack, vec![num(-1)]);
    // monitorenter on null
    let mut f = frame(vec![0xc2, 0x00], vec![null()], vec![], 4);
    assert_eq!(step(&mut f), Some(Step::Raise(JavaExceptionKind::NullPointer)));
}

#[test]
fn switches_branch_by_the_value_on_top() {
    // 0: nop  1: tableswitch (padding to 4) default +40, low 3, high 5, offsets +20 +24 +28
    let mut code: Vec<u8> = vec![0x00, 0xaa, 0, 0];
    for v in [40i32, 3, 5, 20, 24, 28] {
        code.extend_from_slice(&v.to_be_bytes());
    }
    code.resize(64, 0x00);
    let table = |key: i32| {
        let mut f = frame(code.clone(), vec![num(key)], vec![], 2);
        f.pc = 1;
        let s = step(&mut f);
        (s, f.pc, f.stack.len())
    };
    assert_eq!(table(3), (Some(Step::Next), 21, 0));
    assert_eq!(table(4), (Some(Step::Next), 25, 0));
    assert_eq!(table(5), (Some(Step::Next), 29, 0));
    assert_eq!(table(2), (Some(Step::Next), 41, 0));
    assert_eq!(table(6), (Some(Step::Next), 41, 0));
    assert_eq!(table(i32::MIN), (Some(Step::Next), 41, 0));
    let mut f = frame(code.clone(), vec![], vec![], 2);
    f.pc = 1;
    assert_eq!(step(&mut f), Some(Step::Fatal(FatalError::StackUnderflow)));
    let mut f = frame(code[..20].to_vec(), vec![num(3)], vec![], 2);
    f.pc = 1;
    assert_eq!(step(&mut f), Some(Step::Fatal(FatalError::BadPc)));
    assert_eq!((f.pc, f.stack.len()), (1, 1));

    // 0: lookupswitch (padding to 4) default +30, 3 pairs: -5 -> +12, 9 -> +16, 1000 -> -0
    let mut code: Vec<u8> = vec![0xab, 0, 0, 0];
    for v in [50i32, 3, -5, 36, 9, 40, 1000, 44] {
        code.extend_from_slice(&v.to_be_bytes());
    }
    code.resize(64, 0x00);
    let lookup = |key: i32| {
        let mut f = frame(code.clone(), vec![num(key)], vec![], 2);
        let s = step(&mut f);
        (s, f.pc)
    };
    assert_eq!(lookup(-5), (Some(Step::Next), 36));
    assert_eq!(lookup(9), (Some(Step::Next), 40));
    assert_eq!(lookup(1000), (Some(Step::Next), 44));
    assert_eq!(lookup(0), (Some(Step::Next), 50));
    let mut f = frame(code.clone(), vec![wide(9)], vec![], 2);
    assert_eq!(step(&mut f), Some(Step::Fatal(FatalError::CategoryMismatch)));
    // a table whose least value lies above its greatest
    let mut bad: Vec<u8> = vec![0xaa, 0, 0, 0];
    for v in [0i32, 5, 3] {
        bad.extend_from_slice(&v.to_be_bytes());
    }
    bad.resize(32, 0x00);
    let mut f = frame(bad, vec![num(4)], vec![], 2);
    assert_eq!(step(&mut f), Some(Step::Fatal(FatalError::BadCode)));
}

#[test]
fn wide_indices_reach_all_locals() {
    // wide iload 300; wide istore 301; wide iinc 301 -1000
    let code = vec![0xc4, 0x15, 1, 44, 0xc4, 0x36, 1, 45, 0xc4, 0x84, 1, 45, 0xfc, 0x18, 0x00];
    let mut locals = vec![num(0); 302];
    locals[300] = num(77);
    let mut f = frame(code, vec![], locals, 2);
    assert_eq!(step(&mut f), Some(Step::Next));
    assert_eq!((f.pc, f.stack.clone()), (4, vec![num(77)]));
    assert_eq!(step(&mut f), Some(Step::Next));
    assert_eq!(f.locals[301], num(77));
    assert_eq!(step(&mut f), Some(Step::Next));
    assert_eq!(f.locals[301], num(77 - 1000));
    assert_eq!(f.pc, 14);
}

#[test]
fn numbers_print_in_decimal() {
    for (v, text) in [(0, "0"), (7, "7"), (10, "10"), (-1, "-1"), (i32::MAX, "2147483647"), (i32::MIN, "-2147483648"), (1000, "1000")] {
        let mut out: Vec<u8> = b"x".to_vec();
        push_decimal(&mut out, v);
        assert_eq!(out, format!("x{}", text).into_bytes());
    }
}

#[test]
fn built_in_native_methods_are_known() {
    assert_eq!(
        native_kind(b"java/io/PrintStream", b"println", b"(Ljava/lang/String;)V"),
        Some(NativeMethod::PrintString)
    );
    assert_eq!(native_kind(b"java/io/PrintStream", b"println", b"(I)V"), Some(NativeMethod::PrintInt));
    assert_eq!(native_kind(b"java/io/PrintStream", b"println", b"()V"), Some(NativeMethod::PrintLine));
    assert_eq!(native_kind(b"java/lang/Object", b"registerNatives", b"()V"), Some(NativeMethod::Nothing));
    assert_eq!(native_kind(b"java/io/PrintStream", b"println", b"(J)V"), None);
    assert_eq!(native_kind(b"java/io/Printer", b"println", b"(I)V"), None);
    assert_eq!(native_kind(b"java/io/PrintStream", b"print", b"(I)V"), None);
}
