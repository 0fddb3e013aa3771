//! The native methods that the machine carries out itself.
use crate::bytes::bytes_eq;
use crate::frame::FatalError;
use crate::heap::{value_name, Heap, HeapView};
use crate::object::spec_get_field;
use crate::typevalues::{JvmReferenceTargetType, JvmValue};
use vstd::prelude::*;

verus! {

/// The native methods that are built in.
#[derive(Clone, Copy, Debug, PartialEq, Eq, Structural)]
pub enum NativeMethod {
    /// `java/io/PrintStream.println(Ljava/lang/String;)V`: the text and a line feed.
    PrintString,
    /// `java/io/PrintStream.println(I)V`: the number in decimal and a line feed.
    PrintInt,
    /// `java/io/PrintStream.println()V`: a line feed.
    PrintLine,
    /// `registerNatives()V` of any class: nothing.
    Nothing,
}

/// `java/io/PrintStream`
pub open spec fn print_stream_name() -> Seq<u8> {
    seq![
        106u8, 97, 118, 97, 47, 105, 111, 47, 80, 114, 105, 110, 116, 83, 116, 114, 101, 97,
        109,
    ]
}

/// `println`
pub open spec fn println_name() -> Seq<u8> {
    seq![112u8, 114, 105, 110, 116, 108, 110]
}

/// `registerNatives`
pub open spec fn register_name() -> Seq<u8> {
    seq![114u8, 101, 103, 105, 115, 116, 101, 114, 78, 97, 116, 105, 118, 101, 115]
}

/// `(Ljava/lang/String;)V`
pub open spec fn string_taker() -> Seq<u8> {
    seq![
        40u8, 76, 106, 97, 118, 97, 47, 108, 97, 110, 103, 47, 83, 116, 114, 105, 110, 103, 59,
        41, 86,
    ]
}

/// `(I)V`
pub open spec fn int_taker() -> Seq<u8> {
    seq![40u8, 73, 41, 86]
}

/// `()V`
pub open spec fn nothing_taker() -> Seq<u8> {
    seq![40u8, 41, 86]
}

/// `null`
pub open spec fn null_text() -> Seq<u8> {
    seq![110u8, 117, 108, 108]
}

/// The built-in native method for the method `name` with the descriptor `descriptor`
/// of the class `class`; `None` where there is none.
pub open spec fn spec_native_kind(class: Seq<u8>, name: Seq<u8>, descriptor: Seq<u8>) -> Option<
    NativeMethod,
> {
    if class == print_stream_name() && name == println_name() && descriptor == string_taker() {
        Some(NativeMethod::PrintString)
    } else if class == print_stream_name() && name == println_name() && descriptor == int_taker() {
        Some(NativeMethod::PrintInt)
    } else if class == print_stream_name() && name == println_name() && descriptor
        == nothing_taker() {
        Some(NativeMethod::PrintLine)
    } else if name == register_name() && descriptor == nothing_taker() {
        Some(NativeMethod::Nothing)
    } else {
        None
    }
}

/// The decimal digits of `n`, most significant first.
pub open spec fn spec_digits(n: nat) -> Seq<u8>
    decreases n,
{
    if n < 10 {
        seq![(48 + n) as u8]
    } else {
        spec_digits(n / 10).push((48 + n % 10) as u8)
    }
}

/// The decimal text of `v`: a minus sign for a negative number, then the digits of its
/// absolute value.
pub open spec fn spec_decimal(v: i32) -> Seq<u8> {
    if v < 0 {
        seq![45u8] + spec_digits((-(v as int)) as nat)
    } else {
        spec_digits(v as nat)
    }
}

/// The byte that a component of a `char` array prints as: the low eight bits of its
/// payload; `?` for a reference.
pub open spec fn spec_char_byte(v: JvmValue) -> u8 {
    match v {
        JvmValue::Primitive(_, bits) => (bits % 256) as u8,
        JvmValue::Reference(_) => 63u8,
    }
}

/// The text that the value `v` prints as: `null` for the null reference; for a string
/// object the components of the array that its field `value` refers to. `None` for any
/// other value.
pub open spec fn spec_text_of(heap: HeapView, v: JvmValue) -> Option<Seq<u8>> {
    match v {
        JvmValue::Reference(JvmReferenceTargetType::Null) => Some(null_text()),
        JvmValue::Reference(JvmReferenceTargetType::Object(id)) => if id >= heap.objects.len() {
            None
        } else {
            match spec_get_field(heap.objects[id as int], value_name()) {
                Some(JvmValue::Reference(JvmReferenceTargetType::Array(a))) => if a
                    >= heap.arrays.len() {
                    None
                } else {
                    Some(
                        Seq::new(
                            heap.arrays[a as int].items.len(),
                            |i: int| spec_char_byte(heap.arrays[a as int].items[i]),
                        ),
                    )
                },
                _ => None,
            }
        },
        _ => None,
    }
}

/// What the native method prints when it gets `args`, the receiver first; the method
/// returns nothing. `CategoryMismatch` for arguments that the method does not take.
pub open spec fn spec_native_output(heap: HeapView, native: NativeMethod, args: Seq<JvmValue>) -> Result<
    Seq<u8>,
    FatalError,
> {
    match native {
        NativeMethod::PrintString => if args.len() != 2 {
            Err(FatalError::CategoryMismatch)
        } else {
            match spec_text_of(heap, args[1]) {
                Some(text) => Ok(text.push(10u8)),
                None => Err(FatalError::CategoryMismatch),
            }
        },
        NativeMethod::PrintInt => if args.len() != 2 {
            Err(FatalError::CategoryMismatch)
        } else {
            match args[1].spec_as_int() {
                Some(v) => Ok(spec_decimal(v).push(10u8)),
                None => Err(FatalError::CategoryMismatch),
            }
        },
        NativeMethod::PrintLine => Ok(seq![10u8]),
        NativeMethod::Nothing => Ok(Seq::empty()),
    }
}

/// The built-in native method for a method of a class.
pub fn native_kind(class: &[u8], name: &[u8], descriptor: &[u8]) -> (r: Option<NativeMethod>)
    ensures
        r == spec_native_kind(class@, name@, descriptor@),
{
    let stream: [u8; 19] = [
        106u8, 97, 118, 97, 47, 105, 111, 47, 80, 114, 105, 110, 116, 83, 116, 114, 101, 97,
        109,
    ];
    let println: [u8; 7] = [112u8, 114, 105, 110, 116, 108, 110];
    let register: [u8; 15] = [
        114u8, 101, 103, 105, 115, 116, 101, 114, 78, 97, 116, 105, 118, 101, 115,
    ];
    let takes_string: [u8; 21] = [
        40u8, 76, 106, 97, 118, 97, 47, 108, 97, 110, 103, 47, 83, 116, 114, 105, 110, 103, 59,
        41, 86,
    ];
    let takes_int: [u8; 4] = [40u8, 73, 41, 86];
    let takes_nothing: [u8; 3] = [40u8, 41, 86];
    assert(stream@ =~= print_stream_name());
    assert(println@ =~= println_name());
    assert(register@ =~= register_name());
    assert(takes_string@ =~= string_taker());
    assert(takes_int@ =~= int_taker());
    assert(takes_nothing@ =~= nothing_taker());
    let printer: bool = bytes_eq(class, stream.as_slice()) && bytes_eq(name, println.as_slice());
    if printer && bytes_eq(descriptor, takes_string.as_slice()) {
        Some(NativeMethod::PrintString)
    } else if printer && bytes_eq(descriptor, takes_int.as_slice()) {
        Some(NativeMethod::PrintInt)
    } else if printer && bytes_eq(descriptor, takes_nothing.as_slice()) {
        Some(NativeMethod::PrintLine)
    } else if bytes_eq(name, register.as_slice()) && bytes_eq(
        descriptor,
        takes_nothing.as_slice(),
    ) {
        Some(NativeMethod::Nothing)
    } else {
        None
    }
}

/// Appends the decimal digits of `n` to `out`.
pub fn push_digits(out: &mut Vec<u8>, n: u32)
    ensures
        final(out)@ == old(out)@ + spec_digits(n as nat),
    decreases n,
{
    if n < 10 {
        out.push(48 + n as u8);
        assert(out@ =~= old(out)@ + spec_digits(n as nat));
    } else {
        push_digits(out, n / 10);
        out.push(48 + (n % 10) as u8);
        assert(out@ =~= old(out)@ + spec_digits(n as nat));
    }
}

/// Appends the decimal text of `v` to `out`.
pub fn push_decimal(out: &mut Vec<u8>, v: i32)
    ensures
        final(out)@ == old(out)@ + spec_decimal(v),
{
    if v < 0 {
        out.push(45u8);
        let magnitude: u32 = crate::arith::magnitude32(v);
        push_digits(out, magnitude);
        assert(out@ =~= old(out)@ + spec_decimal(v));
    } else {
        push_digits(out, v as u32);
    }
}

/// The byte that a component of a `char` array prints as.
pub fn char_byte(v: &JvmValue) -> (r: u8)
    ensures
        r == spec_char_byte(*v),
{
    match v {
        JvmValue::Primitive(_, bits) => (*bits % 256) as u8,
        JvmValue::Reference(_) => 63u8,
    }
}

impl Heap {
    /// The text that the value `v` prints as.
    pub fn text_of(&self, v: &JvmValue) -> (r: Option<Vec<u8>>)
        ensures
            match r {
                Some(text) => spec_text_of(self@, *v) == Some(text@),
                None => spec_text_of(self@, *v) is None,
            },
    {
        match v {
            JvmValue::Reference(JvmReferenceTargetType::Null) => {
                let text: Vec<u8> = vec![110u8, 117, 108, 108];
                assert(text@ =~= null_text());
                Some(text)
            },
            JvmValue::Reference(JvmReferenceTargetType::Object(id)) => {
                if *id >= self.objects.len() {
                    return None;
                }
                assert(self@.objects[*id as int] == self.objects@[*id as int]@);
                let field: [u8; 5] = [118u8, 97, 108, 117, 101];
                assert(field@ =~= value_name());
                let a: usize = match self.objects[*id].field(field.as_slice()) {
                    Some(JvmValue::Reference(JvmReferenceTargetType::Array(a))) => a,
                    _ => {
                        return None;
                    },
                };
                if a >= self.arrays.len() {
                    return None;
                }
                assert(self@.arrays[a as int] == self.arrays@[a as int]@);
                let mut text: Vec<u8> = Vec::new();
                let mut i: usize = 0;
                while i < self.arrays[a].items.len()
                    invariant
                        a < self.arrays@.len(),
                        i <= self.arrays@[a as int].items@.len(),
                        text@.len() == i,
                        forall|k: int|
                            0 <= k < i ==> text@[k] == spec_char_byte(
                                self.arrays@[a as int].items@[k],
                            ),
                    decreases self.arrays@[a as int].items@.len() - i,
                {
                    text.push(char_byte(&self.arrays[a].items[i]));
                    i = i + 1;
                }
                assert(text@ =~= Seq::new(
                    self@.arrays[a as int].items.len(),
                    |i: int| spec_char_byte(self@.arrays[a as int].items[i]),
                ));
                Some(text)
            },
            _ => None,
        }
    }

    /// What the native method prints when it gets `args`.
    pub fn native_output(&self, native: NativeMethod, args: &[JvmValue]) -> (r: Result<
        Vec<u8>,
        FatalError,
    >)
        ensures
            match r {
                Ok(text) => spec_native_output(self@, native, args@) == Ok::<Seq<u8>, FatalError>(
                    text@,
                ),
                Err(e) => spec_native_output(self@, native, args@) == Err::<Seq<u8>, FatalError>(e),
            },
    {
        match native {
            NativeMethod::PrintString => {
                if args.len() != 2 {
                    return Err(FatalError::CategoryMismatch);
                }
                match self.text_of(&args[1]) {
                    Some(text) => {
                        let mut out: Vec<u8> = text;
                        out.push(10u8);
                        Ok(out)
                    },
                    None => Err(FatalError::CategoryMismatch),
                }
            },
            NativeMethod::PrintInt => {
                if args.len() != 2 {
                    return Err(FatalError::CategoryMismatch);
                }
                match args[1].as_int() {
                    Some(v) => {
                        let mut out: Vec<u8> = Vec::new();
                        push_decimal(&mut out, v);
                        out.push(10u8);
                        assert(out@ =~= spec_decimal(v).push(10u8));
                        Ok(out)
                    },
                    None => Err(FatalError::CategoryMismatch),
                }
            },
            NativeMethod::PrintLine => {
                let out: Vec<u8> = vec![10u8];
                assert(out@ =~= seq![10u8]);
                Ok(out)
            },
            NativeMethod::Nothing => {
                let out: Vec<u8> = Vec::new();
                assert(out@ =~= Seq::<u8>::empty());
                Ok(out)
            },
        }
    }
}

} // verus!
