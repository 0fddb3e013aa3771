//! Types as descriptors name them, and the values that the machine works on.
use crate::bytes::{
    bytes_eq, copy_range, from_i32, from_i64, signed32, signed64, to_i32, to_i64, unsigned32,
    unsigned64,
};
use vstd::prelude::*;

verus! {

/// The primitive kinds of the machine. `Void` occurs as a return type only.
#[derive(Clone, Copy, Debug, PartialEq, Eq, Structural)]
pub enum JvmPrimitiveType {
    Boolean,
    Byte,
    Char,
    Short,
    Int,
    Long,
    Float,
    Double,
    Void,
}

/// A reference type: a class by its name, or an array by the descriptor of its
/// component (`[[I` is an array whose component is `[I`).
#[derive(Debug)]
pub enum JvmReferenceType {
    Class(Vec<u8>),
    Array(Vec<u8>),
}

/// A type named by a descriptor.
#[derive(Debug)]
pub enum JvmType {
    Primitive(JvmPrimitiveType),
    Reference(JvmReferenceType),
}

/// The mathematical value of a `JvmType`.
pub enum TypeView {
    Primitive(JvmPrimitiveType),
    Class(Seq<u8>),
    Array(Seq<u8>),
}

impl View for JvmType {
    type V = TypeView;

    open spec fn view(&self) -> TypeView {
        match *self {
            JvmType::Primitive(p) => TypeView::Primitive(p),
            JvmType::Reference(JvmReferenceType::Class(n)) => TypeView::Class(n@),
            JvmType::Reference(JvmReferenceType::Array(c)) => TypeView::Array(c@),
        }
    }
}

/// What a reference points to. Two references are the same exactly when they hold the
/// same target: the same kind and the same identifier.
#[derive(Clone, Copy, Debug, PartialEq, Eq, Structural)]
pub enum JvmReferenceTargetType {
    Null,
    Object(usize),
    Array(usize),
}

/// A value on an operand stack, in a local variable, a field or an array.
///
/// A primitive carries its kind and a 64-bit payload: the two's-complement pattern of an
/// integer kind, zero-extended, or the IEEE-754 pattern of a `Float` or `Double`.
#[derive(Clone, Copy, Debug, PartialEq, Eq, Structural)]
pub enum JvmValue {
    Primitive(JvmPrimitiveType, u64),
    Reference(JvmReferenceTargetType),
}

/// A value under a name: a static field of a class or an instance field of an object.
#[derive(Debug)]
pub struct NamedValue {
    pub name: Vec<u8>,
    pub value: JvmValue,
}

/// The mathematical value of a `NamedValue`.
pub struct NamedValueView {
    pub name: Seq<u8>,
    pub value: JvmValue,
}

impl View for NamedValue {
    type V = NamedValueView;

    open spec fn view(&self) -> NamedValueView {
        NamedValueView { name: self.name@, value: self.value }
    }
}

/// The position of the first value from `from` on that stands under `name`.
pub open spec fn named_position(values: Seq<NamedValueView>, name: Seq<u8>, from: int) -> Option<int>
    decreases values.len() - from,
{
    if from < 0 || from >= values.len() {
        None
    } else if values[from].name == name {
        Some(from)
    } else {
        named_position(values, name, from + 1)
    }
}

/// Where `named_position` finds a place, the name stands there and at no place before.
pub proof fn lemma_named_position(values: Seq<NamedValueView>, name: Seq<u8>, from: int)
    requires
        0 <= from,
    ensures
        match named_position(values, name, from) {
            Some(i) => from <= i < values.len() && values[i].name == name && forall|j: int|
                from <= j < i ==> (#[trigger] values[j]).name != name,
            None => forall|j: int| from <= j < values.len() ==> (#[trigger] values[j]).name != name,
        },
    decreases values.len() - from,
{
    if from < values.len() && values[from].name != name {
        lemma_named_position(values, name, from + 1);
    }
}

/// The position of the first value that stands under `name`.
pub fn find_named(values: &Vec<NamedValue>, name: &[u8]) -> (r: Option<usize>)
    ensures
        match r {
            Some(i) => named_position(values@.map_values(|v: NamedValue| v@), name@, 0) == Some(
                i as int,
            ) && i < values@.len() && values@[i as int].name@ == name@,
            None => named_position(values@.map_values(|v: NamedValue| v@), name@, 0) is None,
        },
{
    let ghost all = values@.map_values(|v: NamedValue| v@);
    let mut i: usize = 0;
    while i < values.len()
        invariant
            i <= values@.len(),
            all == values@.map_values(|v: NamedValue| v@),
            named_position(all, name@, 0) == named_position(all, name@, i as int),
        decreases values@.len() - i,
    {
        if bytes_eq(values[i].name.as_slice(), name) {
            return Some(i);
        }
        i = i + 1;
    }
    None
}

/// `B`, the descriptor of `byte`.
pub const CH_BYTE: u8 = 66;

/// `C`, the descriptor of `char`.
pub const CH_CHAR: u8 = 67;

/// `D`, the descriptor of `double`.
pub const CH_DOUBLE: u8 = 68;

/// `F`, the descriptor of `float`.
pub const CH_FLOAT: u8 = 70;

/// `I`, the descriptor of `int`.
pub const CH_INT: u8 = 73;

/// `J`, the descriptor of `long`.
pub const CH_LONG: u8 = 74;

/// `S`, the descriptor of `short`.
pub const CH_SHORT: u8 = 83;

/// `Z`, the descriptor of `boolean`.
pub const CH_BOOLEAN: u8 = 90;

/// `V`, the descriptor of no return value.
pub const CH_VOID: u8 = 86;

/// `L`, which opens the name of a class in a descriptor.
pub const CH_CLASS: u8 = 76;

/// `;`, which closes the name of a class in a descriptor.
pub const CH_END: u8 = 59;

/// `[`, which stands before the component type of an array.
pub const CH_ARRAY: u8 = 91;

/// `(`, which opens the parameters of a method descriptor.
pub const CH_OPEN: u8 = 40;

/// `)`, which closes the parameters of a method descriptor.
pub const CH_CLOSE: u8 = 41;

/// The primitive kind that the descriptor letter `b` names; `V` is not among them.
pub open spec fn spec_primitive_of(b: u8) -> Option<JvmPrimitiveType> {
    if b == CH_BYTE {
        Some(JvmPrimitiveType::Byte)
    } else if b == CH_CHAR {
        Some(JvmPrimitiveType::Char)
    } else if b == CH_DOUBLE {
        Some(JvmPrimitiveType::Double)
    } else if b == CH_FLOAT {
        Some(JvmPrimitiveType::Float)
    } else if b == CH_INT {
        Some(JvmPrimitiveType::Int)
    } else if b == CH_LONG {
        Some(JvmPrimitiveType::Long)
    } else if b == CH_SHORT {
        Some(JvmPrimitiveType::Short)
    } else if b == CH_BOOLEAN {
        Some(JvmPrimitiveType::Boolean)
    } else {
        None
    }
}

/// The descriptor letter of a primitive kind.
pub open spec fn primitive_letter(p: JvmPrimitiveType) -> u8 {
    match p {
        JvmPrimitiveType::Byte => CH_BYTE,
        JvmPrimitiveType::Char => CH_CHAR,
        JvmPrimitiveType::Double => CH_DOUBLE,
        JvmPrimitiveType::Float => CH_FLOAT,
        JvmPrimitiveType::Int => CH_INT,
        JvmPrimitiveType::Long => CH_LONG,
        JvmPrimitiveType::Short => CH_SHORT,
        JvmPrimitiveType::Boolean => CH_BOOLEAN,
        JvmPrimitiveType::Void => CH_VOID,
    }
}

/// The position of the first `;` at or behind `from`.
pub open spec fn spec_name_end(s: Seq<u8>, from: int) -> Option<int>
    decreases s.len() - from,
{
    if from < 0 || from >= s.len() {
        None
    } else if s[from] == CH_END {
        Some(from)
    } else {
        spec_name_end(s, from + 1)
    }
}

/// Where the field type that starts at `off` ends: behind one letter for a primitive,
/// behind the `;` of `L<name>;` with a name of at least one byte, and for `[` where its
/// component ends. `None` where no field type starts at `off`.
pub open spec fn spec_type_end(s: Seq<u8>, off: int) -> Option<int>
    decreases s.len() - off,
{
    if off < 0 || off >= s.len() {
        None
    } else if spec_primitive_of(s[off]) is Some {
        Some(off + 1)
    } else if s[off] == CH_CLASS {
        match spec_name_end(s, off + 1) {
            Some(k) => if k > off + 1 {
                Some(k + 1)
            } else {
                None
            },
            None => None,
        }
    } else if s[off] == CH_ARRAY {
        spec_type_end(s, off + 1)
    } else {
        None
    }
}

/// The field type that stands between `off` and `end`.
pub open spec fn spec_type_at(s: Seq<u8>, off: int, end: int) -> TypeView {
    if s[off] == CH_CLASS {
        TypeView::Class(s.subrange(off + 1, end - 1))
    } else if s[off] == CH_ARRAY {
        TypeView::Array(s.subrange(off + 1, end))
    } else {
        TypeView::Primitive(spec_primitive_of(s[off])->Some_0)
    }
}

/// The type that the whole of `s` names as a field descriptor.
pub open spec fn spec_field_type(s: Seq<u8>) -> Option<TypeView> {
    if spec_type_end(s, 0) == Some(s.len() as int) {
        Some(spec_type_at(s, 0, s.len() as int))
    } else {
        None
    }
}

/// The descriptor of a type.
pub open spec fn type_bytes(t: TypeView) -> Seq<u8> {
    match t {
        TypeView::Primitive(p) => seq![primitive_letter(p)],
        TypeView::Class(n) => seq![CH_CLASS] + n + seq![CH_END],
        TypeView::Array(c) => seq![CH_ARRAY] + c,
    }
}

/// The number of local-variable slots that a value of type `t` takes: two for `long`
/// and `double`, one for every other type.
pub open spec fn slots(t: TypeView) -> nat {
    match t {
        TypeView::Primitive(JvmPrimitiveType::Long) => 2,
        TypeView::Primitive(JvmPrimitiveType::Double) => 2,
        _ => 1,
    }
}

/// The parameters and the return type of a method.
#[derive(Debug)]
pub struct MethodDescriptor {
    pub params: Vec<JvmType>,
    pub ret: JvmType,
}

/// The mathematical value of a `MethodDescriptor`.
pub struct MethodDescriptorView {
    pub params: Seq<TypeView>,
    pub ret: TypeView,
}

impl View for MethodDescriptor {
    type V = MethodDescriptorView;

    open spec fn view(&self) -> MethodDescriptorView {
        MethodDescriptorView { params: self.params@.map_values(|t: JvmType| t@), ret: self.ret@ }
    }
}

/// The parameter types from `off` up to the closing bracket, behind those of `acc`,
/// with the offset behind the bracket.
pub open spec fn spec_params(s: Seq<u8>, off: int, acc: Seq<TypeView>) -> Option<
    (Seq<TypeView>, int),
>
    decreases s.len() - off,
{
    if off < 0 || off >= s.len() {
        None
    } else if s[off] == CH_CLOSE {
        Some((acc, off + 1))
    } else {
        match spec_type_end(s, off) {
            Some(e) => if off < e <= s.len() {
                spec_params(s, e, acc.push(spec_type_at(s, off, e)))
            } else {
                None
            },
            None => None,
        }
    }
}

/// The method descriptor that the whole of `s` is: `(`, the parameter types, `)`, and a
/// return type, which is a field type or `V`.
pub open spec fn spec_method_descriptor(s: Seq<u8>) -> Option<MethodDescriptorView> {
    if s.len() == 0 || s[0] != CH_OPEN {
        None
    } else {
        match spec_params(s, 1, Seq::empty()) {
            None => None,
            Some((params, r)) => if r + 1 == s.len() && s[r] == CH_VOID {
                Some(
                    MethodDescriptorView {
                        params,
                        ret: TypeView::Primitive(JvmPrimitiveType::Void),
                    },
                )
            } else if spec_type_end(s, r) == Some(s.len() as int) {
                Some(MethodDescriptorView { params, ret: spec_type_at(s, r, s.len() as int) })
            } else {
                None
            },
        }
    }
}

/// The slots that the values of these types take together.
pub open spec fn total_slots(types: Seq<TypeView>) -> nat
    decreases types.len(),
{
    if types.len() == 0 {
        0
    } else {
        total_slots(types.drop_last()) + slots(types.last())
    }
}

/// The primitive kind that the descriptor letter `b` names.
pub fn primitive_of(b: u8) -> (r: Option<JvmPrimitiveType>)
    ensures
        r == spec_primitive_of(b),
{
    if b == CH_BYTE {
        Some(JvmPrimitiveType::Byte)
    } else if b == CH_CHAR {
        Some(JvmPrimitiveType::Char)
    } else if b == CH_DOUBLE {
        Some(JvmPrimitiveType::Double)
    } else if b == CH_FLOAT {
        Some(JvmPrimitiveType::Float)
    } else if b == CH_INT {
        Some(JvmPrimitiveType::Int)
    } else if b == CH_LONG {
        Some(JvmPrimitiveType::Long)
    } else if b == CH_SHORT {
        Some(JvmPrimitiveType::Short)
    } else if b == CH_BOOLEAN {
        Some(JvmPrimitiveType::Boolean)
    } else {
        None
    }
}

/// Where the field type that starts at `off` ends.
pub fn type_end(bytes: &[u8], off: usize) -> (r: Option<usize>)
    ensures
        match r {
            Some(e) => spec_type_end(bytes@, off as int) == Some(e as int) && off < e
                <= bytes@.len(),
            None => spec_type_end(bytes@, off as int) is None,
        },
{
    let mut i: usize = off;
    while i < bytes.len() && bytes[i] == CH_ARRAY
        invariant
            off <= i,
            spec_type_end(bytes@, off as int) == spec_type_end(bytes@, i as int),
        decreases bytes@.len() - i,
    {
        i = i + 1;
    }
    if i >= bytes.len() {
        return None;
    }
    let b: u8 = bytes[i];
    if primitive_of(b).is_some() {
        return Some(i + 1);
    }
    if b != CH_CLASS {
        return None;
    }
    let mut k: usize = i + 1;
    while k < bytes.len() && bytes[k] != CH_END
        invariant
            i < k,
            spec_name_end(bytes@, i + 1) == spec_name_end(bytes@, k as int),
        decreases bytes@.len() - k,
    {
        k = k + 1;
    }
    if k >= bytes.len() || k == i + 1 {
        None
    } else {
        Some(k + 1)
    }
}

impl JvmType {
    /// The field type that starts at `off`, with the offset behind it.
    pub fn parse_at(bytes: &[u8], off: usize) -> (r: Option<(JvmType, usize)>)
        ensures
            match r {
                Some((t, e)) => spec_type_end(bytes@, off as int) == Some(e as int) && t@
                    == spec_type_at(bytes@, off as int, e as int) && off < e <= bytes@.len(),
                None => spec_type_end(bytes@, off as int) is None,
            },
    {
        let end: usize = match type_end(bytes, off) {
            Some(e) => e,
            None => {
                return None;
            },
        };
        let b: u8 = bytes[off];
        if b == CH_CLASS {
            let name: Vec<u8> = copy_range(bytes, off + 1, end - 1);
            Some((JvmType::Reference(JvmReferenceType::Class(name)), end))
        } else if b == CH_ARRAY {
            let component: Vec<u8> = copy_range(bytes, off + 1, end);
            Some((JvmType::Reference(JvmReferenceType::Array(component)), end))
        } else {
            match primitive_of(b) {
                Some(p) => Some((JvmType::Primitive(p), end)),
                None => None,
            }
        }
    }

    /// The type that the whole of `descriptor` names as a field descriptor.
    pub fn from_descriptor(descriptor: &[u8]) -> (r: Option<JvmType>)
        ensures
            match r {
                Some(t) => spec_field_type(descriptor@) == Some(t@),
                None => spec_field_type(descriptor@) is None,
            },
    {
        match JvmType::parse_at(descriptor, 0) {
            Some((t, end)) => if end == descriptor.len() {
                Some(t)
            } else {
                None
            },
            None => None,
        }
    }

    /// The number of local-variable slots that a value of this type takes.
    pub fn slots(&self) -> (n: usize)
        ensures
            n == slots(self@),
    {
        match self {
            JvmType::Primitive(JvmPrimitiveType::Long) => 2,
            JvmType::Primitive(JvmPrimitiveType::Double) => 2,
            _ => 1,
        }
    }

    /// The value that a field or an array component of this type starts with: zero for
    /// a primitive, `Null` for a reference.
    pub fn default_value(&self) -> (v: JvmValue)
        ensures
            v == spec_default_value(self@),
    {
        match self {
            JvmType::Primitive(p) => JvmValue::Primitive(*p, 0),
            JvmType::Reference(_) => create_null_value(),
        }
    }
}

/// The value that a field or an array component of type `t` starts with.
pub open spec fn spec_default_value(t: TypeView) -> JvmValue {
    match t {
        TypeView::Primitive(p) => JvmValue::Primitive(p, 0),
        _ => JvmValue::Reference(JvmReferenceTargetType::Null),
    }
}

/// The null reference.
pub fn create_null_value() -> (v: JvmValue)
    ensures
        v == JvmValue::Reference(JvmReferenceTargetType::Null),
{
    JvmValue::Reference(JvmReferenceTargetType::Null)
}

impl MethodDescriptor {
    /// The method descriptor that the whole of `descriptor` is.
    pub fn parse(descriptor: &[u8]) -> (r: Option<MethodDescriptor>)
        ensures
            match r {
                Some(d) => spec_method_descriptor(descriptor@) == Some(d@),
                None => spec_method_descriptor(descriptor@) is None,
            },
    {
        if descriptor.len() == 0 || descriptor[0] != CH_OPEN {
            return None;
        }
        let mut params: Vec<JvmType> = Vec::new();
        let mut at: usize = 1;
        assert(params@.map_values(|t: JvmType| t@) =~= Seq::<TypeView>::empty());
        loop
            invariant
                1 <= at,
                spec_params(descriptor@, 1, Seq::empty()) == spec_params(
                    descriptor@,
                    at as int,
                    params@.map_values(|t: JvmType| t@),
                ),
            ensures
                at < descriptor@.len(),
                descriptor@[at as int] == CH_CLOSE,
            decreases descriptor@.len() - at,
        {
            if at >= descriptor.len() {
                return None;
            }
            if descriptor[at] == CH_CLOSE {
                break ;
            }
            let ghost before = params@.map_values(|t: JvmType| t@);
            match JvmType::parse_at(descriptor, at) {
                Some((t, end)) => {
                    let ghost tv = t@;
                    params.push(t);
                    assert(params@.map_values(|t: JvmType| t@) =~= before.push(tv));
                    at = end;
                },
                None => {
                    return None;
                },
            }
        }
        let r: usize = at + 1;
        if r < descriptor.len() && r + 1 == descriptor.len() && descriptor[r] == CH_VOID {
            return Some(
                MethodDescriptor { params, ret: JvmType::Primitive(JvmPrimitiveType::Void) },
            );
        }
        match JvmType::parse_at(descriptor, r) {
            Some((ret, end)) => if end == descriptor.len() {
                Some(MethodDescriptor { params, ret })
            } else {
                None
            },
            None => None,
        }
    }

    /// The slots that the parameters take together.
    pub fn param_slots(&self) -> (n: usize)
        requires
            2 * self@.params.len() <= usize::MAX,
        ensures
            n == total_slots(self@.params),
            n <= 2 * self@.params.len(),
    {
        let mut n: usize = 0;
        let mut i: usize = 0;
        let ghost all = self@.params;
        assert(all.take(0) =~= Seq::<TypeView>::empty());
        while i < self.params.len()
            invariant
                i <= self.params@.len(),
                2 * self.params@.len() <= usize::MAX,
                all == self@.params,
                n == total_slots(all.take(i as int)),
                n <= 2 * i,
            decreases self.params@.len() - i,
        {
            assert(all.take(i + 1).drop_last() =~= all.take(i as int));
            assert(all.take(i + 1).last() == self.params@[i as int]@);
            n = n + self.params[i].slots();
            i = i + 1;
        }
        assert(all.take(i as int) =~= all);
        n
    }
}

/// A type that was read from a descriptor has that descriptor.
pub proof fn lemma_type_round_trip(s: Seq<u8>, off: int)
    requires
        spec_type_end(s, off) is Some,
    ensures
        off < spec_type_end(s, off)->Some_0 <= s.len(),
        type_bytes(spec_type_at(s, off, spec_type_end(s, off)->Some_0)) == s.subrange(
            off,
            spec_type_end(s, off)->Some_0,
        ),
    decreases s.len() - off,
{
    let end = spec_type_end(s, off)->Some_0;
    if spec_primitive_of(s[off]) is Some {
        assert(type_bytes(spec_type_at(s, off, end)) =~= s.subrange(off, end));
    } else if s[off] == CH_CLASS {
        lemma_name_end(s, off + 1);
        assert(type_bytes(spec_type_at(s, off, end)) =~= s.subrange(off, end));
    } else {
        lemma_type_round_trip(s, off + 1);
        assert(type_bytes(spec_type_at(s, off, end)) =~= s.subrange(off, end));
    }
}

/// Where `spec_name_end` finds a `;`, it stands at that place.
pub proof fn lemma_name_end(s: Seq<u8>, from: int)
    requires
        spec_name_end(s, from) is Some,
    ensures
        from <= spec_name_end(s, from)->Some_0 < s.len(),
        s[spec_name_end(s, from)->Some_0] == CH_END,
    decreases s.len() - from,
{
    if s[from] != CH_END {
        lemma_name_end(s, from + 1);
    }
}

/// The `int` value `v` as a value of the machine.
pub open spec fn spec_int_value(v: i32) -> JvmValue {
    JvmValue::Primitive(JvmPrimitiveType::Int, unsigned32(v) as u64)
}

/// The `long` value `v` as a value of the machine.
pub open spec fn spec_long_value(v: i64) -> JvmValue {
    JvmValue::Primitive(JvmPrimitiveType::Long, unsigned64(v))
}

impl JvmValue {
    /// The number of operand-stack and local-variable slots that the value takes: two
    /// for a `long` or a `double`, one for any other value.
    pub open spec fn spec_category(self) -> nat {
        match self {
            JvmValue::Primitive(JvmPrimitiveType::Long, _) => 2,
            JvmValue::Primitive(JvmPrimitiveType::Double, _) => 2,
            _ => 1,
        }
    }

    /// The `int` that the value is; `None` for a value of another kind or with a payload
    /// wider than 32 bits.
    pub open spec fn spec_as_int(self) -> Option<i32> {
        match self {
            JvmValue::Primitive(JvmPrimitiveType::Int, bits) => if bits <= u32::MAX {
                Some(signed32(bits as u32))
            } else {
                None
            },
            _ => None,
        }
    }

    /// The `long` that the value is; `None` for a value of another kind.
    pub open spec fn spec_as_long(self) -> Option<i64> {
        match self {
            JvmValue::Primitive(JvmPrimitiveType::Long, bits) => Some(signed64(bits)),
            _ => None,
        }
    }

    /// The target of the reference that the value is; `None` for a primitive.
    pub open spec fn spec_as_reference(self) -> Option<JvmReferenceTargetType> {
        match self {
            JvmValue::Reference(t) => Some(t),
            _ => None,
        }
    }

    /// The number of slots that the value takes.
    pub fn category(&self) -> (n: usize)
        ensures
            n == self.spec_category(),
    {
        match self {
            JvmValue::Primitive(JvmPrimitiveType::Long, _) => 2,
            JvmValue::Primitive(JvmPrimitiveType::Double, _) => 2,
            _ => 1,
        }
    }

    /// The `int` value `v`.
    pub fn from_int(v: i32) -> (r: JvmValue)
        ensures
            r == spec_int_value(v),
            r.spec_as_int() == Some(v),
    {
        JvmValue::Primitive(JvmPrimitiveType::Int, from_i32(v) as u64)
    }

    /// The `long` value `v`.
    pub fn from_long(v: i64) -> (r: JvmValue)
        ensures
            r == spec_long_value(v),
            r.spec_as_long() == Some(v),
    {
        JvmValue::Primitive(JvmPrimitiveType::Long, from_i64(v))
    }

    /// The `int` that the value is.
    pub fn as_int(&self) -> (r: Option<i32>)
        ensures
            r == self.spec_as_int(),
    {
        match self {
            JvmValue::Primitive(JvmPrimitiveType::Int, bits) => if *bits <= 0xffff_ffff {
                Some(to_i32(*bits as u32))
            } else {
                None
            },
            _ => None,
        }
    }

    /// The `long` that the value is.
    pub fn as_long(&self) -> (r: Option<i64>)
        ensures
            r == self.spec_as_long(),
    {
        match self {
            JvmValue::Primitive(JvmPrimitiveType::Long, bits) => Some(to_i64(*bits)),
            _ => None,
        }
    }

    /// The target of the reference that the value is.
    pub fn as_reference(&self) -> (r: Option<JvmReferenceTargetType>)
        ensures
            r == self.spec_as_reference(),
    {
        match self {
            JvmValue::Reference(t) => Some(*t),
            _ => None,
        }
    }
}

} // verus!
