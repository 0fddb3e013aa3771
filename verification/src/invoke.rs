//! Invocation: the arguments of a call, the frame of the invoked method, and the
//! selection of the method that a call reaches.

use crate::code::{spec_code_of, CodeAttribute};
use crate::frame::{
    lemma_stack_slots_add, stack_slots, FatalError, Frame, FrameView,
};
use crate::methodarea::{AreaView, MemberRef, MethodArea};
use crate::typevalues::{
    slots, total_slots, JvmPrimitiveType, JvmType, JvmValue, MethodDescriptor, TypeView,
};
use vstd::prelude::*;

verus! {

/// Whether `v` is a value that a parameter of type `t` takes: an `int` for `boolean`,
/// `byte`, `char`, `short` and `int`, a value of the same kind for `long`, `float` and
/// `double`, a reference for a class or an array.
pub open spec fn value_has_type(v: JvmValue, t: TypeView) -> bool {
    match t {
        TypeView::Primitive(p) => match p {
            JvmPrimitiveType::Long => v matches JvmValue::Primitive(JvmPrimitiveType::Long, _),
            JvmPrimitiveType::Float => v matches JvmValue::Primitive(JvmPrimitiveType::Float, _),
            JvmPrimitiveType::Double => v matches JvmValue::Primitive(JvmPrimitiveType::Double, _),
            JvmPrimitiveType::Void => false,
            _ => v matches JvmValue::Primitive(JvmPrimitiveType::Int, _),
        },
        _ => v is Reference,
    }
}

/// Whether the values are as many as the types and each is of its type.
pub open spec fn values_have_types(values: Seq<JvmValue>, types: Seq<TypeView>) -> bool {
    &&& values.len() == types.len()
    &&& forall|i: int| 0 <= i < values.len() ==> value_has_type(#[trigger] values[i], types[i])
}

/// Whether `args` are the arguments of a call of a method with the parameter types
/// `params`: for an instance method a reference to the receiver first, then one value
/// of its type for each parameter.
pub open spec fn spec_args_match(args: Seq<JvmValue>, params: Seq<TypeView>, instance: bool) -> bool {
    if instance {
        args.len() >= 1 && args[0] is Reference && values_have_types(
            args.subrange(1, args.len() as int),
            params,
        )
    } else {
        values_have_types(args, params)
    }
}

/// What the local variables hold that no argument fills.
pub open spec fn filler() -> JvmValue {
    JvmValue::Primitive(JvmPrimitiveType::Int, 0)
}

/// The local variables that the arguments fill, in order: one for each value of one
/// slot, two for each `long` and `double`, both holding the value.
pub open spec fn spec_arg_slots(args: Seq<JvmValue>) -> Seq<JvmValue>
    decreases args.len(),
{
    if args.len() == 0 {
        Seq::empty()
    } else if args.last().spec_category() == 2 {
        spec_arg_slots(args.drop_last()) + seq![args.last(), args.last()]
    } else {
        spec_arg_slots(args.drop_last()) + seq![args.last()]
    }
}

/// The `max_locals` local variables of a new frame: those that the arguments fill, then
/// fillers. `None` where the arguments need more.
pub open spec fn spec_locals(args: Seq<JvmValue>, max_locals: nat) -> Option<Seq<JvmValue>> {
    if spec_arg_slots(args).len() > max_locals {
        None
    } else {
        Some(
            spec_arg_slots(args) + Seq::new(
                (max_locals - spec_arg_slots(args).len()) as nat,
                |i: int| filler(),
            ),
        )
    }
}

/// The frame of an invocation of the method `target` with the arguments `args`.
/// `UnknownClass` where the area holds no such method, `NoCode` where the method has no
/// `Code` attribute, `BadCode` where the attribute cannot be decoded, `BadLocal` where
/// the arguments need more local variables than the method has.
pub open spec fn spec_new_frame(
    area: AreaView,
    target: MemberRef,
    args: Seq<JvmValue>,
    resume: usize,
    initializes: Option<usize>,
) -> Result<FrameView, FatalError> {
    if target.class_id >= area.classes.len() || target.index
        >= area.classes[target.class_id as int].class.methods.len() {
        Err(FatalError::UnknownClass)
    } else {
        match spec_code_of(
            area.classes[target.class_id as int].class.constant_pool,
            area.classes[target.class_id as int].class.methods[target.index as int].attributes,
        ) {
            None => Err(FatalError::NoCode),
            Some(Err(_)) => Err(FatalError::BadCode),
            Some(Ok(code)) => match spec_locals(args, code.max_locals as nat) {
                None => Err(FatalError::BadLocal),
                Some(locals) => Ok(
                    FrameView {
                        pc: 0,
                        stack: Seq::empty(),
                        locals,
                        max_stack: code.max_stack,
                        class_id: target.class_id,
                        method_index: target.index,
                        code: code.code,
                        exception_table: code.exception_table,
                        resume,
                        initializes,
                    },
                ),
            },
        }
    }
}

/// The local variables that arguments fill are as many as the slots of the arguments.
pub proof fn lemma_arg_slots(args: Seq<JvmValue>)
    ensures
        spec_arg_slots(args).len() == stack_slots(args),
    decreases args.len(),
{
    if args.len() > 0 {
        lemma_arg_slots(args.drop_last());
    }
}

/// Values that have the types of a list of types take the slots of those types.
pub proof fn lemma_typed_slots(values: Seq<JvmValue>, types: Seq<TypeView>)
    requires
        values_have_types(values, types),
    ensures
        stack_slots(values) == total_slots(types),
    decreases values.len(),
{
    if values.len() > 0 {
        assert(value_has_type(values.last(), types.last()));
        assert forall|i: int| 0 <= i < values.drop_last().len() implies value_has_type(
            #[trigger] values.drop_last()[i],
            types.drop_last()[i],
        ) by {
            assert(value_has_type(values[i], types[i]));
        }
        lemma_typed_slots(values.drop_last(), types.drop_last());
    }
}

/// Slot accounting: for every invocation, the local variables that the arguments fill
/// are as many as the slots of the parameter types, two for each `long` and `double`
/// and one for each other, and one more for the receiver of an instance method.
pub proof fn lemma_slot_accounting(args: Seq<JvmValue>, params: Seq<TypeView>, instance: bool)
    requires
        spec_args_match(args, params, instance),
    ensures
        spec_arg_slots(args).len() == total_slots(params) + if instance {
            1nat
        } else {
            0nat
        },
{
    lemma_arg_slots(args);
    if instance {
        let rest = args.subrange(1, args.len() as int);
        let first = seq![args[0]];
        assert(args =~= first + rest);
        lemma_stack_slots_add(first, rest);
        lemma_typed_slots(rest, params);
        assert(first.drop_last() =~= Seq::<JvmValue>::empty());
        assert(stack_slots(Seq::<JvmValue>::empty()) == 0);
        assert(stack_slots(first) == 1);
    } else {
        lemma_typed_slots(args, params);
    }
}

/// Whether `v` is a value that a parameter of type `t` takes.
pub fn has_type(v: &JvmValue, t: &JvmType) -> (r: bool)
    ensures
        r == value_has_type(*v, t@),
{
    match t {
        JvmType::Primitive(p) => match p {
            JvmPrimitiveType::Long => match v {
                JvmValue::Primitive(JvmPrimitiveType::Long, _) => true,
                _ => false,
            },
            JvmPrimitiveType::Float => match v {
                JvmValue::Primitive(JvmPrimitiveType::Float, _) => true,
                _ => false,
            },
            JvmPrimitiveType::Double => match v {
                JvmValue::Primitive(JvmPrimitiveType::Double, _) => true,
                _ => false,
            },
            JvmPrimitiveType::Void => false,
            _ => match v {
                JvmValue::Primitive(JvmPrimitiveType::Int, _) => true,
                _ => false,
            },
        },
        JvmType::Reference(_) => match v {
            JvmValue::Reference(_) => true,
            _ => false,
        },
    }
}

/// Whether `args` are the arguments of a call of a method with the parameters of
/// `descriptor`.
pub fn args_match(args: &[JvmValue], descriptor: &MethodDescriptor, instance: bool) -> (r: bool)
    ensures
        r == spec_args_match(args@, descriptor@.params, instance),
{
    let first: usize = if instance {
        1
    } else {
        0
    };
    if instance {
        if args.len() < 1 {
            return false;
        }
        match args[0] {
            JvmValue::Reference(_) => {},
            _ => {
                return false;
            },
        }
    }
    if args.len() - first != descriptor.params.len() {
        return false;
    }
    let ghost values = args@.subrange(first as int, args@.len() as int);
    let ghost types = descriptor@.params;
    assert(!instance ==> values =~= args@);
    let mut i: usize = 0;
    while i < descriptor.params.len()
        invariant
            i <= descriptor.params@.len(),
            first <= 1,
            args@.len() - first == descriptor.params@.len(),
            values == args@.subrange(first as int, args@.len() as int),
            types == descriptor@.params,
            forall|k: int| 0 <= k < i ==> value_has_type(#[trigger] values[k], types[k]),
        decreases descriptor.params@.len() - i,
    {
        assert(types[i as int] == descriptor.params@[i as int]@);
        assert(values[i as int] == args@[first + i]);
        if !has_type(&args[first + i], &descriptor.params[i]) {
            return false;
        }
        i = i + 1;
    }
    true
}

/// The local variables of a new frame with `max_locals` variables.
pub fn make_locals(args: &[JvmValue], max_locals: u16) -> (r: Option<Vec<JvmValue>>)
    ensures
        match r {
            Some(locals) => spec_locals(args@, max_locals as nat) == Some(locals@),
            None => spec_locals(args@, max_locals as nat) is None,
        },
{
    let limit: usize = max_locals as usize;
    let mut locals: Vec<JvmValue> = Vec::new();
    let mut i: usize = 0;
    assert(args@.take(0) =~= Seq::<JvmValue>::empty());
    while i < args.len()
        invariant
            i <= args@.len(),
            limit == max_locals,
            locals@ == spec_arg_slots(args@.take(i as int)),
            locals@.len() <= limit,
        decreases args@.len() - i,
    {
        let v: JvmValue = args[i];
        assert(args@.take(i + 1).drop_last() =~= args@.take(i as int));
        assert(args@.take(i + 1).last() == v);
        proof {
            lemma_arg_slots_grow(args@, i as int + 1);
        }
        if v.category() == 2 {
            if locals.len() + 2 > limit {
                return None;
            }
            locals.push(v);
            locals.push(v);
            assert(locals@ =~= spec_arg_slots(args@.take(i as int)) + seq![v, v]);
        } else {
            if locals.len() + 1 > limit {
                return None;
            }
            locals.push(v);
            assert(locals@ =~= spec_arg_slots(args@.take(i as int)) + seq![v]);
        }
        i = i + 1;
    }
    assert(args@.take(i as int) =~= args@);
    let ghost used = locals@;
    while locals.len() < limit
        invariant
            used == spec_arg_slots(args@),
            used.len() <= locals@.len() <= limit,
            locals@.subrange(0, used.len() as int) == used,
            forall|k: int| used.len() <= k < locals@.len() ==> locals@[k] == filler(),
        decreases limit - locals@.len(),
    {
        locals.push(JvmValue::Primitive(JvmPrimitiveType::Int, 0));
    }
    assert(locals@ =~= spec_arg_slots(args@) + Seq::new(
        (limit - used.len()) as nat,
        |i: int| filler(),
    ));
    Some(locals)
}

/// The local variables that a longer run of arguments fills are no fewer.
pub proof fn lemma_arg_slots_grow(args: Seq<JvmValue>, upto: int)
    requires
        0 <= upto <= args.len(),
    ensures
        spec_arg_slots(args.take(upto)).len() <= spec_arg_slots(args).len(),
    decreases args.len() - upto,
{
    if upto < args.len() {
        assert(args.take(upto + 1).drop_last() =~= args.take(upto));
        lemma_arg_slots_grow(args, upto + 1);
    } else {
        assert(args.take(upto) =~= args);
    }
}

impl MethodArea {
    /// Makes the frame of an invocation of the method `target` with the arguments
    /// `args`.
    pub fn new_frame(
        &self,
        target: MemberRef,
        args: &[JvmValue],
        resume: usize,
        initializes: Option<usize>,
    ) -> (r: Result<Frame, FatalError>)
        ensures
            match r {
                Ok(f) => spec_new_frame(self@, target, args@, resume, initializes) == Ok::<
                    FrameView,
                    FatalError,
                >(f@),
                Err(e) => spec_new_frame(self@, target, args@, resume, initializes) == Err::<
                    FrameView,
                    FatalError,
                >(e),
            },
    {
        if target.class_id >= self.classes.len() {
            return Err(FatalError::UnknownClass);
        }
        assert(self@.classes[target.class_id as int] == self.classes@[target.class_id as int]@);
        let class = &self.classes[target.class_id].class;
        if target.index >= class.methods.items.len() {
            return Err(FatalError::UnknownClass);
        }
        let method = &class.methods.items[target.index];
        assert(class@.methods[target.index as int] == method@);
        let code: CodeAttribute = match CodeAttribute::of(&class.constant_pool, &method.attributes) {
            None => {
                return Err(FatalError::NoCode);
            },
            Some(Err(_)) => {
                return Err(FatalError::BadCode);
            },
            Some(Ok(c)) => c,
        };
        let locals: Vec<JvmValue> = match make_locals(args, code.max_locals) {
            Some(l) => l,
            None => {
                return Err(FatalError::BadLocal);
            },
        };
        Ok(
            Frame {
                pc: 0,
                stack: Vec::new(),
                locals,
                max_stack: code.max_stack,
                class_id: target.class_id,
                method_index: target.index,
                code: code.code,
                exception_table: code.exception_table,
                resume,
                initializes,
            },
        )
    }
}

} // verus!
