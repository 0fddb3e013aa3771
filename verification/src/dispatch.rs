//! Which method a call reaches: the laws of selection.
use crate::calls::{spec_select, spec_start_class};
use crate::frame::Step;
use crate::instruction::InvokeKind;
use crate::jvmthread::ThreadView;
use crate::methodarea::{
    spec_declares, spec_find_class, spec_in_chain, spec_lookup, LoadedClassView, MemberRef,
};
use crate::typevalues::{JvmReferenceTargetType, JvmValue};
use vstd::prelude::*;

verus! {

/// The identifiers of class `cid` and of its super classes, from the class upwards.
pub open spec fn spec_super_chain(classes: Seq<LoadedClassView>, cid: int) -> Seq<int>
    decreases cid,
{
    if cid < 0 || cid >= classes.len() {
        Seq::empty()
    } else {
        seq![cid] + (match classes[cid].super_id {
            Some(s) => if s < cid {
                spec_super_chain(classes, s as int)
            } else {
                Seq::empty()
            },
            None => Seq::empty(),
        })
    }
}

/// Whether the class at position `k` of the chain is the first of the chain that
/// declares the member, and declares it at position `index`.
pub open spec fn first_declaring(
    classes: Seq<LoadedClassView>,
    chain: Seq<int>,
    k: int,
    index: usize,
    field: bool,
    name: Seq<u8>,
    descriptor: Option<Seq<u8>>,
) -> bool {
    &&& 0 <= k < chain.len()
    &&& 0 <= chain[k] < classes.len()
    &&& spec_declares(classes[chain[k]], field, name, descriptor) matches Some(i) && i as usize
        == index
    &&& forall|j: int|
        0 <= j < k ==> spec_declares(classes[#[trigger] chain[j]], field, name, descriptor) is None
}

/// The search up the super classes finds the member in the most derived class that
/// declares it: the class found is on the chain of super classes, it declares the
/// member, and no class before it on the chain does. Where the search finds nothing, no
/// class of the chain declares the member.
pub proof fn lemma_chain_most_derived(
    classes: Seq<LoadedClassView>,
    cid: int,
    field: bool,
    name: Seq<u8>,
    descriptor: Option<Seq<u8>>,
)
    requires
        classes.len() <= usize::MAX,
    ensures
        match spec_in_chain(classes, cid, field, name, descriptor) {
            Some(m) => exists|k: int|
                spec_super_chain(classes, cid)[k] == m.class_id && first_declaring(
                    classes,
                    spec_super_chain(classes, cid),
                    k,
                    m.index,
                    field,
                    name,
                    descriptor,
                ),
            None => forall|j: int|
                0 <= j < spec_super_chain(classes, cid).len() ==> spec_declares(
                    classes[#[trigger] spec_super_chain(classes, cid)[j]],
                    field,
                    name,
                    descriptor,
                ) is None,
        },
        forall|j: int|
            0 <= j < spec_super_chain(classes, cid).len() ==> 0 <= #[trigger] spec_super_chain(
                classes,
                cid,
            )[j] < classes.len(),
    decreases cid,
{
    let chain = spec_super_chain(classes, cid);
    lemma_super_chain_in_range(classes, cid);
    if 0 <= cid < classes.len() {
        crate::class::lemma_member_position(
            classes[cid].class.constant_pool,
            if field {
                classes[cid].class.fields
            } else {
                classes[cid].class.methods
            },
            name,
            descriptor,
            0,
        );
        match spec_declares(classes[cid], field, name, descriptor) {
            Some(index) => {
                let m = spec_in_chain(classes, cid, field, name, descriptor)->Some_0;
                assert(chain[0] == cid);
                assert(first_declaring(classes, chain, 0, m.index, field, name, descriptor));
            },
            None => {
                match classes[cid].super_id {
                    Some(s) => if s < cid {
                        lemma_chain_most_derived(classes, s as int, field, name, descriptor);
                        let rest = spec_super_chain(classes, s as int);
                        assert(chain == seq![cid] + rest);
                        assert forall|j: int| 0 <= j < chain.len() implies 0 <= #[trigger] chain[j]
                            < classes.len() by {
                            if j > 0 {
                                assert(chain[j] == rest[j - 1]);
                            }
                        }
                        match spec_in_chain(classes, s as int, field, name, descriptor) {
                            Some(m) => {
                                let k = choose|k: int|
                                    rest[k] == m.class_id && first_declaring(
                                        classes,
                                        rest,
                                        k,
                                        m.index,
                                        field,
                                        name,
                                        descriptor,
                                    );
                                assert(chain[k + 1] == rest[k]);
                                assert forall|j: int| 0 <= j < k + 1 implies spec_declares(
                                    classes[#[trigger] chain[j]],
                                    field,
                                    name,
                                    descriptor,
                                ) is None by {
                                    if j > 0 {
                                        assert(chain[j] == rest[j - 1]);
                                    }
                                }
                                assert(first_declaring(
                                    classes,
                                    chain,
                                    k + 1,
                                    m.index,
                                    field,
                                    name,
                                    descriptor,
                                ));
                            },
                            None => {
                                assert forall|j: int| 0 <= j < chain.len() implies spec_declares(
                                    classes[#[trigger] chain[j]],
                                    field,
                                    name,
                                    descriptor,
                                ) is None by {
                                    if j > 0 {
                                        assert(chain[j] == rest[j - 1]);
                                    }
                                }
                            },
                        }
                    } else {
                        assert(chain =~= seq![cid]);
                    },
                    None => {
                        assert(chain =~= seq![cid]);
                    },
                }
            },
        }
    }
}

/// Every identifier on the chain of super classes names a loaded class.
pub proof fn lemma_super_chain_in_range(classes: Seq<LoadedClassView>, cid: int)
    ensures
        forall|j: int|
            0 <= j < spec_super_chain(classes, cid).len() ==> 0 <= #[trigger] spec_super_chain(
                classes,
                cid,
            )[j] < classes.len(),
    decreases cid,
{
    if 0 <= cid < classes.len() {
        match classes[cid].super_id {
            Some(s) => if s < cid {
                lemma_super_chain_in_range(classes, s as int);
                let rest = spec_super_chain(classes, s as int);
                let chain = spec_super_chain(classes, cid);
                assert forall|j: int| 0 <= j < chain.len() implies 0 <= #[trigger] chain[j]
                    < classes.len() by {
                    if j > 0 {
                        assert(chain[j] == rest[j - 1]);
                    }
                }
            },
            None => {},
        }
    }
}

/// A special call selects the method of the class that the reference names, whatever
/// the receiver is: two calls that differ in nothing but their receivers, neither of
/// them null, reach the same method, the one that a search from the named class finds.
pub proof fn lemma_special_ignores_receiver(
    t: ThreadView,
    args: Seq<JvmValue>,
    other: Seq<JvmValue>,
    declared: usize,
    name: Seq<u8>,
    descriptor: Seq<u8>,
)
    requires
        spec_start_class(t, InvokeKind::Special, args, declared) is Ok,
        spec_start_class(t, InvokeKind::Special, other, declared) is Ok,
    ensures
        spec_select(t, InvokeKind::Special, args, declared, name, descriptor) == spec_select(
            t,
            InvokeKind::Special,
            other,
            declared,
            name,
            descriptor,
        ),
        spec_select(t, InvokeKind::Special, args, declared, name, descriptor) == Ok::<
            Option<MemberRef>,
            Step,
        >(spec_lookup(t.area.classes, declared as int, false, name, Some(descriptor))),
{
}

/// A virtual call on an object selects the most derived override: the search starts at
/// the class of the receiver, not at the class that the reference names, and where a
/// class of the receiver's chain of super classes declares the method, the first such
/// class on the way up is the one whose method is reached. A method that the class of
/// the receiver declares itself is reached in any case.
pub proof fn lemma_virtual_selects_most_derived(
    t: ThreadView,
    args: Seq<JvmValue>,
    declared: usize,
    name: Seq<u8>,
    descriptor: Seq<u8>,
    id: usize,
    receiver: int,
)
    requires
        t.area.classes.len() <= usize::MAX,
        args.len() >= 1,
        args[0] == JvmValue::Reference(JvmReferenceTargetType::Object(id)),
        id < t.heap.objects.len(),
        t.heap.objects[id as int].len() >= 1,
        spec_find_class(t.area.classes, t.heap.objects[id as int][0].class_name, 0) == Some(
            receiver,
        ),
    ensures
        spec_select(t, InvokeKind::Virtual, args, declared, name, descriptor) == Ok::<
            Option<MemberRef>,
            Step,
        >(spec_lookup(t.area.classes, receiver, false, name, Some(descriptor))),
        spec_in_chain(t.area.classes, receiver, false, name, Some(descriptor)) matches Some(m)
            ==> spec_select(t, InvokeKind::Virtual, args, declared, name, descriptor) == Ok::<
            Option<MemberRef>,
            Step,
        >(Some(m)) && exists|k: int|
            spec_super_chain(t.area.classes, receiver)[k] == m.class_id && first_declaring(
                t.area.classes,
                spec_super_chain(t.area.classes, receiver),
                k,
                m.index,
                false,
                name,
                Some(descriptor),
            ),
        spec_declares(t.area.classes[receiver], false, name, Some(descriptor)) matches Some(i)
            ==> spec_select(t, InvokeKind::Virtual, args, declared, name, descriptor) == Ok::<
            Option<MemberRef>,
            Step,
        >(Some(MemberRef { class_id: receiver as usize, index: i as usize })),
{
    crate::loading::lemma_find_class(t.area.classes, t.heap.objects[id as int][0].class_name, 0);
    lemma_chain_most_derived(t.area.classes, receiver, false, name, Some(descriptor));
}

} // verus!
