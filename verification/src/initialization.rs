//! Class initialization over a whole run: no class is started twice.
use crate::loading::lemma_load_extends;
use crate::methodarea::{
    spec_begin_init, spec_finish_init, spec_init_chain, spec_load, spec_set_static, AreaView,
    InitState, LoadedClassView,
};
use crate::typevalues::JvmValue;
use vstd::prelude::*;

verus! {

/// One change of the method area during a run.
pub enum AreaEvent {
    /// The class of this name is loaded, with all it builds on.
    Load(Seq<u8>),
    /// A static field of a class gets a value.
    SetStatic(int, Seq<u8>, JvmValue),
    /// The initialization of a class is asked for.
    Request(int),
    /// The initializer of a class has returned.
    Finished(int),
    /// The initializer of a class has ended with an exception.
    Failed(int),
}

/// The area after one event, and the classes whose initializers the event starts.
pub open spec fn spec_event(area: AreaView, event: AreaEvent) -> (AreaView, Seq<usize>) {
    match event {
        AreaEvent::Load(name) => (spec_load(area, name).0, Seq::empty()),
        AreaEvent::SetStatic(cid, name, value) => (
            spec_set_static(area, cid, name, value),
            Seq::empty(),
        ),
        AreaEvent::Request(cid) => spec_begin_init(area, cid),
        AreaEvent::Finished(cid) => (spec_finish_init(area, cid, true), Seq::empty()),
        AreaEvent::Failed(cid) => (spec_finish_init(area, cid, false), Seq::empty()),
    }
}

/// The area after a run of events, and the classes whose initializers were started
/// during it, in the order in which they were started.
pub open spec fn spec_run(area: AreaView, events: Seq<AreaEvent>) -> (AreaView, Seq<usize>)
    decreases events.len(),
{
    if events.len() == 0 {
        (area, Seq::empty())
    } else {
        (
            spec_event(spec_run(area, events.drop_last()).0, events.last()).0,
            spec_run(area, events.drop_last()).1 + spec_event(
                spec_run(area, events.drop_last()).0,
                events.last(),
            ).1,
        )
    }
}

/// How often `c` occurs in `s`.
pub open spec fn occurrences(s: Seq<usize>, c: usize) -> nat
    decreases s.len(),
{
    if s.len() == 0 {
        0
    } else {
        occurrences(s.drop_last(), c) + if s.last() == c {
            1nat
        } else {
            0nat
        }
    }
}

/// Class `c` has been started at some time: it is in the area and no longer
/// `Uninitialized`.
pub open spec fn started(area: AreaView, c: usize) -> bool {
    c < area.classes.len() && area.classes[c as int].state != InitState::Uninitialized
}

/// The occurrences in two sequences put together add up.
pub proof fn lemma_occurrences_add(a: Seq<usize>, b: Seq<usize>, c: usize)
    ensures
        occurrences(a + b, c) == occurrences(a, c) + occurrences(b, c),
    decreases b.len(),
{
    if b.len() == 0 {
        assert(a + b =~= a);
    } else {
        assert((a + b).drop_last() =~= a + b.drop_last());
        lemma_occurrences_add(a, b.drop_last(), c);
    }
}

/// A value that a sequence does not hold occurs in it zero times.
pub proof fn lemma_occurrences_absent(s: Seq<usize>, c: usize)
    requires
        forall|k: int| 0 <= k < s.len() ==> s[k] != c,
    ensures
        occurrences(s, c) == 0,
    decreases s.len(),
{
    if s.len() > 0 {
        lemma_occurrences_absent(s.drop_last(), c);
    }
}

/// The chain of a request holds each class at most once, only classes that were
/// `Uninitialized`, and none with an identifier above that of the class asked for.
pub proof fn lemma_init_chain(classes: Seq<LoadedClassView>, cid: int, c: usize)
    ensures
        occurrences(spec_init_chain(classes, cid), c) <= 1,
        forall|k: int|
            0 <= k < spec_init_chain(classes, cid).len() ==> {
                &&& (#[trigger] spec_init_chain(classes, cid)[k]) <= cid
                &&& spec_init_chain(classes, cid)[k] < classes.len()
                &&& classes[spec_init_chain(classes, cid)[k] as int].state
                    == InitState::Uninitialized
            },
        occurrences(spec_init_chain(classes, cid), c) == 1 ==> spec_init_chain(
            classes,
            cid,
        ).contains(c),
    decreases cid,
{
    let chain = spec_init_chain(classes, cid);
    if 0 <= cid < classes.len() && cid <= usize::MAX && classes[cid].state
        == InitState::Uninitialized {
        let rest = match classes[cid].super_id {
            Some(s) => if s < cid {
                spec_init_chain(classes, s as int)
            } else {
                Seq::empty()
            },
            None => Seq::empty(),
        };
        assert(chain == seq![cid as usize] + rest);
        match classes[cid].super_id {
            Some(s) => if s < cid {
                lemma_init_chain(classes, s as int, c);
            },
            None => {},
        }
        lemma_occurrences_add(seq![cid as usize], rest, c);
        assert(seq![cid as usize].drop_last() =~= Seq::<usize>::empty());
        assert(occurrences(Seq::<usize>::empty(), c) == 0);
        assert(occurrences(seq![cid as usize], c) == if cid as usize == c {
            1nat
        } else {
            0nat
        });
        if cid as usize == c {
            lemma_occurrences_absent(rest, c);
            assert(chain[0] == c);
        } else if occurrences(rest, c) == 1 {
            let k = choose|k: int| 0 <= k < rest.len() && rest[k] == c;
            assert(chain[k + 1] == c);
        }
    }
}

/// One event starts a class at most once, starts no class that was started before, and
/// leaves every started class started.
pub proof fn lemma_event(area: AreaView, event: AreaEvent, c: usize)
    ensures
        occurrences(spec_event(area, event).1, c) <= 1,
        started(area, c) ==> occurrences(spec_event(area, event).1, c) == 0,
        started(area, c) ==> started(spec_event(area, event).0, c),
        occurrences(spec_event(area, event).1, c) == 1 ==> started(spec_event(area, event).0, c),
{
    match event {
        AreaEvent::Load(name) => {
            lemma_load_extends(area, name);
        },
        AreaEvent::SetStatic(cid, name, value) => {},
        AreaEvent::Request(cid) => {
            lemma_init_chain(area.classes, cid, c);
            let chain = spec_init_chain(area.classes, cid);
            if started(area, c) {
                lemma_occurrences_absent(chain, c);
            }
        },
        AreaEvent::Finished(cid) => {},
        AreaEvent::Failed(cid) => {},
    }
}

/// Initialization is unique: in any run of loads, static stores, requests for
/// initialization and ends of initializers, from any area, the initializer of a class is
/// started at most once. A class that was `Initializing`, `Initialized` or `Errored`
/// when the run began is never started in it, so a request that comes from inside the
/// initializer of the class starts nothing.
pub proof fn lemma_initialized_at_most_once(area: AreaView, events: Seq<AreaEvent>, c: usize)
    ensures
        occurrences(spec_run(area, events).1, c) <= 1,
        started(area, c) ==> occurrences(spec_run(area, events).1, c) == 0,
        started(area, c) ==> started(spec_run(area, events).0, c),
        occurrences(spec_run(area, events).1, c) == 1 ==> started(spec_run(area, events).0, c),
    decreases events.len(),
{
    if events.len() > 0 {
        let before = spec_run(area, events.drop_last());
        lemma_initialized_at_most_once(area, events.drop_last(), c);
        lemma_event(before.0, events.last(), c);
        lemma_occurrences_add(before.1, spec_event(before.0, events.last()).1, c);
    }
}

} // verus!
