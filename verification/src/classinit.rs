//! Class initialization inside a thread: which initializers a first use of a class
//! starts, and in which order they run.
use crate::exceptions::JavaExceptionKind;
use crate::frame::{FatalError, FrameView};
use crate::initialization::{
    lemma_init_chain, lemma_occurrences_absent, lemma_occurrences_add, occurrences, started,
};
use crate::invoke::spec_new_frame;
use crate::jvmthread::{
    spec_raise, with_area, with_frames, JvmThread, Outcome, ThreadView,
};
use crate::methodarea::{
    spec_begin_init, spec_declares, spec_finish_init, spec_load, InitState, MemberRef,
};
use vstd::prelude::*;

verus! {

/// The bytes of the method name `<clinit>`.
pub open spec fn initializer_name() -> Seq<u8> {
    seq![60u8, 99, 108, 105, 110, 105, 116, 62]
}

/// The bytes of the descriptor `()V`.
pub open spec fn initializer_descriptor() -> Seq<u8> {
    seq![40u8, 41, 86]
}

/// What a first use of a class found.
#[derive(Clone, Copy, Debug, PartialEq, Eq, Structural)]
pub enum InitCheck {
    /// The class is initialized, or its initialization is under way in this thread:
    /// the instruction can go on.
    Ready,
    /// Frames for initializers were pushed: the instruction is to be carried out again
    /// once they have returned.
    Started,
    /// The initialization of the class had failed before.
    Errored,
    /// An invariant of the machine is broken.
    Fatal(FatalError),
}

/// The thread after the classes of `chain` from position `k` on were taken in hand: a
/// class without an initializer is `Initialized` at once; for a class with one, a frame
/// is pushed that runs it. `resume` is the program counter of the frame below the next
/// frame to be pushed. The first error ends the work.
pub open spec fn spec_init_frames(t: ThreadView, chain: Seq<usize>, k: int, resume: usize) -> (
    ThreadView,
    Option<FatalError>,
)
    decreases chain.len() - k,
{
    if k < 0 || k >= chain.len() {
        (t, None)
    } else if chain[k] >= t.area.classes.len() {
        (t, Some(FatalError::UnknownClass))
    } else {
        match spec_declares(
            t.area.classes[chain[k] as int],
            false,
            initializer_name(),
            Some(initializer_descriptor()),
        ) {
            None => spec_init_frames(
                with_area(t, spec_finish_init(t.area, chain[k] as int, true)),
                chain,
                k + 1,
                resume,
            ),
            Some(m) => match spec_new_frame(
                t.area,
                MemberRef { class_id: chain[k], index: m as usize },
                Seq::empty(),
                resume,
                Some(chain[k]),
            ) {
                Err(e) => (t, Some(e)),
                Ok(f) => spec_init_frames(with_frames(t, t.frames.push(f)), chain, k + 1, 0),
            },
        }
    }
}

/// The program counter of the top frame; 0 for a thread without frames.
pub open spec fn spec_current_pc(t: ThreadView) -> usize {
    if t.frames.len() == 0 {
        0
    } else {
        t.frames.last().pc
    }
}

/// The thread after class `cid` was used for the first time by an instruction.
///
/// A class that is `Initialized` or `Initializing` lets the instruction go on; the
/// second is the case of a use from inside the initializer of the class. A class that
/// is `Errored` is reported. For an `Uninitialized` class, the class and those of its
/// super classes that are `Uninitialized` become `Initializing`, and frames for their
/// initializers are pushed, that of the class first, so that the initializer of the
/// topmost super class runs first.
#[verifier::opaque]
pub open spec fn spec_ensure_initialized(t: ThreadView, cid: usize) -> (ThreadView, InitCheck) {
    if cid >= t.area.classes.len() {
        (t, InitCheck::Fatal(FatalError::UnknownClass))
    } else {
        match t.area.classes[cid as int].state {
            InitState::Initialized => (t, InitCheck::Ready),
            InitState::Initializing => (t, InitCheck::Ready),
            InitState::Errored => (t, InitCheck::Errored),
            InitState::Uninitialized => {
                let begun = spec_begin_init(t.area, cid as int);
                let pushed = spec_init_frames(
                    with_area(t, begun.0),
                    begun.1,
                    0,
                    spec_current_pc(t),
                );
                match pushed.1 {
                    Some(e) => (pushed.0, InitCheck::Fatal(e)),
                    None => if pushed.0.frames.len() > t.frames.len() {
                        (pushed.0, InitCheck::Started)
                    } else {
                        (pushed.0, InitCheck::Ready)
                    },
                }
            },
        }
    }
}

/// What the preparation of a class for an instruction gave: the identifier of the
/// class, ready for use, or the outcome of the step, which is over.
#[derive(Clone, Copy, Debug, PartialEq, Eq, Structural)]
pub enum Prepared {
    Ready(usize),
    Done(Outcome),
}

/// The thread after the class named `name` was prepared for an instruction that uses
/// it: the class is loaded if need be and, where `initialize` holds, initialized if need
/// be. A class that cannot be loaded, or whose initialization had failed, is answered
/// with `NoClassDefFound`.
#[verifier::opaque]
pub open spec fn spec_prepare_class(t: ThreadView, name: Seq<u8>, initialize: bool) -> (
    ThreadView,
    Prepared,
) {
    let loaded = spec_load(t.area, name);
    match loaded.1 {
        Err(_) => (
            spec_raise(with_area(t, loaded.0), JavaExceptionKind::NoClassDefFound).0,
            Prepared::Done(
                spec_raise(with_area(t, loaded.0), JavaExceptionKind::NoClassDefFound).1,
            ),
        ),
        Ok(cid) => if !initialize {
            (with_area(t, loaded.0), Prepared::Ready(cid as usize))
        } else {
            let checked = spec_ensure_initialized(with_area(t, loaded.0), cid as usize);
            match checked.1 {
                InitCheck::Ready => (checked.0, Prepared::Ready(cid as usize)),
                InitCheck::Started => (checked.0, Prepared::Done(Outcome::Continue)),
                InitCheck::Errored => (
                    spec_raise(checked.0, JavaExceptionKind::NoClassDefFound).0,
                    Prepared::Done(spec_raise(checked.0, JavaExceptionKind::NoClassDefFound).1),
                ),
                InitCheck::Fatal(e) => (checked.0, Prepared::Done(Outcome::Fatal(e))),
            }
        },
    }
}

impl JvmThread {
    /// The program counter of the top frame.
    pub fn current_pc(&self) -> (r: usize)
        ensures
            r == spec_current_pc(self@),
    {
        let n: usize = self.frames.len();
        if n == 0 {
            0
        } else {
            assert(self@.frames.last() == self.frames@[n - 1]@);
            self.frames[n - 1].pc
        }
    }

    /// Takes the classes of `chain` in hand, as `spec_init_frames` says.
    pub fn init_frames(&mut self, chain: &Vec<usize>, resume: usize) -> (r: Option<FatalError>)
        ensures
            (final(self)@, r) == spec_init_frames(old(self)@, chain@, 0, resume),
            final(self)@.frames.len() >= old(self)@.frames.len(),
    {
        let name: [u8; 8] = [60u8, 99, 108, 105, 110, 105, 116, 62];
        let descriptor: [u8; 3] = [40u8, 41, 86];
        assert(name@ =~= initializer_name());
        assert(descriptor@ =~= initializer_descriptor());
        let mut k: usize = 0;
        let mut below: usize = resume;
        while k < chain.len()
            invariant
                k <= chain@.len(),
                name@ == initializer_name(),
                descriptor@ == initializer_descriptor(),
                self@.frames.len() >= old(self)@.frames.len(),
                spec_init_frames(old(self)@, chain@, 0, resume) == spec_init_frames(
                    self@,
                    chain@,
                    k as int,
                    below,
                ),
            decreases chain@.len() - k,
        {
            let c: usize = chain[k];
            if c >= self.methodarea.classes.len() {
                return Some(FatalError::UnknownClass);
            }
            assert(self@.area.classes[c as int] == self.methodarea.classes@[c as int]@);
            match self.methodarea.classes[c].declares(
                false,
                name.as_slice(),
                Some(descriptor.as_slice()),
            ) {
                None => {
                    self.methodarea.finish_initialization(c, true);
                },
                Some(m) => {
                    let empty: [crate::typevalues::JvmValue; 0] = [];
                    assert(empty@ =~= Seq::<crate::typevalues::JvmValue>::empty());
                    match self.methodarea.new_frame(
                        MemberRef { class_id: c, index: m },
                        empty.as_slice(),
                        below,
                        Some(c),
                    ) {
                        Err(e) => {
                            return Some(e);
                        },
                        Ok(f) => {
                            let ghost before = self@.frames;
                            let ghost fv = f@;
                            self.frames.push(f);
                            assert(self@.frames =~= before.push(fv));
                            below = 0;
                        },
                    }
                },
            }
            k = k + 1;
        }
        None
    }

    /// Makes sure that class `cid` is initialized before an instruction uses it.
    pub fn ensure_initialized(&mut self, cid: usize) -> (r: InitCheck)
        ensures
            (final(self)@, r) == spec_ensure_initialized(old(self)@, cid),
    {
        reveal(spec_ensure_initialized);
        match self.methodarea.init_state(cid) {
            None => InitCheck::Fatal(FatalError::UnknownClass),
            Some(InitState::Initialized) => InitCheck::Ready,
            Some(InitState::Initializing) => InitCheck::Ready,
            Some(InitState::Errored) => InitCheck::Errored,
            Some(InitState::Uninitialized) => {
                let resume: usize = self.current_pc();
                let before: usize = self.frames.len();
                let chain: Vec<usize> = self.methodarea.begin_initialization(cid);
                match self.init_frames(&chain, resume) {
                    Some(e) => InitCheck::Fatal(e),
                    None => if self.frames.len() > before {
                        InitCheck::Started
                    } else {
                        InitCheck::Ready
                    },
                }
            },
        }
    }

    /// Loads the class named `name` for an instruction that uses it and, where
    /// `initialize` holds, initializes it.
    pub fn prepare_class(&mut self, name: &[u8], initialize: bool) -> (r: Prepared)
        ensures
            (final(self)@, r) == spec_prepare_class(old(self)@, name@, initialize),
            r matches Prepared::Ready(cid) ==> cid < final(self)@.area.classes.len(),
            r is Ready ==> final(self)@.frames == old(self)@.frames,
            r is Ready ==> final(self)@.heap == old(self)@.heap,
    {
        reveal(spec_prepare_class);
        let cid: usize = match self.methodarea.maybe_load_class(name) {
            Ok(cid) => cid,
            Err(_) => {
                return Prepared::Done(self.raise(JavaExceptionKind::NoClassDefFound));
            },
        };
        if !initialize {
            proof {
                crate::loading::lemma_load_extends(old(self)@.area, name@);
            }
            return Prepared::Ready(cid);
        }
        let ghost loaded = self@;
        match self.ensure_initialized(cid) {
            InitCheck::Ready => {
                proof {
                    lemma_ready_keeps_frames(loaded, cid);
                }
                Prepared::Ready(cid)
            },
            InitCheck::Started => Prepared::Done(Outcome::Continue),
            InitCheck::Errored => Prepared::Done(self.raise(JavaExceptionKind::NoClassDefFound)),
            InitCheck::Fatal(e) => Prepared::Done(Outcome::Fatal(e)),
        }
    }
}

/// Taking classes in hand never drops a frame, and leaves the heap alone.
pub proof fn lemma_init_frames_grow(t: ThreadView, chain: Seq<usize>, k: int, resume: usize)
    ensures
        spec_init_frames(t, chain, k, resume).0.frames.len() >= t.frames.len(),
        spec_init_frames(t, chain, k, resume).0.frames.len() == t.frames.len()
            ==> spec_init_frames(t, chain, k, resume).0.frames == t.frames,
        spec_init_frames(t, chain, k, resume).0.heap == t.heap,
        spec_init_frames(t, chain, k, resume).0.area.classes.len() == t.area.classes.len(),
    decreases chain.len() - k,
{
    if 0 <= k < chain.len() && chain[k] < t.area.classes.len() {
        match spec_declares(
            t.area.classes[chain[k] as int],
            false,
            initializer_name(),
            Some(initializer_descriptor()),
        ) {
            None => {
                lemma_init_frames_grow(
                    with_area(t, spec_finish_init(t.area, chain[k] as int, true)),
                    chain,
                    k + 1,
                    resume,
                );
            },
            Some(m) => match spec_new_frame(
                t.area,
                MemberRef { class_id: chain[k], index: m as usize },
                Seq::empty(),
                resume,
                Some(chain[k]),
            ) {
                Err(e) => {},
                Ok(f) => {
                    lemma_init_frames_grow(with_frames(t, t.frames.push(f)), chain, k + 1, 0);
                },
            },
        }
    }
}

/// Where a class is ready for use, the frames and the heap are what they were.
pub proof fn lemma_ready_keeps_frames(t: ThreadView, cid: usize)
    requires
        spec_ensure_initialized(t, cid).1 == InitCheck::Ready,
    ensures
        spec_ensure_initialized(t, cid).0.frames == t.frames,
        spec_ensure_initialized(t, cid).0.heap == t.heap,
        cid < spec_ensure_initialized(t, cid).0.area.classes.len(),
{
    reveal(spec_ensure_initialized);
    if cid < t.area.classes.len() && t.area.classes[cid as int].state == InitState::Uninitialized {
        let begun = spec_begin_init(t.area, cid as int);
        lemma_init_frames_grow(with_area(t, begun.0), begun.1, 0, spec_current_pc(t));
    }
}

/// The number of frames that run the initializer of class `c`.
pub open spec fn initializer_frames(frames: Seq<FrameView>, c: usize) -> nat
    decreases frames.len(),
{
    if frames.len() == 0 {
        0
    } else {
        initializer_frames(frames.drop_last(), c) + if frames.last().initializes == Some(c) {
            1nat
        } else {
            0nat
        }
    }
}

/// Taking the classes of a chain in hand pushes at most one initializer frame for each
/// place that a class has in the chain.
pub proof fn lemma_init_frames_count(
    t: ThreadView,
    chain: Seq<usize>,
    k: int,
    resume: usize,
    c: usize,
)
    requires
        0 <= k <= chain.len(),
    ensures
        initializer_frames(spec_init_frames(t, chain, k, resume).0.frames, c)
            <= initializer_frames(t.frames, c) + occurrences(
            chain.subrange(k, chain.len() as int),
            c,
        ),
    decreases chain.len() - k,
{
    if k < chain.len() && chain[k] < t.area.classes.len() {
        let rest = chain.subrange(k + 1, chain.len() as int);
        assert(chain.subrange(k, chain.len() as int) =~= seq![chain[k]] + rest);
        lemma_occurrences_add(seq![chain[k]], rest, c);
        assert(seq![chain[k]].drop_last() =~= Seq::<usize>::empty());
        assert(occurrences(Seq::<usize>::empty(), c) == 0);
        match spec_declares(
            t.area.classes[chain[k] as int],
            false,
            initializer_name(),
            Some(initializer_descriptor()),
        ) {
            None => {
                lemma_init_frames_count(
                    with_area(t, spec_finish_init(t.area, chain[k] as int, true)),
                    chain,
                    k + 1,
                    resume,
                    c,
                );
            },
            Some(m) => match spec_new_frame(
                t.area,
                MemberRef { class_id: chain[k], index: m as usize },
                Seq::empty(),
                resume,
                Some(chain[k]),
            ) {
                Err(e) => {},
                Ok(f) => {
                    assert(t.frames.push(f).drop_last() =~= t.frames);
                    lemma_init_frames_count(with_frames(t, t.frames.push(f)), chain, k + 1, 0, c);
                },
            },
        }
    }
}

/// A use of a class starts the initializer of any class at most once, and only that of
/// a class that was `Uninitialized`: a use from inside the initializer of the class, or
/// of a class that is initialized, pushes no frame for it.
pub proof fn lemma_use_initializes_once(t: ThreadView, cid: usize, c: usize)
    ensures
        initializer_frames(spec_ensure_initialized(t, cid).0.frames, c) <= initializer_frames(
            t.frames,
            c,
        ) + 1,
        started(t.area, c) ==> initializer_frames(spec_ensure_initialized(t, cid).0.frames, c)
            <= initializer_frames(t.frames, c),
{
    reveal(spec_ensure_initialized);
    if cid < t.area.classes.len() && t.area.classes[cid as int].state == InitState::Uninitialized {
        let begun = spec_begin_init(t.area, cid as int);
        lemma_init_chain(t.area.classes, cid as int, c);
        lemma_init_frames_count(with_area(t, begun.0), begun.1, 0, spec_current_pc(t), c);
        assert(begun.1.subrange(0, begun.1.len() as int) =~= begun.1);
        if started(t.area, c) {
            lemma_occurrences_absent(begun.1, c);
        }
    }
}

} // verus!
