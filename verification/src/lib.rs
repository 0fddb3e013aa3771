//! A small Java virtual machine core: class-file reader, constant pool,
//! method area, heap, frames and a bytecode interpreter.
pub mod arith;
pub mod array;
pub mod attribute;
pub mod bytes;
pub mod calls;
pub mod class;
pub mod classinit;
pub mod code;
pub mod constant;
pub mod constantpool;
pub mod control;
pub mod dispatch;
pub mod error;
pub mod exceptions;
pub mod field;
pub mod floats;
pub mod format;
pub mod frame;
pub mod heap;
pub mod heapops;
pub mod initialization;
pub mod instruction;
pub mod interpreter;
pub mod invoke;
pub mod jvmthread;
pub mod loading;
pub mod local;
pub mod member;
pub mod method;
pub mod methodarea;
pub mod natives;
pub mod object;
pub mod text;
pub mod typetest;
pub mod typevalues;

use crate::bytes::copy_range;
use crate::interpreter::{spec_launch, spec_run, text_views};
use crate::jvmthread::{spec_fresh, JvmThread, Outcome, ThreadView};
use crate::methodarea::{AreaView, ClassSource, ClassSourceView, MethodArea};
use crate::text::string_bytes;
use vstd::prelude::*;
use vstd::utf8::encode_utf8;

verus! {

/// The virtual machine: its settings, from which threads are started.
#[derive(Debug)]
pub struct Jvm {
    pub debug: bool,
}

/// What a run of the machine gave.
#[derive(Debug)]
pub struct RunReport {
    /// Whether the first method returned: the thread ended `Halted`.
    pub success: bool,
    /// How the last step ended.
    pub outcome: Outcome,
    /// The thread as the run left it, with the result of the first method, what the
    /// program printed, and the exception that ended it.
    pub thread: JvmThread,
}

/// A new thread over the classes of a search path.
pub open spec fn spec_new_thread(search_path: Seq<ClassSourceView>, debug: bool) -> ThreadView {
    spec_fresh(AreaView { classes: Seq::empty(), search_path }, debug)
}

/// The thread at the end of a run: started with a method of a class, then run for at
/// most `max_steps` steps.
pub open spec fn spec_jvm_run(
    debug: bool,
    search_path: Seq<ClassSourceView>,
    class: Seq<u8>,
    function: Seq<u8>,
    texts: Seq<Seq<u8>>,
    max_steps: nat,
) -> (ThreadView, Outcome) {
    let launched = spec_launch(spec_new_thread(search_path, debug), class, function, texts);
    if launched.1 == Outcome::Continue {
        spec_run(launched.0, max_steps)
    } else {
        launched
    }
}

/// The UTF-8 bytes of each string.
pub open spec fn string_texts(args: Seq<String>) -> Seq<Seq<u8>> {
    args.map_values(|s: String| encode_utf8(s@))
}

impl Jvm {
    /// A machine with the given debug setting. This never fails.
    pub fn new(debug: bool) -> (r: Option<Jvm>)
        ensures
            r == Some(Jvm { debug }),
    {
        Some(Jvm { debug })
    }

    /// Runs the first method named `start_function` of the class named `start_class`,
    /// with `args` as the strings of its argument, over the class files of
    /// `search_path`, for at most `max_steps` steps. The run has succeeded where the
    /// method has returned.
    pub fn run(
        &self,
        search_path: Vec<ClassSource>,
        start_class: &String,
        start_function: &String,
        args: &[String],
        max_steps: u64,
    ) -> (r: RunReport)
        ensures
            ({
                let end = spec_jvm_run(
                    self.debug,
                    search_path@.map_values(|s: ClassSource| s@),
                    encode_utf8(start_class@),
                    encode_utf8(start_function@),
                    string_texts(args@),
                    max_steps as nat,
                );
                &&& r.outcome == end.1
                &&& r.success == (end.1 == Outcome::Halted)
                &&& r.thread@ == end.0
            }),
    {
        let mut texts: Vec<Vec<u8>> = Vec::new();
        let mut i: usize = 0;
        while i < args.len()
            invariant
                i <= args@.len(),
                texts@.len() == i,
                forall|k: int| 0 <= k < i ==> (#[trigger] texts@[k])@ == encode_utf8(args@[k]@),
            decreases args@.len() - i,
        {
            let bytes: &[u8] = string_bytes(&args[i]);
            let owned: Vec<u8> = copy_range(bytes, 0, bytes.len());
            assert(owned@ =~= bytes@);
            texts.push(owned);
            i = i + 1;
        }
        assert(text_views(texts@) =~= string_texts(args@));
        let area: MethodArea = MethodArea::new(search_path);
        let mut thread: JvmThread = JvmThread::new(area, self.debug);
        let launched: Outcome = thread.launch(
            string_bytes(start_class),
            string_bytes(start_function),
            &texts,
        );
        let outcome: Outcome = match launched {
            Outcome::Continue => thread.run_steps(max_steps),
            other => other,
        };
        let success: bool = match outcome {
            Outcome::Halted => true,
            _ => false,
        };
        RunReport { success, outcome, thread }
    }
}

} // verus!
