//! Exceptions that the machine raises itself, and the search for a handler.
use crate::code::ExceptionEntry;
use crate::constant::ConstantView;
use crate::constantpool::{spec_class_name, ConstantPool};
use crate::object::{spec_is_type_of, JvmObject, LayerView};
use vstd::prelude::*;

verus! {

/// The exceptions that the machine raises on its own account.
#[derive(Clone, Copy, Debug, PartialEq, Eq, Structural)]
pub enum JavaExceptionKind {
    /// A null reference was used where an object or an array is needed.
    NullPointer,
    /// An array was read or written outside its bounds.
    ArrayIndexOutOfBounds,
    /// An integer was divided by zero.
    Arithmetic,
    /// A reference was cast to a class that its object does not belong to.
    ClassCast,
    /// An array of negative length was asked for.
    NegativeArraySize,
    /// The initializer of a class ended with an exception.
    ExceptionInInitializer,
    /// A class could not be loaded, or its initialization had failed before.
    NoClassDefFound,
    /// A field or a method that the code refers to does not exist.
    Linkage,
}

/// The name of the class of the exception object for `kind`.
pub open spec fn exception_class(kind: JavaExceptionKind) -> Seq<u8> {
    match kind {
        // java/lang/NullPointerException
        JavaExceptionKind::NullPointer => seq![
            106u8, 97, 118, 97, 47, 108, 97, 110, 103, 47, 78, 117, 108, 108, 80, 111, 105, 110, 116, 101, 114, 69, 120, 99, 101, 112, 116, 105, 111, 110,
        ],
        // java/lang/ArrayIndexOutOfBoundsException
        JavaExceptionKind::ArrayIndexOutOfBounds => seq![
            106u8, 97, 118, 97, 47, 108, 97, 110, 103, 47, 65, 114, 114, 97, 121, 73, 110, 100, 101, 120, 79, 117, 116, 79, 102, 66, 111, 117, 110, 100, 115, 69, 120, 99, 101, 112, 116, 105, 111, 110,
        ],
        // java/lang/ArithmeticException
        JavaExceptionKind::Arithmetic => seq![
            106u8, 97, 118, 97, 47, 108, 97, 110, 103, 47, 65, 114, 105, 116, 104, 109, 101, 116, 105, 99, 69, 120, 99, 101, 112, 116, 105, 111, 110,
        ],
        // java/lang/ClassCastException
        JavaExceptionKind::ClassCast => seq![
            106u8, 97, 118, 97, 47, 108, 97, 110, 103, 47, 67, 108, 97, 115, 115, 67, 97, 115, 116, 69, 120, 99, 101, 112, 116, 105, 111, 110,
        ],
        // java/lang/NegativeArraySizeException
        JavaExceptionKind::NegativeArraySize => seq![
            106u8, 97, 118, 97, 47, 108, 97, 110, 103, 47, 78, 101, 103, 97, 116, 105, 118, 101, 65, 114, 114, 97, 121, 83, 105, 122, 101, 69, 120, 99, 101, 112, 116, 105, 111, 110,
        ],
        // java/lang/ExceptionInInitializerError
        JavaExceptionKind::ExceptionInInitializer => seq![
            106u8, 97, 118, 97, 47, 108, 97, 110, 103, 47, 69, 120, 99, 101, 112, 116, 105, 111, 110, 73, 110, 73, 110, 105, 116, 105, 97, 108, 105, 122, 101, 114, 69, 114, 114, 111, 114,
        ],
        // java/lang/NoClassDefFoundError
        JavaExceptionKind::NoClassDefFound => seq![
            106u8, 97, 118, 97, 47, 108, 97, 110, 103, 47, 78, 111, 67, 108, 97, 115, 115, 68, 101, 102, 70, 111, 117, 110, 100, 69, 114, 114, 111, 114,
        ],
        // java/lang/LinkageError
        JavaExceptionKind::Linkage => seq![
            106u8, 97, 118, 97, 47, 108, 97, 110, 103, 47, 76, 105, 110, 107, 97, 103, 101, 69, 114, 114, 111, 114,
        ],
    }
}

/// The name of the class of the exception object for `kind`.
pub fn exception_class_name(kind: JavaExceptionKind) -> (r: Vec<u8>)
    ensures
        r@ == exception_class(kind),
{
    let r: Vec<u8> = match kind {
        JavaExceptionKind::NullPointer => vec![
            106u8, 97, 118, 97, 47, 108, 97, 110, 103, 47, 78, 117, 108, 108, 80, 111, 105, 110, 116, 101, 114, 69, 120, 99, 101, 112, 116, 105, 111, 110,
        ],
        JavaExceptionKind::ArrayIndexOutOfBounds => vec![
            106u8, 97, 118, 97, 47, 108, 97, 110, 103, 47, 65, 114, 114, 97, 121, 73, 110, 100, 101, 120, 79, 117, 116, 79, 102, 66, 111, 117, 110, 100, 115, 69, 120, 99, 101, 112, 116, 105, 111, 110,
        ],
        JavaExceptionKind::Arithmetic => vec![
            106u8, 97, 118, 97, 47, 108, 97, 110, 103, 47, 65, 114, 105, 116, 104, 109, 101, 116, 105, 99, 69, 120, 99, 101, 112, 116, 105, 111, 110,
        ],
        JavaExceptionKind::ClassCast => vec![
            106u8, 97, 118, 97, 47, 108, 97, 110, 103, 47, 67, 108, 97, 115, 115, 67, 97, 115, 116, 69, 120, 99, 101, 112, 116, 105, 111, 110,
        ],
        JavaExceptionKind::NegativeArraySize => vec![
            106u8, 97, 118, 97, 47, 108, 97, 110, 103, 47, 78, 101, 103, 97, 116, 105, 118, 101, 65, 114, 114, 97, 121, 83, 105, 122, 101, 69, 120, 99, 101, 112, 116, 105, 111, 110,
        ],
        JavaExceptionKind::ExceptionInInitializer => vec![
            106u8, 97, 118, 97, 47, 108, 97, 110, 103, 47, 69, 120, 99, 101, 112, 116, 105, 111, 110, 73, 110, 73, 110, 105, 116, 105, 97, 108, 105, 122, 101, 114, 69, 114, 114, 111, 114,
        ],
        JavaExceptionKind::NoClassDefFound => vec![
            106u8, 97, 118, 97, 47, 108, 97, 110, 103, 47, 78, 111, 67, 108, 97, 115, 115, 68, 101, 102, 70, 111, 117, 110, 100, 69, 114, 114, 111, 114,
        ],
        JavaExceptionKind::Linkage => vec![
            106u8, 97, 118, 97, 47, 108, 97, 110, 103, 47, 76, 105, 110, 107, 97, 103, 101, 69, 114, 114, 111, 114,
        ],
    };
    assert(r@ =~= exception_class(kind));
    r
}

/// Whether the row `e` guards the instruction at `pc` against the exception `thrown`:
/// `pc` lies in the range of the row, which includes its start and leaves out its end,
/// and the catch type is 0 or names the class of the exception or one of its super
/// classes. A catch type that resolves to no class name catches nothing.
pub open spec fn entry_catches(
    e: ExceptionEntry,
    pool: Seq<ConstantView>,
    pc: int,
    thrown: Seq<LayerView>,
) -> bool {
    &&& e.start_pc <= pc < e.end_pc
    &&& e.catch_type == 0 || (spec_class_name(pool, e.catch_type) matches Ok(name)
        && spec_is_type_of(thrown, name))
}

/// The position of the first row from `from` on that catches: rows are tried in the
/// order of the table, and how close a range lies to `pc` plays no part.
pub open spec fn spec_find_handler(
    table: Seq<ExceptionEntry>,
    pool: Seq<ConstantView>,
    pc: int,
    thrown: Seq<LayerView>,
    from: int,
) -> Option<int>
    decreases table.len() - from,
{
    if from < 0 || from >= table.len() {
        None
    } else if entry_catches(table[from], pool, pc, thrown) {
        Some(from)
    } else {
        spec_find_handler(table, pool, pc, thrown, from + 1)
    }
}

/// The first match wins: the row that `spec_find_handler` gives catches, and no row
/// before it does; where it gives none, no row catches.
pub proof fn lemma_first_handler(
    table: Seq<ExceptionEntry>,
    pool: Seq<ConstantView>,
    pc: int,
    thrown: Seq<LayerView>,
    from: int,
)
    requires
        0 <= from,
    ensures
        match spec_find_handler(table, pool, pc, thrown, from) {
            Some(i) => from <= i < table.len() && entry_catches(table[i], pool, pc, thrown)
                && forall|j: int|
                from <= j < i ==> !entry_catches(#[trigger] table[j], pool, pc, thrown),
            None => forall|j: int|
                from <= j < table.len() ==> !entry_catches(#[trigger] table[j], pool, pc, thrown),
        },
    decreases table.len() - from,
{
    if from < table.len() && !entry_catches(table[from], pool, pc, thrown) {
        lemma_first_handler(table, pool, pc, thrown, from + 1);
    }
}

/// Whether the row `e` guards the instruction at `pc` against the exception `thrown`.
pub fn catches(e: &ExceptionEntry, pool: &ConstantPool, pc: usize, thrown: &JvmObject) -> (r: bool)
    ensures
        r == entry_catches(*e, pool@, pc as int, thrown@),
{
    if pc < e.start_pc as usize || pc >= e.end_pc as usize {
        return false;
    }
    if e.catch_type == 0 {
        return true;
    }
    match pool.resolve_class_name(e.catch_type) {
        Ok(name) => thrown.is_instance_of(name.as_slice()),
        Err(_) => false,
    }
}

/// The handler for the exception `thrown` at `pc`: the `handler_pc` of the first row of
/// the table that catches, `None` where no row does.
pub fn find_handler(
    table: &Vec<ExceptionEntry>,
    pool: &ConstantPool,
    pc: usize,
    thrown: &JvmObject,
) -> (r: Option<u16>)
    ensures
        match r {
            Some(h) => spec_find_handler(table@, pool@, pc as int, thrown@, 0) matches Some(i)
                && h == table@[i].handler_pc,
            None => spec_find_handler(table@, pool@, pc as int, thrown@, 0) is None,
        },
{
    let mut i: usize = 0;
    while i < table.len()
        invariant
            i <= table@.len(),
            spec_find_handler(table@, pool@, pc as int, thrown@, 0) == spec_find_handler(
                table@,
                pool@,
                pc as int,
                thrown@,
                i as int,
            ),
        decreases table@.len() - i,
    {
        if catches(&table[i], pool, pc, thrown) {
            return Some(table[i].handler_pc);
        }
        i = i + 1;
    }
    None
}

} // verus!
