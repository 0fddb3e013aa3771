//! The `Code` attribute of a method: limits, bytecode and exception table.
use crate::attribute::{AttributeView, Attributes};
use crate::bytes::{
    be16, be32, bytes_eq, copy_range, has_bytes, lemma_be16_bytes, push_u16, read_u16, read_u32,
    u16_bytes,
};
use crate::constant::ConstantView;
use crate::constantpool::{spec_utf8, ConstantPool};
use crate::error::{InvalidConstantReference, ParseError};
use crate::format::{parse_counted, spec_parse_counted, views, Format};
use vstd::prelude::*;

verus! {

/// One row of an exception table: the handler at `handler_pc` guards the instructions
/// from `start_pc` up to, not including, `end_pc`, for exceptions of the class that the
/// pool entry `catch_type` names; a `catch_type` of 0 stands for every class.
#[derive(Clone, Copy, Debug, PartialEq, Eq, Structural)]
pub struct ExceptionEntry {
    pub start_pc: u16,
    pub end_pc: u16,
    pub handler_pc: u16,
    pub catch_type: u16,
}

impl View for ExceptionEntry {
    type V = ExceptionEntry;

    open spec fn view(&self) -> ExceptionEntry {
        *self
    }
}

impl Format for ExceptionEntry {
    /// Four 16-bit integers: start, end, handler, catch type.
    open spec fn spec_parse(s: Seq<u8>, off: int) -> Result<(ExceptionEntry, int), ParseError> {
        if off + 8 > s.len() {
            Err(ParseError::TruncatedInput)
        } else {
            Ok(
                (
                    ExceptionEntry {
                        start_pc: be16(s, off) as u16,
                        end_pc: be16(s, off + 2) as u16,
                        handler_pc: be16(s, off + 4) as u16,
                        catch_type: be16(s, off + 6) as u16,
                    },
                    off + 8,
                ),
            )
        }
    }

    open spec fn spec_bytes(v: ExceptionEntry) -> Seq<u8> {
        u16_bytes(v.start_pc) + u16_bytes(v.end_pc) + u16_bytes(v.handler_pc) + u16_bytes(
            v.catch_type,
        )
    }

    open spec fn encodable(v: ExceptionEntry) -> bool {
        true
    }

    fn parse(bytes: &[u8], off: usize) -> (r: Result<(ExceptionEntry, usize), ParseError>) {
        if !has_bytes(bytes, off, 8) {
            return Err(ParseError::TruncatedInput);
        }
        let start_pc: u16 = match read_u16(bytes, off) {
            Ok(v) => v,
            Err(e) => {
                return Err(e);
            },
        };
        let end_pc: u16 = match read_u16(bytes, off + 2) {
            Ok(v) => v,
            Err(e) => {
                return Err(e);
            },
        };
        let handler_pc: u16 = match read_u16(bytes, off + 4) {
            Ok(v) => v,
            Err(e) => {
                return Err(e);
            },
        };
        let catch_type: u16 = match read_u16(bytes, off + 6) {
            Ok(v) => v,
            Err(e) => {
                return Err(e);
            },
        };
        Ok((ExceptionEntry { start_pc, end_pc, handler_pc, catch_type }, off + 8))
    }

    fn write(&self, out: &mut Vec<u8>) {
        push_u16(out, self.start_pc);
        push_u16(out, self.end_pc);
        push_u16(out, self.handler_pc);
        push_u16(out, self.catch_type);
        assert(out@ =~= old(out)@ + Self::spec_bytes(self@));
    }

    proof fn lemma_round_trip(s: Seq<u8>, off: int) {
        lemma_be16_bytes(s, off);
        lemma_be16_bytes(s, off + 2);
        lemma_be16_bytes(s, off + 4);
        lemma_be16_bytes(s, off + 6);
        let v = Self::spec_parse(s, off)->Ok_0.0;
        assert(Self::spec_bytes(v) =~= s.subrange(off, off + 8));
    }
}

/// The decoded content of a `Code` attribute.
#[derive(Debug)]
pub struct CodeAttribute {
    pub max_stack: u16,
    pub max_locals: u16,
    pub code: Vec<u8>,
    pub exception_table: Vec<ExceptionEntry>,
    pub attributes: Attributes,
}

/// The mathematical value of a `CodeAttribute`.
pub struct CodeView {
    pub max_stack: u16,
    pub max_locals: u16,
    pub code: Seq<u8>,
    pub exception_table: Seq<ExceptionEntry>,
    pub attributes: Seq<AttributeView>,
}

impl View for CodeAttribute {
    type V = CodeView;

    open spec fn view(&self) -> CodeView {
        CodeView {
            max_stack: self.max_stack,
            max_locals: self.max_locals,
            code: self.code@,
            exception_table: self.exception_table@,
            attributes: self.attributes@,
        }
    }
}

/// The content of a `Code` attribute, read from the start of `s`: the two limits of 16
/// bits each, a 32-bit code length and the code, the counted exception table and the
/// counted attributes. Bytes behind the attributes are not looked at.
pub open spec fn spec_parse_code(s: Seq<u8>) -> Result<CodeView, ParseError> {
    if 8 > s.len() {
        Err(ParseError::TruncatedInput)
    } else if 8 + be32(s, 4) > s.len() {
        Err(ParseError::TruncatedInput)
    } else {
        match spec_parse_counted::<ExceptionEntry>(s, 8 + be32(s, 4)) {
            Err(e) => Err(e),
            Ok((exception_table, p)) => match Attributes::spec_parse(s, p) {
                Err(e) => Err(e),
                Ok((attributes, _)) => Ok(
                    CodeView {
                        max_stack: be16(s, 0) as u16,
                        max_locals: be16(s, 2) as u16,
                        code: s.subrange(8, 8 + be32(s, 4)),
                        exception_table,
                        attributes,
                    },
                ),
            },
        }
    }
}

/// The bytes of the attribute name `Code`.
pub open spec fn code_name() -> Seq<u8> {
    seq![67u8, 111, 100, 101]
}

/// The position of the first attribute from `from` on whose name is `Code`.
pub open spec fn code_position(pool: Seq<ConstantView>, attributes: Seq<AttributeView>, from: int) -> Option<
    int,
>
    decreases attributes.len() - from,
{
    if from < 0 || from >= attributes.len() {
        None
    } else if spec_utf8(pool, attributes[from].name_index) == Ok::<
        Seq<u8>,
        InvalidConstantReference,
    >(code_name()) {
        Some(from)
    } else {
        code_position(pool, attributes, from + 1)
    }
}

/// The code of a member with these attributes: `None` where no attribute is named
/// `Code`, else what the first such attribute decodes to.
pub open spec fn spec_code_of(pool: Seq<ConstantView>, attributes: Seq<AttributeView>) -> Option<
    Result<CodeView, ParseError>,
> {
    match code_position(pool, attributes, 0) {
        None => None,
        Some(i) => Some(spec_parse_code(attributes[i].info)),
    }
}

impl CodeAttribute {
    /// Decodes the content of a `Code` attribute.
    pub fn parse(info: &[u8]) -> (r: Result<CodeAttribute, ParseError>)
        ensures
            match r {
                Ok(c) => spec_parse_code(info@) == Ok::<CodeView, ParseError>(c@),
                Err(e) => spec_parse_code(info@) == Err::<CodeView, ParseError>(e),
            },
    {
        if !has_bytes(info, 0, 8) {
            return Err(ParseError::TruncatedInput);
        }
        let max_stack: u16 = match read_u16(info, 0) {
            Ok(v) => v,
            Err(e) => {
                return Err(e);
            },
        };
        let max_locals: u16 = match read_u16(info, 2) {
            Ok(v) => v,
            Err(e) => {
                return Err(e);
            },
        };
        let length: u32 = match read_u32(info, 4) {
            Ok(v) => v,
            Err(e) => {
                return Err(e);
            },
        };
        if !has_bytes(info, 8, length as usize) {
            return Err(ParseError::TruncatedInput);
        }
        let code: Vec<u8> = copy_range(info, 8, 8 + length as usize);
        let (exception_table, p) = match parse_counted::<ExceptionEntry>(info, 8 + length as usize) {
            Ok(found) => found,
            Err(e) => {
                return Err(e);
            },
        };
        assert(views(exception_table@) =~= exception_table@);
        match Attributes::parse(info, p) {
            Ok((attributes, _)) => Ok(
                CodeAttribute { max_stack, max_locals, code, exception_table, attributes },
            ),
            Err(e) => Err(e),
        }
    }

    /// The code of a member with the attributes `attributes`, names looked up in `pool`.
    pub fn of(pool: &ConstantPool, attributes: &Attributes) -> (r: Option<
        Result<CodeAttribute, ParseError>,
    >)
        ensures
            match r {
                None => spec_code_of(pool@, attributes@) is None,
                Some(Ok(c)) => spec_code_of(pool@, attributes@) == Some(
                    Ok::<CodeView, ParseError>(c@),
                ),
                Some(Err(e)) => spec_code_of(pool@, attributes@) == Some(
                    Err::<CodeView, ParseError>(e),
                ),
            },
    {
        let name: [u8; 4] = [67u8, 111, 100, 101];
        assert(name@ =~= code_name());
        let mut i: usize = 0;
        while i < attributes.items.len()
            invariant
                i <= attributes@.len(),
                name@ == code_name(),
                code_position(pool@, attributes@, 0) == code_position(pool@, attributes@, i as int),
            decreases attributes@.len() - i,
        {
            let a = &attributes.items[i];
            assert(attributes@[i as int] == a@);
            let hit: bool = match pool.resolve_utf8(a.name_index) {
                Ok(found) => bytes_eq(found.as_slice(), name.as_slice()),
                Err(_) => false,
            };
            if hit {
                return Some(CodeAttribute::parse(a.info.as_slice()));
            }
            i = i + 1;
        }
        None
    }
}

/// One row of a line number table: the instructions from `start_pc` on belong to the
/// source line `line`.
#[derive(Clone, Copy, Debug, PartialEq, Eq, Structural)]
pub struct LineEntry {
    pub start_pc: u16,
    pub line: u16,
}

impl View for LineEntry {
    type V = LineEntry;

    open spec fn view(&self) -> LineEntry {
        *self
    }
}

impl Format for LineEntry {
    /// Two 16-bit integers: start and line.
    open spec fn spec_parse(s: Seq<u8>, off: int) -> Result<(LineEntry, int), ParseError> {
        if off + 4 > s.len() {
            Err(ParseError::TruncatedInput)
        } else {
            Ok(
                (
                    LineEntry { start_pc: be16(s, off) as u16, line: be16(s, off + 2) as u16 },
                    off + 4,
                ),
            )
        }
    }

    open spec fn spec_bytes(v: LineEntry) -> Seq<u8> {
        u16_bytes(v.start_pc) + u16_bytes(v.line)
    }

    open spec fn encodable(v: LineEntry) -> bool {
        true
    }

    fn parse(bytes: &[u8], off: usize) -> (r: Result<(LineEntry, usize), ParseError>) {
        if !has_bytes(bytes, off, 4) {
            return Err(ParseError::TruncatedInput);
        }
        let start_pc: u16 = match read_u16(bytes, off) {
            Ok(v) => v,
            Err(e) => {
                return Err(e);
            },
        };
        let line: u16 = match read_u16(bytes, off + 2) {
            Ok(v) => v,
            Err(e) => {
                return Err(e);
            },
        };
        Ok((LineEntry { start_pc, line }, off + 4))
    }

    fn write(&self, out: &mut Vec<u8>) {
        push_u16(out, self.start_pc);
        push_u16(out, self.line);
        assert(out@ =~= old(out)@ + Self::spec_bytes(self@));
    }

    proof fn lemma_round_trip(s: Seq<u8>, off: int) {
        lemma_be16_bytes(s, off);
        lemma_be16_bytes(s, off + 2);
        let v = Self::spec_parse(s, off)->Ok_0.0;
        assert(Self::spec_bytes(v) =~= s.subrange(off, off + 4));
    }
}

/// The bytes of the attribute name `LineNumberTable`.
pub open spec fn line_table_name() -> Seq<u8> {
    seq![76u8, 105, 110, 101, 78, 117, 109, 98, 101, 114, 84, 97, 98, 108, 101]
}

/// The row that is better for `pc`: of two rows that start at or before `pc`, the one
/// that starts later; the earlier of two that start at the same place.
pub open spec fn better_row(best: Option<LineEntry>, row: LineEntry, pc: int) -> Option<LineEntry> {
    if row.start_pc > pc {
        best
    } else {
        match best {
            Some(b) => if row.start_pc > b.start_pc {
                Some(row)
            } else {
                best
            },
            None => Some(row),
        }
    }
}

/// The best row for `pc` among `best` and the rows from position `i` on.
pub open spec fn spec_best_row(rows: Seq<LineEntry>, pc: int, i: int, best: Option<LineEntry>) -> Option<
    LineEntry,
>
    decreases rows.len() - i,
{
    if i < 0 || i >= rows.len() {
        best
    } else {
        spec_best_row(rows, pc, i + 1, better_row(best, rows[i], pc))
    }
}

/// The source line of the instruction at `pc`: the line of the row that starts latest
/// among the rows that start at or before `pc`; `None` where there is no such row.
pub open spec fn spec_line_of(rows: Seq<LineEntry>, pc: int) -> Option<u16> {
    match spec_best_row(rows, pc, 0, None) {
        Some(row) => Some(row.line),
        None => None,
    }
}

/// The best row starts at or before `pc`, and no row from `i` on starts between it and
/// `pc`.
pub proof fn lemma_best_row(rows: Seq<LineEntry>, pc: int, i: int, best: Option<LineEntry>)
    requires
        0 <= i,
        best matches Some(b) ==> b.start_pc <= pc,
    ensures
        match spec_best_row(rows, pc, i, best) {
            Some(found) => found.start_pc <= pc && (best matches Some(b) ==> b.start_pc
                <= found.start_pc) && forall|k: int|
                i <= k < rows.len() && (#[trigger] rows[k]).start_pc <= pc ==> rows[k].start_pc
                    <= found.start_pc,
            None => best is None && forall|k: int|
                i <= k < rows.len() ==> (#[trigger] rows[k]).start_pc > pc,
        },
    decreases rows.len() - i,
{
    if i < rows.len() {
        lemma_best_row(rows, pc, i + 1, better_row(best, rows[i], pc));
    }
}

/// The source line of the instruction at `pc` by the rows `rows`.
pub fn line_of(rows: &Vec<LineEntry>, pc: usize) -> (r: Option<u16>)
    ensures
        r == spec_line_of(rows@, pc as int),
{
    let mut best: Option<LineEntry> = None;
    let mut i: usize = 0;
    while i < rows.len()
        invariant
            i <= rows@.len(),
            spec_best_row(rows@, pc as int, 0, None) == spec_best_row(
                rows@,
                pc as int,
                i as int,
                best,
            ),
        decreases rows@.len() - i,
    {
        let row: LineEntry = rows[i];
        if row.start_pc as usize <= pc {
            best = match best {
                Some(b) => if row.start_pc > b.start_pc {
                    Some(row)
                } else {
                    best
                },
                None => Some(row),
            };
        }
        i = i + 1;
    }
    match best {
        Some(row) => Some(row.line),
        None => None,
    }
}

impl CodeAttribute {
    /// The rows of the first `LineNumberTable` attribute of the code; `None` where the
    /// code has none or its content cannot be decoded.
    pub fn line_table(&self, pool: &ConstantPool) -> (r: Option<Vec<LineEntry>>)
        ensures
            match r {
                Some(rows) => spec_line_table(pool@, self@.attributes) == Some(rows@),
                None => spec_line_table(pool@, self@.attributes) is None,
            },
    {
        let name: [u8; 15] = [
            76u8, 105, 110, 101, 78, 117, 109, 98, 101, 114, 84, 97, 98, 108, 101,
        ];
        assert(name@ =~= line_table_name());
        let mut i: usize = 0;
        while i < self.attributes.items.len()
            invariant
                i <= self@.attributes.len(),
                name@ == line_table_name(),
                named_position(pool@, self@.attributes, line_table_name(), 0) == named_position(
                    pool@,
                    self@.attributes,
                    line_table_name(),
                    i as int,
                ),
            decreases self@.attributes.len() - i,
        {
            let a = &self.attributes.items[i];
            assert(self@.attributes[i as int] == a@);
            let hit: bool = match pool.resolve_utf8(a.name_index) {
                Ok(found) => bytes_eq(found.as_slice(), name.as_slice()),
                Err(_) => false,
            };
            if hit {
                return match parse_counted::<LineEntry>(a.info.as_slice(), 0) {
                    Ok((rows, _)) => {
                        assert(views(rows@) =~= rows@);
                        Some(rows)
                    },
                    Err(_) => None,
                };
            }
            i = i + 1;
        }
        None
    }
}

/// The position of the first attribute from `from` on whose name is `name`.
pub open spec fn named_position(
    pool: Seq<ConstantView>,
    attributes: Seq<AttributeView>,
    name: Seq<u8>,
    from: int,
) -> Option<int>
    decreases attributes.len() - from,
{
    if from < 0 || from >= attributes.len() {
        None
    } else if spec_utf8(pool, attributes[from].name_index) == Ok::<
        Seq<u8>,
        InvalidConstantReference,
    >(name) {
        Some(from)
    } else {
        named_position(pool, attributes, name, from + 1)
    }
}

/// The rows of the first attribute named `LineNumberTable`: a 16-bit count at the
/// start of its content, then that many rows.
pub open spec fn spec_line_table(pool: Seq<ConstantView>, attributes: Seq<AttributeView>) -> Option<
    Seq<LineEntry>,
> {
    match named_position(pool, attributes, line_table_name(), 0) {
        None => None,
        Some(i) => match spec_parse_counted::<LineEntry>(attributes[i].info, 0) {
            Ok((rows, _)) => Some(rows),
            Err(_) => None,
        },
    }
}

} // verus!
