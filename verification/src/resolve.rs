//! Semantic resolver: a pure decision procedure mapping each command entry
//! onto at most one write accessor and at most one read accessor, each bound
//! to exactly one bus operation, and rejecting every field combination the
//! decision tables do not cover.
use vstd::prelude::*;

use crate::table::{CommandByteCountV, CommandEntry, CommandEntryV, CommandIdent, CommandIdentV,
    CommandRead, CommandReadV, CommandWrite, CommandWriteV};

verus! {

// ---------------------------------------------------------------------------
// Name derivation: accessor names are a fixed prefix plus the snake-case
// form of the constant identifier.
// ---------------------------------------------------------------------------

/// The snake-case form of a sequence of characters, as heck computes it.
pub uninterp spec fn snake_of(s: Seq<char>) -> Seq<char>;

/// Relies on heck::ToSnakeCase for str: lower-cases and word-splits its
/// input; the result depends on the input characters alone.
#[verifier::external_body]
fn to_snake_case(s: &str) -> (r: String)
    ensures
        r@ == snake_of(s@),
{
    heck::ToSnakeCase::to_snake_case(s)
}

// ---------------------------------------------------------------------------
// Accessor specifications.
// ---------------------------------------------------------------------------

/// The bus operation a write accessor forwards to.
#[derive(Clone, Copy, PartialEq, Eq, Structural, Debug)]
pub enum WriteOpKind {
    WriteByte,
    WriteWord,
    BlockWrite,
    SendByte,
}

/// The bus operation a read accessor forwards to.
#[derive(Clone, Copy, PartialEq, Eq, Structural, Debug)]
pub enum ReadOpKind {
    ReadByte,
    ReadWord,
    BlockRead,
    BlockProcessCall,
}

/// A resolved write accessor: its generated name, the bus operation it
/// forwards to, its payload type (none for a zero-payload send), and the
/// constant identifier it passes as the command code.
#[derive(Debug, Clone, PartialEq, Eq)]
pub struct WriteCommandFn {
    pub name: String,
    pub op: WriteOpKind,
    pub payload: Option<String>,
    pub command: String,
}

/// Mathematical value of a `WriteCommandFn`.
pub struct WriteCommandFnV {
    pub name: Seq<char>,
    pub op: WriteOpKind,
    pub payload: Option<Seq<char>>,
    pub command: Seq<char>,
}

impl View for WriteCommandFn {
    type V = WriteCommandFnV;

    open spec fn view(&self) -> WriteCommandFnV {
        WriteCommandFnV {
            name: self.name@,
            op: self.op,
            payload: match self.payload {
                Some(ref t) => Some(t@),
                None => None,
            },
            command: self.command@,
        }
    }
}

/// A resolved read accessor: its generated name, the bus operation it
/// forwards to, its declared payload type (advisory for a process call), and
/// the constant identifier it passes as the command code.
#[derive(Debug, Clone, PartialEq, Eq)]
pub struct ReadCommandFn {
    pub name: String,
    pub op: ReadOpKind,
    pub payload: String,
    pub command: String,
}

/// Mathematical value of a `ReadCommandFn`.
pub struct ReadCommandFnV {
    pub name: Seq<char>,
    pub op: ReadOpKind,
    pub payload: Seq<char>,
    pub command: Seq<char>,
}

impl View for ReadCommandFn {
    type V = ReadCommandFnV;

    open spec fn view(&self) -> ReadCommandFnV {
        ReadCommandFnV {
            name: self.name@,
            op: self.op,
            payload: self.payload@,
            command: self.command@,
        }
    }
}

/// Why an entry's field combination falls outside the decision tables.
#[derive(Clone, Copy, PartialEq, Eq, Structural, Debug)]
pub enum ValidationErrorKind {
    WriteMissingName,
    WriteCountUnimplemented,
    SendMissingName,
    SendCountNotZero,
    ReadMissingName,
    ReadCountUnimplemented,
    CallMissingName,
    CallCountUnimplemented,
}

// ---------------------------------------------------------------------------
// The write decision table.
// ---------------------------------------------------------------------------

/// The write path of one entry: no accessor for a reserved or unimplemented
/// write kind; `write: T` forwards to the byte, word or block write matching
/// the byte count; `send` with count zero forwards to a plain send; every
/// other combination is a validation error.
pub open spec fn spec_resolve_write(e: CommandEntryV) -> Result<
    Option<WriteCommandFnV>,
    ValidationErrorKind,
> {
    match e.write_kind {
        CommandWriteV::Undefined => Ok(None),
        CommandWriteV::Unimplemented => Ok(None),
        CommandWriteV::Write(ty) => match e.ident {
            CommandIdentV::Undefined => Err(ValidationErrorKind::WriteMissingName),
            CommandIdentV::Verbatim(name) => match e.byte_count {
                CommandByteCountV::Count(n) => if n == 1 {
                    Ok(
                        Some(
                            WriteCommandFnV {
                                name: "write_"@ + snake_of(name),
                                op: WriteOpKind::WriteByte,
                                payload: Some(ty),
                                command: name,
                            },
                        ),
                    )
                } else if n == 2 {
                    Ok(
                        Some(
                            WriteCommandFnV {
                                name: "write_"@ + snake_of(name),
                                op: WriteOpKind::WriteWord,
                                payload: Some(ty),
                                command: name,
                            },
                        ),
                    )
                } else {
                    Ok(
                        Some(
                            WriteCommandFnV {
                                name: "write_"@ + snake_of(name),
                                op: WriteOpKind::BlockWrite,
                                payload: Some(ty),
                                command: name,
                            },
                        ),
                    )
                },
                CommandByteCountV::Undefined => Ok(
                    Some(
                        WriteCommandFnV {
                            name: "write_"@ + snake_of(name),
                            op: WriteOpKind::BlockWrite,
                            payload: Some(ty),
                            command: name,
                        },
                    ),
                ),
                CommandByteCountV::Unimplemented => Err(
                    ValidationErrorKind::WriteCountUnimplemented,
                ),
            },
        },
        CommandWriteV::Send => match e.ident {
            CommandIdentV::Undefined => Err(ValidationErrorKind::SendMissingName),
            CommandIdentV::Verbatim(name) => match e.byte_count {
                CommandByteCountV::Count(n) => if n == 0 {
                    Ok(
                        Some(
                            WriteCommandFnV {
                                name: "send_"@ + snake_of(name),
                                op: WriteOpKind::SendByte,
                                payload: None,
                                command: name,
                            },
                        ),
                    )
                } else {
                    Err(ValidationErrorKind::SendCountNotZero)
                },
                CommandByteCountV::Undefined => Err(ValidationErrorKind::SendCountNotZero),
                CommandByteCountV::Unimplemented => Err(ValidationErrorKind::SendCountNotZero),
            },
        },
    }
}

// ---------------------------------------------------------------------------
// The read decision table.
// ---------------------------------------------------------------------------

/// The read path of one entry: no accessor for a reserved or unimplemented
/// read kind; `read: T` forwards to the byte, word or block read matching the
/// byte count; `call: T` forwards to a block process call whatever the count;
/// every other combination is a validation error.
pub open spec fn spec_resolve_read(e: CommandEntryV) -> Result<
    Option<ReadCommandFnV>,
    ValidationErrorKind,
> {
    match e.read_kind {
        CommandReadV::Undefined => Ok(None),
        CommandReadV::Unimplemented => Ok(None),
        CommandReadV::Read(ty) => match e.ident {
            CommandIdentV::Undefined => Err(ValidationErrorKind::ReadMissingName),
            CommandIdentV::Verbatim(name) => match e.byte_count {
                CommandByteCountV::Count(n) => if n == 1 {
                    Ok(
                        Some(
                            ReadCommandFnV {
                                name: "read_"@ + snake_of(name),
                                op: ReadOpKind::ReadByte,
                                payload: ty,
                                command: name,
                            },
                        ),
                    )
                } else if n == 2 {
                    Ok(
                        Some(
                            ReadCommandFnV {
                                name: "read_"@ + snake_of(name),
                                op: ReadOpKind::ReadWord,
                                payload: ty,
                                command: name,
                            },
                        ),
                    )
                } else {
                    Ok(
                        Some(
                            ReadCommandFnV {
                                name: "read_"@ + snake_of(name),
                                op: ReadOpKind::BlockRead,
                                payload: ty,
                                command: name,
                            },
                        ),
                    )
                },
                CommandByteCountV::Undefined => Ok(
                    Some(
                        ReadCommandFnV {
                            name: "read_"@ + snake_of(name),
                            op: ReadOpKind::BlockRead,
                            payload: ty,
                            command: name,
                        },
                    ),
                ),
                CommandByteCountV::Unimplemented => Err(
                    ValidationErrorKind::ReadCountUnimplemented,
                ),
            },
        },
        CommandReadV::Call(ty) => match e.ident {
            CommandIdentV::Undefined => Err(ValidationErrorKind::CallMissingName),
            CommandIdentV::Verbatim(name) => match e.byte_count {
                CommandByteCountV::Count(_) => Ok(
                    Some(
                        ReadCommandFnV {
                            name: "call_"@ + snake_of(name),
                            op: ReadOpKind::BlockProcessCall,
                            payload: ty,
                            command: name,
                        },
                    ),
                ),
                CommandByteCountV::Undefined => Ok(
                    Some(
                        ReadCommandFnV {
                            name: "call_"@ + snake_of(name),
                            op: ReadOpKind::BlockProcessCall,
                            payload: ty,
                            command: name,
                        },
                    ),
                ),
                CommandByteCountV::Unimplemented => Err(
                    ValidationErrorKind::CallCountUnimplemented,
                ),
            },
        },
    }
}

// ---------------------------------------------------------------------------
// Executable resolvers.
// ---------------------------------------------------------------------------

fn prefixed_name(prefix: &str, ident: &String) -> (r: String)
    ensures
        r@ == prefix@ + snake_of(ident@),
{
    let mut out = String::from_str(prefix);
    let snake = to_snake_case(ident.as_str());
    out.append(snake.as_str());
    out
}

impl WriteCommandFn {
    /// Resolves the write path of one entry against the write decision table.
    pub fn from_table_entry(entry: &CommandEntry) -> (r: Result<
        Option<WriteCommandFn>,
        ValidationErrorKind,
    >)
        ensures
            match r {
                Ok(Some(w)) => spec_resolve_write(entry@) == Ok::<
                    Option<WriteCommandFnV>,
                    ValidationErrorKind,
                >(Some(w@)),
                Ok(None) => spec_resolve_write(entry@) == Ok::<
                    Option<WriteCommandFnV>,
                    ValidationErrorKind,
                >(None),
                Err(k) => spec_resolve_write(entry@) == Err::<
                    Option<WriteCommandFnV>,
                    ValidationErrorKind,
                >(k),
            },
    {
        match &entry.write_kind {
            CommandWrite::Undefined => Ok(None),
            CommandWrite::Unimplemented => Ok(None),
            CommandWrite::Write(ty) => match &entry.ident {
                CommandIdent::Undefined => Err(ValidationErrorKind::WriteMissingName),
                CommandIdent::Verbatim(name) => match &entry.byte_count {
                    crate::table::CommandByteCount::Count(n) => {
                        let op = if *n == 1 {
                            WriteOpKind::WriteByte
                        } else if *n == 2 {
                            WriteOpKind::WriteWord
                        } else {
                            WriteOpKind::BlockWrite
                        };
                        Ok(
                            Some(
                                WriteCommandFn {
                                    name: prefixed_name("write_", name),
                                    op,
                                    payload: Some(ty.clone()),
                                    command: name.clone(),
                                },
                            ),
                        )
                    },
                    crate::table::CommandByteCount::Undefined => Ok(
                        Some(
                            WriteCommandFn {
                                name: prefixed_name("write_", name),
                                op: WriteOpKind::BlockWrite,
                                payload: Some(ty.clone()),
                                command: name.clone(),
                            },
                        ),
                    ),
                    crate::table::CommandByteCount::Unimplemented => Err(
                        ValidationErrorKind::WriteCountUnimplemented,
                    ),
                },
            },
            CommandWrite::Send => match &entry.ident {
                CommandIdent::Undefined => Err(ValidationErrorKind::SendMissingName),
                CommandIdent::Verbatim(name) => match &entry.byte_count {
                    crate::table::CommandByteCount::Count(n) => {
                        if *n == 0 {
                            Ok(
                                Some(
                                    WriteCommandFn {
                                        name: prefixed_name("send_", name),
                                        op: WriteOpKind::SendByte,
                                        payload: None,
                                        command: name.clone(),
                                    },
                                ),
                            )
                        } else {
                            Err(ValidationErrorKind::SendCountNotZero)
                        }
                    },
                    crate::table::CommandByteCount::Undefined => Err(
                        ValidationErrorKind::SendCountNotZero,
                    ),
                    crate::table::CommandByteCount::Unimplemented => Err(
                        ValidationErrorKind::SendCountNotZero,
                    ),
                },
            },
        }
    }
}

impl ReadCommandFn {
    /// Resolves the read path of one entry against the read decision table.
    pub fn from_table_entry(entry: &CommandEntry) -> (r: Result<
        Option<ReadCommandFn>,
        ValidationErrorKind,
    >)
        ensures
            match r {
                Ok(Some(w)) => spec_resolve_read(entry@) == Ok::<
                    Option<ReadCommandFnV>,
                    ValidationErrorKind,
                >(Some(w@)),
                Ok(None) => spec_resolve_read(entry@) == Ok::<
                    Option<ReadCommandFnV>,
                    ValidationErrorKind,
                >(None),
                Err(k) => spec_resolve_read(entry@) == Err::<
                    Option<ReadCommandFnV>,
                    ValidationErrorKind,
                >(k),
            },
    {
        match &entry.read_kind {
            CommandRead::Undefined => Ok(None),
            CommandRead::Unimplemented => Ok(None),
            CommandRead::Read(ty) => match &entry.ident {
                CommandIdent::Undefined => Err(ValidationErrorKind::ReadMissingName),
                CommandIdent::Verbatim(name) => match &entry.byte_count {
                    crate::table::CommandByteCount::Count(n) => {
                        let op = if *n == 1 {
                            ReadOpKind::ReadByte
                        } else if *n == 2 {
                            ReadOpKind::ReadWord
                        } else {
                            ReadOpKind::BlockRead
                        };
                        Ok(
                            Some(
                                ReadCommandFn {
                                    name: prefixed_name("read_", name),
                                    op,
                                    payload: ty.clone(),
                                    command: name.clone(),
                                },
                            ),
                        )
                    },
                    crate::table::CommandByteCount::Undefined => Ok(
                        Some(
                            ReadCommandFn {
                                name: prefixed_name("read_", name),
                                op: ReadOpKind::BlockRead,
                                payload: ty.clone(),
                                command: name.clone(),
                            },
                        ),
                    ),
                    crate::table::CommandByteCount::Unimplemented => Err(
                        ValidationErrorKind::ReadCountUnimplemented,
                    ),
                },
            },
            CommandRead::Call(ty) => match &entry.ident {
                CommandIdent::Undefined => Err(ValidationErrorKind::CallMissingName),
                CommandIdent::Verbatim(name) => match &entry.byte_count {
                    crate::table::CommandByteCount::Unimplemented => Err(
                        ValidationErrorKind::CallCountUnimplemented,
                    ),
                    _ => Ok(
                        Some(
                            ReadCommandFn {
                                name: prefixed_name("call_", name),
                                op: ReadOpKind::BlockProcessCall,
                                payload: ty.clone(),
                                command: name.clone(),
                            },
                        ),
                    ),
                },
            },
        }
    }
}

// ---------------------------------------------------------------------------
// The decision tables' rows, and the laws that hold of them.
// ---------------------------------------------------------------------------

/// Write table row: reserved or unimplemented write kind.
pub open spec fn write_rule_none(e: CommandEntryV) -> bool {
    e.write_kind is Undefined || e.write_kind is Unimplemented
}

/// Write table row: `write: T` with a one-byte count.
pub open spec fn write_rule_byte(e: CommandEntryV) -> bool {
    e.write_kind is Write && e.byte_count == CommandByteCountV::Count(1u8)
}

/// Write table row: `write: T` with a two-byte count.
pub open spec fn write_rule_word(e: CommandEntryV) -> bool {
    e.write_kind is Write && e.byte_count == CommandByteCountV::Count(2u8)
}

/// Write table row: `write: T` with a fixed count other than one or two.
pub open spec fn write_rule_block_fixed(e: CommandEntryV) -> bool {
    e.write_kind is Write && (e.byte_count matches CommandByteCountV::Count(n) && n != 1 && n != 2)
}

/// Write table row: `write: T` with a variable count.
pub open spec fn write_rule_block_variable(e: CommandEntryV) -> bool {
    e.write_kind is Write && e.byte_count is Undefined
}

/// Write table row: `send` with count zero.
pub open spec fn write_rule_send(e: CommandEntryV) -> bool {
    e.write_kind is Send && e.byte_count == CommandByteCountV::Count(0u8)
}

/// Write table row: anything else is invalid.
pub open spec fn write_rule_invalid(e: CommandEntryV) -> bool {
    (e.write_kind is Write && e.byte_count is Unimplemented) || (e.write_kind is Send
        && e.byte_count != CommandByteCountV::Count(0u8))
}

/// Which row of the write decision table the entry falls under.
pub open spec fn write_rule_index(e: CommandEntryV) -> int {
    match e.write_kind {
        CommandWriteV::Undefined => 0,
        CommandWriteV::Unimplemented => 0,
        CommandWriteV::Write(_) => match e.byte_count {
            CommandByteCountV::Count(n) => if n == 1 {
                1
            } else if n == 2 {
                2
            } else {
                3
            },
            CommandByteCountV::Undefined => 4,
            CommandByteCountV::Unimplemented => 6,
        },
        CommandWriteV::Send => match e.byte_count {
            CommandByteCountV::Count(n) => if n == 0 {
                5
            } else {
                6
            },
            CommandByteCountV::Undefined => 6,
            CommandByteCountV::Unimplemented => 6,
        },
    }
}

/// Read table row: reserved or unimplemented read kind.
pub open spec fn read_rule_none(e: CommandEntryV) -> bool {
    e.read_kind is Undefined || e.read_kind is Unimplemented
}

/// Read table row: `read: T` with a one-byte count.
pub open spec fn read_rule_byte(e: CommandEntryV) -> bool {
    e.read_kind is Read && e.byte_count == CommandByteCountV::Count(1u8)
}

/// Read table row: `read: T` with a two-byte count.
pub open spec fn read_rule_word(e: CommandEntryV) -> bool {
    e.read_kind is Read && e.byte_count == CommandByteCountV::Count(2u8)
}

/// Read table row: `read: T` with a fixed count other than one or two.
pub open spec fn read_rule_block_fixed(e: CommandEntryV) -> bool {
    e.read_kind is Read && (e.byte_count matches CommandByteCountV::Count(n) && n != 1 && n != 2)
}

/// Read table row: `read: T` with a variable count.
pub open spec fn read_rule_block_variable(e: CommandEntryV) -> bool {
    e.read_kind is Read && e.byte_count is Undefined
}

/// Read table row: `call: T` with a fixed or variable count.
pub open spec fn read_rule_call(e: CommandEntryV) -> bool {
    e.read_kind is Call && (e.byte_count is Count || e.byte_count is Undefined)
}

/// Read table row: anything else is invalid.
pub open spec fn read_rule_invalid(e: CommandEntryV) -> bool {
    (e.read_kind is Read && e.byte_count is Unimplemented) || (e.read_kind is Call
        && e.byte_count is Unimplemented)
}

/// Which row of the read decision table the entry falls under.
pub open spec fn read_rule_index(e: CommandEntryV) -> int {
    match e.read_kind {
        CommandReadV::Undefined => 0,
        CommandReadV::Unimplemented => 0,
        CommandReadV::Read(_) => match e.byte_count {
            CommandByteCountV::Count(n) => if n == 1 {
                1
            } else if n == 2 {
                2
            } else {
                3
            },
            CommandByteCountV::Undefined => 4,
            CommandByteCountV::Unimplemented => 6,
        },
        CommandReadV::Call(_) => match e.byte_count {
            CommandByteCountV::Count(_) => 5,
            CommandByteCountV::Undefined => 5,
            CommandByteCountV::Unimplemented => 6,
        },
    }
}

/// Rule disjointness, write path: every entry falls under exactly one row of
/// the write decision table — each row holds exactly when the entry's row
/// index names it, and the indices are mutually exclusive.
pub proof fn lemma_write_rules_disjoint(e: CommandEntryV)
    ensures
        write_rule_none(e) <==> write_rule_index(e) == 0,
        write_rule_byte(e) <==> write_rule_index(e) == 1,
        write_rule_word(e) <==> write_rule_index(e) == 2,
        write_rule_block_fixed(e) <==> write_rule_index(e) == 3,
        write_rule_block_variable(e) <==> write_rule_index(e) == 4,
        write_rule_send(e) <==> write_rule_index(e) == 5,
        write_rule_invalid(e) <==> write_rule_index(e) == 6,
        0 <= write_rule_index(e) <= 6,
{
}

/// Rule disjointness, read path: every entry falls under exactly one row of
/// the read decision table.
pub proof fn lemma_read_rules_disjoint(e: CommandEntryV)
    ensures
        read_rule_none(e) <==> read_rule_index(e) == 0,
        read_rule_byte(e) <==> read_rule_index(e) == 1,
        read_rule_word(e) <==> read_rule_index(e) == 2,
        read_rule_block_fixed(e) <==> read_rule_index(e) == 3,
        read_rule_block_variable(e) <==> read_rule_index(e) == 4,
        read_rule_call(e) <==> read_rule_index(e) == 5,
        read_rule_invalid(e) <==> read_rule_index(e) == 6,
        0 <= read_rule_index(e) <= 6,
{
}

/// The row an entry falls under determines the write resolver's outcome: the
/// reserved row yields no accessor, each concrete row yields its one bus
/// operation, and the invalid row yields an error.  A reserved identifier
/// where an accessor is called for is itself an error.
pub proof fn lemma_write_rule_outcome(e: CommandEntryV)
    ensures
        write_rule_none(e) ==> spec_resolve_write(e) == Ok::<
            Option<WriteCommandFnV>,
            ValidationErrorKind,
        >(None),
        write_rule_byte(e) && e.ident is Verbatim ==> (spec_resolve_write(e) matches Ok(Some(w))
            && w.op == WriteOpKind::WriteByte),
        write_rule_word(e) && e.ident is Verbatim ==> (spec_resolve_write(e) matches Ok(Some(w))
            && w.op == WriteOpKind::WriteWord),
        write_rule_block_fixed(e) && e.ident is Verbatim ==> (spec_resolve_write(e) matches Ok(
            Some(w),
        ) && w.op == WriteOpKind::BlockWrite),
        write_rule_block_variable(e) && e.ident is Verbatim ==> (spec_resolve_write(e) matches Ok(
            Some(w),
        ) && w.op == WriteOpKind::BlockWrite),
        write_rule_send(e) && e.ident is Verbatim ==> (spec_resolve_write(e) matches Ok(Some(w))
            && w.op == WriteOpKind::SendByte),
        write_rule_invalid(e) ==> spec_resolve_write(e) is Err,
        !write_rule_none(e) && e.ident is Undefined ==> spec_resolve_write(e) is Err,
{
}

/// The row an entry falls under determines the read resolver's outcome.
pub proof fn lemma_read_rule_outcome(e: CommandEntryV)
    ensures
        read_rule_none(e) ==> spec_resolve_read(e) == Ok::<
            Option<ReadCommandFnV>,
            ValidationErrorKind,
        >(None),
        read_rule_byte(e) && e.ident is Verbatim ==> (spec_resolve_read(e) matches Ok(Some(r))
            && r.op == ReadOpKind::ReadByte),
        read_rule_word(e) && e.ident is Verbatim ==> (spec_resolve_read(e) matches Ok(Some(r))
            && r.op == ReadOpKind::ReadWord),
        read_rule_block_fixed(e) && e.ident is Verbatim ==> (spec_resolve_read(e) matches Ok(
            Some(r),
        ) && r.op == ReadOpKind::BlockRead),
        read_rule_block_variable(e) && e.ident is Verbatim ==> (spec_resolve_read(e) matches Ok(
            Some(r),
        ) && r.op == ReadOpKind::BlockRead),
        read_rule_call(e) && e.ident is Verbatim ==> (spec_resolve_read(e) matches Ok(Some(r))
            && r.op == ReadOpKind::BlockProcessCall),
        read_rule_invalid(e) ==> spec_resolve_read(e) is Err,
        !read_rule_none(e) && e.ident is Undefined ==> spec_resolve_read(e) is Err,
{
}

/// Determinism: resolving the same entry twice yields identical accessor
/// specs — the result of either decision table is a function of the entry's
/// value alone.
pub proof fn lemma_resolve_deterministic(
    e: CommandEntryV,
    w1: Result<Option<WriteCommandFnV>, ValidationErrorKind>,
    w2: Result<Option<WriteCommandFnV>, ValidationErrorKind>,
    r1: Result<Option<ReadCommandFnV>, ValidationErrorKind>,
    r2: Result<Option<ReadCommandFnV>, ValidationErrorKind>,
)
    requires
        w1 == spec_resolve_write(e),
        w2 == spec_resolve_write(e),
        r1 == spec_resolve_read(e),
        r2 == spec_resolve_read(e),
    ensures
        w1 == w2,
        r1 == r2,
{
}

/// A reserved or unimplemented write kind never yields a write accessor,
/// whatever the byte count.
pub proof fn lemma_reserved_write_no_accessor(e: CommandEntryV)
    requires
        e.write_kind is Undefined || e.write_kind is Unimplemented,
    ensures
        spec_resolve_write(e) == Ok::<Option<WriteCommandFnV>, ValidationErrorKind>(None),
{
}

/// A reserved or unimplemented read kind never yields a read accessor,
/// whatever the byte count.
pub proof fn lemma_reserved_read_no_accessor(e: CommandEntryV)
    requires
        e.read_kind is Undefined || e.read_kind is Unimplemented,
    ensures
        spec_resolve_read(e) == Ok::<Option<ReadCommandFnV>, ValidationErrorKind>(None),
{
}

} // verus!
