//! Code emitter: renders identifier constants and the generated bus
//! interface as Rust source text.  The resolver's output is collected into a
//! neutral intermediate form first — constant bindings and accessor
//! specifications — and a rendering pass turns that form into text.
use vstd::prelude::*;

use crate::resolve::{spec_resolve_read, spec_resolve_write, ReadCommandFn, ReadCommandFnV,
    ReadOpKind, ValidationErrorKind, WriteCommandFn, WriteCommandFnV, WriteOpKind};
use crate::table::{dec_string, spec_dec, CommandEntryV, CommandIdent, CommandIdentV,
    CommandsTable};

verus! {

// ---------------------------------------------------------------------------
// Constants: one binding per named identifier, in table order.
// ---------------------------------------------------------------------------

/// One emitted constant: the identifier, casing preserved, bound to the
/// entry's command code.
#[derive(Debug, Clone)]
pub struct ConstBinding {
    pub name: String,
    pub value: u8,
}

/// Mathematical value of a `ConstBinding`.
pub struct ConstBindingV {
    pub name: Seq<char>,
    pub value: u8,
}

impl View for ConstBinding {
    type V = ConstBindingV;

    open spec fn view(&self) -> ConstBindingV {
        ConstBindingV { name: self.name@, value: self.value }
    }
}

/// The constants a table emits, in declaration order.
pub struct CommandConstants(pub Vec<ConstBinding>);

impl View for CommandConstants {
    type V = Seq<ConstBindingV>;

    open spec fn view(&self) -> Seq<ConstBindingV> {
        self.0@.map_values(|c: ConstBinding| c@)
    }
}

/// The constants of a table: entries with a reserved identifier contribute
/// none; every other entry contributes its identifier bound to its code.
pub open spec fn spec_constants(t: Seq<CommandEntryV>) -> Seq<ConstBindingV>
    decreases t.len(),
{
    if t.len() == 0 {
        Seq::empty()
    } else {
        spec_constants(t.drop_last()) + (match t.last().ident {
            CommandIdentV::Undefined => Seq::empty(),
            CommandIdentV::Verbatim(name) => seq![
                ConstBindingV { name, value: t.last().byte },
            ],
        })
    }
}

impl CommandConstants {
    /// Collects the constants of a table, in table order.
    pub fn from(table: &CommandsTable) -> (r: CommandConstants)
        ensures
            r@ == spec_constants(table@),
    {
        let mut out: Vec<ConstBinding> = Vec::new();
        let mut idx: usize = 0;
        while idx < table.0.len()
            invariant
                idx <= table.0.len(),
                out@.map_values(|c: ConstBinding| c@) == spec_constants(
                    table@.subrange(0, idx as int),
                ),
            decreases table.0.len() - idx,
        {
            let ghost prev = out@;
            let entry = &table.0[idx];
            match &entry.ident {
                CommandIdent::Undefined => {},
                CommandIdent::Verbatim(name) => {
                    out.push(ConstBinding { name: name.clone(), value: entry.byte });
                },
            }
            proof {
                let pre = table@.subrange(0, idx as int);
                let post = table@.subrange(0, idx as int + 1);
                assert(post.drop_last() =~= pre);
                assert(post.last() == table@[idx as int]);
                assert(out@.map_values(|c: ConstBinding| c@) =~= spec_constants(post));
            }
            idx = idx + 1;
        }
        proof {
            assert(table@.subrange(0, table.0.len() as int) =~= table@);
        }
        CommandConstants(out)
    }
}

// ---------------------------------------------------------------------------
// The generated interface: accessor specifications in emission order.
// ---------------------------------------------------------------------------

/// One accessor of the generated interface.
pub enum AccessorFn {
    Write(WriteCommandFn),
    Read(ReadCommandFn),
}

/// Mathematical value of an `AccessorFn`.
pub enum AccessorFnV {
    Write(WriteCommandFnV),
    Read(ReadCommandFnV),
}

impl View for AccessorFn {
    type V = AccessorFnV;

    open spec fn view(&self) -> AccessorFnV {
        match self {
            AccessorFn::Write(w) => AccessorFnV::Write(w@),
            AccessorFn::Read(r) => AccessorFnV::Read(r@),
        }
    }
}

/// A validation error, positioned at the entry it offends: `index` is the
/// entry's place in the table, `pos` the character offset of its row.
#[derive(Debug, Clone, Copy, PartialEq, Eq)]
pub struct ValidationError {
    pub pos: usize,
    pub index: usize,
    pub kind: ValidationErrorKind,
}

/// Mathematical value of a `ValidationError`; source position excluded.
pub struct ValidationErrorV {
    pub index: int,
    pub kind: ValidationErrorKind,
}

impl View for ValidationError {
    type V = ValidationErrorV;

    open spec fn view(&self) -> ValidationErrorV {
        ValidationErrorV { index: self.index as int, kind: self.kind }
    }
}

/// The accessors one entry contributes: its write accessor, then its read
/// accessor, either of which may be absent.
pub open spec fn spec_entry_accessors(e: CommandEntryV) -> Seq<AccessorFnV> {
    (match spec_resolve_write(e) {
        Ok(Some(w)) => seq![AccessorFnV::Write(w)],
        _ => Seq::empty(),
    }) + (match spec_resolve_read(e) {
        Ok(Some(r)) => seq![AccessorFnV::Read(r)],
        _ => Seq::empty(),
    })
}

/// The validation errors one entry contributes, write path first.
pub open spec fn spec_entry_errors(e: CommandEntryV, index: int) -> Seq<ValidationErrorV> {
    (match spec_resolve_write(e) {
        Err(k) => seq![ValidationErrorV { index, kind: k }],
        _ => Seq::empty(),
    }) + (match spec_resolve_read(e) {
        Err(k) => seq![ValidationErrorV { index, kind: k }],
        _ => Seq::empty(),
    })
}

/// All accessors of a table, in table order.
pub open spec fn spec_table_accessors(t: Seq<CommandEntryV>) -> Seq<AccessorFnV>
    decreases t.len(),
{
    if t.len() == 0 {
        Seq::empty()
    } else {
        spec_table_accessors(t.drop_last()) + spec_entry_accessors(t.last())
    }
}

/// All validation errors of a table, in table order.
pub open spec fn spec_table_errors(t: Seq<CommandEntryV>) -> Seq<ValidationErrorV>
    decreases t.len(),
{
    if t.len() == 0 {
        Seq::empty()
    } else {
        spec_table_errors(t.drop_last()) + spec_entry_errors(t.last(), t.len() - 1)
    }
}

/// The generated interface: every resolved accessor, in emission order —
/// table order, each entry's write accessor followed by its read accessor.
pub struct PmBusTraitItem(pub Vec<AccessorFn>);

impl View for PmBusTraitItem {
    type V = Seq<AccessorFnV>;

    open spec fn view(&self) -> Seq<AccessorFnV> {
        self.0@.map_values(|a: AccessorFn| a@)
    }
}

impl PmBusTraitItem {
    /// Resolves a whole table.  Succeeds exactly when every entry's field
    /// combination lies inside the decision tables; otherwise reports one
    /// entry-positioned validation error per offense, all together.
    pub fn from(table: &CommandsTable) -> (r: Result<PmBusTraitItem, Vec<ValidationError>>)
        ensures
            r matches Ok(p) ==> p@ == spec_table_accessors(table@),
            r is Ok <==> spec_table_errors(table@).len() == 0,
            r matches Err(es) ==> es@.map_values(|v: ValidationError| v@) == spec_table_errors(
                table@,
            ) && es@.len() > 0,
            r matches Err(es) ==> forall|q: int|
                0 <= q < es@.len() ==> 0 <= #[trigger] es@[q].index < table.0.len() && es@[q].pos
                    == table.0[es@[q].index as int].pos,
    {
        let mut fns: Vec<AccessorFn> = Vec::new();
        let mut errors: Vec<ValidationError> = Vec::new();
        let mut idx: usize = 0;
        while idx < table.0.len()
            invariant
                idx <= table.0.len(),
                fns@.map_values(|a: AccessorFn| a@) == spec_table_accessors(
                    table@.subrange(0, idx as int),
                ),
                errors@.map_values(|v: ValidationError| v@) == spec_table_errors(
                    table@.subrange(0, idx as int),
                ),
                forall|q: int|
                    0 <= q < errors@.len() ==> 0 <= #[trigger] errors@[q].index < idx
                        && errors@[q].pos == table.0[errors@[q].index as int].pos,
            decreases table.0.len() - idx,
        {
            let ghost prev_fns = fns@;
            let ghost prev_errors = errors@;
            let entry = &table.0[idx];
            match WriteCommandFn::from_table_entry(entry) {
                Ok(Some(w)) => {
                    fns.push(AccessorFn::Write(w));
                },
                Ok(None) => {},
                Err(k) => {
                    errors.push(ValidationError { pos: entry.pos, index: idx, kind: k });
                },
            }
            match ReadCommandFn::from_table_entry(entry) {
                Ok(Some(r)) => {
                    fns.push(AccessorFn::Read(r));
                },
                Ok(None) => {},
                Err(k) => {
                    errors.push(ValidationError { pos: entry.pos, index: idx, kind: k });
                },
            }
            proof {
                let pre = table@.subrange(0, idx as int);
                let post = table@.subrange(0, idx as int + 1);
                assert(post.drop_last() =~= pre);
                assert(post.last() == table@[idx as int]);
                assert(fns@.map_values(|a: AccessorFn| a@) =~= spec_table_accessors(post));
                assert(errors@.map_values(|v: ValidationError| v@) =~= spec_table_errors(post));
            }
            idx = idx + 1;
        }
        proof {
            assert(table@.subrange(0, table.0.len() as int) =~= table@);
        }
        if errors.len() == 0 {
            proof {
                assert(errors@.map_values(|v: ValidationError| v@) =~= Seq::<
                    ValidationErrorV,
                >::empty());
            }
            Ok(PmBusTraitItem(fns))
        } else {
            Err(errors)
        }
    }
}

// ---------------------------------------------------------------------------
// Rendering to source text.
// ---------------------------------------------------------------------------

/// Text of one constant item.
pub open spec fn spec_render_const(c: ConstBindingV) -> Seq<char> {
    "pub const "@ + c.name + ": u8 = "@ + spec_dec(c.value) + ";\n"@
}

/// Text of all constant items, in order.
pub open spec fn spec_render_consts(cs: Seq<ConstBindingV>) -> Seq<char>
    decreases cs.len(),
{
    if cs.len() == 0 {
        Seq::empty()
    } else {
        spec_render_consts(cs.drop_last()) + spec_render_const(cs.last())
    }
}

/// The bus-interface method a write accessor forwards to.
pub open spec fn write_op_text(op: WriteOpKind) -> Seq<char> {
    match op {
        WriteOpKind::WriteByte => "write_byte"@,
        WriteOpKind::WriteWord => "write_word"@,
        WriteOpKind::BlockWrite => "block_write"@,
        WriteOpKind::SendByte => "send_byte"@,
    }
}

/// The bus-interface method a read accessor forwards to.
pub open spec fn read_op_text(op: ReadOpKind) -> Seq<char> {
    match op {
        ReadOpKind::ReadByte => "read_byte"@,
        ReadOpKind::ReadWord => "read_word"@,
        ReadOpKind::BlockRead => "block_read"@,
        ReadOpKind::BlockProcessCall => "block_process_call"@,
    }
}

/// Text of one write accessor: a method that forwards its arguments and the
/// resolved constant to exactly one bus operation.
pub open spec fn spec_render_write_fn(w: WriteCommandFnV) -> Seq<char> {
    match w.payload {
        Some(ty) => "    async fn "@ + w.name + "(&mut self, address: A, data: "@ + ty
            + ") -> ::std::result::Result<(), <Self as ::embedded_hal::i2c::ErrorType>::Error> {\n        <Self as SmBus<A>>::"@
            + write_op_text(w.op) + "(self, address, "@ + w.command + ", data).await\n    }\n"@,
        None => "    async fn "@ + w.name
            + "(&mut self, address: A) -> ::std::result::Result<(), <Self as ::embedded_hal::i2c::ErrorType>::Error> {\n        <Self as SmBus<A>>::"@
            + write_op_text(w.op) + "(self, address, "@ + w.command + ").await\n    }\n"@,
    }
}

/// Text of one read accessor.  A process call takes a byte block and returns
/// one; any other read returns its declared type through a boundary
/// conversion.
pub open spec fn spec_render_read_fn(r: ReadCommandFnV) -> Seq<char> {
    if r.op is BlockProcessCall {
        "    async fn "@ + r.name
            + "(&mut self, address: A, write_block: &[u8]) -> ::std::result::Result<Vec<u8>, <Self as ::embedded_hal::i2c::ErrorType>::Error> {\n        <Self as SmBus<A>>::block_process_call(self, address, "@
            + r.command + ", write_block).await\n    }\n"@
    } else {
        "    async fn "@ + r.name + "(&mut self, address: A) -> ::std::result::Result<"@
            + r.payload
            + ", <Self as ::embedded_hal::i2c::ErrorType>::Error> {\n        <Self as SmBus<A>>::"@
            + read_op_text(r.op) + "(self, address, "@ + r.command
            + ").await.map(Into::into)\n    }\n"@
    }
}

/// Text of one accessor.
pub open spec fn spec_render_accessor(a: AccessorFnV) -> Seq<char> {
    match a {
        AccessorFnV::Write(w) => spec_render_write_fn(w),
        AccessorFnV::Read(r) => spec_render_read_fn(r),
    }
}

/// Text of all accessors, in emission order.
pub open spec fn spec_render_accessors(fns: Seq<AccessorFnV>) -> Seq<char>
    decreases fns.len(),
{
    if fns.len() == 0 {
        Seq::empty()
    } else {
        spec_render_accessors(fns.drop_last()) + spec_render_accessor(fns.last())
    }
}

/// Text of the generated interface: a trait whose implementer must also
/// satisfy the bus-transfer interface, holding every accessor in order.
pub open spec fn spec_render_trait(fns: Seq<AccessorFnV>) -> Seq<char> {
    "#[::async_trait::async_trait(?Send)]\npub trait PmBus<A: ::embedded_hal::i2c::AddressMode = ::embedded_hal::i2c::SevenBitAddress>: SmBus<A> {\n"@
        + spec_render_accessors(fns) + "}\n"@
}

impl CommandConstants {
    /// Renders the constant items.
    pub fn render(&self) -> (r: String)
        ensures
            r@ == spec_render_consts(self@),
    {
        let mut out = String::new();
        let mut idx: usize = 0;
        while idx < self.0.len()
            invariant
                idx <= self.0.len(),
                out@ == spec_render_consts(self@.subrange(0, idx as int)),
            decreases self.0.len() - idx,
        {
            let c = &self.0[idx];
            out.append("pub const ");
            out.append(c.name.as_str());
            out.append(": u8 = ");
            let value_text = dec_string(c.value);
            out.append(value_text.as_str());
            out.append(";\n");
            proof {
                let pre = self@.subrange(0, idx as int);
                let post = self@.subrange(0, idx as int + 1);
                assert(post.drop_last() =~= pre);
                assert(post.last() == self@[idx as int]);
                assert(out@ =~= spec_render_consts(post));
            }
            idx = idx + 1;
        }
        proof {
            assert(self@.subrange(0, self.0.len() as int) =~= self@);
        }
        out
    }
}

fn write_op_str(op: &WriteOpKind) -> (r: &'static str)
    ensures
        r@ == write_op_text(*op),
{
    match op {
        WriteOpKind::WriteByte => "write_byte",
        WriteOpKind::WriteWord => "write_word",
        WriteOpKind::BlockWrite => "block_write",
        WriteOpKind::SendByte => "send_byte",
    }
}

fn read_op_str(op: &ReadOpKind) -> (r: &'static str)
    ensures
        r@ == read_op_text(*op),
{
    match op {
        ReadOpKind::ReadByte => "read_byte",
        ReadOpKind::ReadWord => "read_word",
        ReadOpKind::BlockRead => "block_read",
        ReadOpKind::BlockProcessCall => "block_process_call",
    }
}

impl WriteCommandFn {
    /// Renders this write accessor as a method of the generated interface.
    pub fn render(&self) -> (r: String)
        ensures
            r@ == spec_render_write_fn(self@),
    {
        let mut out = String::from_str("    async fn ");
        out.append(self.name.as_str());
        match &self.payload {
            Some(ty) => {
                out.append("(&mut self, address: A, data: ");
                out.append(ty.as_str());
                out.append(
                    ") -> ::std::result::Result<(), <Self as ::embedded_hal::i2c::ErrorType>::Error> {\n        <Self as SmBus<A>>::",
                );
                out.append(write_op_str(&self.op));
                out.append("(self, address, ");
                out.append(self.command.as_str());
                out.append(", data).await\n    }\n");
            },
            None => {
                out.append(
                    "(&mut self, address: A) -> ::std::result::Result<(), <Self as ::embedded_hal::i2c::ErrorType>::Error> {\n        <Self as SmBus<A>>::",
                );
                out.append(write_op_str(&self.op));
                out.append("(self, address, ");
                out.append(self.command.as_str());
                out.append(").await\n    }\n");
            },
        }
        proof {
            assert(out@ =~= spec_render_write_fn(self@));
        }
        out
    }
}

impl ReadCommandFn {
    /// Renders this read accessor as a method of the generated interface.
    pub fn render(&self) -> (r: String)
        ensures
            r@ == spec_render_read_fn(self@),
    {
        let mut out = String::from_str("    async fn ");
        out.append(self.name.as_str());
        match &self.op {
            ReadOpKind::BlockProcessCall => {
                out.append(
                    "(&mut self, address: A, write_block: &[u8]) -> ::std::result::Result<Vec<u8>, <Self as ::embedded_hal::i2c::ErrorType>::Error> {\n        <Self as SmBus<A>>::block_process_call(self, address, ",
                );
                out.append(self.command.as_str());
                out.append(", write_block).await\n    }\n");
            },
            _ => {
                out.append("(&mut self, address: A) -> ::std::result::Result<");
                out.append(self.payload.as_str());
                out.append(
                    ", <Self as ::embedded_hal::i2c::ErrorType>::Error> {\n        <Self as SmBus<A>>::",
                );
                out.append(read_op_str(&self.op));
                out.append("(self, address, ");
                out.append(self.command.as_str());
                out.append(").await.map(Into::into)\n    }\n");
            },
        }
        proof {
            assert(out@ =~= spec_render_read_fn(self@));
        }
        out
    }
}

impl PmBusTraitItem {
    /// Renders the generated interface.
    pub fn render(&self) -> (r: String)
        ensures
            r@ == spec_render_trait(self@),
    {
        let mut out = String::from_str(
            "#[::async_trait::async_trait(?Send)]\npub trait PmBus<A: ::embedded_hal::i2c::AddressMode = ::embedded_hal::i2c::SevenBitAddress>: SmBus<A> {\n",
        );
        let mut idx: usize = 0;
        while idx < self.0.len()
            invariant
                idx <= self.0.len(),
                out@ == (
                "#[::async_trait::async_trait(?Send)]\npub trait PmBus<A: ::embedded_hal::i2c::AddressMode = ::embedded_hal::i2c::SevenBitAddress>: SmBus<A> {\n"@
                    + spec_render_accessors(self@.subrange(0, idx as int))),
            decreases self.0.len() - idx,
        {
            let fn_text = match &self.0[idx] {
                AccessorFn::Write(w) => w.render(),
                AccessorFn::Read(r) => r.render(),
            };
            out.append(fn_text.as_str());
            proof {
                let pre = self@.subrange(0, idx as int);
                let post = self@.subrange(0, idx as int + 1);
                assert(post.drop_last() =~= pre);
                assert(post.last() == self@[idx as int]);
                assert(out@ =~= (
                "#[::async_trait::async_trait(?Send)]\npub trait PmBus<A: ::embedded_hal::i2c::AddressMode = ::embedded_hal::i2c::SevenBitAddress>: SmBus<A> {\n"@
                    + spec_render_accessors(post)));
            }
            idx = idx + 1;
        }
        out.append("}\n");
        proof {
            assert(self@.subrange(0, self.0.len() as int) =~= self@);
            assert(out@ =~= spec_render_trait(self@));
        }
        out
    }
}

} // verus!
