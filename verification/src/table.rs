//! Table model: one command entry per row, five typed fields each, plus the
//! canonical textual form of every field and row.
use vstd::prelude::*;

verus! {

// ---------------------------------------------------------------------------
// Lexical character classes of the table grammar.
// ---------------------------------------------------------------------------

/// Whitespace accepted between tokens.
pub open spec fn is_ws_char(c: char) -> bool {
    c == ' ' || c == '\t' || c == '\n' || c == '\r'
}

/// Decimal digit.
pub open spec fn is_digit_char(c: char) -> bool {
    '0' <= c && c <= '9'
}

/// Hexadecimal digit.
pub open spec fn is_hex_digit_char(c: char) -> bool {
    is_digit_char(c) || ('a' <= c && c <= 'f') || ('A' <= c && c <= 'F')
}

/// First character of an identifier.
pub open spec fn is_ident_start_char(c: char) -> bool {
    ('a' <= c && c <= 'z') || ('A' <= c && c <= 'Z') || c == '_'
}

/// Any later character of an identifier.
pub open spec fn is_ident_cont_char(c: char) -> bool {
    is_ident_start_char(c) || is_digit_char(c)
}

/// Numeric value of a decimal digit character.
pub open spec fn digit_val(c: char) -> int {
    c as int - '0' as int
}

/// Numeric value of a hexadecimal digit character.
pub open spec fn hex_val(c: char) -> int {
    if is_digit_char(c) {
        digit_val(c)
    } else if 'a' <= c && c <= 'f' {
        c as int - 'a' as int + 10
    } else {
        c as int - 'A' as int + 10
    }
}

/// The decimal digit character for a value below ten.
pub open spec fn char_of_digit(d: int) -> char {
    if d == 0 {
        '0'
    } else if d == 1 {
        '1'
    } else if d == 2 {
        '2'
    } else if d == 3 {
        '3'
    } else if d == 4 {
        '4'
    } else if d == 5 {
        '5'
    } else if d == 6 {
        '6'
    } else if d == 7 {
        '7'
    } else if d == 8 {
        '8'
    } else {
        '9'
    }
}

/// A nonempty identifier: a letter or underscore, then letters, digits and
/// underscores.
pub open spec fn is_ident_seq(s: Seq<char>) -> bool {
    &&& s.len() > 0
    &&& is_ident_start_char(s[0])
    &&& forall|i: int| 0 <= i < s.len() ==> is_ident_cont_char(#[trigger] s[i])
}

/// An identifier other than the lone underscore, which the grammar reserves.
pub open spec fn is_name_seq(s: Seq<char>) -> bool {
    is_ident_seq(s) && !(s.len() == 1 && s[0] == '_')
}

// ---------------------------------------------------------------------------
// The five fields of a command entry.
// ---------------------------------------------------------------------------

/// Identifier column: `_` (reserved) or the name of the emitted constant.
#[derive(Debug, Clone, PartialEq, Eq)]
pub enum CommandIdent {
    Undefined,
    Verbatim(String),
}

/// Mathematical value of a `CommandIdent`.
pub enum CommandIdentV {
    Undefined,
    Verbatim(Seq<char>),
}

impl View for CommandIdent {
    type V = CommandIdentV;

    open spec fn view(&self) -> CommandIdentV {
        match self {
            CommandIdent::Undefined => CommandIdentV::Undefined,
            CommandIdent::Verbatim(s) => CommandIdentV::Verbatim(s@),
        }
    }
}

/// Write column: `_` | `!` | `write: <Type>` | `send`.
#[derive(Debug, Clone, PartialEq, Eq)]
pub enum CommandWrite {
    Undefined,
    Unimplemented,
    Write(String),
    Send,
}

/// Mathematical value of a `CommandWrite`.
pub enum CommandWriteV {
    Undefined,
    Unimplemented,
    Write(Seq<char>),
    Send,
}

impl View for CommandWrite {
    type V = CommandWriteV;

    open spec fn view(&self) -> CommandWriteV {
        match self {
            CommandWrite::Undefined => CommandWriteV::Undefined,
            CommandWrite::Unimplemented => CommandWriteV::Unimplemented,
            CommandWrite::Write(t) => CommandWriteV::Write(t@),
            CommandWrite::Send => CommandWriteV::Send,
        }
    }
}

/// Read column: `_` | `!` | `read: <Type>` | `call: <Type>`.
#[derive(Debug, Clone, PartialEq, Eq)]
pub enum CommandRead {
    Undefined,
    Unimplemented,
    Read(String),
    Call(String),
}

/// Mathematical value of a `CommandRead`.
pub enum CommandReadV {
    Undefined,
    Unimplemented,
    Read(Seq<char>),
    Call(Seq<char>),
}

impl View for CommandRead {
    type V = CommandReadV;

    open spec fn view(&self) -> CommandReadV {
        match self {
            CommandRead::Undefined => CommandReadV::Undefined,
            CommandRead::Unimplemented => CommandReadV::Unimplemented,
            CommandRead::Read(t) => CommandReadV::Read(t@),
            CommandRead::Call(t) => CommandReadV::Call(t@),
        }
    }
}

/// Byte-count column: `_` (variable length) | `!` | a count 0..=255.
#[derive(Debug, Clone, PartialEq, Eq)]
pub enum CommandByteCount {
    Undefined,
    Unimplemented,
    Count(u8),
}

/// Mathematical value of a `CommandByteCount`.
pub enum CommandByteCountV {
    Undefined,
    Unimplemented,
    Count(u8),
}

impl View for CommandByteCount {
    type V = CommandByteCountV;

    open spec fn view(&self) -> CommandByteCountV {
        match self {
            CommandByteCount::Undefined => CommandByteCountV::Undefined,
            CommandByteCount::Unimplemented => CommandByteCountV::Unimplemented,
            CommandByteCount::Count(n) => CommandByteCountV::Count(*n),
        }
    }
}

/// One table row: command code, identifier, write shape, read shape and byte
/// count.  `pos` is the character offset of the row's opening pipe in the
/// source text; it carries diagnostics and takes no part in value equality.
#[derive(Debug, Clone)]
pub struct CommandEntry {
    pub pos: usize,
    pub byte: u8,
    pub ident: CommandIdent,
    pub write_kind: CommandWrite,
    pub read_kind: CommandRead,
    pub byte_count: CommandByteCount,
}

/// Mathematical value of a `CommandEntry`; source position excluded.
pub struct CommandEntryV {
    pub byte: u8,
    pub ident: CommandIdentV,
    pub write_kind: CommandWriteV,
    pub read_kind: CommandReadV,
    pub byte_count: CommandByteCountV,
}

impl View for CommandEntry {
    type V = CommandEntryV;

    open spec fn view(&self) -> CommandEntryV {
        CommandEntryV {
            byte: self.byte,
            ident: self.ident@,
            write_kind: self.write_kind@,
            read_kind: self.read_kind@,
            byte_count: self.byte_count@,
        }
    }
}

/// The whole table: an ordered sequence of entries.  Order is significant and
/// duplicates are not rejected.
#[derive(Debug, Clone)]
pub struct CommandsTable(pub Vec<CommandEntry>);

impl View for CommandsTable {
    type V = Seq<CommandEntryV>;

    open spec fn view(&self) -> Seq<CommandEntryV> {
        self.0@.map_values(|e: CommandEntry| e@)
    }
}

// ---------------------------------------------------------------------------
// Well-formedness: exactly the values the grammar can denote.
// ---------------------------------------------------------------------------

impl CommandIdentV {
    /// The identifier column holds `_` or a proper name.
    pub open spec fn wf(self) -> bool {
        match self {
            CommandIdentV::Undefined => true,
            CommandIdentV::Verbatim(s) => is_name_seq(s),
        }
    }
}

impl CommandWriteV {
    /// A write payload type is an identifier.
    pub open spec fn wf(self) -> bool {
        match self {
            CommandWriteV::Write(t) => is_ident_seq(t),
            _ => true,
        }
    }
}

impl CommandReadV {
    /// A read or process-call payload type is an identifier.
    pub open spec fn wf(self) -> bool {
        match self {
            CommandReadV::Read(t) => is_ident_seq(t),
            CommandReadV::Call(t) => is_ident_seq(t),
            _ => true,
        }
    }
}

impl CommandEntryV {
    /// Every field holds a value the grammar can denote.
    pub open spec fn wf(self) -> bool {
        self.ident.wf() && self.write_kind.wf() && self.read_kind.wf()
    }
}

// ---------------------------------------------------------------------------
// Canonical textual form.
// ---------------------------------------------------------------------------

/// Decimal rendering of a byte, one to three digits, no leading zeros.
pub open spec fn spec_dec(n: u8) -> Seq<char> {
    if n < 10 {
        seq![char_of_digit(n as int)]
    } else if n < 100 {
        seq![char_of_digit(n as int / 10), char_of_digit(n as int % 10)]
    } else {
        seq![
            char_of_digit(n as int / 100),
            char_of_digit((n as int / 10) % 10),
            char_of_digit(n as int % 10),
        ]
    }
}

/// Canonical form of the identifier column.
pub open spec fn spec_ser_ident(v: CommandIdentV) -> Seq<char> {
    match v {
        CommandIdentV::Undefined => seq!['_'],
        CommandIdentV::Verbatim(s) => s,
    }
}

/// Canonical form of the write column.
pub open spec fn spec_ser_write(v: CommandWriteV) -> Seq<char> {
    match v {
        CommandWriteV::Undefined => seq!['_'],
        CommandWriteV::Unimplemented => seq!['!'],
        CommandWriteV::Write(t) => "write:"@ + t,
        CommandWriteV::Send => "send"@,
    }
}

/// Canonical form of the read column.
pub open spec fn spec_ser_read(v: CommandReadV) -> Seq<char> {
    match v {
        CommandReadV::Undefined => seq!['_'],
        CommandReadV::Unimplemented => seq!['!'],
        CommandReadV::Read(t) => "read:"@ + t,
        CommandReadV::Call(t) => "call:"@ + t,
    }
}

/// Canonical form of the byte-count column.
pub open spec fn spec_ser_count(v: CommandByteCountV) -> Seq<char> {
    match v {
        CommandByteCountV::Undefined => seq!['_'],
        CommandByteCountV::Unimplemented => seq!['!'],
        CommandByteCountV::Count(n) => spec_dec(n),
    }
}

/// Canonical form of a whole row.
pub open spec fn spec_ser_entry(e: CommandEntryV) -> Seq<char> {
    seq!['|'] + spec_dec(e.byte) + seq!['|'] + spec_ser_ident(e.ident) + seq!['|']
        + spec_ser_write(e.write_kind) + seq!['|'] + spec_ser_read(e.read_kind) + seq!['|']
        + spec_ser_count(e.byte_count) + seq!['|']
}

/// Canonical form of a table: rows joined by commas.
pub open spec fn spec_ser_table(t: Seq<CommandEntryV>) -> Seq<char>
    decreases t.len(),
{
    if t.len() == 0 {
        Seq::empty()
    } else if t.len() == 1 {
        spec_ser_entry(t[0])
    } else {
        spec_ser_table(t.drop_last()) + seq![','] + spec_ser_entry(t.last())
    }
}

// ---------------------------------------------------------------------------
// Executable canonical serialization.
// ---------------------------------------------------------------------------

/// The one-character string for a decimal digit.
fn digit_str(d: u8) -> (r: &'static str)
    requires
        d < 10,
    ensures
        r@ == seq![char_of_digit(d as int)],
{
    let r: &'static str = match d {
        0 => "0",
        1 => "1",
        2 => "2",
        3 => "3",
        4 => "4",
        5 => "5",
        6 => "6",
        7 => "7",
        8 => "8",
        _ => "9",
    };
    proof {
        reveal_strlit("0");
        reveal_strlit("1");
        reveal_strlit("2");
        reveal_strlit("3");
        reveal_strlit("4");
        reveal_strlit("5");
        reveal_strlit("6");
        reveal_strlit("7");
        reveal_strlit("8");
        reveal_strlit("9");
        assert(r@ =~= seq![char_of_digit(d as int)]);
    }
    r
}

/// Decimal rendering of a byte.
pub fn dec_string(n: u8) -> (r: String)
    ensures
        r@ == spec_dec(n),
{
    let mut out = String::new();
    if n >= 100 {
        out.append(digit_str(n / 100));
    }
    if n >= 10 {
        out.append(digit_str((n / 10) % 10));
    }
    out.append(digit_str(n % 10));
    proof {
        assert(out@ =~= spec_dec(n));
    }
    out
}

impl CommandIdent {
    /// Canonical text of the identifier column.
    pub fn to_text(&self) -> (r: String)
        ensures
            r@ == spec_ser_ident(self@),
    {
        let r = match self {
            CommandIdent::Undefined => String::from_str("_"),
            CommandIdent::Verbatim(name) => name.clone(),
        };
        proof {
            reveal_strlit("_");
            assert(r@ =~= spec_ser_ident(self@));
        }
        r
    }
}

impl CommandWrite {
    /// Canonical text of the write column.
    pub fn to_text(&self) -> (r: String)
        ensures
            r@ == spec_ser_write(self@),
    {
        let r = match self {
            CommandWrite::Undefined => String::from_str("_"),
            CommandWrite::Unimplemented => String::from_str("!"),
            CommandWrite::Write(t) => {
                let mut out = String::from_str("write:");
                out.append(t.as_str());
                out
            },
            CommandWrite::Send => String::from_str("send"),
        };
        proof {
            reveal_strlit("_");
            reveal_strlit("!");
            assert(r@ =~= spec_ser_write(self@));
        }
        r
    }
}

impl CommandRead {
    /// Canonical text of the read column.
    pub fn to_text(&self) -> (r: String)
        ensures
            r@ == spec_ser_read(self@),
    {
        let r = match self {
            CommandRead::Undefined => String::from_str("_"),
            CommandRead::Unimplemented => String::from_str("!"),
            CommandRead::Read(t) => {
                let mut out = String::from_str("read:");
                out.append(t.as_str());
                out
            },
            CommandRead::Call(t) => {
                let mut out = String::from_str("call:");
                out.append(t.as_str());
                out
            },
        };
        proof {
            reveal_strlit("_");
            reveal_strlit("!");
            assert(r@ =~= spec_ser_read(self@));
        }
        r
    }
}

impl CommandByteCount {
    /// Canonical text of the byte-count column.
    pub fn to_text(&self) -> (r: String)
        ensures
            r@ == spec_ser_count(self@),
    {
        let r = match self {
            CommandByteCount::Undefined => String::from_str("_"),
            CommandByteCount::Unimplemented => String::from_str("!"),
            CommandByteCount::Count(n) => dec_string(*n),
        };
        proof {
            reveal_strlit("_");
            reveal_strlit("!");
            assert(r@ =~= spec_ser_count(self@));
        }
        r
    }
}

impl CommandEntry {
    /// Canonical text of one whole row.
    pub fn to_text(&self) -> (r: String)
        ensures
            r@ == spec_ser_entry(self@),
    {
        let mut out = String::from_str("|");
        let byte_text = dec_string(self.byte);
        out.append(byte_text.as_str());
        out.append("|");
        let ident_text = self.ident.to_text();
        out.append(ident_text.as_str());
        out.append("|");
        let write_text = self.write_kind.to_text();
        out.append(write_text.as_str());
        out.append("|");
        let read_text = self.read_kind.to_text();
        out.append(read_text.as_str());
        out.append("|");
        let count_text = self.byte_count.to_text();
        out.append(count_text.as_str());
        out.append("|");
        proof {
            reveal_strlit("|");
            assert(out@ =~= spec_ser_entry(self@));
        }
        out
    }
}

impl CommandsTable {
    /// Canonical text of the table: rows joined by commas.
    pub fn to_text(&self) -> (r: String)
        ensures
            r@ == spec_ser_table(self@),
    {
        let mut out = String::new();
        let mut idx: usize = 0;
        while idx < self.0.len()
            invariant
                idx <= self.0.len(),
                out@ == spec_ser_table(self@.subrange(0, idx as int)),
            decreases self.0.len() - idx,
        {
            if idx > 0 {
                out.append(",");
            }
            let entry_text = (&self.0[idx]).to_text();
            out.append(entry_text.as_str());
            proof {
                reveal_strlit(",");
                let pre = self@.subrange(0, idx as int);
                let post = self@.subrange(0, idx as int + 1);
                assert(post.drop_last() =~= pre);
                assert(post.last() == self@[idx as int]);
                assert(out@ =~= spec_ser_table(post));
            }
            idx = idx + 1;
        }
        proof {
            assert(self@.subrange(0, self.0.len() as int) =~= self@);
        }
        out
    }
}

} // verus!
