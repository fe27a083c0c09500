//! Grammar layer: recognizes row syntax and converts table text into typed
//! field values.  Each row is five pipe-delimited fields in fixed order:
//! `| byte | identifier | write-kind | read-kind | byte-count |`, rows are
//! comma-separated with a trailing comma tolerated, and whitespace may stand
//! between tokens.  Numbers are decimal or `0x`-prefixed hexadecimal and must
//! fit in a byte.  A malformed field aborts the whole parse with a
//! position-annotated syntax error; parsing never partially recovers.
use vstd::prelude::*;

use crate::table::{is_digit_char, is_hex_digit_char, is_ident_cont_char, is_ident_start_char,
    is_ws_char, is_ident_seq, digit_val, hex_val, char_of_digit, spec_dec, spec_ser_ident,
    spec_ser_write, spec_ser_read, spec_ser_count, spec_ser_entry, spec_ser_table,
    CommandByteCount,
    CommandByteCountV, CommandEntry, CommandEntryV, CommandIdent, CommandIdentV, CommandRead,
    CommandReadV, CommandWrite, CommandWriteV, CommandsTable};

verus! {

/// A position-annotated syntax error: `pos` is the character offset at which
/// the input stopped matching the grammar.
#[derive(Debug, Clone, Copy, PartialEq, Eq, Structural)]
pub struct SyntaxError {
    pub pos: usize,
}

// ---------------------------------------------------------------------------
// Scanners, specification level.
// ---------------------------------------------------------------------------

/// First position at or after `i` that does not hold whitespace.
pub open spec fn spec_skip_ws(s: Seq<char>, i: int) -> int
    decreases s.len() - i,
{
    if 0 <= i < s.len() && is_ws_char(s[i]) {
        spec_skip_ws(s, i + 1)
    } else {
        i
    }
}

/// End of the run of identifier characters starting at `i`.
pub open spec fn spec_scan_ident(s: Seq<char>, i: int) -> int
    decreases s.len() - i,
{
    if 0 <= i < s.len() && is_ident_cont_char(s[i]) {
        spec_scan_ident(s, i + 1)
    } else {
        i
    }
}

/// End of the run of decimal digits starting at `i`.
pub open spec fn spec_scan_digits(s: Seq<char>, i: int) -> int
    decreases s.len() - i,
{
    if 0 <= i < s.len() && is_digit_char(s[i]) {
        spec_scan_digits(s, i + 1)
    } else {
        i
    }
}

/// End of the run of hexadecimal digits starting at `i`.
pub open spec fn spec_scan_hex(s: Seq<char>, i: int) -> int
    decreases s.len() - i,
{
    if 0 <= i < s.len() && is_hex_digit_char(s[i]) {
        spec_scan_hex(s, i + 1)
    } else {
        i
    }
}

pub proof fn lemma_skip_ws_bounds(s: Seq<char>, i: int)
    requires
        0 <= i <= s.len(),
    ensures
        i <= spec_skip_ws(s, i) <= s.len(),
        spec_skip_ws(s, i) < s.len() ==> !is_ws_char(s[spec_skip_ws(s, i)]),
    decreases s.len() - i,
{
    if i < s.len() && is_ws_char(s[i]) {
        lemma_skip_ws_bounds(s, i + 1);
    }
}

pub proof fn lemma_scan_ident_bounds(s: Seq<char>, i: int)
    requires
        0 <= i <= s.len(),
    ensures
        i <= spec_scan_ident(s, i) <= s.len(),
        forall|j: int| i <= j < spec_scan_ident(s, i) ==> is_ident_cont_char(#[trigger] s[j]),
        spec_scan_ident(s, i) < s.len() ==> !is_ident_cont_char(s[spec_scan_ident(s, i)]),
    decreases s.len() - i,
{
    if i < s.len() && is_ident_cont_char(s[i]) {
        lemma_scan_ident_bounds(s, i + 1);
    }
}

pub proof fn lemma_scan_digits_bounds(s: Seq<char>, i: int)
    requires
        0 <= i <= s.len(),
    ensures
        i <= spec_scan_digits(s, i) <= s.len(),
        forall|j: int| i <= j < spec_scan_digits(s, i) ==> is_digit_char(#[trigger] s[j]),
        spec_scan_digits(s, i) < s.len() ==> !is_digit_char(s[spec_scan_digits(s, i)]),
    decreases s.len() - i,
{
    if i < s.len() && is_digit_char(s[i]) {
        lemma_scan_digits_bounds(s, i + 1);
    }
}

pub proof fn lemma_scan_hex_bounds(s: Seq<char>, i: int)
    requires
        0 <= i <= s.len(),
    ensures
        i <= spec_scan_hex(s, i) <= s.len(),
        forall|j: int| i <= j < spec_scan_hex(s, i) ==> is_hex_digit_char(#[trigger] s[j]),
        spec_scan_hex(s, i) < s.len() ==> !is_hex_digit_char(s[spec_scan_hex(s, i)]),
    decreases s.len() - i,
{
    if i < s.len() && is_hex_digit_char(s[i]) {
        lemma_scan_hex_bounds(s, i + 1);
    }
}

// ---------------------------------------------------------------------------
// Scanners, executable level.
// ---------------------------------------------------------------------------

fn skip_ws(s: &str, n: usize, i: usize) -> (r: usize)
    requires
        n == s@.len(),
        i <= n,
    ensures
        r == spec_skip_ws(s@, i as int),
        i <= r <= n,
{
    let mut j = i;
    loop
        invariant
            i <= j <= n,
            n == s@.len(),
            spec_skip_ws(s@, i as int) == spec_skip_ws(s@, j as int),
        ensures
            i <= j <= n,
            spec_skip_ws(s@, i as int) == spec_skip_ws(s@, j as int),
            j == n || !is_ws_char(s@[j as int]),
        decreases n - j,
    {
        if j < n {
            let c = s.get_char(j);
            if c == ' ' || c == '\t' || c == '\n' || c == '\r' {
                j = j + 1;
            } else {
                break ;
            }
        } else {
            break ;
        }
    }
    j
}

fn scan_ident(s: &str, n: usize, i: usize) -> (r: usize)
    requires
        n == s@.len(),
        i <= n,
    ensures
        r == spec_scan_ident(s@, i as int),
        i <= r <= n,
{
    let mut j = i;
    loop
        invariant
            i <= j <= n,
            n == s@.len(),
            spec_scan_ident(s@, i as int) == spec_scan_ident(s@, j as int),
        ensures
            i <= j <= n,
            spec_scan_ident(s@, i as int) == spec_scan_ident(s@, j as int),
            j == n || !is_ident_cont_char(s@[j as int]),
        decreases n - j,
    {
        if j < n {
            let c = s.get_char(j);
            let u = c as u32;
            if (97 <= u && u <= 122) || (65 <= u && u <= 90) || c == '_' || (48 <= u && u <= 57) {
                assert(is_ident_cont_char(s@[j as int]));
                j = j + 1;
            } else {
                assert(!is_ident_cont_char(s@[j as int]));
                break ;
            }
        } else {
            break ;
        }
    }
    j
}

fn scan_digits(s: &str, n: usize, i: usize) -> (r: usize)
    requires
        n == s@.len(),
        i <= n,
    ensures
        r == spec_scan_digits(s@, i as int),
        i <= r <= n,
{
    let mut j = i;
    loop
        invariant
            i <= j <= n,
            n == s@.len(),
            spec_scan_digits(s@, i as int) == spec_scan_digits(s@, j as int),
        ensures
            i <= j <= n,
            spec_scan_digits(s@, i as int) == spec_scan_digits(s@, j as int),
            j == n || !is_digit_char(s@[j as int]),
        decreases n - j,
    {
        if j < n {
            let c = s.get_char(j);
            let u = c as u32;
            if 48 <= u && u <= 57 {
                assert(is_digit_char(s@[j as int]));
                j = j + 1;
            } else {
                assert(!is_digit_char(s@[j as int]));
                break ;
            }
        } else {
            break ;
        }
    }
    j
}

fn scan_hex(s: &str, n: usize, i: usize) -> (r: usize)
    requires
        n == s@.len(),
        i <= n,
    ensures
        r == spec_scan_hex(s@, i as int),
        i <= r <= n,
{
    let mut j = i;
    loop
        invariant
            i <= j <= n,
            n == s@.len(),
            spec_scan_hex(s@, i as int) == spec_scan_hex(s@, j as int),
        ensures
            i <= j <= n,
            spec_scan_hex(s@, i as int) == spec_scan_hex(s@, j as int),
            j == n || !is_hex_digit_char(s@[j as int]),
        decreases n - j,
    {
        if j < n {
            let c = s.get_char(j);
            let u = c as u32;
            if (48 <= u && u <= 57) || (97 <= u && u <= 102) || (65 <= u && u <= 70) {
                assert(is_hex_digit_char(s@[j as int]));
                j = j + 1;
            } else {
                assert(!is_hex_digit_char(s@[j as int]));
                break ;
            }
        } else {
            break ;
        }
    }
    j
}

// ---------------------------------------------------------------------------
// Numbers: decimal or 0x-prefixed hexadecimal, value at most 255.
// ---------------------------------------------------------------------------

/// Value of a run of decimal digits folded onto `acc`, refused over 255.
pub open spec fn spec_dec_value(ds: Seq<char>, acc: int) -> Option<int>
    decreases ds.len(),
{
    if ds.len() == 0 {
        Some(acc)
    } else {
        let v = acc * 10 + digit_val(ds[0]);
        if v > 255 {
            None
        } else {
            spec_dec_value(ds.subrange(1, ds.len() as int), v)
        }
    }
}

/// Value of a run of hexadecimal digits folded onto `acc`, refused over 255.
pub open spec fn spec_hex_value(ds: Seq<char>, acc: int) -> Option<int>
    decreases ds.len(),
{
    if ds.len() == 0 {
        Some(acc)
    } else {
        let v = acc * 16 + hex_val(ds[0]);
        if v > 255 {
            None
        } else {
            spec_hex_value(ds.subrange(1, ds.len() as int), v)
        }
    }
}

/// The parsed value of a number starting at `i`: the value and the position
/// after its digits, or nothing where no well-formed number stands.
pub open spec fn spec_parse_number(s: Seq<char>, i: int) -> Option<(u8, int)> {
    let j = spec_skip_ws(s, i);
    if j + 1 < s.len() && s[j] == '0' && (s[j + 1] == 'x' || s[j + 1] == 'X') {
        let k = spec_scan_hex(s, j + 2);
        if k == j + 2 {
            None
        } else {
            match spec_hex_value(s.subrange(j + 2, k), 0) {
                Some(v) => Some((v as u8, k)),
                None => None,
            }
        }
    } else {
        let k = spec_scan_digits(s, j);
        if k == j {
            None
        } else {
            match spec_dec_value(s.subrange(j, k), 0) {
                Some(v) => Some((v as u8, k)),
                None => None,
            }
        }
    }
}

fn dec_value(s: &str, n: usize, from: usize, to: usize) -> (r: Option<u8>)
    requires
        n == s@.len(),
        from <= to <= n,
        forall|j: int| from <= j < to ==> is_digit_char(#[trigger] s@[j]),
    ensures
        match r {
            Some(v) => spec_dec_value(s@.subrange(from as int, to as int), 0) == Some(v as int),
            None => spec_dec_value(s@.subrange(from as int, to as int), 0) is None,
        },
{
    let mut v: u32 = 0;
    let mut idx = from;
    while idx < to
        invariant
            from <= idx <= to <= n,
            n == s@.len(),
            v <= 255,
            forall|j: int| from <= j < to ==> is_digit_char(#[trigger] s@[j]),
            spec_dec_value(s@.subrange(from as int, to as int), 0) == spec_dec_value(
                s@.subrange(idx as int, to as int),
                v as int,
            ),
        decreases to - idx,
    {
        let c = s.get_char(idx);
        let d = (c as u32) - 48;
        assert(is_digit_char(s@[idx as int]) && d == digit_val(s@[idx as int]));
        let v2 = v * 10 + d;
        proof {
            assert(s@.subrange(idx as int, to as int)[0] == s@[idx as int]);
            assert(s@.subrange(idx as int, to as int).subrange(
                1,
                s@.subrange(idx as int, to as int).len() as int,
            ) =~= s@.subrange(idx as int + 1, to as int));
        }
        if v2 > 255 {
            return None;
        }
        v = v2;
        idx = idx + 1;
    }
    proof {
        assert(s@.subrange(idx as int, to as int).len() == 0);
    }
    Some(v as u8)
}

fn hex_value(s: &str, n: usize, from: usize, to: usize) -> (r: Option<u8>)
    requires
        n == s@.len(),
        from <= to <= n,
        forall|j: int| from <= j < to ==> is_hex_digit_char(#[trigger] s@[j]),
    ensures
        match r {
            Some(v) => spec_hex_value(s@.subrange(from as int, to as int), 0) == Some(v as int),
            None => spec_hex_value(s@.subrange(from as int, to as int), 0) is None,
        },
{
    let mut v: u32 = 0;
    let mut idx = from;
    while idx < to
        invariant
            from <= idx <= to <= n,
            n == s@.len(),
            v <= 255,
            forall|j: int| from <= j < to ==> is_hex_digit_char(#[trigger] s@[j]),
            spec_hex_value(s@.subrange(from as int, to as int), 0) == spec_hex_value(
                s@.subrange(idx as int, to as int),
                v as int,
            ),
        decreases to - idx,
    {
        let c = s.get_char(idx);
        let u = c as u32;
        let d: u32 = if 48 <= u && u <= 57 {
            u - 48
        } else if 97 <= u && u <= 102 {
            u - 97 + 10
        } else {
            u - 65 + 10
        };
        assert(is_hex_digit_char(s@[idx as int]) && d == hex_val(s@[idx as int]));
        let v2 = v * 16 + d;
        proof {
            assert(s@.subrange(idx as int, to as int)[0] == s@[idx as int]);
            assert(s@.subrange(idx as int, to as int).subrange(
                1,
                s@.subrange(idx as int, to as int).len() as int,
            ) =~= s@.subrange(idx as int + 1, to as int));
        }
        if v2 > 255 {
            return None;
        }
        v = v2;
        idx = idx + 1;
    }
    proof {
        assert(s@.subrange(idx as int, to as int).len() == 0);
    }
    Some(v as u8)
}

fn parse_number(s: &str, n: usize, i: usize) -> (r: Result<(u8, usize), SyntaxError>)
    requires
        n == s@.len(),
        i <= n,
    ensures
        r matches Ok((v, end)) ==> spec_parse_number(s@, i as int) == Some((v, end as int)) && i
            < end <= n,
        r is Ok <==> spec_parse_number(s@, i as int) is Some,
        r matches Err(e) ==> e.pos <= n,
{
    let j = skip_ws(s, n, i);
    let hex = if j < n && n - j > 1 {
        let c0 = s.get_char(j);
        let c1 = s.get_char(j + 1);
        c0 == '0' && (c1 == 'x' || c1 == 'X')
    } else {
        false
    };
    if hex {
        let k = scan_hex(s, n, j + 2);
        proof {
            lemma_scan_hex_bounds(s@, j as int + 2);
        }
        if k == j + 2 {
            return Err(SyntaxError { pos: j });
        }
        match hex_value(s, n, j + 2, k) {
            Some(v) => Ok((v, k)),
            None => Err(SyntaxError { pos: j }),
        }
    } else {
        let k = scan_digits(s, n, j);
        proof {
            lemma_scan_digits_bounds(s@, j as int);
        }
        if k == j {
            return Err(SyntaxError { pos: j });
        }
        match dec_value(s, n, j, k) {
            Some(v) => Ok((v, k)),
            None => Err(SyntaxError { pos: j }),
        }
    }
}

// ---------------------------------------------------------------------------
// Small executable helpers over string slices.
// ---------------------------------------------------------------------------

/// Whether the characters of `s` between `from` and `to` are exactly `kw`.
fn str_seq_eq(s: &str, n: usize, from: usize, to: usize, kw: &str) -> (r: bool)
    requires
        n == s@.len(),
        from <= to <= n,
    ensures
        r == (s@.subrange(from as int, to as int) == kw@),
{
    let m = kw.unicode_len();
    if to - from != m {
        proof {
            assert(s@.subrange(from as int, to as int).len() == to - from);
        }
        return false;
    }
    let mut q: usize = 0;
    while q < m
        invariant
            q <= m,
            n == s@.len(),
            from <= to <= n,
            to - from == m,
            m == kw@.len(),
            forall|t: int| 0 <= t < q ==> s@[from + t] == kw@[t],
        decreases m - q,
    {
        let a = s.get_char(from + q);
        let b = kw.get_char(q);
        if a != b {
            proof {
                assert(s@.subrange(from as int, to as int)[q as int] == s@[from + q]);
            }
            return false;
        }
        q = q + 1;
    }
    proof {
        assert(s@.subrange(from as int, to as int) =~= kw@);
    }
    true
}

/// Copies the characters of `s` between `from` and `to` into an owned string.
fn substring_string(s: &str, from: usize, to: usize) -> (r: String)
    requires
        from <= to <= s@.len(),
    ensures
        r@ == s@.subrange(from as int, to as int),
{
    let sub = s.substring_char(from, to);
    String::from_str(sub)
}

// ---------------------------------------------------------------------------
// Field parsers: specification level.
// ---------------------------------------------------------------------------

/// Position after the expected `|`, or nothing where none stands.
pub open spec fn spec_parse_pipe(s: Seq<char>, i: int) -> Option<int> {
    let j = spec_skip_ws(s, i);
    if j < s.len() && s[j] == '|' {
        Some(j + 1)
    } else {
        None
    }
}

/// The identifier column: `_` or a constant name.
pub open spec fn spec_parse_ident(s: Seq<char>, i: int) -> Option<(CommandIdentV, int)> {
    let j = spec_skip_ws(s, i);
    if j < s.len() && is_ident_start_char(s[j]) {
        let k = spec_scan_ident(s, j);
        if k == j + 1 && s[j] == '_' {
            Some((CommandIdentV::Undefined, k))
        } else {
            Some((CommandIdentV::Verbatim(s.subrange(j, k)), k))
        }
    } else {
        None
    }
}

/// A payload type: a plain identifier.
pub open spec fn spec_parse_type(s: Seq<char>, i: int) -> Option<(Seq<char>, int)> {
    let j = spec_skip_ws(s, i);
    if j < s.len() && is_ident_start_char(s[j]) {
        let k = spec_scan_ident(s, j);
        Some((s.subrange(j, k), k))
    } else {
        None
    }
}

/// Position after the expected `:`, or nothing where none stands.
pub open spec fn spec_parse_colon(s: Seq<char>, i: int) -> Option<int> {
    let j = spec_skip_ws(s, i);
    if j < s.len() && s[j] == ':' {
        Some(j + 1)
    } else {
        None
    }
}

/// The write column: `_` | `!` | `write: <Type>` | `send`.
pub open spec fn spec_parse_write(s: Seq<char>, i: int) -> Option<(CommandWriteV, int)> {
    let j = spec_skip_ws(s, i);
    if j < s.len() && s[j] == '!' {
        Some((CommandWriteV::Unimplemented, j + 1))
    } else if j < s.len() && is_ident_start_char(s[j]) {
        let k = spec_scan_ident(s, j);
        if k == j + 1 && s[j] == '_' {
            Some((CommandWriteV::Undefined, k))
        } else if s.subrange(j, k) == "write"@ {
            match spec_parse_colon(s, k) {
                None => None,
                Some(m) => match spec_parse_type(s, m) {
                    None => None,
                    Some((t, u)) => Some((CommandWriteV::Write(t), u)),
                },
            }
        } else if s.subrange(j, k) == "send"@ {
            Some((CommandWriteV::Send, k))
        } else {
            None
        }
    } else {
        None
    }
}

/// The read column: `_` | `!` | `read: <Type>` | `call: <Type>`.
pub open spec fn spec_parse_read(s: Seq<char>, i: int) -> Option<(CommandReadV, int)> {
    let j = spec_skip_ws(s, i);
    if j < s.len() && s[j] == '!' {
        Some((CommandReadV::Unimplemented, j + 1))
    } else if j < s.len() && is_ident_start_char(s[j]) {
        let k = spec_scan_ident(s, j);
        if k == j + 1 && s[j] == '_' {
            Some((CommandReadV::Undefined, k))
        } else if s.subrange(j, k) == "read"@ {
            match spec_parse_colon(s, k) {
                None => None,
                Some(m) => match spec_parse_type(s, m) {
                    None => None,
                    Some((t, u)) => Some((CommandReadV::Read(t), u)),
                },
            }
        } else if s.subrange(j, k) == "call"@ {
            match spec_parse_colon(s, k) {
                None => None,
                Some(m) => match spec_parse_type(s, m) {
                    None => None,
                    Some((t, u)) => Some((CommandReadV::Call(t), u)),
                },
            }
        } else {
            None
        }
    } else {
        None
    }
}

/// The byte-count column: `_` | `!` | a number up to 255.
pub open spec fn spec_parse_count(s: Seq<char>, i: int) -> Option<(CommandByteCountV, int)> {
    let j = spec_skip_ws(s, i);
    if j < s.len() && s[j] == '!' {
        Some((CommandByteCountV::Unimplemented, j + 1))
    } else if j < s.len() && s[j] == '_' {
        Some((CommandByteCountV::Undefined, j + 1))
    } else {
        match spec_parse_number(s, i) {
            None => None,
            Some((v, k)) => Some((CommandByteCountV::Count(v), k)),
        }
    }
}

/// One whole row between its outer pipes.
pub open spec fn spec_parse_entry(s: Seq<char>, i: int) -> Option<(CommandEntryV, int)> {
    match spec_parse_pipe(s, i) {
        None => None,
        Some(a) => match spec_parse_number(s, a) {
            None => None,
            Some((byte, b)) => match spec_parse_pipe(s, b) {
                None => None,
                Some(c) => match spec_parse_ident(s, c) {
                    None => None,
                    Some((id, d)) => match spec_parse_pipe(s, d) {
                        None => None,
                        Some(e) => match spec_parse_write(s, e) {
                            None => None,
                            Some((w, f)) => match spec_parse_pipe(s, f) {
                                None => None,
                                Some(g) => match spec_parse_read(s, g) {
                                    None => None,
                                    Some((rk, h)) => match spec_parse_pipe(s, h) {
                                        None => None,
                                        Some(m) => match spec_parse_count(s, m) {
                                            None => None,
                                            Some((bc, p)) => match spec_parse_pipe(s, p) {
                                                None => None,
                                                Some(end) => Some(
                                                    (
                                                        CommandEntryV {
                                                            byte,
                                                            ident: id,
                                                            write_kind: w,
                                                            read_kind: rk,
                                                            byte_count: bc,
                                                        },
                                                        end,
                                                    ),
                                                ),
                                            },
                                        },
                                    },
                                },
                            },
                        },
                    },
                },
            },
        },
    }
}

/// The whole table: rows separated by commas, a trailing comma tolerated,
/// whitespace alone standing for the empty table.
pub open spec fn spec_parse_table(s: Seq<char>, i: int) -> Option<(Seq<CommandEntryV>, int)>
    decreases s.len() - i,
{
    let j = spec_skip_ws(s, i);
    if j >= s.len() {
        Some((Seq::empty(), j))
    } else {
        match spec_parse_entry(s, i) {
            None => None,
            Some((e, k)) => {
                let m = spec_skip_ws(s, k);
                if m < s.len() {
                    if s[m] == ',' && i < m + 1 && m + 1 <= s.len() {
                        match spec_parse_table(s, m + 1) {
                            None => None,
                            Some((rest, end)) => Some((seq![e] + rest, end)),
                        }
                    } else {
                        None
                    }
                } else {
                    Some((seq![e], m))
                }
            },
        }
    }
}

// ---------------------------------------------------------------------------
// Exactness of the scanners on known runs.
// ---------------------------------------------------------------------------

proof fn lemma_scan_ident_exact(s: Seq<char>, i: int, k: int)
    requires
        0 <= i <= k <= s.len(),
        forall|j: int| i <= j < k ==> is_ident_cont_char(#[trigger] s[j]),
        k < s.len() ==> !is_ident_cont_char(s[k]),
    ensures
        spec_scan_ident(s, i) == k,
    decreases k - i,
{
    if i < k {
        lemma_scan_ident_exact(s, i + 1, k);
    }
}

proof fn lemma_scan_digits_exact(s: Seq<char>, i: int, k: int)
    requires
        0 <= i <= k <= s.len(),
        forall|j: int| i <= j < k ==> is_digit_char(#[trigger] s[j]),
        k < s.len() ==> !is_digit_char(s[k]),
    ensures
        spec_scan_digits(s, i) == k,
    decreases k - i,
{
    if i < k {
        lemma_scan_digits_exact(s, i + 1, k);
    }
}

// ---------------------------------------------------------------------------
// The decimal rendering parses back to its value.
// ---------------------------------------------------------------------------

proof fn lemma_char_of_digit(d: int)
    requires
        0 <= d < 10,
    ensures
        is_digit_char(char_of_digit(d)),
        digit_val(char_of_digit(d)) == d,
        d > 0 ==> char_of_digit(d) != '0',
        is_ident_cont_char(char_of_digit(d)),
        !is_ws_char(char_of_digit(d)),
{
}

proof fn lemma_dec_of_spec_dec(n: u8)
    ensures
        forall|q: int| 0 <= q < spec_dec(n).len() ==> is_digit_char(#[trigger] spec_dec(n)[q]),
        n >= 10 ==> spec_dec(n)[0] != '0',
        1 <= spec_dec(n).len() <= 3,
        spec_dec_value(spec_dec(n), 0) == Some(n as int),
{
    vstd::arithmetic::div_mod::lemma_fundamental_div_mod(n as int, 10);
    let ds = spec_dec(n);
    if n < 10 {
        lemma_char_of_digit(n as int);
        assert(ds =~= seq![char_of_digit(n as int)]);
        assert(ds.subrange(1, 1) =~= Seq::<char>::empty());
        assert(spec_dec_value(ds, 0) == spec_dec_value(ds.subrange(1, 1), n as int));
    } else if n < 100 {
        let d1 = n as int / 10;
        let d0 = n as int % 10;
        assert(1 <= d1 <= 9);
        lemma_char_of_digit(d1);
        lemma_char_of_digit(d0);
        assert(ds == seq![char_of_digit(d1), char_of_digit(d0)]);
        let ds1 = ds.subrange(1, 2);
        assert(ds1 =~= seq![char_of_digit(d0)]);
        assert(ds1.subrange(1, 1) =~= Seq::<char>::empty());
        assert(spec_dec_value(ds, 0) == spec_dec_value(ds1, d1));
        assert(spec_dec_value(ds1, d1) == spec_dec_value(ds1.subrange(1, 1), d1 * 10 + d0));
        assert(d1 * 10 + d0 == n as int);
    } else {
        let d2 = n as int / 100;
        let d1 = (n as int / 10) % 10;
        let d0 = n as int % 10;
        vstd::arithmetic::div_mod::lemma_fundamental_div_mod(n as int / 10, 10);
        vstd::arithmetic::div_mod::lemma_div_denominator(n as int, 10, 10);
        assert(1 <= d2 <= 2);
        assert(n as int / 10 == d2 * 10 + d1);
        lemma_char_of_digit(d2);
        lemma_char_of_digit(d1);
        lemma_char_of_digit(d0);
        assert(ds == seq![char_of_digit(d2), char_of_digit(d1), char_of_digit(d0)]);
        let ds1 = ds.subrange(1, 3);
        let ds2 = ds1.subrange(1, 2);
        assert(ds1 =~= seq![char_of_digit(d1), char_of_digit(d0)]);
        assert(ds2 =~= seq![char_of_digit(d0)]);
        assert(ds2.subrange(1, 1) =~= Seq::<char>::empty());
        assert(spec_dec_value(ds, 0) == spec_dec_value(ds1, d2));
        assert(d2 * 10 + d1 == n as int / 10);
        assert(spec_dec_value(ds1, d2) == spec_dec_value(ds2, n as int / 10));
        assert((n as int / 10) * 10 + d0 == n as int);
        assert(spec_dec_value(ds2, n as int / 10) == spec_dec_value(
            ds2.subrange(1, 1),
            n as int,
        ));
    }
}

/// Parsing a number at the canonical decimal rendering of `n` yields `n`.
proof fn lemma_parse_number_at(s: Seq<char>, i: int, n: u8)
    requires
        0 <= i,
        i + spec_dec(n).len() <= s.len(),
        s.subrange(i, i + spec_dec(n).len()) == spec_dec(n),
        i + spec_dec(n).len() < s.len() ==> s[i + spec_dec(n).len()] == '|',
    ensures
        spec_parse_number(s, i) == Some((n, i + spec_dec(n).len())),
{
    let ds = spec_dec(n);
    let l = ds.len() as int;
    lemma_dec_of_spec_dec(n);
    assert(forall|j: int| i <= j < i + l ==> is_digit_char(#[trigger] s[j]) && !is_ws_char(s[j]))
        by {
        assert(forall|j: int| i <= j < i + l ==> s[j] == ds[j - i]);
        assert(forall|q: int| 0 <= q < l ==> is_digit_char(#[trigger] ds[q]) && !is_ws_char(
            ds[q],
        ));
    }
    assert(s[i] == ds[0]);
    assert(spec_skip_ws(s, i) == i);
    // The hexadecimal alternative does not apply: a canonical decimal either
    // has a nonzero leading digit or is the single digit `0` followed by `|`.
    if i + 1 < s.len() && s[i] == '0' && (s[i + 1] == 'x' || s[i + 1] == 'X') {
        if l == 1 {
            assert(s[i + 1] == '|');
            assert(false);
        } else {
            assert(s[i + 1] == ds[1]);
            assert(is_digit_char(ds[1]));
            assert(false);
        }
    }
    lemma_scan_digits_exact(s, i, i + l);
    assert(s.subrange(i, i + l) == ds);
    assert(spec_dec_value(s.subrange(i, i + l), 0) == Some(n as int));
}

// ---------------------------------------------------------------------------
// Bounds of the field parsers.
// ---------------------------------------------------------------------------

proof fn lemma_parse_pipe_bounds(s: Seq<char>, i: int)
    requires
        0 <= i <= s.len(),
    ensures
        spec_parse_pipe(s, i) matches Some(r) ==> i < r <= s.len(),
{
    lemma_skip_ws_bounds(s, i);
}

proof fn lemma_parse_number_bounds(s: Seq<char>, i: int)
    requires
        0 <= i <= s.len(),
    ensures
        spec_parse_number(s, i) matches Some(p) ==> i < p.1 <= s.len(),
{
    lemma_skip_ws_bounds(s, i);
    let j = spec_skip_ws(s, i);
    if j + 2 <= s.len() {
        lemma_scan_hex_bounds(s, j + 2);
    }
    lemma_scan_digits_bounds(s, j);
}

proof fn lemma_parse_ident_bounds(s: Seq<char>, i: int)
    requires
        0 <= i <= s.len(),
    ensures
        spec_parse_ident(s, i) matches Some(p) ==> i < p.1 <= s.len(),
{
    lemma_skip_ws_bounds(s, i);
    let j = spec_skip_ws(s, i);
    if j < s.len() {
        lemma_scan_ident_bounds(s, j + 1);
    }
}

proof fn lemma_parse_type_bounds(s: Seq<char>, i: int)
    requires
        0 <= i <= s.len(),
    ensures
        spec_parse_type(s, i) matches Some(p) ==> i < p.1 <= s.len(),
{
    lemma_skip_ws_bounds(s, i);
    let j = spec_skip_ws(s, i);
    if j < s.len() {
        lemma_scan_ident_bounds(s, j + 1);
    }
}

proof fn lemma_parse_write_bounds(s: Seq<char>, i: int)
    requires
        0 <= i <= s.len(),
    ensures
        spec_parse_write(s, i) matches Some(p) ==> i < p.1 <= s.len(),
{
    lemma_skip_ws_bounds(s, i);
    let j = spec_skip_ws(s, i);
    if j < s.len() {
        lemma_scan_ident_bounds(s, j + 1);
        let k = spec_scan_ident(s, j);
        if 0 <= k <= s.len() {
            lemma_skip_ws_bounds(s, k);
            let m = spec_skip_ws(s, k);
            if m + 1 <= s.len() {
                lemma_parse_type_bounds(s, m + 1);
            }
        }
    }
}

proof fn lemma_parse_read_bounds(s: Seq<char>, i: int)
    requires
        0 <= i <= s.len(),
    ensures
        spec_parse_read(s, i) matches Some(p) ==> i < p.1 <= s.len(),
{
    lemma_skip_ws_bounds(s, i);
    let j = spec_skip_ws(s, i);
    if j < s.len() {
        lemma_scan_ident_bounds(s, j + 1);
        let k = spec_scan_ident(s, j);
        if 0 <= k <= s.len() {
            lemma_skip_ws_bounds(s, k);
            let m = spec_skip_ws(s, k);
            if m + 1 <= s.len() {
                lemma_parse_type_bounds(s, m + 1);
            }
        }
    }
}

// ---------------------------------------------------------------------------
// A parsed row is well formed.
// ---------------------------------------------------------------------------

proof fn lemma_parse_ident_wf(s: Seq<char>, i: int)
    requires
        0 <= i <= s.len(),
        spec_parse_ident(s, i) is Some,
    ensures
        spec_parse_ident(s, i)->Some_0.0.wf(),
{
    lemma_skip_ws_bounds(s, i);
    let j = spec_skip_ws(s, i);
    lemma_scan_ident_bounds(s, j);
    lemma_scan_ident_bounds(s, j + 1);
    let k = spec_scan_ident(s, j);
    assert(k >= j + 1);
    assert(is_ident_seq(s.subrange(j, k)));
}

proof fn lemma_parse_type_wf(s: Seq<char>, i: int)
    requires
        0 <= i <= s.len(),
        spec_parse_type(s, i) is Some,
    ensures
        is_ident_seq(spec_parse_type(s, i)->Some_0.0),
{
    lemma_skip_ws_bounds(s, i);
    let j = spec_skip_ws(s, i);
    lemma_scan_ident_bounds(s, j);
    lemma_scan_ident_bounds(s, j + 1);
    let k = spec_scan_ident(s, j);
    assert(k >= j + 1);
    assert(is_ident_seq(s.subrange(j, k)));
}

proof fn lemma_parse_write_wf(s: Seq<char>, i: int)
    requires
        0 <= i <= s.len(),
        spec_parse_write(s, i) is Some,
    ensures
        spec_parse_write(s, i)->Some_0.0.wf(),
{
    lemma_skip_ws_bounds(s, i);
    let j = spec_skip_ws(s, i);
    if j < s.len() && !(s[j] == '!') && is_ident_start_char(s[j]) {
        lemma_scan_ident_bounds(s, j);
        let k = spec_scan_ident(s, j);
        if !(k == j + 1 && s[j] == '_') && s.subrange(j, k) == "write"@ {
            if spec_parse_colon(s, k) is Some {
                let m = spec_parse_colon(s, k)->Some_0;
                lemma_skip_ws_bounds(s, k);
                if 0 <= m <= s.len() && spec_parse_type(s, m) is Some {
                    lemma_parse_type_wf(s, m);
                }
            }
        }
    }
}

proof fn lemma_parse_read_wf(s: Seq<char>, i: int)
    requires
        0 <= i <= s.len(),
        spec_parse_read(s, i) is Some,
    ensures
        spec_parse_read(s, i)->Some_0.0.wf(),
{
    lemma_skip_ws_bounds(s, i);
    let j = spec_skip_ws(s, i);
    if j < s.len() && !(s[j] == '!') && is_ident_start_char(s[j]) {
        lemma_scan_ident_bounds(s, j);
        let k = spec_scan_ident(s, j);
        if !(k == j + 1 && s[j] == '_') && (s.subrange(j, k) == "read"@ || s.subrange(j, k)
            == "call"@) {
            if spec_parse_colon(s, k) is Some {
                let m = spec_parse_colon(s, k)->Some_0;
                lemma_skip_ws_bounds(s, k);
                if 0 <= m <= s.len() && spec_parse_type(s, m) is Some {
                    lemma_parse_type_wf(s, m);
                }
            }
        }
    }
}

/// Whatever the grammar accepts as a row denotes a well-formed entry.
pub proof fn lemma_parse_entry_wf(s: Seq<char>, i: int)
    requires
        0 <= i <= s.len(),
        spec_parse_entry(s, i) is Some,
    ensures
        spec_parse_entry(s, i)->Some_0.0.wf(),
{
    lemma_parse_pipe_bounds(s, i);
    let a = spec_parse_pipe(s, i)->Some_0;
    lemma_parse_number_bounds(s, a);
    let b = spec_parse_number(s, a)->Some_0.1;
    lemma_parse_pipe_bounds(s, b);
    let c = spec_parse_pipe(s, b)->Some_0;
    lemma_parse_ident_bounds(s, c);
    lemma_parse_ident_wf(s, c);
    let d = spec_parse_ident(s, c)->Some_0.1;
    lemma_parse_pipe_bounds(s, d);
    let e = spec_parse_pipe(s, d)->Some_0;
    lemma_parse_write_bounds(s, e);
    lemma_parse_write_wf(s, e);
    let f = spec_parse_write(s, e)->Some_0.1;
    lemma_parse_pipe_bounds(s, f);
    let g = spec_parse_pipe(s, f)->Some_0;
    lemma_parse_read_bounds(s, g);
    lemma_parse_read_wf(s, g);
}

// ---------------------------------------------------------------------------
// Parsing at a canonical field rendering recovers the field.
// ---------------------------------------------------------------------------

proof fn lemma_parse_ident_at(s: Seq<char>, i: int, v: CommandIdentV)
    requires
        0 <= i,
        v.wf(),
        i + spec_ser_ident(v).len() <= s.len(),
        s.subrange(i, i + spec_ser_ident(v).len()) == spec_ser_ident(v),
        i + spec_ser_ident(v).len() < s.len() ==> !is_ident_cont_char(
            s[i + spec_ser_ident(v).len()],
        ),
    ensures
        spec_parse_ident(s, i) == Some((v, i + spec_ser_ident(v).len())),
{
    let ser = spec_ser_ident(v);
    let l = ser.len() as int;
    assert(forall|j: int| i <= j < i + l ==> s[j] == ser[j - i]);
    match v {
        CommandIdentV::Undefined => {
            assert(s[i] == '_');
            assert(spec_skip_ws(s, i) == i);
            lemma_scan_ident_exact(s, i, i + 1);
        },
        CommandIdentV::Verbatim(name) => {
            assert(forall|j: int| i <= j < i + l ==> is_ident_cont_char(#[trigger] s[j]));
            assert(s[i] == name[0]);
            assert(spec_skip_ws(s, i) == i);
            lemma_scan_ident_exact(s, i, i + l);
            assert(s.subrange(i, i + l) =~= name);
            if l == 1 {
                assert(name[0] != '_');
            }
        },
    }
}

proof fn lemma_parse_write_at(s: Seq<char>, i: int, v: CommandWriteV)
    requires
        0 <= i,
        v.wf(),
        i + spec_ser_write(v).len() <= s.len(),
        s.subrange(i, i + spec_ser_write(v).len()) == spec_ser_write(v),
        i + spec_ser_write(v).len() < s.len() ==> s[i + spec_ser_write(v).len()] == '|',
    ensures
        spec_parse_write(s, i) == Some((v, i + spec_ser_write(v).len())),
{
    reveal_strlit("write");
    reveal_strlit("write:");
    reveal_strlit("send");
    let ser = spec_ser_write(v);
    let l = ser.len() as int;
    assert(forall|j: int| i <= j < i + l ==> s[j] == ser[j - i]);
    match v {
        CommandWriteV::Undefined => {
            assert(s[i] == '_');
            assert(spec_skip_ws(s, i) == i);
            lemma_scan_ident_exact(s, i, i + 1);
        },
        CommandWriteV::Unimplemented => {
            assert(s[i] == '!');
            assert(spec_skip_ws(s, i) == i);
        },
        CommandWriteV::Send => {
            assert(s[i] == 's' && s[i + 1] == 'e' && s[i + 2] == 'n' && s[i + 3] == 'd');
            assert(spec_skip_ws(s, i) == i);
            lemma_scan_ident_exact(s, i, i + 4);
            assert(s.subrange(i, i + 4) =~= "send"@);
            assert(s.subrange(i, i + 4) != "write"@);
        },
        CommandWriteV::Write(t) => {
            assert(s[i] == 'w' && s[i + 1] == 'r' && s[i + 2] == 'i' && s[i + 3] == 't' && s[i
                + 4] == 'e' && s[i + 5] == ':');
            assert(forall|j: int| i + 6 <= j < i + l ==> s[j] == t[j - (i + 6)]);
            assert(spec_skip_ws(s, i) == i);
            lemma_scan_ident_exact(s, i, i + 5);
            assert(s.subrange(i, i + 5) =~= "write"@);
            assert(spec_skip_ws(s, i + 5) == i + 5);
            assert(spec_parse_colon(s, i + 5) == Some(i + 6));
            assert(is_ident_start_char(t[0]) && !is_ws_char(t[0]));
            assert(spec_skip_ws(s, i + 6) == i + 6);
            lemma_scan_ident_exact(s, i + 6, i + l);
            assert(s.subrange(i + 6, i + l) =~= t);
            assert(spec_parse_type(s, i + 6) == Some((t, i + l)));
        },
    }
}

proof fn lemma_parse_read_at(s: Seq<char>, i: int, v: CommandReadV)
    requires
        0 <= i,
        v.wf(),
        i + spec_ser_read(v).len() <= s.len(),
        s.subrange(i, i + spec_ser_read(v).len()) == spec_ser_read(v),
        i + spec_ser_read(v).len() < s.len() ==> s[i + spec_ser_read(v).len()] == '|',
    ensures
        spec_parse_read(s, i) == Some((v, i + spec_ser_read(v).len())),
{
    reveal_strlit("read");
    reveal_strlit("read:");
    reveal_strlit("call");
    reveal_strlit("call:");
    let ser = spec_ser_read(v);
    let l = ser.len() as int;
    assert(forall|j: int| i <= j < i + l ==> s[j] == ser[j - i]);
    match v {
        CommandReadV::Undefined => {
            assert(s[i] == '_');
            assert(spec_skip_ws(s, i) == i);
            lemma_scan_ident_exact(s, i, i + 1);
        },
        CommandReadV::Unimplemented => {
            assert(s[i] == '!');
            assert(spec_skip_ws(s, i) == i);
        },
        CommandReadV::Read(t) => {
            assert(s[i] == 'r' && s[i + 1] == 'e' && s[i + 2] == 'a' && s[i + 3] == 'd' && s[i
                + 4] == ':');
            assert(forall|j: int| i + 5 <= j < i + l ==> s[j] == t[j - (i + 5)]);
            assert(spec_skip_ws(s, i) == i);
            lemma_scan_ident_exact(s, i, i + 4);
            assert(s.subrange(i, i + 4) =~= "read"@);
            assert(spec_skip_ws(s, i + 4) == i + 4);
            assert(spec_parse_colon(s, i + 4) == Some(i + 5));
            assert(is_ident_start_char(t[0]) && !is_ws_char(t[0]));
            assert(spec_skip_ws(s, i + 5) == i + 5);
            lemma_scan_ident_exact(s, i + 5, i + l);
            assert(s.subrange(i + 5, i + l) =~= t);
            assert(spec_parse_type(s, i + 5) == Some((t, i + l)));
        },
        CommandReadV::Call(t) => {
            assert(s[i] == 'c' && s[i + 1] == 'a' && s[i + 2] == 'l' && s[i + 3] == 'l' && s[i
                + 4] == ':');
            assert(forall|j: int| i + 5 <= j < i + l ==> s[j] == t[j - (i + 5)]);
            assert(spec_skip_ws(s, i) == i);
            lemma_scan_ident_exact(s, i, i + 4);
            assert(s.subrange(i, i + 4) =~= "call"@);
            assert(s.subrange(i, i + 4) != "read"@);
            assert(spec_skip_ws(s, i + 4) == i + 4);
            assert(spec_parse_colon(s, i + 4) == Some(i + 5));
            assert(is_ident_start_char(t[0]) && !is_ws_char(t[0]));
            assert(spec_skip_ws(s, i + 5) == i + 5);
            lemma_scan_ident_exact(s, i + 5, i + l);
            assert(s.subrange(i + 5, i + l) =~= t);
            assert(spec_parse_type(s, i + 5) == Some((t, i + l)));
        },
    }
}

proof fn lemma_parse_count_at(s: Seq<char>, i: int, v: CommandByteCountV)
    requires
        0 <= i,
        i + spec_ser_count(v).len() <= s.len(),
        s.subrange(i, i + spec_ser_count(v).len()) == spec_ser_count(v),
        i + spec_ser_count(v).len() < s.len() ==> s[i + spec_ser_count(v).len()] == '|',
    ensures
        spec_parse_count(s, i) == Some((v, i + spec_ser_count(v).len())),
{
    let ser = spec_ser_count(v);
    let l = ser.len() as int;
    assert(forall|j: int| i <= j < i + l ==> s[j] == ser[j - i]);
    match v {
        CommandByteCountV::Undefined => {
            assert(s[i] == '_');
            assert(spec_skip_ws(s, i) == i);
        },
        CommandByteCountV::Unimplemented => {
            assert(s[i] == '!');
            assert(spec_skip_ws(s, i) == i);
        },
        CommandByteCountV::Count(n) => {
            lemma_dec_of_spec_dec(n);
            assert(s[i] == spec_dec(n)[0]);
            assert(is_digit_char(s[i]));
            assert(spec_skip_ws(s, i) == i);
            lemma_parse_number_at(s, i, n);
        },
    }
}

// ---------------------------------------------------------------------------
// The round trip over whole rows.
// ---------------------------------------------------------------------------

/// Parsing at the canonical rendering of a well-formed entry recovers the
/// entry, consuming the whole rendering.
pub proof fn lemma_parse_entry_at(s: Seq<char>, i: int, e: CommandEntryV)
    requires
        0 <= i,
        e.wf(),
        i + spec_ser_entry(e).len() <= s.len(),
        s.subrange(i, i + spec_ser_entry(e).len()) == spec_ser_entry(e),
    ensures
        spec_parse_entry(s, i) == Some((e, i + spec_ser_entry(e).len())),
{
    let ser = spec_ser_entry(e);
    let l = ser.len() as int;
    let d = spec_dec(e.byte);
    let si = spec_ser_ident(e.ident);
    let sw = spec_ser_write(e.write_kind);
    let sr = spec_ser_read(e.read_kind);
    let sc = spec_ser_count(e.byte_count);
    let o1: int = i + 1;
    let o2 = o1 + d.len() as int;
    let o3 = o2 + 1;
    let o4 = o3 + si.len() as int;
    let o5 = o4 + 1;
    let o6 = o5 + sw.len() as int;
    let o7 = o6 + 1;
    let o8 = o7 + sr.len() as int;
    let o9 = o8 + 1;
    let o10 = o9 + sc.len() as int;
    let o11 = o10 + 1;
    assert(i + l == o11);
    assert(forall|j: int| i <= j < i + l ==> s[j] == ser[j - i]);
    assert(s[i] == '|');
    assert(s[o2] == '|');
    assert(s[o4] == '|');
    assert(s[o6] == '|');
    assert(s[o8] == '|');
    assert(s[o10] == '|');
    assert(s.subrange(o1, o2) =~= d);
    assert(s.subrange(o3, o4) =~= si);
    assert(s.subrange(o5, o6) =~= sw);
    assert(s.subrange(o7, o8) =~= sr);
    assert(s.subrange(o9, o10) =~= sc);
    assert(spec_skip_ws(s, i) == i);
    assert(spec_parse_pipe(s, i) == Some(o1));
    lemma_parse_number_at(s, o1, e.byte);
    assert(spec_skip_ws(s, o2) == o2);
    assert(spec_parse_pipe(s, o2) == Some(o3));
    lemma_parse_ident_at(s, o3, e.ident);
    assert(spec_skip_ws(s, o4) == o4);
    assert(spec_parse_pipe(s, o4) == Some(o5));
    lemma_parse_write_at(s, o5, e.write_kind);
    assert(spec_skip_ws(s, o6) == o6);
    assert(spec_parse_pipe(s, o6) == Some(o7));
    lemma_parse_read_at(s, o7, e.read_kind);
    assert(spec_skip_ws(s, o8) == o8);
    assert(spec_parse_pipe(s, o8) == Some(o9));
    lemma_parse_count_at(s, o9, e.byte_count);
    assert(spec_skip_ws(s, o10) == o10);
    assert(spec_parse_pipe(s, o10) == Some(o11));
    assert(spec_parse_entry(s, i) == Some((e, o11)));
}

/// Parse round-trip: any syntactically valid row, reparsed after canonical
/// re-serialization, yields a value-equal entry.
pub proof fn lemma_parse_round_trip(s: Seq<char>, i: int)
    requires
        0 <= i <= s.len(),
        spec_parse_entry(s, i) is Some,
    ensures
        ({
            let e = spec_parse_entry(s, i)->Some_0.0;
            spec_parse_entry(spec_ser_entry(e), 0) == Some((e, spec_ser_entry(e).len() as int))
        }),
{
    lemma_parse_entry_wf(s, i);
    let e = spec_parse_entry(s, i)->Some_0.0;
    let ser = spec_ser_entry(e);
    assert(ser.subrange(0, ser.len() as int) =~= ser);
    lemma_parse_entry_at(ser, 0, e);
}

// ---------------------------------------------------------------------------
// The round trip over whole tables.
// ---------------------------------------------------------------------------

proof fn lemma_ser_table_front(t: Seq<CommandEntryV>)
    requires
        t.len() >= 2,
    ensures
        spec_ser_table(t) == spec_ser_entry(t[0]) + seq![','] + spec_ser_table(t.drop_first()),
    decreases t.len(),
{
    if t.len() == 2 {
        assert(t.drop_last() =~= seq![t[0]]);
        assert(t.drop_first() =~= seq![t[1]]);
        assert(spec_ser_table(seq![t[0]]) == spec_ser_entry(seq![t[0]][0]));
        assert(spec_ser_table(seq![t[1]]) == spec_ser_entry(seq![t[1]][0]));
        assert(t.last() == t[1]);
        assert(spec_ser_table(t) =~= spec_ser_entry(t[0]) + seq![','] + spec_ser_table(
            t.drop_first(),
        ));
    } else {
        lemma_ser_table_front(t.drop_last());
        assert(t.drop_last().drop_first() =~= t.drop_first().drop_last());
        assert(t.drop_first().last() == t.last());
        assert(t.drop_last()[0] == t[0]);
        assert(spec_ser_table(t.drop_first()) == spec_ser_table(t.drop_first().drop_last())
            + seq![','] + spec_ser_entry(t.drop_first().last()));
        assert(spec_ser_table(t) =~= spec_ser_entry(t[0]) + seq![','] + spec_ser_table(
            t.drop_first(),
        ));
    }
}

#[verifier::rlimit(60)]
proof fn lemma_parse_table_at(s: Seq<char>, i: int, t: Seq<CommandEntryV>)
    requires
        0 <= i <= s.len(),
        forall|k: int| 0 <= k < t.len() ==> (#[trigger] t[k]).wf(),
        i + spec_ser_table(t).len() == s.len(),
        s.subrange(i, s.len() as int) == spec_ser_table(t),
    ensures
        spec_parse_table(s, i) == Some((t, s.len() as int)),
    decreases t.len(),
{
    let ser = spec_ser_table(t);
    assert(forall|j: int| i <= j < s.len() ==> s[j] == ser[j - i]);
    if t.len() == 0 {
        assert(i == s.len());
        assert(t =~= Seq::<CommandEntryV>::empty());
    } else if t.len() == 1 {
        let e = t[0];
        let l = spec_ser_entry(e).len() as int;
        assert(ser == spec_ser_entry(e));
        assert(s.subrange(i, i + l) =~= spec_ser_entry(e));
        lemma_parse_entry_at(s, i, e);
        assert(s[i] == '|');
        assert(spec_skip_ws(s, i) == i);
        assert(spec_skip_ws(s, i + l) == i + l);
        assert(seq![e] =~= t);
    } else {
        lemma_ser_table_front(t);
        let e = t[0];
        let rest = t.drop_first();
        let l = spec_ser_entry(e).len() as int;
        assert(s.subrange(i, i + l) =~= spec_ser_entry(e));
        lemma_parse_entry_at(s, i, e);
        assert(s[i] == '|');
        assert(spec_skip_ws(s, i) == i);
        assert(s[i + l] == ',');
        assert(spec_skip_ws(s, i + l) == i + l);
        assert(s.subrange(i + l + 1, s.len() as int) =~= spec_ser_table(rest));
        lemma_parse_table_at(s, i + l + 1, rest);
        assert(seq![e] + rest =~= t);
    }
}

proof fn lemma_parse_table_wf(s: Seq<char>, i: int)
    requires
        0 <= i <= s.len(),
        spec_parse_table(s, i) is Some,
    ensures
        forall|k: int|
            0 <= k < spec_parse_table(s, i)->Some_0.0.len() ==> (#[trigger] spec_parse_table(
                s,
                i,
            )->Some_0.0[k]).wf(),
    decreases s.len() - i,
{
    let j = spec_skip_ws(s, i);
    lemma_skip_ws_bounds(s, i);
    if j < s.len() {
        lemma_parse_entry_wf(s, i);
        let ek = spec_parse_entry(s, i)->Some_0;
        let m = spec_skip_ws(s, ek.1);
        if m < s.len() && s[m] == ',' && i < m + 1 && m + 1 <= s.len() {
            lemma_parse_table_wf(s, m + 1);
        }
    }
}

/// Parse round-trip over a whole table: a syntactically valid table,
/// reparsed after canonical re-serialization, yields value-equal entries.
pub proof fn lemma_table_round_trip(s: Seq<char>)
    requires
        spec_parse_table(s, 0) is Some,
    ensures
        ({
            let t = spec_parse_table(s, 0)->Some_0.0;
            spec_parse_table(spec_ser_table(t), 0) == Some(
                (t, spec_ser_table(t).len() as int),
            )
        }),
{
    lemma_parse_table_wf(s, 0);
    let t = spec_parse_table(s, 0)->Some_0.0;
    let ser = spec_ser_table(t);
    assert(ser.subrange(0, ser.len() as int) =~= ser);
    lemma_parse_table_at(ser, 0, t);
}

// ---------------------------------------------------------------------------
// Field parsers: executable level.
// ---------------------------------------------------------------------------

fn parse_pipe(s: &str, n: usize, i: usize) -> (r: Result<usize, SyntaxError>)
    requires
        n == s@.len(),
        i <= n,
    ensures
        r matches Ok(end) ==> spec_parse_pipe(s@, i as int) == Some(end as int) && i < end <= n,
        r is Ok <==> spec_parse_pipe(s@, i as int) is Some,
        r matches Err(e) ==> e.pos <= n,
{
    let j = skip_ws(s, n, i);
    if j < n && s.get_char(j) == '|' {
        Ok(j + 1)
    } else {
        Err(SyntaxError { pos: j })
    }
}

fn parse_type(s: &str, n: usize, i: usize) -> (r: Result<(String, usize), SyntaxError>)
    requires
        n == s@.len(),
        i <= n,
    ensures
        r matches Ok((t, end)) ==> spec_parse_type(s@, i as int) == Some((t@, end as int)) && i
            < end <= n,
        r is Ok <==> spec_parse_type(s@, i as int) is Some,
        r matches Err(e) ==> e.pos <= n,
{
    let j = skip_ws(s, n, i);
    if j < n {
        let c = s.get_char(j);
        let u = c as u32;
        if (97 <= u && u <= 122) || (65 <= u && u <= 90) || c == '_' {
            assert(is_ident_start_char(s@[j as int]));
            let k = scan_ident(s, n, j + 1);
            assert(spec_scan_ident(s@, j as int) == k);
            let t = substring_string(s, j, k);
            Ok((t, k))
        } else {
            assert(!is_ident_start_char(s@[j as int]));
            Err(SyntaxError { pos: j })
        }
    } else {
        Err(SyntaxError { pos: j })
    }
}

impl CommandIdent {
    /// Parses the identifier column at position `i` of `s`.
    pub fn parse(s: &str, i: usize) -> (r: Result<(CommandIdent, usize), SyntaxError>)
        requires
            i <= s@.len(),
        ensures
            r matches Ok((v, end)) ==> spec_parse_ident(s@, i as int) == Some((v@, end as int))
                && i < end <= s@.len(),
            r is Ok <==> spec_parse_ident(s@, i as int) is Some,
            r matches Err(e) ==> e.pos <= s@.len(),
    {
        let n = s.unicode_len();
        let j = skip_ws(s, n, i);
        if j < n {
            let c = s.get_char(j);
            let u = c as u32;
            if (97 <= u && u <= 122) || (65 <= u && u <= 90) || c == '_' {
                assert(is_ident_start_char(s@[j as int]));
                let k = scan_ident(s, n, j + 1);
                assert(spec_scan_ident(s@, j as int) == k);
                if k == j + 1 && c == '_' {
                    Ok((CommandIdent::Undefined, k))
                } else {
                    let name = substring_string(s, j, k);
                    Ok((CommandIdent::Verbatim(name), k))
                }
            } else {
                assert(!is_ident_start_char(s@[j as int]));
                Err(SyntaxError { pos: j })
            }
        } else {
            Err(SyntaxError { pos: j })
        }
    }
}

impl CommandWrite {
    /// Parses the write column at position `i` of `s`.
    pub fn parse(s: &str, i: usize) -> (r: Result<(CommandWrite, usize), SyntaxError>)
        requires
            i <= s@.len(),
        ensures
            r matches Ok((v, end)) ==> spec_parse_write(s@, i as int) == Some((v@, end as int))
                && i < end <= s@.len(),
            r is Ok <==> spec_parse_write(s@, i as int) is Some,
            r matches Err(e) ==> e.pos <= s@.len(),
    {
        let n = s.unicode_len();
        let j = skip_ws(s, n, i);
        if j >= n {
            return Err(SyntaxError { pos: j });
        }
        let c = s.get_char(j);
        if c == '!' {
            return Ok((CommandWrite::Unimplemented, j + 1));
        }
        let u = c as u32;
        if (97 <= u && u <= 122) || (65 <= u && u <= 90) || c == '_' {
            assert(is_ident_start_char(s@[j as int]));
            let k = scan_ident(s, n, j + 1);
            assert(spec_scan_ident(s@, j as int) == k);
            if k == j + 1 && c == '_' {
                return Ok((CommandWrite::Undefined, k));
            }
            if str_seq_eq(s, n, j, k, "write") {
                let m = skip_ws(s, n, k);
                if m < n && s.get_char(m) == ':' {
                    match parse_type(s, n, m + 1) {
                        Ok((t, end)) => Ok((CommandWrite::Write(t), end)),
                        Err(e) => Err(e),
                    }
                } else {
                    Err(SyntaxError { pos: m })
                }
            } else if str_seq_eq(s, n, j, k, "send") {
                Ok((CommandWrite::Send, k))
            } else {
                Err(SyntaxError { pos: j })
            }
        } else {
            assert(!is_ident_start_char(s@[j as int]));
            Err(SyntaxError { pos: j })
        }
    }
}

impl CommandRead {
    /// Parses the read column at position `i` of `s`.
    pub fn parse(s: &str, i: usize) -> (r: Result<(CommandRead, usize), SyntaxError>)
        requires
            i <= s@.len(),
        ensures
            r matches Ok((v, end)) ==> spec_parse_read(s@, i as int) == Some((v@, end as int))
                && i < end <= s@.len(),
            r is Ok <==> spec_parse_read(s@, i as int) is Some,
            r matches Err(e) ==> e.pos <= s@.len(),
    {
        let n = s.unicode_len();
        let j = skip_ws(s, n, i);
        if j >= n {
            return Err(SyntaxError { pos: j });
        }
        let c = s.get_char(j);
        if c == '!' {
            return Ok((CommandRead::Unimplemented, j + 1));
        }
        let u = c as u32;
        if (97 <= u && u <= 122) || (65 <= u && u <= 90) || c == '_' {
            assert(is_ident_start_char(s@[j as int]));
            let k = scan_ident(s, n, j + 1);
            assert(spec_scan_ident(s@, j as int) == k);
            if k == j + 1 && c == '_' {
                return Ok((CommandRead::Undefined, k));
            }
            if str_seq_eq(s, n, j, k, "read") {
                let m = skip_ws(s, n, k);
                if m < n && s.get_char(m) == ':' {
                    match parse_type(s, n, m + 1) {
                        Ok((t, end)) => Ok((CommandRead::Read(t), end)),
                        Err(e) => Err(e),
                    }
                } else {
                    Err(SyntaxError { pos: m })
                }
            } else if str_seq_eq(s, n, j, k, "call") {
                let m = skip_ws(s, n, k);
                if m < n && s.get_char(m) == ':' {
                    match parse_type(s, n, m + 1) {
                        Ok((t, end)) => Ok((CommandRead::Call(t), end)),
                        Err(e) => Err(e),
                    }
                } else {
                    Err(SyntaxError { pos: m })
                }
            } else {
                Err(SyntaxError { pos: j })
            }
        } else {
            assert(!is_ident_start_char(s@[j as int]));
            Err(SyntaxError { pos: j })
        }
    }
}

impl CommandByteCount {
    /// Parses the byte-count column at position `i` of `s`.
    pub fn parse(s: &str, i: usize) -> (r: Result<(CommandByteCount, usize), SyntaxError>)
        requires
            i <= s@.len(),
        ensures
            r matches Ok((v, end)) ==> spec_parse_count(s@, i as int) == Some((v@, end as int))
                && i < end <= s@.len(),
            r is Ok <==> spec_parse_count(s@, i as int) is Some,
            r matches Err(e) ==> e.pos <= s@.len(),
    {
        let n = s.unicode_len();
        let j = skip_ws(s, n, i);
        if j < n {
            let c = s.get_char(j);
            if c == '!' {
                return Ok((CommandByteCount::Unimplemented, j + 1));
            }
            if c == '_' {
                return Ok((CommandByteCount::Undefined, j + 1));
            }
        }
        match parse_number(s, n, i) {
            Ok((v, end)) => Ok((CommandByteCount::Count(v), end)),
            Err(e) => Err(e),
        }
    }
}

impl CommandEntry {
    /// Parses one whole row at position `i` of `s`.
    pub fn parse(s: &str, i: usize) -> (r: Result<(CommandEntry, usize), SyntaxError>)
        requires
            i <= s@.len(),
        ensures
            r matches Ok((e, end)) ==> spec_parse_entry(s@, i as int) == Some((e@, end as int))
                && i < end <= s@.len() && e.pos == spec_skip_ws(s@, i as int) && e.pos <= s@.len(),
            r is Ok <==> spec_parse_entry(s@, i as int) is Some,
            r matches Err(e) ==> e.pos <= s@.len(),
    {
        let n = s.unicode_len();
        let pos = skip_ws(s, n, i);
        let a = match parse_pipe(s, n, i) {
            Ok(x) => x,
            Err(e) => {
                return Err(e);
            },
        };
        let (byte, b) = match parse_number(s, n, a) {
            Ok(x) => x,
            Err(e) => {
                return Err(e);
            },
        };
        let c = match parse_pipe(s, n, b) {
            Ok(x) => x,
            Err(e) => {
                return Err(e);
            },
        };
        let (ident, d) = match CommandIdent::parse(s, c) {
            Ok(x) => x,
            Err(e) => {
                return Err(e);
            },
        };
        let e0 = match parse_pipe(s, n, d) {
            Ok(x) => x,
            Err(e) => {
                return Err(e);
            },
        };
        let (write_kind, f) = match CommandWrite::parse(s, e0) {
            Ok(x) => x,
            Err(e) => {
                return Err(e);
            },
        };
        let g = match parse_pipe(s, n, f) {
            Ok(x) => x,
            Err(e) => {
                return Err(e);
            },
        };
        let (read_kind, h) = match CommandRead::parse(s, g) {
            Ok(x) => x,
            Err(e) => {
                return Err(e);
            },
        };
        let m = match parse_pipe(s, n, h) {
            Ok(x) => x,
            Err(e) => {
                return Err(e);
            },
        };
        let (byte_count, p) = match CommandByteCount::parse(s, m) {
            Ok(x) => x,
            Err(e) => {
                return Err(e);
            },
        };
        let end = match parse_pipe(s, n, p) {
            Ok(x) => x,
            Err(e) => {
                return Err(e);
            },
        };
        Ok((CommandEntry { pos, byte, ident, write_kind, read_kind, byte_count }, end))
    }
}

impl CommandsTable {
    /// Parses a whole table.  Succeeds exactly on the inputs the grammar
    /// admits; any malformed field aborts the parse with the position at
    /// which the input stopped matching.
    pub fn parse(s: &str) -> (r: Result<CommandsTable, SyntaxError>)
        ensures
            r matches Ok(t) ==> spec_parse_table(s@, 0) matches Some(p) && p.0 == t@,
            r is Ok <==> spec_parse_table(s@, 0) is Some,
            r matches Ok(t) ==> forall|k: int|
                0 <= k < t.0.len() ==> #[trigger] t.0[k].pos <= s@.len(),
            r matches Err(e) ==> e.pos <= s@.len(),
    {
        let n = s.unicode_len();
        let mut entries: Vec<CommandEntry> = Vec::new();
        let mut i: usize = 0;
        loop
            invariant
                i <= n,
                n == s@.len(),
                forall|k: int| 0 <= k < entries@.len() ==> #[trigger] entries@[k].pos <= n,
                spec_parse_table(s@, 0) == (match spec_parse_table(s@, i as int) {
                    Some(p) => Some(
                        (entries@.map_values(|e: CommandEntry| e@) + p.0, p.1),
                    ),
                    None => None::<(Seq<CommandEntryV>, int)>,
                }),
            ensures
                i <= n,
                spec_parse_table(s@, i as int) matches Some(p) && p.0
                    == Seq::<CommandEntryV>::empty(),
            decreases n - i,
        {
            let j = skip_ws(s, n, i);
            if j >= n {
                break ;
            }
            let (e, k) = match CommandEntry::parse(s, i) {
                Ok(x) => x,
                Err(err) => {
                    return Err(err);
                },
            };
            let ghost prev = entries@;
            entries.push(e);
            proof {
                assert(entries@.map_values(|x: CommandEntry| x@) =~= prev.map_values(
                    |x: CommandEntry| x@,
                ) + seq![e@]);
            }
            let m = skip_ws(s, n, k);
            if m < n {
                let c = s.get_char(m);
                if c == ',' {
                    proof {
                        assert(spec_parse_table(s@, i as int) == (
                        match spec_parse_table(s@, m + 1) {
                            Some(p) => Some((seq![e@] + p.0, p.1)),
                            None => None::<(Seq<CommandEntryV>, int)>,
                        }));
                        assert(forall|rest: Seq<CommandEntryV>|
                            prev.map_values(|x: CommandEntry| x@) + (seq![e@] + rest)
                                =~= (prev.map_values(|x: CommandEntry| x@) + seq![e@]) + rest);
                    }
                    i = m + 1;
                } else {
                    return Err(SyntaxError { pos: m });
                }
            } else {
                proof {
                    assert(spec_parse_table(s@, i as int) == Some((seq![e@], m as int)));
                    assert(prev.map_values(|x: CommandEntry| x@) + seq![e@] =~= entries@.map_values(
                        |x: CommandEntry| x@,
                    ));
                }
                return Ok(CommandsTable(entries));
            }
        }
        proof {
            let p = spec_parse_table(s@, i as int)->Some_0;
            assert(entries@.map_values(|x: CommandEntry| x@) + p.0 =~= entries@.map_values(
                |x: CommandEntry| x@,
            ));
        }
        Ok(CommandsTable(entries))
    }
}

} // verus!
