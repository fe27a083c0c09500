//! Build-time compiler for a PMBus command table: a small pipe-delimited
//! grammar describing device commands, a resolver that maps each table entry
//! onto exactly one SMBus bus operation per direction, and an emitter that
//! renders the resolved accessors as Rust source text.
use vstd::prelude::*;

pub mod emit;
pub mod parse;
pub mod resolve;
pub mod smbus;
pub mod table;

use crate::emit::{spec_constants, spec_render_consts, spec_render_trait, spec_table_accessors,
    spec_table_errors, CommandConstants, PmBusTraitItem, ValidationError};
use crate::parse::{spec_parse_table, SyntaxError};
use crate::table::CommandsTable;

verus! {

/// Why a compilation pass failed: the text did not match the grammar, or
/// some entry's field combination fell outside the decision tables.
#[derive(Debug)]
pub enum CompileError {
    Syntax(SyntaxError),
    Validation(Vec<ValidationError>),
}

/// The full output of one compilation pass over a parsed table: the constant
/// items, then the generated interface.
pub open spec fn spec_output(t: Seq<crate::table::CommandEntryV>) -> Seq<char> {
    spec_render_consts(spec_constants(t)) + spec_render_trait(spec_table_accessors(t))
}

/// Compiles table text into source text: one constant per named identifier in
/// table order, then one generated interface with one method per resolved
/// accessor.  Fails on the first syntax error, or with every validation
/// error, and emits nothing then.
pub fn impl_commands(input: &str) -> (r: Result<String, CompileError>)
    ensures
        r matches Ok(out) ==> spec_parse_table(input@, 0) matches Some(p) && spec_table_errors(
            p.0,
        ).len() == 0 && out@ == spec_output(p.0),
        r is Ok <==> (spec_parse_table(input@, 0) matches Some(p) && spec_table_errors(p.0).len()
            == 0),
        r matches Err(CompileError::Syntax(e)) ==> spec_parse_table(input@, 0) is None && e.pos
            <= input@.len(),
        r matches Err(CompileError::Validation(es)) ==> spec_parse_table(input@, 0) matches Some(
            p,
        ) && es@.map_values(|v: ValidationError| v@) == spec_table_errors(p.0) && es@.len() > 0,
{
    let table = match CommandsTable::parse(input) {
        Ok(t) => t,
        Err(e) => {
            return Err(CompileError::Syntax(e));
        },
    };
    let item = match PmBusTraitItem::from(&table) {
        Ok(item) => item,
        Err(es) => {
            return Err(CompileError::Validation(es));
        },
    };
    let consts = CommandConstants::from(&table);
    let mut out = consts.render();
    let trait_text = item.render();
    out.append(trait_text.as_str());
    Ok(out)
}

} // verus!
