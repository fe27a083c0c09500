use pmbus_codegen::impl_commands;
use pmbus_codegen::emit::{AccessorFn, CommandConstants, PmBusTraitItem};
use pmbus_codegen::resolve::{ReadCommandFn, ReadOpKind, ValidationErrorKind, WriteCommandFn,
    WriteOpKind};
use pmbus_codegen::table::{CommandByteCount, CommandEntry, CommandIdent, CommandRead,
    CommandWrite, CommandsTable};
use pmbus_codegen::CompileError;

fn parse_one(row: &str) -> CommandEntry {
    let (entry, end) = CommandEntry::parse(row, 0).expect("row should parse");
    assert_eq!(end, row.chars().count());
    entry
}

fn trait_header() -> &'static str {
    "#[::async_trait::async_trait(?Send)]\npub trait PmBus<A: ::embedded_hal::i2c::AddressMode = ::embedded_hal::i2c::SevenBitAddress>: SmBus<A> {\n"
}

#[test]
fn scenario_single_byte_write_and_read() {
    let out = impl_commands("|0x01|VOUT_MODE|write: u8|read: u8|1|").expect("valid table");
    let header = trait_header();
    let expected = format!(
        "pub const VOUT_MODE: u8 = 1;\n{header}    async fn write_vout_mode(&mut self, address: A, data: u8) -> ::std::result::Result<(), <Self as ::embedded_hal::i2c::ErrorType>::Error> {{\n        <Self as SmBus<A>>::write_byte(self, address, VOUT_MODE, data).await\n    }}\n    async fn read_vout_mode(&mut self, address: A) -> ::std::result::Result<u8, <Self as ::embedded_hal::i2c::ErrorType>::Error> {{\n        <Self as SmBus<A>>::read_byte(self, address, VOUT_MODE).await.map(Into::into)\n    }}\n}}\n"
    );
    assert_eq!(out, expected);
}

#[test]
fn scenario_word_write_and_read() {
    let entry = parse_one("|0x02|VOUT_COMMAND|write: u16|read: u16|2|");
    let w = WriteCommandFn::from_table_entry(&entry)
        .expect("valid write")
        .expect("a write accessor");
    assert_eq!(w.name, "write_vout_command");
    assert_eq!(w.op, WriteOpKind::WriteWord);
    assert_eq!(w.payload.as_deref(), Some("u16"));
    assert_eq!(w.command, "VOUT_COMMAND");
    let r = ReadCommandFn::from_table_entry(&entry)
        .expect("valid read")
        .expect("a read accessor");
    assert_eq!(r.name, "read_vout_command");
    assert_eq!(r.op, ReadOpKind::ReadWord);
    assert_eq!(r.payload, "u16");
    assert_eq!(r.command, "VOUT_COMMAND");
}

#[test]
fn scenario_send_only() {
    let entry = parse_one("|0x03|STORE_DEFAULT_ALL|send|_|0|");
    let w = WriteCommandFn::from_table_entry(&entry)
        .expect("valid write")
        .expect("a send accessor");
    assert_eq!(w.name, "send_store_default_all");
    assert_eq!(w.op, WriteOpKind::SendByte);
    assert_eq!(w.payload, None);
    assert_eq!(w.command, "STORE_DEFAULT_ALL");
    let r = ReadCommandFn::from_table_entry(&entry).expect("valid read");
    assert!(r.is_none(), "a reserved read kind must yield no read accessor");

    let out = impl_commands("|0x03|STORE_DEFAULT_ALL|send|_|0|").expect("valid table");
    let header = trait_header();
    let expected = format!(
        "pub const STORE_DEFAULT_ALL: u8 = 3;\n{header}    async fn send_store_default_all(&mut self, address: A) -> ::std::result::Result<(), <Self as ::embedded_hal::i2c::ErrorType>::Error> {{\n        <Self as SmBus<A>>::send_byte(self, address, STORE_DEFAULT_ALL).await\n    }}\n}}\n"
    );
    assert_eq!(out, expected);
}

#[test]
fn scenario_variable_block_transfers() {
    let entry = parse_one("|0x04|MFR_ID|write: bytes|read: bytes|_|");
    let w = WriteCommandFn::from_table_entry(&entry)
        .expect("valid write")
        .expect("a write accessor");
    assert_eq!(w.name, "write_mfr_id");
    assert_eq!(w.op, WriteOpKind::BlockWrite);
    assert_eq!(w.payload.as_deref(), Some("bytes"));
    let r = ReadCommandFn::from_table_entry(&entry)
        .expect("valid read")
        .expect("a read accessor");
    assert_eq!(r.name, "read_mfr_id");
    assert_eq!(r.op, ReadOpKind::BlockRead);
}

#[test]
fn scenario_reserved_row_emits_nothing() {
    let entry = parse_one("|0x05|_|_|_|_|");
    assert!(WriteCommandFn::from_table_entry(&entry).expect("valid").is_none());
    assert!(ReadCommandFn::from_table_entry(&entry).expect("valid").is_none());

    let out = impl_commands("|0x05|_|_|_|_|").expect("valid table");
    let header = trait_header();
    let expected = format!("{header}}}\n");
    assert_eq!(out, expected, "no constant and no accessor may be emitted");
}

#[test]
fn scenario_send_with_nonzero_count_fails_validation() {
    let entry = parse_one("|0x06|CLEAR_FAULTS|send|_|1|");
    assert_eq!(
        WriteCommandFn::from_table_entry(&entry),
        Err(ValidationErrorKind::SendCountNotZero)
    );
    match impl_commands("|0x06|CLEAR_FAULTS|send|_|1|") {
        Err(CompileError::Validation(errors)) => {
            assert_eq!(errors.len(), 1);
            assert_eq!(errors[0].index, 0);
            assert_eq!(errors[0].pos, 0);
            assert_eq!(errors[0].kind, ValidationErrorKind::SendCountNotZero);
        }
        other => panic!("expected a validation failure, got {:?}", other.is_ok()),
    }
}

#[test]
fn send_with_variable_or_unimplemented_count_fails_validation() {
    let variable = parse_one("|1|X|send|_|_|");
    assert_eq!(
        WriteCommandFn::from_table_entry(&variable),
        Err(ValidationErrorKind::SendCountNotZero)
    );
    let unimplemented = parse_one("|1|X|send|_|!|");
    assert_eq!(
        WriteCommandFn::from_table_entry(&unimplemented),
        Err(ValidationErrorKind::SendCountNotZero)
    );
}

#[test]
fn accessors_without_name_fail_validation() {
    let w = parse_one("|1|_|write: u8|_|1|");
    assert_eq!(
        WriteCommandFn::from_table_entry(&w),
        Err(ValidationErrorKind::WriteMissingName)
    );
    let s = parse_one("|1|_|send|_|0|");
    assert_eq!(
        WriteCommandFn::from_table_entry(&s),
        Err(ValidationErrorKind::SendMissingName)
    );
    let r = parse_one("|1|_|_|read: u8|1|");
    assert_eq!(
        ReadCommandFn::from_table_entry(&r),
        Err(ValidationErrorKind::ReadMissingName)
    );
    let c = parse_one("|1|_|_|call: u8|1|");
    assert_eq!(
        ReadCommandFn::from_table_entry(&c),
        Err(ValidationErrorKind::CallMissingName)
    );
}

#[test]
fn unimplemented_count_with_concrete_kind_fails_validation() {
    let w = parse_one("|1|X|write: u8|_|!|");
    assert_eq!(
        WriteCommandFn::from_table_entry(&w),
        Err(ValidationErrorKind::WriteCountUnimplemented)
    );
    let r = parse_one("|1|X|_|read: u8|!|");
    assert_eq!(
        ReadCommandFn::from_table_entry(&r),
        Err(ValidationErrorKind::ReadCountUnimplemented)
    );
    let c = parse_one("|1|X|_|call: u8|!|");
    assert_eq!(
        ReadCommandFn::from_table_entry(&c),
        Err(ValidationErrorKind::CallCountUnimplemented)
    );
}

#[test]
fn all_validation_errors_are_collected_together() {
    let text = "|1|A|send|_|3|,|2|B|write: u8|call: u8|!|";
    match impl_commands(text) {
        Err(CompileError::Validation(errors)) => {
            assert_eq!(errors.len(), 3);
            assert_eq!(errors[0].index, 0);
            assert_eq!(errors[0].kind, ValidationErrorKind::SendCountNotZero);
            assert_eq!(errors[1].index, 1);
            assert_eq!(errors[1].kind, ValidationErrorKind::WriteCountUnimplemented);
            assert_eq!(errors[2].index, 1);
            assert_eq!(errors[2].kind, ValidationErrorKind::CallCountUnimplemented);
            assert_eq!(errors[1].pos, text.chars().position(|c| c == ',').unwrap() + 1);
        }
        other => panic!("expected a validation failure, got {:?}", other.is_ok()),
    }
}

#[test]
fn fixed_block_write_uses_block_operation() {
    let entry = parse_one("|0x10|COEFFICIENTS|write: bytes|_|5|");
    let w = WriteCommandFn::from_table_entry(&entry)
        .expect("valid")
        .expect("a write accessor");
    assert_eq!(w.op, WriteOpKind::BlockWrite);
}

#[test]
fn process_call_resolves_for_fixed_and_variable_counts() {
    let fixed = parse_one("|0x11|QUERY|_|call: u16|2|");
    let r = ReadCommandFn::from_table_entry(&fixed)
        .expect("valid")
        .expect("a call accessor");
    assert_eq!(r.name, "call_query");
    assert_eq!(r.op, ReadOpKind::BlockProcessCall);
    assert_eq!(r.payload, "u16");
    let variable = parse_one("|0x11|QUERY|_|call: u16|_|");
    let r2 = ReadCommandFn::from_table_entry(&variable)
        .expect("valid")
        .expect("a call accessor");
    assert_eq!(r2.op, ReadOpKind::BlockProcessCall);
}

#[test]
fn resolution_is_deterministic() {
    let entry = parse_one("|0x20|FREQUENCY_SWITCH|write: u16|read: u16|2|");
    let w1 = WriteCommandFn::from_table_entry(&entry).unwrap().unwrap();
    let w2 = WriteCommandFn::from_table_entry(&entry).unwrap().unwrap();
    assert_eq!(w1.name, w2.name);
    assert_eq!(w1.op, w2.op);
    assert_eq!(w1.payload, w2.payload);
    assert_eq!(w1.command, w2.command);
    let r1 = ReadCommandFn::from_table_entry(&entry).unwrap().unwrap();
    let r2 = ReadCommandFn::from_table_entry(&entry).unwrap().unwrap();
    assert_eq!(r1.name, r2.name);
    assert_eq!(r1.op, r2.op);
    assert_eq!(r1.payload, r2.payload);
    assert_eq!(r1.command, r2.command);
}

#[test]
fn row_round_trips_through_canonical_text() {
    for row in [
        "| 0x7F | CAPABILITY | write: u8 | read: u8 | 1 |",
        "|0|_|_|_|_|",
        "|255|PAGE|!|!|!|",
        "|10|MFR_SPECIFIC|send|call: bytes|0|",
        "|33|READ_EIN|_|read: bytes|_|",
    ] {
        let entry = parse_one(row);
        let text = entry.to_text();
        let reparsed = parse_one(&text);
        assert_eq!(entry.byte, reparsed.byte);
        assert_eq!(entry.ident, reparsed.ident);
        assert_eq!(entry.write_kind, reparsed.write_kind);
        assert_eq!(entry.read_kind, reparsed.read_kind);
        assert_eq!(entry.byte_count, reparsed.byte_count);
    }
}

#[test]
fn canonical_text_shapes() {
    let entry = parse_one("| 0x7F | CAPABILITY | write: u8 | read: u8 | 1 |");
    assert_eq!(entry.to_text(), "|127|CAPABILITY|write:u8|read:u8|1|");
    let entry = parse_one("|5|_|!|call: bytes|_|");
    assert_eq!(entry.to_text(), "|5|_|!|call:bytes|_|");
}

#[test]
fn table_round_trips_through_canonical_text() {
    let text = "|1|VOUT_MODE|write: u8|read: u8|1|,\n|2|VOUT_COMMAND|write: u16|read: u16|2|,";
    let table = CommandsTable::parse(text).expect("valid table");
    assert_eq!(table.0.len(), 2);
    let canonical = table.to_text();
    assert_eq!(
        canonical,
        "|1|VOUT_MODE|write:u8|read:u8|1|,|2|VOUT_COMMAND|write:u16|read:u16|2|"
    );
    let reparsed = CommandsTable::parse(&canonical).expect("canonical text reparses");
    assert_eq!(reparsed.to_text(), canonical);
}

#[test]
fn empty_input_is_an_empty_table() {
    let table = CommandsTable::parse("").expect("empty input is a table");
    assert_eq!(table.0.len(), 0);
    let blank = CommandsTable::parse("  \n\t ").expect("whitespace alone is a table");
    assert_eq!(blank.0.len(), 0);
}

#[test]
fn field_values_parse_as_declared() {
    let entry = parse_one("|0x2A|FAN_CONFIG_1_2|write: u8|read: u8|1|");
    assert_eq!(entry.byte, 0x2A);
    assert_eq!(entry.ident, CommandIdent::Verbatim("FAN_CONFIG_1_2".to_string()));
    assert_eq!(entry.write_kind, CommandWrite::Write("u8".to_string()));
    assert_eq!(entry.read_kind, CommandRead::Read("u8".to_string()));
    assert_eq!(entry.byte_count, CommandByteCount::Count(1));
    let entry = parse_one("|0xFF|X|_|!|255|");
    assert_eq!(entry.byte, 255);
    assert_eq!(entry.write_kind, CommandWrite::Undefined);
    assert_eq!(entry.read_kind, CommandRead::Unimplemented);
    assert_eq!(entry.byte_count, CommandByteCount::Count(255));
}

#[test]
fn syntax_errors_are_position_annotated() {
    // The byte value does not fit in a byte.
    let err = CommandsTable::parse("|256|X|_|_|_|").expect_err("value over 255");
    assert_eq!(err.pos, 1);
    // An unknown keyword in the write column.
    let err = CommandsTable::parse("|1|X|push: u8|_|_|").expect_err("unknown keyword");
    assert_eq!(err.pos, 5);
    // A missing closing pipe.
    let err = CommandsTable::parse("|1|X|_|_|_").expect_err("missing pipe");
    assert_eq!(err.pos, 10);
    // Garbage between rows.
    let err = CommandsTable::parse("|1|X|_|_|_| ; |2|Y|_|_|_|").expect_err("bad separator");
    assert_eq!(err.pos, 12);
    // A stray character instead of a row.
    let err = CommandsTable::parse("?").expect_err("no row");
    assert_eq!(err.pos, 0);
    // An empty hexadecimal literal.
    let err = CommandsTable::parse("|0x|X|_|_|_|").expect_err("empty hex literal");
    assert_eq!(err.pos, 1);
}

#[test]
fn syntax_error_aborts_whole_compilation() {
    match impl_commands("|1|VOUT_MODE|write: u8|read: u8|1|,|2|oops") {
        Err(CompileError::Syntax(e)) => assert_eq!(e.pos, 42),
        other => panic!("expected a syntax error, got {:?}", other.is_ok()),
    }
}

#[test]
fn hex_and_decimal_literals_agree() {
    let hex = parse_one("|0x7F|X|_|_|_|");
    let dec = parse_one("|127|X|_|_|_|");
    assert_eq!(hex.byte, dec.byte);
    let upper = parse_one("|0XFF|X|_|_|_|");
    assert_eq!(upper.byte, 255);
}

#[test]
fn constants_keep_table_order_and_casing() {
    let table = CommandsTable::parse(
        "|0x01|OPERATION|write: u8|read: u8|1|,|0x02|_|_|_|_|,|0x03|OnOffConfig|write: u8|read: u8|1|",
    )
    .expect("valid table");
    let consts = CommandConstants::from(&table);
    assert_eq!(consts.0.len(), 2);
    assert_eq!(consts.0[0].name, "OPERATION");
    assert_eq!(consts.0[0].value, 1);
    assert_eq!(consts.0[1].name, "OnOffConfig");
    assert_eq!(consts.0[1].value, 3);
    assert_eq!(
        consts.render(),
        "pub const OPERATION: u8 = 1;\npub const OnOffConfig: u8 = 3;\n"
    );
}

#[test]
fn interface_interleaves_write_then_read_per_entry() {
    let table = CommandsTable::parse(
        "|1|VOUT_MODE|write: u8|read: u8|1|,|2|STATUS_BYTE|_|read: u8|1|",
    )
    .expect("valid table");
    let item = PmBusTraitItem::from(&table).expect("valid entries");
    let names: Vec<String> = item
        .0
        .iter()
        .map(|a| match a {
            AccessorFn::Write(w) => w.name.clone(),
            AccessorFn::Read(r) => r.name.clone(),
        })
        .collect();
    assert_eq!(
        names,
        vec!["write_vout_mode", "read_vout_mode", "read_status_byte"]
    );
}

#[test]
fn duplicate_codes_and_identifiers_are_not_rejected() {
    let out = impl_commands("|1|PAGE|write: u8|read: u8|1|,|1|PAGE|write: u8|read: u8|1|")
        .expect("duplicates are accepted by design");
    let first = out.find("pub const PAGE: u8 = 1;\n").expect("first constant");
    let rest = &out[first + 1..];
    assert!(
        rest.contains("pub const PAGE: u8 = 1;\n"),
        "both duplicate rows must emit their constant"
    );
}

#[test]
fn whitespace_between_tokens_is_tolerated() {
    let spaced = " | 1 | VOUT_MODE | write : u8 | read : u8 | 1 | ,\n";
    let tight = "|1|VOUT_MODE|write:u8|read:u8|1|";
    let a = CommandsTable::parse(spaced).expect("spaced table parses");
    let b = CommandsTable::parse(tight).expect("tight table parses");
    assert_eq!(a.to_text(), b.to_text());
}

#[test]
fn snake_case_splits_words_and_lowers_case() {
    let entry = parse_one("|1|OnOffConfig|write: u8|read: u8|1|");
    let w = WriteCommandFn::from_table_entry(&entry).unwrap().unwrap();
    assert_eq!(w.name, "write_on_off_config");
    assert_eq!(w.command, "OnOffConfig");
    let r = ReadCommandFn::from_table_entry(&entry).unwrap().unwrap();
    assert_eq!(r.name, "read_on_off_config");
}
