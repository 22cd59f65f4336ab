use spectrum_vm::assemble::{assemble, Diagnostic};
use spectrum_vm::lexer::LexicalErrorKind;
use spectrum_vm::parser::ParseErrorKind;
use spectrum_vm::utils::{hex_to_byte_arr, HexParseError};
use spectrum_vm::vm::{RunOutcome, VM};

#[test]
fn assemble_load_and_run() {
    let bytes = assemble("LOAD $1 #500".as_bytes()).unwrap();
    assert_eq!(bytes, vec![1, 1, 1, 244]);
    let mut vm = VM::new();
    vm.load(bytes, false);
    let out = vm.run(10_000);
    assert_eq!(out, Some(RunOutcome::Exhausted));
    assert_eq!(vm.registers[1], 500);
}

#[test]
fn assemble_multi_line_program() {
    let source = "LOAD $0 #6\nLOAD $1 #6\nADD $0 $1 $2";
    let bytes = assemble(source.as_bytes()).unwrap();
    assert_eq!(bytes.len(), 12);
    let mut vm = VM::new();
    vm.load(bytes, false);
    vm.run(10_000);
    assert_eq!(vm.registers[2], 12);
}

#[test]
fn malformed_line_reports_but_does_not_abort_scanning() {
    // line 1 is malformed; lines 0 and 2 are still scanned, and the
    // diagnostic for the later bad line 3 is reported too
    let source = "LOAD $0 #1\nLOAD $1 #x\nLOAD $2 #3\nFROB";
    let diagnostics = assemble(source.as_bytes()).unwrap_err();
    assert_eq!(diagnostics.len(), 2);
    match &diagnostics[0] {
        Diagnostic::Lexical(err) => {
            assert_eq!(err.kind, LexicalErrorKind::MalformedInteger);
            assert_eq!(err.line, 1);
        },
        other => panic!("expected a lexical diagnostic, got {:?}", other),
    }
    match &diagnostics[1] {
        Diagnostic::Lexical(err) => {
            assert_eq!(err.kind, LexicalErrorKind::UnrecognizedMnemonic);
            assert_eq!(err.line, 3);
        },
        other => panic!("expected a lexical diagnostic, got {:?}", other),
    }
}

#[test]
fn parse_diagnostics_carry_opcode_and_position() {
    let source = "ADD $0 $1\nINC $2";
    let diagnostics = assemble(source.as_bytes()).unwrap_err();
    assert_eq!(diagnostics.len(), 1);
    match &diagnostics[0] {
        Diagnostic::Parse(err) => {
            assert_eq!(err.kind, ParseErrorKind::TruncatedInstruction);
            assert_eq!(err.position, 2);
        },
        other => panic!("expected a parse diagnostic, got {:?}", other),
    }
}

#[test]
fn assemble_empty_source_yields_no_bytes() {
    assert_eq!(assemble("".as_bytes()).unwrap(), Vec::<u8>::new());
    assert_eq!(assemble("  \n  ".as_bytes()).unwrap(), Vec::<u8>::new());
}

#[test]
fn hex_line_parses_four_bytes() {
    let bytes = hex_to_byte_arr("01 00 01 f4".as_bytes()).unwrap();
    assert_eq!(bytes, [1, 0, 1, 244]);
    let mut vm = VM::new();
    vm.load(bytes.to_vec(), false);
    vm.run(10_000);
    assert_eq!(vm.registers[0], 500);
}

#[test]
fn hex_line_rejects_bad_digits_and_counts() {
    assert_eq!(
        hex_to_byte_arr("zz 00 00 00".as_bytes()).unwrap_err(),
        HexParseError::MalformedHexByte
    );
    assert_eq!(
        hex_to_byte_arr("00 00 00".as_bytes()).unwrap_err(),
        HexParseError::WrongByteCount
    );
    assert_eq!(
        hex_to_byte_arr("00 00 00 00 00".as_bytes()).unwrap_err(),
        HexParseError::WrongByteCount
    );
    assert_eq!(
        hex_to_byte_arr("100 00 00 00".as_bytes()).unwrap_err(),
        HexParseError::MalformedHexByte
    );
}

#[test]
fn repl_style_appending_accumulates_state() {
    let mut vm = VM::new();
    let first = assemble("LOAD $0 #6".as_bytes()).unwrap();
    vm.load(first, true);
    vm.run(10_000);
    let second = assemble("LOAD $1 #7\nADD $0 $1 $2".as_bytes()).unwrap();
    vm.load(second, true);
    vm.run(10_000);
    assert_eq!(vm.registers[2], 13);
}
