use spectrum_vm::instruction::Opcode;
use spectrum_vm::lexer::{Lexer, Token, TokenKind};
use spectrum_vm::parser::{
    AssemblyInstruction, EncodeError, ParseErrorKind, Parser,
};

#[test]
fn parse_load() {
    let content: &str = "LOAD $1 #500\n";
    let mut lexer: Lexer = Lexer::new(content.as_bytes().to_vec(), content.len());
    lexer.tokenize().unwrap();
    let mut parser: Parser = Parser::new(lexer.tokens);
    let (parsing_result, _diagnostics) = parser.parse();
    assert_eq!(
        parsing_result.get(0).unwrap().opcode.token_kind,
        TokenKind::Operation { code: Opcode::LOAD }
    )
}

#[test]
fn parse_every_arity() {
    let content: &str = "HLT\nLOAD $1 #2\nADD $0 $1 $2\nEQ $0 $1\nJMP $0\nINC $3\nALOC $4";
    let mut lexer = Lexer::new(content.as_bytes().to_vec(), content.len());
    lexer.tokenize().unwrap();
    let mut parser = Parser::new(lexer.tokens);
    let (instructions, diagnostics) = parser.parse();
    assert_eq!(diagnostics.len(), 0);
    assert_eq!(instructions.len(), 7);
    assert!(matches!(
        instructions[3].opcode.token_kind,
        TokenKind::Operation { code: Opcode::EQ }
    ));
}

#[test]
fn truncated_instruction_is_reported() {
    let content: &str = "LOAD $1";
    let mut lexer = Lexer::new(content.as_bytes().to_vec(), content.len());
    lexer.tokenize().unwrap();
    let mut parser = Parser::new(lexer.tokens);
    let (instructions, diagnostics) = parser.parse();
    assert_eq!(instructions.len(), 0);
    assert_eq!(diagnostics.len(), 1);
    assert_eq!(diagnostics[0].kind, ParseErrorKind::TruncatedInstruction);
    assert_eq!(diagnostics[0].opcode, Opcode::LOAD);
    assert_eq!(diagnostics[0].position, 1);
}

#[test]
fn operand_kind_mismatch_is_reported_and_skipped() {
    // the malformed statement is skipped; the next operation still parses
    let content: &str = "LOAD #1 #2 INC $0";
    let mut lexer = Lexer::new(content.as_bytes().to_vec(), content.len());
    lexer.tokenize().unwrap();
    let mut parser = Parser::new(lexer.tokens);
    let (instructions, diagnostics) = parser.parse();
    assert_eq!(diagnostics.len(), 1);
    assert_eq!(diagnostics[0].kind, ParseErrorKind::OperandKindMismatch);
    assert_eq!(diagnostics[0].opcode, Opcode::LOAD);
    assert_eq!(diagnostics[0].position, 0);
    assert_eq!(instructions.len(), 1);
    assert!(matches!(
        instructions[0].opcode.token_kind,
        TokenKind::Operation { code: Opcode::INC }
    ));
}

#[test]
fn encode_load_is_big_endian() {
    let content: &str = "LOAD $1 #500";
    let mut lexer = Lexer::new(content.as_bytes().to_vec(), content.len());
    lexer.tokenize().unwrap();
    let mut parser = Parser::new(lexer.tokens);
    let (instructions, _) = parser.parse();
    let bytes = instructions[0].as_bytes().unwrap();
    assert_eq!(bytes, vec![1, 1, 1, 244]);
}

#[test]
fn every_arity_encodes_to_four_bytes() {
    let content: &str = "HLT\nLOAD $1 #2\nADD $0 $1 $2\nEQ $0 $1\nJMP $0\nINC $3\nALOC $4";
    let mut lexer = Lexer::new(content.as_bytes().to_vec(), content.len());
    lexer.tokenize().unwrap();
    let mut parser = Parser::new(lexer.tokens);
    let (instructions, _) = parser.parse();
    for instruction in &instructions {
        assert_eq!(instruction.as_bytes().unwrap().len(), 4);
    }
}

#[test]
fn opcode_token_in_operand_position_is_rejected() {
    let op = Token::new(TokenKind::Operation { code: Opcode::ADD }, 0, 3);
    let bad = Token::new(TokenKind::Operation { code: Opcode::SUB }, 4, 7);
    let instruction = AssemblyInstruction::new(op, Some(bad), None, None);
    assert_eq!(
        instruction.as_bytes().unwrap_err(),
        EncodeError::OpcodeTokenInOperandPosition
    );
}

#[test]
fn non_opcode_in_opcode_position_is_rejected() {
    let reg = Token::new(TokenKind::Register { reg_index: 1 }, 0, 2);
    let instruction = AssemblyInstruction::new(reg, None, None, None);
    assert_eq!(
        instruction.as_bytes().unwrap_err(),
        EncodeError::UnsupportedOperandKind
    );
}

#[test]
fn eof_in_operand_position_is_rejected() {
    let op = Token::new(TokenKind::Operation { code: Opcode::ADD }, 0, 3);
    let eof = Token::new(TokenKind::Eof, 3, 3);
    let instruction = AssemblyInstruction::new(op, Some(eof), None, None);
    assert_eq!(
        instruction.as_bytes().unwrap_err(),
        EncodeError::UnsupportedOperandKind
    );
}

#[test]
fn opcode_byte_round_trips() {
    let opcodes = [
        Opcode::HLT,
        Opcode::LOAD,
        Opcode::ADD,
        Opcode::SUB,
        Opcode::MUL,
        Opcode::DIV,
        Opcode::EQ,
        Opcode::NEQ,
        Opcode::GT,
        Opcode::GEQ,
        Opcode::LE,
        Opcode::LEQ,
        Opcode::JEQ,
        Opcode::JNEQ,
        Opcode::JMP,
        Opcode::JMPF,
        Opcode::JMPB,
        Opcode::INC,
        Opcode::DEC,
        Opcode::ALOC,
        Opcode::RSHT,
        Opcode::LFST,
        Opcode::RROR,
        Opcode::LROR,
        Opcode::NOP,
    ];
    for op in opcodes {
        assert_eq!(Opcode::from_byte(op.to_byte()), Some(op));
    }
    // unassigned byte values decode to nothing, not to the no-op
    assert_eq!(Opcode::from_byte(25), None);
    assert_eq!(Opcode::from_byte(255), None);
}
