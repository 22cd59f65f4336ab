use spectrum_vm::instruction::Opcode;
use spectrum_vm::lexer::{Lexer, LexicalError, LexicalErrorKind, TokenKind};

#[test]
fn opcode_token() {
    let content: &str = "LOAD $1 #500";
    let mut lexer: Lexer = Lexer::new(content.as_bytes().to_vec(), content.len());
    lexer.tokenize().unwrap();
    assert_eq!(
        lexer.tokens.get(0).unwrap().token_kind,
        TokenKind::Operation { code: Opcode::LOAD }
    )
}

#[test]
fn register_token() {
    let content: &str = "LOAD $1 #500";
    let mut lexer: Lexer = Lexer::new(content.as_bytes().to_vec(), content.len());
    lexer.tokenize().unwrap();
    assert_eq!(
        lexer.tokens.get(1).unwrap().token_kind,
        TokenKind::Register { reg_index: 1 }
    )
}

#[test]
fn integer_operand_token() {
    let content: &str = "LOAD $1 #500";
    let mut lexer: Lexer = Lexer::new(content.as_bytes().to_vec(), content.len());
    lexer.tokenize().unwrap();
    assert_eq!(
        lexer.tokens.get(2).unwrap().token_kind,
        TokenKind::IntegerOperand { value: 500 }
    )
}

#[test]
fn multiple_lines() {
    let content: &str = "LOAD $0 #500\nADD $0 $1 $2\nDIV $0 $1 $2";
    let mut lexer: Lexer = Lexer::new(content.as_bytes().to_vec(), content.len());
    lexer.tokenize().unwrap();
    assert_eq!(
        lexer.tokens.get(5).unwrap().token_kind,
        TokenKind::Register { reg_index: 1 }
    );
    assert_eq!(
        lexer.tokens.get(3).unwrap().token_kind,
        TokenKind::Operation { code: Opcode::ADD }
    );
    assert_eq!(
        lexer.tokens.get(7).unwrap().token_kind,
        TokenKind::Operation { code: Opcode::DIV }
    );
}

#[test]
fn stream_ends_with_one_eof() {
    let content: &str = "INC $0";
    let mut lexer: Lexer = Lexer::new(content.as_bytes().to_vec(), content.len());
    lexer.tokenize().unwrap();
    assert_eq!(lexer.tokens.len(), 3);
    assert_eq!(lexer.tokens.get(2).unwrap().token_kind, TokenKind::Eof);
}

#[test]
fn negative_integer_literal() {
    let content: &str = "LOAD $1 #-42";
    let mut lexer: Lexer = Lexer::new(content.as_bytes().to_vec(), content.len());
    lexer.tokenize().unwrap();
    assert_eq!(
        lexer.tokens.get(2).unwrap().token_kind,
        TokenKind::IntegerOperand { value: -42 }
    );
}

#[test]
fn malformed_integer_is_reported() {
    let content: &str = "LOAD $1 #5x0";
    let mut lexer: Lexer = Lexer::new(content.as_bytes().to_vec(), content.len());
    let err: LexicalError = lexer.tokenize().unwrap_err();
    assert_eq!(err.kind, LexicalErrorKind::MalformedInteger);
    assert_eq!(err.line, 0);
    assert_eq!(err.column, 8);
    // the stream is terminated at the error, with the end marker in place
    assert_eq!(lexer.tokens.last().unwrap().token_kind, TokenKind::Eof);
}

#[test]
fn register_index_over_255_is_malformed() {
    let content: &str = "LOAD $300 #1";
    let mut lexer: Lexer = Lexer::new(content.as_bytes().to_vec(), content.len());
    let err = lexer.tokenize().unwrap_err();
    assert_eq!(err.kind, LexicalErrorKind::MalformedRegisterIndex);
}

#[test]
fn unrecognized_mnemonic_is_reported() {
    let content: &str = "FROB $1";
    let mut lexer: Lexer = Lexer::new(content.as_bytes().to_vec(), content.len());
    let err = lexer.tokenize().unwrap_err();
    assert_eq!(err.kind, LexicalErrorKind::UnrecognizedMnemonic);
    assert_eq!(err.line, 0);
    assert_eq!(err.column, 0);
}

#[test]
fn error_location_tracks_lines() {
    let content: &str = "INC $0\nDEC $9x";
    let mut lexer: Lexer = Lexer::new(content.as_bytes().to_vec(), content.len());
    let err = lexer.tokenize().unwrap_err();
    assert_eq!(err.kind, LexicalErrorKind::MalformedRegisterIndex);
    assert_eq!(err.line, 1);
    assert_eq!(err.column, 4);
}

#[test]
fn int_extremes_fit_and_overflow_is_malformed() {
    let ok: &str = "LOAD $0 #2147483647";
    let mut lexer = Lexer::new(ok.as_bytes().to_vec(), ok.len());
    lexer.tokenize().unwrap();
    assert_eq!(
        lexer.tokens.get(2).unwrap().token_kind,
        TokenKind::IntegerOperand { value: 2147483647 }
    );

    let ok_min: &str = "LOAD $0 #-2147483648";
    let mut lexer = Lexer::new(ok_min.as_bytes().to_vec(), ok_min.len());
    lexer.tokenize().unwrap();
    assert_eq!(
        lexer.tokens.get(2).unwrap().token_kind,
        TokenKind::IntegerOperand { value: -2147483648 }
    );

    let too_big: &str = "LOAD $0 #2147483648";
    let mut lexer = Lexer::new(too_big.as_bytes().to_vec(), too_big.len());
    let err = lexer.tokenize().unwrap_err();
    assert_eq!(err.kind, LexicalErrorKind::MalformedInteger);
}
