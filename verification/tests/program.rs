use spectrum_vm::lexer::Lexer;
use spectrum_vm::parser::Parser;
use spectrum_vm::program::Program;
use spectrum_vm::vm::VM;

#[test]
fn program_length() {
    let content: &str = "LOAD $1 #500\nLOAD $1 #500\n";
    let mut lexer: Lexer = Lexer::new(content.as_bytes().to_vec(), content.len());
    lexer.tokenize().unwrap();
    let mut parser: Parser = Parser::new(lexer.tokens);
    let (parsing_result, _diagnostics) = parser.parse();
    let program: Program = Program { instructions: parsing_result };
    let program_as_bytes: Vec<u8> = program.as_bytes().unwrap();
    assert_eq!(program.instructions.len(), 2);
    assert_eq!(program_as_bytes.len(), 8)
}

#[test]
fn endianess() {
    let content: &str = "LOAD $1 #500";
    let mut lexer: Lexer = Lexer::new(content.as_bytes().to_vec(), content.len());
    lexer.tokenize().unwrap();
    let mut parser: Parser = Parser::new(lexer.tokens);
    let (parsing_result, _diagnostics) = parser.parse();
    let program: Program = Program { instructions: parsing_result };
    let program_as_bytes: Vec<u8> = program.as_bytes().unwrap();
    let mut vm: VM = VM::new();
    vm.bytecode = program_as_bytes;
    vm.run(10_000);
    println!("[DEBUG] Vm registers state {:#?}", vm.registers);
    assert_eq!(vm.registers[1], 500)
}

#[test]
fn set_instructions_replaces() {
    let content: &str = "LOAD $1 #500";
    let mut lexer = Lexer::new(content.as_bytes().to_vec(), content.len());
    lexer.tokenize().unwrap();
    let mut parser = Parser::new(lexer.tokens);
    let (parsing_result, _) = parser.parse();
    let mut program = Program::default();
    assert_eq!(program.instructions.len(), 0);
    program.set_instructions(parsing_result);
    assert_eq!(program.instructions.len(), 1);
    assert_eq!(program.as_bytes().unwrap(), vec![1, 1, 1, 244]);
}
