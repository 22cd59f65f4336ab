use vstd::prelude::*;

use crate::instruction::{arity_of, opcode_code, spec_arity, Opcode, OperandKind};
use crate::lexer::{Token, TokenKind};

verus! {

/// One parsed instruction: an opcode token plus up to three operand tokens,
/// positionally ordered exactly as the opcode's arity requires.
#[derive(Debug, Clone, Copy, PartialEq, Eq, Structural)]
pub struct AssemblyInstruction {
    pub opcode: Token,
    pub operand_1: Option<Token>,
    pub operand_2: Option<Token>,
    pub operand_3: Option<Token>,
}

/// Why one instruction could not be encoded: a caller handed the encoder a
/// token in a position its kind cannot fill.
#[derive(Debug, Clone, Copy, PartialEq, Eq, Structural)]
pub enum EncodeError {
    /// An operation token stood in an operand slot.
    OpcodeTokenInOperandPosition,
    /// A token of a kind no slot accepts stood in a slot: a non-operation
    /// token in the opcode position, or an end-of-input marker in an
    /// operand slot.
    UnsupportedOperandKind,
}

/// The wire form of one operand token: a register index is one byte; an
/// integer immediate is two bytes, most significant first, holding the
/// value's low 16 bits.
pub open spec fn spec_operand_bytes(t: Token) -> Seq<u8> {
    match t.token_kind {
        TokenKind::Register { reg_index } => seq![reg_index],
        TokenKind::IntegerOperand { value } => seq![
            ((value as u16) >> 8) as u8,
            ((value as u16) & 0xff) as u8,
        ],
        _ => Seq::empty(),
    }
}

pub open spec fn spec_opt_operand_bytes(t: Option<Token>) -> Seq<u8> {
    match t {
        Some(tok) => spec_operand_bytes(tok),
        None => Seq::empty(),
    }
}

/// The fixed-width wire form of one instruction: the opcode's numeric code,
/// then the operand bytes in order, zero-padded to the constant 4-byte
/// stride (and cut at it, so the stride holds whatever operand tokens a
/// caller assembled by hand).
pub open spec fn spec_instruction_bytes(instr: AssemblyInstruction) -> Seq<u8> {
    let code = match instr.opcode.token_kind {
        TokenKind::Operation { code } => opcode_code(code),
        _ => 0,
    };
    (seq![code] + spec_opt_operand_bytes(instr.operand_1) + spec_opt_operand_bytes(
        instr.operand_2,
    ) + spec_opt_operand_bytes(instr.operand_3) + seq![0u8, 0u8, 0u8]).take(4)
}

/// Whether a token can stand in an operand slot at all.
pub open spec fn spec_operand_slot_err(t: Option<Token>) -> Option<EncodeError> {
    match t {
        None => None,
        Some(tok) => match tok.token_kind {
            TokenKind::Register { .. } => None,
            TokenKind::IntegerOperand { .. } => None,
            TokenKind::Operation { .. } => Some(EncodeError::OpcodeTokenInOperandPosition),
            TokenKind::Eof => Some(EncodeError::UnsupportedOperandKind),
        },
    }
}

/// The first slot whose token the encoder must reject, if any.
pub open spec fn spec_encode_err(instr: AssemblyInstruction) -> Option<EncodeError> {
    if !(instr.opcode.token_kind is Operation) {
        Some(EncodeError::UnsupportedOperandKind)
    } else if spec_operand_slot_err(instr.operand_1) is Some {
        spec_operand_slot_err(instr.operand_1)
    } else if spec_operand_slot_err(instr.operand_2) is Some {
        spec_operand_slot_err(instr.operand_2)
    } else {
        spec_operand_slot_err(instr.operand_3)
    }
}

/// Appends one operand slot's wire bytes, or rejects its token's kind.
fn push_operand(v: &mut Vec<u8>, slot: Option<Token>) -> (r: Result<(), EncodeError>)
    ensures
        match r {
            Ok(_) => spec_operand_slot_err(slot) is None && final(v)@ == old(v)@
                + spec_opt_operand_bytes(slot),
            Err(e) => spec_operand_slot_err(slot) == Some(e) && final(v)@ == old(v)@,
        },
{
    match slot {
        None => {
            proof {
                assert(old(v)@ + spec_opt_operand_bytes(slot) =~= old(v)@);
            }
            Ok(())
        },
        Some(t) => {
            match t.token_kind {
                TokenKind::Register { reg_index } => {
                    v.push(reg_index);
                    proof {
                        assert(v@ =~= old(v)@ + spec_opt_operand_bytes(slot));
                    }
                    Ok(())
                },
                TokenKind::IntegerOperand { value } => {
                    let imm: u16 = #[verifier::truncate] (value as u16);
                    v.push((imm >> 8) as u8);
                    v.push((imm & 0xff) as u8);
                    proof {
                        assert(v@ =~= old(v)@ + spec_opt_operand_bytes(slot));
                    }
                    Ok(())
                },
                TokenKind::Operation { .. } => Err(EncodeError::OpcodeTokenInOperandPosition),
                TokenKind::Eof => Err(EncodeError::UnsupportedOperandKind),
            }
        },
    }
}

impl AssemblyInstruction {
    pub fn new(
        opcode: Token,
        operand_1: Option<Token>,
        operand_2: Option<Token>,
        operand_3: Option<Token>,
    ) -> (r: AssemblyInstruction)
        ensures
            r == (AssemblyInstruction { opcode, operand_1, operand_2, operand_3 }),
    {
        AssemblyInstruction { opcode, operand_1, operand_2, operand_3 }
    }

    /// Encodes this instruction into its 4-byte wire form, or rejects a
    /// token whose kind cannot stand where it was put.
    pub fn as_bytes(&self) -> (r: Result<Vec<u8>, EncodeError>)
        ensures
            match r {
                Ok(v) => spec_encode_err(*self) is None && v@ == spec_instruction_bytes(*self)
                    && v@.len() == 4,
                Err(e) => spec_encode_err(*self) == Some(e),
            },
    {
        let mut v: Vec<u8> = Vec::new();
        let ghost codebyte: u8 = match self.opcode.token_kind {
            TokenKind::Operation { code } => opcode_code(code),
            _ => 0,
        };
        match self.opcode.token_kind {
            TokenKind::Operation { code } => {
                v.push(code.to_byte());
            },
            _ => {
                return Err(EncodeError::UnsupportedOperandKind);
            },
        }
        proof {
            assert(v@ =~= seq![codebyte]);
        }
        match push_operand(&mut v, self.operand_1) {
            Err(e) => {
                return Err(e);
            },
            Ok(_) => {},
        }
        match push_operand(&mut v, self.operand_2) {
            Err(e) => {
                return Err(e);
            },
            Ok(_) => {},
        }
        match push_operand(&mut v, self.operand_3) {
            Err(e) => {
                return Err(e);
            },
            Ok(_) => {},
        }
        let ghost body: Seq<u8> = v@;
        proof {
            assert(body =~= seq![codebyte] + spec_opt_operand_bytes(self.operand_1)
                + spec_opt_operand_bytes(self.operand_2) + spec_opt_operand_bytes(self.operand_3));
            assert(1 <= body.len() <= 7);
        }
        while v.len() < 4
            invariant
                body.len() <= v@.len(),
                v@.take(body.len() as int) == body,
                forall|j: int| body.len() <= j < v@.len() ==> v@[j] == 0u8,
                v@.len() <= 4 || v@ == body,
            decreases 4 - v@.len(),
        {
            v.push(0);
            proof {
                assert(v@.take(body.len() as int) =~= body);
            }
        }
        v.truncate(4);
        proof {
            let target = spec_instruction_bytes(*self);
            assert(target == (body + seq![0u8, 0u8, 0u8]).take(4));
            assert forall|i: int| 0 <= i < 4 implies v@[i] == target[i] by {
                if i < body.len() {
                    assert(v@[i] == body[i]);
                } else {
                    assert((body + seq![0u8, 0u8, 0u8])[i] == seq![0u8, 0u8, 0u8][i - body.len()]);
                }
            }
            assert(v@ =~= target);
        }
        Ok(v)
    }
}

/// Which of the two recoverable grouping failures occurred.
#[derive(Debug, Clone, Copy, PartialEq, Eq, Structural)]
pub enum ParseErrorKind {
    /// The token stream ended before the opcode's arity was satisfied.
    TruncatedInstruction,
    /// A consumed operand token's kind does not match the kind the arity
    /// descriptor expects at its position.
    OperandKindMismatch,
}

/// A diagnostic for one malformed statement, identifying the opcode and
/// the zero-based operand position at which grouping failed.
#[derive(Debug, Clone, Copy, PartialEq, Eq, Structural)]
pub struct ParseError {
    pub kind: ParseErrorKind,
    pub opcode: Opcode,
    pub position: usize,
}

/// A token fills an operand slot expecting `k`.
pub open spec fn operand_matches(t: Token, k: OperandKind) -> bool {
    match (t.token_kind, k) {
        (TokenKind::Register { .. }, OperandKind::Register) => true,
        (TokenKind::IntegerOperand { .. }, OperandKind::Integer) => true,
        _ => false,
    }
}

/// An operand can be consumed at stream position `j`: the stream has not
/// run out, bodily or through its end-of-input marker.
pub open spec fn spec_avail(toks: Seq<Token>, j: int) -> bool {
    j < toks.len() && !(toks[j].token_kind is Eof)
}

/// Groups the instruction whose opcode token stands at `i`, consuming
/// exactly the operands its arity descriptor requires; on success, yields
/// the instruction and the position after it.
pub open spec fn spec_take(toks: Seq<Token>, i: int, code: Opcode) -> Result<
    (AssemblyInstruction, int),
    ParseError,
> {
    let a = spec_arity(code);
    match a.0 {
        None => Ok((AssemblyInstruction { opcode: toks[i], operand_1: None, operand_2: None, operand_3: None }, i + 1)),
        Some(k1) => {
            if !spec_avail(toks, i + 1) {
                Err(ParseError { kind: ParseErrorKind::TruncatedInstruction, opcode: code, position: 0 })
            } else if !operand_matches(toks[i + 1], k1) {
                Err(ParseError { kind: ParseErrorKind::OperandKindMismatch, opcode: code, position: 0 })
            } else {
                match a.1 {
                    None => Ok((AssemblyInstruction { opcode: toks[i], operand_1: Some(toks[i + 1]), operand_2: None, operand_3: None }, i + 2)),
                    Some(k2) => {
                        if !spec_avail(toks, i + 2) {
                            Err(ParseError { kind: ParseErrorKind::TruncatedInstruction, opcode: code, position: 1 })
                        } else if !operand_matches(toks[i + 2], k2) {
                            Err(ParseError { kind: ParseErrorKind::OperandKindMismatch, opcode: code, position: 1 })
                        } else {
                            match a.2 {
                                None => Ok((AssemblyInstruction { opcode: toks[i], operand_1: Some(toks[i + 1]), operand_2: Some(toks[i + 2]), operand_3: None }, i + 3)),
                                Some(k3) => {
                                    if !spec_avail(toks, i + 3) {
                                        Err(ParseError { kind: ParseErrorKind::TruncatedInstruction, opcode: code, position: 2 })
                                    } else if !operand_matches(toks[i + 3], k3) {
                                        Err(ParseError { kind: ParseErrorKind::OperandKindMismatch, opcode: code, position: 2 })
                                    } else {
                                        Ok((AssemblyInstruction { opcode: toks[i], operand_1: Some(toks[i + 1]), operand_2: Some(toks[i + 2]), operand_3: Some(toks[i + 3]) }, i + 4))
                                    }
                                },
                            }
                        }
                    },
                }
            }
        },
    }
}

/// The instructions and diagnostics produced from the token stream from
/// position `i` on.  A malformed statement yields one diagnostic and
/// parsing resumes at the token after its opcode, i.e. from the next
/// operation token; tokens of other kinds between statements are passed
/// over.
pub open spec fn spec_parse(toks: Seq<Token>, i: int) -> (Seq<AssemblyInstruction>, Seq<ParseError>)
    decreases toks.len() - i,
{
    if i < 0 || i >= toks.len() {
        (Seq::<AssemblyInstruction>::empty(), Seq::<ParseError>::empty())
    } else {
        match toks[i].token_kind {
            TokenKind::Operation { code } => {
                match spec_take(toks, i, code) {
                    Ok(p) => {
                        let rest = spec_parse(toks, p.1);
                        (seq![p.0] + rest.0, rest.1)
                    },
                    Err(e) => {
                        let rest = spec_parse(toks, i + 1);
                        (rest.0, seq![e] + rest.1)
                    },
                }
            },
            _ => spec_parse(toks, i + 1),
        }
    }
}

/// An operand slot's kind test, as the parser applies it.
fn token_matches(t: &Token, k: OperandKind) -> (r: bool)
    ensures
        r == operand_matches(*t, k),
{
    match (t.token_kind, k) {
        (TokenKind::Register { .. }, OperandKind::Register) => true,
        (TokenKind::IntegerOperand { .. }, OperandKind::Integer) => true,
        _ => false,
    }
}

/// Consumes one operand of kind `k` at position `j`, reporting `slot` in
/// any diagnostic.
fn take_operand(toks: &Vec<Token>, j: usize, k: OperandKind, code: Opcode, slot: usize) -> (r:
    Result<Token, ParseError>)
    requires
        j <= toks@.len(),
    ensures
        match r {
            Ok(t) => spec_avail(toks@, j as int) && operand_matches(t, k) && t == toks@[j as int],
            Err(e) => {
                (if !spec_avail(toks@, j as int) {
                    e == (ParseError {
                        kind: ParseErrorKind::TruncatedInstruction,
                        opcode: code,
                        position: slot,
                    })
                } else {
                    !operand_matches(toks@[j as int], k) && e == (ParseError {
                        kind: ParseErrorKind::OperandKindMismatch,
                        opcode: code,
                        position: slot,
                    })
                })
            },
        },
{
    if j >= toks.len() {
        return Err(
            ParseError { kind: ParseErrorKind::TruncatedInstruction, opcode: code, position: slot },
        );
    }
    let t = toks[j];
    match t.token_kind {
        TokenKind::Eof => Err(
            ParseError { kind: ParseErrorKind::TruncatedInstruction, opcode: code, position: slot },
        ),
        _ => {
            if token_matches(&t, k) {
                Ok(t)
            } else {
                Err(
                    ParseError {
                        kind: ParseErrorKind::OperandKindMismatch,
                        opcode: code,
                        position: slot,
                    },
                )
            }
        },
    }
}

/// Groups one instruction starting at the operation token at `i`.
fn take_instr(toks: &Vec<Token>, i: usize, code: Opcode) -> (r: Result<
    (AssemblyInstruction, usize),
    ParseError,
>)
    requires
        i < toks@.len(),
        toks@.len() <= usize::MAX,
    ensures
        match r {
            Ok(p) => spec_take(toks@, i as int, code) == Ok::<_, ParseError>((p.0, p.1 as int)) && i
                < p.1 <= toks@.len(),
            Err(e) => spec_take(toks@, i as int, code) == Err::<(AssemblyInstruction, int), _>(e),
        },
{
    let opcode_token = toks[i];
    let a = arity_of(code);
    let k1 = match a.0 {
        None => {
            return Ok((AssemblyInstruction::new(opcode_token, None, None, None), i + 1));
        },
        Some(k1) => k1,
    };
    let t1 = match take_operand(toks, i + 1, k1, code, 0) {
        Ok(t) => t,
        Err(e) => {
            return Err(e);
        },
    };
    let k2 = match a.1 {
        None => {
            return Ok((AssemblyInstruction::new(opcode_token, Some(t1), None, None), i + 2));
        },
        Some(k2) => k2,
    };
    let t2 = match take_operand(toks, i + 2, k2, code, 1) {
        Ok(t) => t,
        Err(e) => {
            return Err(e);
        },
    };
    let k3 = match a.2 {
        None => {
            return Ok((AssemblyInstruction::new(opcode_token, Some(t1), Some(t2), None), i + 3));
        },
        Some(k3) => k3,
    };
    let t3 = match take_operand(toks, i + 3, k3, code, 2) {
        Ok(t) => t,
        Err(e) => {
            return Err(e);
        },
    };
    Ok((AssemblyInstruction::new(opcode_token, Some(t1), Some(t2), Some(t3)), i + 4))
}

/// Groups a token sequence into instructions, validating operand count and
/// kind against each opcode's arity descriptor.
pub struct Parser {
    tokens_to_parse: Vec<Token>,
}

impl Parser {
    /// The tokens the parser will group.
    pub closed spec fn spec_tokens(self) -> Seq<Token> {
        self.tokens_to_parse@
    }

    pub fn new(tokens_to_parse: Vec<Token>) -> (r: Parser)
        ensures
            r.spec_tokens() == tokens_to_parse@,
    {
        Parser { tokens_to_parse }
    }

    pub fn default() -> (r: Parser)
        ensures
            r.spec_tokens() =~= Seq::<Token>::empty(),
    {
        Parser { tokens_to_parse: Vec::new() }
    }

    pub fn set_tokens(&mut self, tokens: Vec<Token>)
        ensures
            final(self).spec_tokens() == tokens@,
    {
        self.tokens_to_parse = tokens;
    }

    /// Groups the whole token stream, yielding the parsed instructions and
    /// one diagnostic per malformed statement.  A malformed statement is
    /// skipped and parsing continues from the next operation token, so one
    /// bad statement never blocks the rest.
    pub fn parse(&mut self) -> (r: (Vec<AssemblyInstruction>, Vec<ParseError>))
        ensures
            final(self).spec_tokens() == old(self).spec_tokens(),
            (r.0@, r.1@) == spec_parse(old(self).spec_tokens(), 0),
    {
        let mut instructions: Vec<AssemblyInstruction> = Vec::new();
        let mut errors: Vec<ParseError> = Vec::new();
        let n = self.tokens_to_parse.len();
        let mut i: usize = 0;
        proof {
            assert(instructions@ + spec_parse(self.tokens_to_parse@, 0).0 =~= spec_parse(
                self.tokens_to_parse@,
                0,
            ).0);
            assert(errors@ + spec_parse(self.tokens_to_parse@, 0).1 =~= spec_parse(
                self.tokens_to_parse@,
                0,
            ).1);
        }
        while i < n
            invariant
                i <= n == self.tokens_to_parse@.len(),
                self == old(self),
                spec_parse(self.tokens_to_parse@, 0).0 == instructions@ + spec_parse(
                    self.tokens_to_parse@,
                    i as int,
                ).0,
                spec_parse(self.tokens_to_parse@, 0).1 == errors@ + spec_parse(
                    self.tokens_to_parse@,
                    i as int,
                ).1,
            decreases n - i,
        {
            let ghost toks = self.tokens_to_parse@;
            let t = self.tokens_to_parse[i];
            match t.token_kind {
                TokenKind::Operation { code } => {
                    match take_instr(&self.tokens_to_parse, i, code) {
                        Ok(p) => {
                            instructions.push(p.0);
                            proof {
                                assert(spec_parse(toks, 0).0 =~= instructions@ + spec_parse(
                                    toks,
                                    p.1 as int,
                                ).0);
                            }
                            i = p.1;
                        },
                        Err(e) => {
                            errors.push(e);
                            proof {
                                assert(spec_parse(toks, 0).1 =~= errors@ + spec_parse(
                                    toks,
                                    i + 1,
                                ).1);
                            }
                            i = i + 1;
                        },
                    }
                },
                _ => {
                    i = i + 1;
                },
            }
        }
        proof {
            assert(spec_parse(self.tokens_to_parse@, 0).0 =~= instructions@);
            assert(spec_parse(self.tokens_to_parse@, 0).1 =~= errors@);
        }
        (instructions, errors)
    }
}

} // verus!
