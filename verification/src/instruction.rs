use vstd::prelude::*;

verus! {

/// One operation of the virtual machine.
///
/// Each opcode has a stable numeric code used on the wire (see
/// [`opcode_code`]) and a canonical textual mnemonic (see
/// [`spec_opcode_for_mnemonic`]).  `RSHT`, `LFST`, `RROR` and `LROR` are
/// reserved: they decode, but the engine stops on them as it does on `NOP`.
#[derive(Debug, Clone, Copy, PartialEq, Eq, Structural)]
pub enum Opcode {
    HLT,
    LOAD,
    ADD,
    SUB,
    MUL,
    DIV,
    EQ,
    NEQ,
    GT,
    GEQ,
    LE,
    LEQ,
    JEQ,
    JNEQ,
    JMP,
    JMPF,
    JMPB,
    INC,
    DEC,
    ALOC,
    RSHT,
    LFST,
    RROR,
    LROR,
    NOP,
}

/// The numeric code an opcode is encoded as (byte 0 of every instruction).
pub open spec fn opcode_code(op: Opcode) -> u8 {
    match op {
        Opcode::HLT => 0,
        Opcode::LOAD => 1,
        Opcode::ADD => 2,
        Opcode::SUB => 3,
        Opcode::MUL => 4,
        Opcode::DIV => 5,
        Opcode::EQ => 6,
        Opcode::NEQ => 7,
        Opcode::GT => 8,
        Opcode::GEQ => 9,
        Opcode::LE => 10,
        Opcode::LEQ => 11,
        Opcode::JEQ => 12,
        Opcode::JNEQ => 13,
        Opcode::JMP => 14,
        Opcode::JMPF => 15,
        Opcode::JMPB => 16,
        Opcode::INC => 17,
        Opcode::DEC => 18,
        Opcode::ALOC => 19,
        Opcode::RSHT => 20,
        Opcode::LFST => 21,
        Opcode::RROR => 22,
        Opcode::LROR => 23,
        Opcode::NOP => 24,
    }
}

/// The opcode assigned to a byte value, or `None` for the unassigned byte
/// values `25..=255`.  Decoding an unassigned byte is kept distinct from
/// decoding `NOP`, so corrupted bytecode is diagnosable.
pub open spec fn opcode_of_byte(b: u8) -> Option<Opcode> {
    if b == 0 {
        Some(Opcode::HLT)
    } else if b == 1 {
        Some(Opcode::LOAD)
    } else if b == 2 {
        Some(Opcode::ADD)
    } else if b == 3 {
        Some(Opcode::SUB)
    } else if b == 4 {
        Some(Opcode::MUL)
    } else if b == 5 {
        Some(Opcode::DIV)
    } else if b == 6 {
        Some(Opcode::EQ)
    } else if b == 7 {
        Some(Opcode::NEQ)
    } else if b == 8 {
        Some(Opcode::GT)
    } else if b == 9 {
        Some(Opcode::GEQ)
    } else if b == 10 {
        Some(Opcode::LE)
    } else if b == 11 {
        Some(Opcode::LEQ)
    } else if b == 12 {
        Some(Opcode::JEQ)
    } else if b == 13 {
        Some(Opcode::JNEQ)
    } else if b == 14 {
        Some(Opcode::JMP)
    } else if b == 15 {
        Some(Opcode::JMPF)
    } else if b == 16 {
        Some(Opcode::JMPB)
    } else if b == 17 {
        Some(Opcode::INC)
    } else if b == 18 {
        Some(Opcode::DEC)
    } else if b == 19 {
        Some(Opcode::ALOC)
    } else if b == 20 {
        Some(Opcode::RSHT)
    } else if b == 21 {
        Some(Opcode::LFST)
    } else if b == 22 {
        Some(Opcode::RROR)
    } else if b == 23 {
        Some(Opcode::LROR)
    } else if b == 24 {
        Some(Opcode::NOP)
    } else {
        None
    }
}

impl Opcode {
    /// The stable numeric code of this opcode.
    pub fn to_byte(self) -> (r: u8)
        ensures
            r == opcode_code(self),
    {
        match self {
            Opcode::HLT => 0,
            Opcode::LOAD => 1,
            Opcode::ADD => 2,
            Opcode::SUB => 3,
            Opcode::MUL => 4,
            Opcode::DIV => 5,
            Opcode::EQ => 6,
            Opcode::NEQ => 7,
            Opcode::GT => 8,
            Opcode::GEQ => 9,
            Opcode::LE => 10,
            Opcode::LEQ => 11,
            Opcode::JEQ => 12,
            Opcode::JNEQ => 13,
            Opcode::JMP => 14,
            Opcode::JMPF => 15,
            Opcode::JMPB => 16,
            Opcode::INC => 17,
            Opcode::DEC => 18,
            Opcode::ALOC => 19,
            Opcode::RSHT => 20,
            Opcode::LFST => 21,
            Opcode::RROR => 22,
            Opcode::LROR => 23,
            Opcode::NOP => 24,
        }
    }

    /// Decodes a byte value, returning `None` for unassigned byte values.
    pub fn from_byte(b: u8) -> (r: Option<Opcode>)
        ensures
            r == opcode_of_byte(b),
    {
        match b {
            0 => Some(Opcode::HLT),
            1 => Some(Opcode::LOAD),
            2 => Some(Opcode::ADD),
            3 => Some(Opcode::SUB),
            4 => Some(Opcode::MUL),
            5 => Some(Opcode::DIV),
            6 => Some(Opcode::EQ),
            7 => Some(Opcode::NEQ),
            8 => Some(Opcode::GT),
            9 => Some(Opcode::GEQ),
            10 => Some(Opcode::LE),
            11 => Some(Opcode::LEQ),
            12 => Some(Opcode::JEQ),
            13 => Some(Opcode::JNEQ),
            14 => Some(Opcode::JMP),
            15 => Some(Opcode::JMPF),
            16 => Some(Opcode::JMPB),
            17 => Some(Opcode::INC),
            18 => Some(Opcode::DEC),
            19 => Some(Opcode::ALOC),
            20 => Some(Opcode::RSHT),
            21 => Some(Opcode::LFST),
            22 => Some(Opcode::RROR),
            23 => Some(Opcode::LROR),
            24 => Some(Opcode::NOP),
            _ => None,
        }
    }
}

/// Numeric codes are unique and stable across encode/decode: decoding the
/// code assigned to any opcode yields that opcode back.
pub proof fn lemma_opcode_round_trip(op: Opcode)
    ensures
        opcode_of_byte(opcode_code(op)) == Some(op),
{
}

/// The kind of value one operand slot of an instruction expects.
#[derive(Debug, Clone, Copy, PartialEq, Eq, Structural)]
pub enum OperandKind {
    /// A register index, encoded as one byte.
    Register,
    /// A 16-bit integer immediate, encoded as two bytes, high byte first.
    Integer,
}

/// The arity descriptor of an opcode: the expected kind of each of its three
/// positional operand slots (`None` marks an unused slot, which encodes as
/// zero padding).
pub open spec fn spec_arity(op: Opcode) -> (Option<OperandKind>, Option<OperandKind>, Option<
    OperandKind,
>) {
    match op {
        Opcode::LOAD => (Some(OperandKind::Register), Some(OperandKind::Integer), None),
        Opcode::ADD | Opcode::SUB | Opcode::MUL | Opcode::DIV => (
            Some(OperandKind::Register),
            Some(OperandKind::Register),
            Some(OperandKind::Register),
        ),
        Opcode::EQ | Opcode::NEQ | Opcode::GT | Opcode::GEQ | Opcode::LE | Opcode::LEQ => (
            Some(OperandKind::Register),
            Some(OperandKind::Register),
            None,
        ),
        Opcode::JEQ | Opcode::JNEQ | Opcode::JMP | Opcode::JMPF | Opcode::JMPB => (
            Some(OperandKind::Register),
            None,
            None,
        ),
        Opcode::INC | Opcode::DEC | Opcode::ALOC => (Some(OperandKind::Register), None, None),
        Opcode::HLT | Opcode::RSHT | Opcode::LFST | Opcode::RROR | Opcode::LROR | Opcode::NOP => (
            None,
            None,
            None,
        ),
    }
}

/// The arity descriptor of an opcode, consulted uniformly by the parser for
/// every mnemonic.
pub fn arity_of(op: Opcode) -> (r: (Option<OperandKind>, Option<OperandKind>, Option<OperandKind>))
    ensures
        r == spec_arity(op),
{
    match op {
        Opcode::LOAD => (Some(OperandKind::Register), Some(OperandKind::Integer), None),
        Opcode::ADD | Opcode::SUB | Opcode::MUL | Opcode::DIV => (
            Some(OperandKind::Register),
            Some(OperandKind::Register),
            Some(OperandKind::Register),
        ),
        Opcode::EQ | Opcode::NEQ | Opcode::GT | Opcode::GEQ | Opcode::LE | Opcode::LEQ => (
            Some(OperandKind::Register),
            Some(OperandKind::Register),
            None,
        ),
        Opcode::JEQ | Opcode::JNEQ | Opcode::JMP | Opcode::JMPF | Opcode::JMPB => (
            Some(OperandKind::Register),
            None,
            None,
        ),
        Opcode::INC | Opcode::DEC | Opcode::ALOC => (Some(OperandKind::Register), None, None),
        Opcode::HLT | Opcode::RSHT | Opcode::LFST | Opcode::RROR | Opcode::LROR | Opcode::NOP => (
            None,
            None,
            None,
        ),
    }
}

/// The canonical mnemonic of an opcode, as ASCII bytes.
pub open spec fn spec_mnemonic(op: Opcode) -> Seq<u8> {
    match op {
        Opcode::HLT => seq![('H' as u8), ('L' as u8), ('T' as u8)],
        Opcode::LOAD => seq![('L' as u8), ('O' as u8), ('A' as u8), ('D' as u8)],
        Opcode::ADD => seq![('A' as u8), ('D' as u8), ('D' as u8)],
        Opcode::SUB => seq![('S' as u8), ('U' as u8), ('B' as u8)],
        Opcode::MUL => seq![('M' as u8), ('U' as u8), ('L' as u8)],
        Opcode::DIV => seq![('D' as u8), ('I' as u8), ('V' as u8)],
        Opcode::EQ => seq![('E' as u8), ('Q' as u8)],
        Opcode::NEQ => seq![('N' as u8), ('E' as u8), ('Q' as u8)],
        Opcode::GT => seq![('G' as u8), ('T' as u8)],
        Opcode::GEQ => seq![('G' as u8), ('E' as u8), ('Q' as u8)],
        Opcode::LE => seq![('L' as u8), ('E' as u8)],
        Opcode::LEQ => seq![('L' as u8), ('E' as u8), ('Q' as u8)],
        Opcode::JEQ => seq![('J' as u8), ('E' as u8), ('Q' as u8)],
        Opcode::JNEQ => seq![('J' as u8), ('N' as u8), ('E' as u8), ('Q' as u8)],
        Opcode::JMP => seq![('J' as u8), ('M' as u8), ('P' as u8)],
        Opcode::JMPF => seq![('J' as u8), ('M' as u8), ('P' as u8), ('F' as u8)],
        Opcode::JMPB => seq![('J' as u8), ('M' as u8), ('P' as u8), ('B' as u8)],
        Opcode::INC => seq![('I' as u8), ('N' as u8), ('C' as u8)],
        Opcode::DEC => seq![('D' as u8), ('E' as u8), ('C' as u8)],
        Opcode::ALOC => seq![('A' as u8), ('L' as u8), ('O' as u8), ('C' as u8)],
        Opcode::RSHT => seq![('R' as u8), ('S' as u8), ('H' as u8), ('T' as u8)],
        Opcode::LFST => seq![('L' as u8), ('F' as u8), ('S' as u8), ('T' as u8)],
        Opcode::RROR => seq![('R' as u8), ('R' as u8), ('O' as u8), ('R' as u8)],
        Opcode::LROR => seq![('L' as u8), ('R' as u8), ('O' as u8), ('R' as u8)],
        Opcode::NOP => seq![('N' as u8), ('O' as u8), ('P' as u8)],
    }
}

/// The opcode whose canonical mnemonic is `w`, or `None` if `w` is not a
/// recognized mnemonic.
pub open spec fn spec_opcode_for_mnemonic(w: Seq<u8>) -> Option<Opcode> {
    if w == spec_mnemonic(Opcode::EQ) {
        Some(Opcode::EQ)
    } else if w == spec_mnemonic(Opcode::GT) {
        Some(Opcode::GT)
    } else if w == spec_mnemonic(Opcode::LE) {
        Some(Opcode::LE)
    } else if w == spec_mnemonic(Opcode::HLT) {
        Some(Opcode::HLT)
    } else if w == spec_mnemonic(Opcode::ADD) {
        Some(Opcode::ADD)
    } else if w == spec_mnemonic(Opcode::SUB) {
        Some(Opcode::SUB)
    } else if w == spec_mnemonic(Opcode::MUL) {
        Some(Opcode::MUL)
    } else if w == spec_mnemonic(Opcode::DIV) {
        Some(Opcode::DIV)
    } else if w == spec_mnemonic(Opcode::NEQ) {
        Some(Opcode::NEQ)
    } else if w == spec_mnemonic(Opcode::GEQ) {
        Some(Opcode::GEQ)
    } else if w == spec_mnemonic(Opcode::LEQ) {
        Some(Opcode::LEQ)
    } else if w == spec_mnemonic(Opcode::JEQ) {
        Some(Opcode::JEQ)
    } else if w == spec_mnemonic(Opcode::JMP) {
        Some(Opcode::JMP)
    } else if w == spec_mnemonic(Opcode::INC) {
        Some(Opcode::INC)
    } else if w == spec_mnemonic(Opcode::DEC) {
        Some(Opcode::DEC)
    } else if w == spec_mnemonic(Opcode::NOP) {
        Some(Opcode::NOP)
    } else if w == spec_mnemonic(Opcode::LOAD) {
        Some(Opcode::LOAD)
    } else if w == spec_mnemonic(Opcode::JNEQ) {
        Some(Opcode::JNEQ)
    } else if w == spec_mnemonic(Opcode::JMPF) {
        Some(Opcode::JMPF)
    } else if w == spec_mnemonic(Opcode::JMPB) {
        Some(Opcode::JMPB)
    } else if w == spec_mnemonic(Opcode::ALOC) {
        Some(Opcode::ALOC)
    } else if w == spec_mnemonic(Opcode::RSHT) {
        Some(Opcode::RSHT)
    } else if w == spec_mnemonic(Opcode::LFST) {
        Some(Opcode::LFST)
    } else if w == spec_mnemonic(Opcode::RROR) {
        Some(Opcode::RROR)
    } else if w == spec_mnemonic(Opcode::LROR) {
        Some(Opcode::LROR)
    } else {
        None
    }
}

/// Resolves a mnemonic word against the opcode table.
pub fn opcode_for_mnemonic(w: &[u8]) -> (r: Option<Opcode>)
    ensures
        r == spec_opcode_for_mnemonic(w@),
{
    let n: usize = w.len();
    if n == 2 {
        if w[0] == ('E' as u8) && w[1] == ('Q' as u8) {
            proof {
                assert(w@ =~= spec_mnemonic(Opcode::EQ));
            }
            Some(Opcode::EQ)
        } else if w[0] == ('G' as u8) && w[1] == ('T' as u8) {
            proof {
                assert(w@ =~= spec_mnemonic(Opcode::GT));
            }
            Some(Opcode::GT)
        } else if w[0] == ('L' as u8) && w[1] == ('E' as u8) {
            proof {
                assert(w@ =~= spec_mnemonic(Opcode::LE));
            }
            Some(Opcode::LE)
        } else {
            None
        }
    } else if n == 3 {
        if w[0] == ('H' as u8) && w[1] == ('L' as u8) && w[2] == ('T' as u8) {
            proof {
                assert(w@ =~= spec_mnemonic(Opcode::HLT));
            }
            Some(Opcode::HLT)
        } else if w[0] == ('A' as u8) && w[1] == ('D' as u8) && w[2] == ('D' as u8) {
            proof {
                assert(w@ =~= spec_mnemonic(Opcode::ADD));
            }
            Some(Opcode::ADD)
        } else if w[0] == ('S' as u8) && w[1] == ('U' as u8) && w[2] == ('B' as u8) {
            proof {
                assert(w@ =~= spec_mnemonic(Opcode::SUB));
            }
            Some(Opcode::SUB)
        } else if w[0] == ('M' as u8) && w[1] == ('U' as u8) && w[2] == ('L' as u8) {
            proof {
                assert(w@ =~= spec_mnemonic(Opcode::MUL));
            }
            Some(Opcode::MUL)
        } else if w[0] == ('D' as u8) && w[1] == ('I' as u8) && w[2] == ('V' as u8) {
            proof {
                assert(w@ =~= spec_mnemonic(Opcode::DIV));
            }
            Some(Opcode::DIV)
        } else if w[0] == ('N' as u8) && w[1] == ('E' as u8) && w[2] == ('Q' as u8) {
            proof {
                assert(w@ =~= spec_mnemonic(Opcode::NEQ));
            }
            Some(Opcode::NEQ)
        } else if w[0] == ('G' as u8) && w[1] == ('E' as u8) && w[2] == ('Q' as u8) {
            proof {
                assert(w@ =~= spec_mnemonic(Opcode::GEQ));
            }
            Some(Opcode::GEQ)
        } else if w[0] == ('L' as u8) && w[1] == ('E' as u8) && w[2] == ('Q' as u8) {
            proof {
                assert(w@ =~= spec_mnemonic(Opcode::LEQ));
            }
            Some(Opcode::LEQ)
        } else if w[0] == ('J' as u8) && w[1] == ('E' as u8) && w[2] == ('Q' as u8) {
            proof {
                assert(w@ =~= spec_mnemonic(Opcode::JEQ));
            }
            Some(Opcode::JEQ)
        } else if w[0] == ('J' as u8) && w[1] == ('M' as u8) && w[2] == ('P' as u8) {
            proof {
                assert(w@ =~= spec_mnemonic(Opcode::JMP));
            }
            Some(Opcode::JMP)
        } else if w[0] == ('I' as u8) && w[1] == ('N' as u8) && w[2] == ('C' as u8) {
            proof {
                assert(w@ =~= spec_mnemonic(Opcode::INC));
            }
            Some(Opcode::INC)
        } else if w[0] == ('D' as u8) && w[1] == ('E' as u8) && w[2] == ('C' as u8) {
            proof {
                assert(w@ =~= spec_mnemonic(Opcode::DEC));
            }
            Some(Opcode::DEC)
        } else if w[0] == ('N' as u8) && w[1] == ('O' as u8) && w[2] == ('P' as u8) {
            proof {
                assert(w@ =~= spec_mnemonic(Opcode::NOP));
            }
            Some(Opcode::NOP)
        } else {
            None
        }
    } else if n == 4 {
        if w[0] == ('L' as u8) && w[1] == ('O' as u8) && w[2] == ('A' as u8) && w[3] == (
        'D' as u8) {
            proof {
                assert(w@ =~= spec_mnemonic(Opcode::LOAD));
            }
            Some(Opcode::LOAD)
        } else if w[0] == ('J' as u8) && w[1] == ('N' as u8) && w[2] == ('E' as u8) && w[3] == (
        'Q' as u8) {
            proof {
                assert(w@ =~= spec_mnemonic(Opcode::JNEQ));
            }
            Some(Opcode::JNEQ)
        } else if w[0] == ('J' as u8) && w[1] == ('M' as u8) && w[2] == ('P' as u8) && w[3] == (
        'F' as u8) {
            proof {
                assert(w@ =~= spec_mnemonic(Opcode::JMPF));
            }
            Some(Opcode::JMPF)
        } else if w[0] == ('J' as u8) && w[1] == ('M' as u8) && w[2] == ('P' as u8) && w[3] == (
        'B' as u8) {
            proof {
                assert(w@ =~= spec_mnemonic(Opcode::JMPB));
            }
            Some(Opcode::JMPB)
        } else if w[0] == ('A' as u8) && w[1] == ('L' as u8) && w[2] == ('O' as u8) && w[3] == (
        'C' as u8) {
            proof {
                assert(w@ =~= spec_mnemonic(Opcode::ALOC));
            }
            Some(Opcode::ALOC)
        } else if w[0] == ('R' as u8) && w[1] == ('S' as u8) && w[2] == ('H' as u8) && w[3] == (
        'T' as u8) {
            proof {
                assert(w@ =~= spec_mnemonic(Opcode::RSHT));
            }
            Some(Opcode::RSHT)
        } else if w[0] == ('L' as u8) && w[1] == ('F' as u8) && w[2] == ('S' as u8) && w[3] == (
        'T' as u8) {
            proof {
                assert(w@ =~= spec_mnemonic(Opcode::LFST));
            }
            Some(Opcode::LFST)
        } else if w[0] == ('R' as u8) && w[1] == ('R' as u8) && w[2] == ('O' as u8) && w[3] == (
        'R' as u8) {
            proof {
                assert(w@ =~= spec_mnemonic(Opcode::RROR));
            }
            Some(Opcode::RROR)
        } else if w[0] == ('L' as u8) && w[1] == ('R' as u8) && w[2] == ('O' as u8) && w[3] == (
        'R' as u8) {
            proof {
                assert(w@ =~= spec_mnemonic(Opcode::LROR));
            }
            Some(Opcode::LROR)
        } else {
            None
        }
    } else {
        None
    }
}

} // verus!
