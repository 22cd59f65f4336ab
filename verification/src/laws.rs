use vstd::prelude::*;

use crate::instruction::{opcode_code, opcode_of_byte, spec_opcode_for_mnemonic, Opcode};
use crate::lexer::{Token, TokenKind};
use crate::parser::{
    spec_encode_err, spec_instruction_bytes, spec_parse, AssemblyInstruction, ParseError,
};
use crate::program::spec_program_encode;
use crate::vm::{
    spec_resize, spec_step, trace_ok, FaultKind, RunOutcome, VmModel,
};

verus! {

/// Every instruction the encoder accepts is exactly 4 bytes, whatever its
/// opcode's arity, and decoding its opcode byte round-trips to the
/// original opcode.
pub proof fn lemma_encoding_round_trips(instr: AssemblyInstruction, code: Opcode)
    requires
        instr.opcode.token_kind == (TokenKind::Operation { code }),
        spec_encode_err(instr) is None,
    ensures
        spec_instruction_bytes(instr).len() == 4,
        spec_instruction_bytes(instr)[0] == opcode_code(code),
        opcode_of_byte(spec_instruction_bytes(instr)[0]) == Some(code),
{
    crate::instruction::lemma_opcode_round_trip(code);
}

/// A well-formed `LOAD` statement, as a token stream, parses to exactly
/// one instruction with no diagnostics and encodes to the 4 wire bytes
/// `[1, r, high(v), low(v)]`.
pub proof fn lemma_load_statement_encodes(r: u8, v: i32, t0: Token, t1: Token, t2: Token, t3: Token)
    requires
        t0.token_kind == (TokenKind::Operation { code: Opcode::LOAD }),
        t1.token_kind == (TokenKind::Register { reg_index: r }),
        t2.token_kind == (TokenKind::IntegerOperand { value: v }),
        t3.token_kind == TokenKind::Eof,
    ensures
        ({
            let p = spec_parse(seq![t0, t1, t2, t3], 0);
            &&& p.1 =~= Seq::<ParseError>::empty()
            &&& p.0 =~= seq![
                AssemblyInstruction {
                    opcode: t0,
                    operand_1: Some(t1),
                    operand_2: Some(t2),
                    operand_3: None,
                },
            ]
            &&& spec_program_encode(p.0, 0) == Ok::<_, crate::parser::EncodeError>(
                seq![1u8, r, ((v as u16) >> 8) as u8, ((v as u16) & 0xff) as u8],
            )
        }),
{
    let toks = seq![t0, t1, t2, t3];
    let p = spec_parse(toks, 0);
    let instr = AssemblyInstruction {
        opcode: t0,
        operand_1: Some(t1),
        operand_2: Some(t2),
        operand_3: None,
    };
    assert(spec_parse(toks, 4) == (Seq::<AssemblyInstruction>::empty(), Seq::<
        ParseError,
    >::empty()));
    assert(spec_parse(toks, 3) == (Seq::<AssemblyInstruction>::empty(), Seq::<
        ParseError,
    >::empty()));
    assert(crate::parser::spec_take(toks, 0, Opcode::LOAD) == Ok::<_, ParseError>((instr, 3int)));
    assert(p.0 =~= seq![instr]);
    assert(spec_instruction_bytes(instr) =~= seq![
        1u8,
        r,
        ((v as u16) >> 8) as u8,
        ((v as u16) & 0xff) as u8,
    ]);
    assert(spec_encode_err(instr) is None);
    assert(spec_program_encode(seq![instr], 1) == Ok::<_, crate::parser::EncodeError>(
        Seq::<u8>::empty(),
    ));
    assert(spec_program_encode(seq![instr], 0) == Ok::<_, crate::parser::EncodeError>(
        spec_instruction_bytes(instr) + Seq::<u8>::empty(),
    ));
    assert(p.0 == seq![instr]);
    assert(spec_instruction_bytes(instr) + Seq::<u8>::empty() =~= spec_instruction_bytes(instr));
}

/// Running a program that is one `LOAD $r #v` instruction: every run
/// terminates exhausted, with register `r` holding exactly `v` and every
/// other register untouched.
pub proof fn lemma_load_program_runs(r: u8, v: u16, m: VmModel)
    requires
        m.regs.len() == 32,
        r < 32,
        m.pc == 0,
        m.code == seq![1u8, r, (v >> 8) as u8, (v & 0xff) as u8],
    ensures
        forall|tr: Seq<VmModel>, mf: VmModel, out: RunOutcome|
            trace_ok(m, tr, mf, out) ==> {
                &&& out == RunOutcome::Exhausted
                &&& mf.regs[r as int] == v as i32
                &&& forall|k: int| 0 <= k < 32 && k != r ==> mf.regs[k] == m.regs[k]
            },
{
    assert(((v >> 8) as u8) * 256 + ((v & 0xff) as u8) == v) by (bit_vector);
    let m1 = spec_step(m).0;
    assert(spec_step(m).1 is None);
    assert(m1.regs[r as int] == v as i32);
    assert(spec_step(m1) == (m1, Some(RunOutcome::Exhausted)));
    assert forall|tr: Seq<VmModel>, mf: VmModel, out: RunOutcome|
        trace_ok(m, tr, mf, out) implies {
        &&& out == RunOutcome::Exhausted
        &&& mf.regs[r as int] == v as i32
        &&& forall|k: int| 0 <= k < 32 && k != r ==> mf.regs[k] == m.regs[k]
    } by {
        if tr.len() == 1 {
            assert(spec_step(tr.last()).1 == Some(out));
            assert(false);
        } else {
            assert(spec_step(tr[0]).0 == tr[1] && spec_step(tr[0]).1 is None);
            assert(tr[1] == m1);
            if tr.len() > 2 {
                assert(spec_step(tr[1]).0 == tr[2] && spec_step(tr[1]).1 is None);
                assert(false);
            } else {
                assert(tr.last() == m1);
                assert(mf == m1 && out == RunOutcome::Exhausted);
            }
        }
    }
}

/// Every instruction the parser yields encodes cleanly: grouping already
/// checked each operand's kind against the arity descriptor, so the
/// encoder never rejects it and the image stays whole 4-byte strides.
pub proof fn lemma_parse_output_encodes(toks: Seq<Token>, i: int)
    ensures
        forall|k: int|
            0 <= k < spec_parse(toks, i).0.len() ==> spec_encode_err(
                #[trigger] spec_parse(toks, i).0[k],
            ) is None,
    decreases toks.len() - i,
{
    if 0 <= i < toks.len() {
        match toks[i].token_kind {
            TokenKind::Operation { code } => {
                match crate::parser::spec_take(toks, i, code) {
                    Ok(p) => {
                        lemma_parse_output_encodes(toks, p.1);
                        assert(spec_encode_err(p.0) is None);
                        assert forall|k: int| 0 <= k < spec_parse(toks, i).0.len() implies
                            spec_encode_err(#[trigger] spec_parse(toks, i).0[k]) is None by {
                            if k == 0 {
                                assert(spec_parse(toks, i).0[k] == p.0);
                            } else {
                                assert(spec_parse(toks, i).0[k] == spec_parse(toks, p.1).0[k - 1]);
                            }
                        }
                    },
                    Err(_) => {
                        lemma_parse_output_encodes(toks, i + 1);
                    },
                }
            },
            _ => {
                lemma_parse_output_encodes(toks, i + 1);
            },
        }
    }
}

/// A terminal first cycle ends every run at once: whenever the machine's
/// next cycle halts, faults or exhausts, that cycle is the whole run, so
/// after a fault no further instruction executes (and, the step spec
/// leaving a faulting machine untouched, its state stays inspectable).
pub proof fn lemma_terminal_step_ends_run(m: VmModel)
    requires
        spec_step(m).1 is Some,
    ensures
        forall|tr: Seq<VmModel>, mf: VmModel, out: RunOutcome|
            trace_ok(m, tr, mf, out) ==> tr =~= seq![m] && mf == spec_step(m).0 && Some(out)
                == spec_step(m).1,
{
    assert forall|tr: Seq<VmModel>, mf: VmModel, out: RunOutcome|
        trace_ok(m, tr, mf, out) implies tr =~= seq![m] && mf == spec_step(m).0 && Some(out)
        == spec_step(m).1 by {
        if tr.len() > 1 {
            assert(spec_step(tr[0]).1 is None);
            assert(false);
        }
        assert(tr =~= seq![m]);
        assert(tr.last() == m);
    }
}

/// A run whose first cycle continues and whose second is terminal is
/// exactly those two cycles, whatever trace is offered.
pub proof fn lemma_single_instruction_run(m: VmModel)
    requires
        spec_step(m).1 is None,
        spec_step(spec_step(m).0).1 is Some,
    ensures
        forall|tr: Seq<VmModel>, mf: VmModel, out: RunOutcome|
            trace_ok(m, tr, mf, out) ==> mf == spec_step(spec_step(m).0).0 && Some(out)
                == spec_step(spec_step(m).0).1,
{
    let m1 = spec_step(m).0;
    assert forall|tr: Seq<VmModel>, mf: VmModel, out: RunOutcome|
        trace_ok(m, tr, mf, out) implies mf == spec_step(m1).0 && Some(out) == spec_step(
        m1,
    ).1 by {
        if tr.len() == 1 {
            assert(spec_step(tr.last()).1 == Some(out));
            assert(false);
        } else {
            assert(spec_step(tr[0]).0 == tr[1] && spec_step(tr[0]).1 is None);
            assert(tr[1] == m1);
            if tr.len() > 2 {
                assert(spec_step(tr[1]).0 == tr[2] && spec_step(tr[1]).1 is None);
                assert(false);
            } else {
                assert(tr.last() == m1);
            }
        }
    }
}

/// Running a program that is one add, subtract or multiply instruction
/// with exact result in range: the run exhausts the program and the
/// destination register holds exactly that result.
pub proof fn lemma_arithmetic_program_runs(m: VmModel)
    requires
        m.regs.len() == 32,
        m.code.len() <= usize::MAX,
        m.code.len() == m.pc + 4,
        ({
            let base = m.pc as int;
            &&& (m.code[base] == 2 || m.code[base] == 3 || m.code[base] == 4)
            &&& m.code[base + 1] < 32
            &&& m.code[base + 2] < 32
            &&& m.code[base + 3] < 32
            &&& i32::MIN <= spec_exact_result(m) <= i32::MAX
        }),
    ensures
        forall|tr: Seq<VmModel>, mf: VmModel, out: RunOutcome|
            trace_ok(m, tr, mf, out) ==> out == RunOutcome::Exhausted && mf.regs[m.code[m.pc as int
                + 3] as int] == spec_exact_result(m),
{
    lemma_arithmetic_exact(m);
    lemma_single_instruction_run(m);
}

/// Running a program that is one divide instruction with a non-zero
/// divisor and a non-negative dividend: the run exhausts the program, and
/// quotient, remainder and the division identity hold of the final state.
pub proof fn lemma_divide_program_runs(m: VmModel)
    requires
        m.regs.len() == 32,
        m.code.len() <= usize::MAX,
        m.code.len() == m.pc + 4,
        ({
            let base = m.pc as int;
            &&& m.code[base] == 5
            &&& m.code[base + 1] < 32
            &&& m.code[base + 2] < 32
            &&& m.code[base + 3] < 32
            &&& m.regs[m.code[base + 2] as int] != 0
            &&& m.regs[m.code[base + 1] as int] >= 0
        }),
    ensures
        forall|tr: Seq<VmModel>, mf: VmModel, out: RunOutcome|
            trace_ok(m, tr, mf, out) ==> {
                let base = m.pc as int;
                let a = m.regs[m.code[base + 1] as int] as int;
                let d = m.regs[m.code[base + 2] as int] as int;
                &&& out == RunOutcome::Exhausted
                &&& a == (mf.regs[m.code[base + 3] as int] as int) * d + mf.rem
                &&& mf.rem < (if d < 0 {
                    -d
                } else {
                    d
                })
            },
{
    lemma_divide_exact(m);
    lemma_single_instruction_run(m);
}

/// Two continuing chains from the same start agree position by position.
proof fn lemma_chains_agree(tr1: Seq<VmModel>, tr2: Seq<VmModel>, k: int)
    requires
        crate::vm::steps_chain(tr1),
        crate::vm::steps_chain(tr2),
        tr1.len() >= 1,
        tr2.len() >= 1,
        tr1[0] == tr2[0],
        0 <= k < tr1.len(),
        k < tr2.len(),
    ensures
        tr1[k] == tr2[k],
    decreases k,
{
    if k > 0 {
        lemma_chains_agree(tr1, tr2, k - 1);
        assert(spec_step(tr1[k - 1]).0 == tr1[k]);
        assert(spec_step(tr2[k - 1]).0 == tr2[k]);
    }
}

/// Execution is deterministic: from one starting state there is exactly
/// one run: identical bytecode and identical initial register, heap and
/// flag state always produce the identical trace, final state and
/// terminal reason.
pub proof fn lemma_execution_deterministic(
    m: VmModel,
    tr1: Seq<VmModel>,
    mf1: VmModel,
    out1: RunOutcome,
    tr2: Seq<VmModel>,
    mf2: VmModel,
    out2: RunOutcome,
)
    requires
        trace_ok(m, tr1, mf1, out1),
        trace_ok(m, tr2, mf2, out2),
    ensures
        tr1 =~= tr2,
        mf1 == mf2,
        out1 == out2,
{
    if tr1.len() < tr2.len() {
        lemma_chains_agree(tr1, tr2, tr1.len() - 1);
        assert(spec_step(tr2[tr1.len() - 1]).1 is None);
        assert(false);
    } else if tr2.len() < tr1.len() {
        lemma_chains_agree(tr1, tr2, tr2.len() - 1);
        assert(spec_step(tr1[tr2.len() - 1]).1 is None);
        assert(false);
    } else {
        assert forall|k: int| 0 <= k < tr1.len() implies tr1[k] == tr2[k] by {
            lemma_chains_agree(tr1, tr2, k);
        }
        assert(tr1 =~= tr2);
        assert(tr1.last() == tr2.last());
    }
}

/// A word's end is where its non-separator run meets a separator or the
/// end of input.
proof fn lemma_word_end_at(s: Seq<u8>, i: int, e: int)
    requires
        0 <= i <= e <= s.len(),
        forall|j: int| i <= j < e ==> !crate::lexer::is_separator(#[trigger] s[j]),
        e == s.len() || crate::lexer::is_separator(s[e]),
    ensures
        crate::lexer::word_end(s, i) == e,
    decreases e - i,
{
    if i < e {
        lemma_word_end_at(s, i + 1, e);
    }
}

/// A line's end is where its newline-free run meets a newline or the end
/// of input.
proof fn lemma_line_end_at(s: Seq<u8>, i: int, e: int)
    requires
        0 <= i <= e <= s.len(),
        forall|j: int| i <= j < e ==> #[trigger] s[j] != ('\n' as u8),
        e == s.len() || s[e] == ('\n' as u8),
    ensures
        crate::assemble::line_end(s, i) == e,
    decreases e - i,
{
    if i < e {
        lemma_line_end_at(s, i + 1, e);
    }
}

/// A digit run's value does not depend on where in its sequence it
/// stands: it can be read off any sequence holding the same digits.
proof fn lemma_dec_value_shifted(s: Seq<u8>, lo: int, hi: int, t: Seq<u8>)
    requires
        0 <= lo <= hi <= s.len(),
        t.len() >= hi - lo,
        forall|k: int| 0 <= k < hi - lo ==> #[trigger] t[k] == s[lo + k],
    ensures
        crate::lexer::dec_value(s, lo, hi) == crate::lexer::dec_value(t, 0, hi - lo),
    decreases hi - lo,
{
    if hi > lo {
        lemma_dec_value_shifted(s, lo, hi - 1, t);
    }
}

/// The canonical source line `LOAD $<rs> #<vs>`, with the register index
/// and the immediate written as decimal digit runs.
pub open spec fn spec_load_source(rs: Seq<u8>, vs: Seq<u8>) -> Seq<u8> {
    seq![
        ('L' as u8),
        ('O' as u8),
        ('A' as u8),
        ('D' as u8),
        (' ' as u8),
        ('$' as u8),
    ] + rs + seq![(' ' as u8), ('#' as u8)] + vs
}

/// Assembling the text `LOAD $r #v`, for any decimal spellings of
/// `0 <= r < 256` and `0 <= v <= 65535`, yields no diagnostics and exactly
/// the 4 wire bytes `[1, r, high(v), low(v)]`.
pub proof fn lemma_load_text_assembles(rs: Seq<u8>, vs: Seq<u8>, r: u8, v: u16)
    requires
        rs.len() >= 1,
        vs.len() >= 1,
        crate::lexer::all_digits(rs, 0, rs.len() as int),
        crate::lexer::all_digits(vs, 0, vs.len() as int),
        crate::lexer::dec_value(rs, 0, rs.len() as int) == r,
        crate::lexer::dec_value(vs, 0, vs.len() as int) == v,
    ensures
        crate::assemble::spec_assemble(spec_load_source(rs, vs)) == (
            seq![1u8, r, (v >> 8) as u8, (v & 0xff) as u8],
            Seq::<crate::assemble::Diagnostic>::empty(),
        ),
{
    let src = spec_load_source(rs, vs);
    let n = src.len() as int;
    let m1 = 6 + rs.len() as int;
    assert(n == m1 + 2 + vs.len());
    assert forall|j: int| 6 <= j < m1 implies crate::lexer::is_digit(#[trigger] src[j]) by {
        assert(src[j] == rs[j - 6]);
    }
    assert forall|j: int| m1 + 2 <= j < n implies crate::lexer::is_digit(#[trigger] src[j]) by {
        assert(src[j] == vs[j - (m1 + 2)]);
    }
    assert(src[0] == ('L' as u8) && src[1] == ('O' as u8) && src[2] == ('A' as u8) && src[3] == (
    'D' as u8) && src[4] == (' ' as u8) && src[5] == ('$' as u8));
    assert(src[m1] == (' ' as u8) && src[m1 + 1] == ('#' as u8));

    // the unit is one line
    assert forall|j: int| 0 <= j < n implies #[trigger] src[j] != ('\n' as u8) by {
        if 6 <= j < m1 || m1 + 2 <= j < n {
            assert(crate::lexer::is_digit(src[j]));
        }
    }
    lemma_line_end_at(src, 0, n);
    assert(src.subrange(0, n) =~= src);

    // scanning: the mnemonic word, the register word, the integer word
    lemma_word_end_at(src, 0, 4);
    assert(src.subrange(0, 4) =~= seq![('L' as u8), ('O' as u8), ('A' as u8), ('D' as u8)]);
    assert(src.subrange(0, 4) == crate::instruction::spec_mnemonic(Opcode::LOAD));
    assert(spec_opcode_for_mnemonic(src.subrange(0, 4)) == Some(Opcode::LOAD));

    lemma_word_end_at(src, 6, m1);
    lemma_dec_value_shifted(src, 6, m1, rs);
    assert(crate::lexer::spec_parse_reg(src, 6, m1) == Some(r));

    lemma_word_end_at(src, m1 + 2, n);
    lemma_dec_value_shifted(src, m1 + 2, n, vs);
    assert(crate::lexer::is_digit(src[m1 + 2]));
    assert(crate::lexer::spec_parse_int(src, m1 + 2, n) == Some(v as i32));

    let t0 = Token {
        token_kind: TokenKind::Operation { code: Opcode::LOAD },
        start: 0,
        end: 4,
        length: 4,
    };
    let t1 = Token {
        token_kind: TokenKind::Register { reg_index: r },
        start: 5,
        end: m1 as usize,
        length: (m1 - 5) as usize,
    };
    let t2 = Token {
        token_kind: TokenKind::IntegerOperand { value: v as i32 },
        start: (m1 + 1) as usize,
        end: n as usize,
        length: (n - m1 - 1) as usize,
    };
    let te = crate::lexer::spec_eof_token(n);
    let lx = crate::lexer::spec_lex(src, 0, 0, 0);
    assert(crate::lexer::spec_lex(src, n, 0, 0) == (seq![te], None::<
        crate::lexer::LexicalError,
    >));
    assert(crate::lexer::spec_lex(src, m1 + 1, 0, 0).0 == seq![t2] + seq![te]);
    assert(crate::lexer::spec_lex(src, m1, 0, 0).0 == seq![t2] + seq![te]);
    assert(crate::lexer::spec_lex(src, 5, 0, 0).0 == seq![t1] + (seq![t2] + seq![te]));
    assert(crate::lexer::spec_lex(src, 4, 0, 0).0 == seq![t1] + (seq![t2] + seq![te]));
    assert(lx.0 == seq![t0] + (seq![t1] + (seq![t2] + seq![te])));
    assert(lx.0 =~= seq![t0, t1, t2, te]);
    assert(lx.1 is None);

    lemma_load_statement_encodes(r, v as i32, t0, t1, t2, te);
    let p = spec_parse(lx.0, 0);
    assert(((v as i32) as u16) == v);
    assert(spec_program_encode(p.0, 0) == Ok::<_, crate::parser::EncodeError>(
        seq![1u8, r, (v >> 8) as u8, (v & 0xff) as u8],
    ));
    let here = crate::assemble::spec_line_output(src, 0);
    assert(p.1.map_values(|e: ParseError| crate::assemble::Diagnostic::Parse(e)) =~= Seq::<
        crate::assemble::Diagnostic,
    >::empty());
    assert(crate::assemble::spec_assemble(src) == here);
}

/// For any decimal spellings of `r < 32` and `v <= 65535`: assembling the
/// source text `LOAD $r #v` yields no diagnostics, and running the
/// resulting image loads exactly `v` into register `r`, leaves every
/// other register untouched, and exhausts the program.
pub proof fn lemma_load_end_to_end(rs: Seq<u8>, vs: Seq<u8>, r: u8, v: u16, m: VmModel)
    requires
        rs.len() >= 1,
        vs.len() >= 1,
        crate::lexer::all_digits(rs, 0, rs.len() as int),
        crate::lexer::all_digits(vs, 0, vs.len() as int),
        crate::lexer::dec_value(rs, 0, rs.len() as int) == r,
        crate::lexer::dec_value(vs, 0, vs.len() as int) == v,
        r < 32,
        m.regs.len() == 32,
        m.pc == 0,
        m.code == crate::assemble::spec_assemble(spec_load_source(rs, vs)).0,
    ensures
        crate::assemble::spec_assemble(spec_load_source(rs, vs)).1.len() == 0,
        forall|tr: Seq<VmModel>, mf: VmModel, out: RunOutcome|
            trace_ok(m, tr, mf, out) ==> {
                &&& out == RunOutcome::Exhausted
                &&& mf.regs[r as int] == v as i32
                &&& forall|k: int| 0 <= k < 32 && k != r ==> mf.regs[k] == m.regs[k]
            },
{
    lemma_load_text_assembles(rs, vs, r, v);
    lemma_load_program_runs(r, v, m);
}

/// For add, subtract and multiply with all register pairs whose exact
/// result stays in `i32` range, the destination register receives exactly
/// that arithmetic result; the counter moves to the next boundary and
/// nothing else changes.
pub proof fn lemma_arithmetic_exact(m: VmModel)
    requires
        m.regs.len() == 32,
        m.code.len() <= usize::MAX,
        m.pc + 4 <= m.code.len(),
        ({
            let base = m.pc as int;
            &&& (m.code[base] == 2 || m.code[base] == 3 || m.code[base] == 4)
            &&& m.code[base + 1] < 32
            &&& m.code[base + 2] < 32
            &&& m.code[base + 3] < 32
            &&& i32::MIN <= spec_exact_result(m) <= i32::MAX
        }),
    ensures
        spec_step(m).1 is None,
        spec_step(m).0 == (VmModel {
            regs: m.regs.update(m.code[m.pc as int + 3] as int, spec_exact_result(m) as i32),
            pc: (m.pc + 4) as usize,
            ..m
        }),
{
    let base = m.pc as int;
    let a = m.regs[m.code[base + 1] as int];
    let b = m.regs[m.code[base + 2] as int];
    if m.code[base] == 4 {
        lemma_signed_crop_identity(a as int * b as int);
    }
}

/// The exact mathematical result the arithmetic instruction at the
/// counter denotes (sum, difference or product of the source registers).
pub open spec fn spec_exact_result(m: VmModel) -> int {
    let base = m.pc as int;
    let a = m.regs[m.code[base + 1] as int];
    let b = m.regs[m.code[base + 2] as int];
    if m.code[base] == 2 {
        a + b
    } else if m.code[base] == 3 {
        a - b
    } else {
        a as int * b as int
    }
}

/// Wrapping multiplication is exact while the product is representable.
proof fn lemma_signed_crop_identity(x: int)
    requires
        i32::MIN <= x <= i32::MAX,
    ensures
        vstd::wrapping::i32_specs::signed_crop(x) == x,
{
    if x >= 0 {
        vstd::arithmetic::div_mod::lemma_small_mod(x as nat, 0x1_0000_0000);
    } else {
        vstd::arithmetic::div_mod::lemma_mod_multiples_vanish(1, x, 0x1_0000_0000);
        vstd::arithmetic::div_mod::lemma_small_mod((x + 0x1_0000_0000) as nat, 0x1_0000_0000);
    }
}

/// For divide with a non-zero divisor and a non-negative dividend, the
/// destination register receives the truncating quotient, the remainder
/// register the truncating remainder, and `dividend == quotient * divisor
/// + remainder` holds exactly.
pub proof fn lemma_divide_exact(m: VmModel)
    requires
        m.regs.len() == 32,
        m.code.len() <= usize::MAX,
        m.pc + 4 <= m.code.len(),
        ({
            let base = m.pc as int;
            &&& m.code[base] == 5
            &&& m.code[base + 1] < 32
            &&& m.code[base + 2] < 32
            &&& m.code[base + 3] < 32
            &&& m.regs[m.code[base + 2] as int] != 0
            &&& m.regs[m.code[base + 1] as int] >= 0
        }),
    ensures
        spec_step(m).1 is None,
        ({
            let base = m.pc as int;
            let a = m.regs[m.code[base + 1] as int] as int;
            let d = m.regs[m.code[base + 2] as int] as int;
            let mf = spec_step(m).0;
            let q = mf.regs[m.code[base + 3] as int] as int;
            &&& mf.pc == m.pc + 4
            &&& mf.flag == m.flag
            &&& mf.heap == m.heap
            &&& a == q * d + mf.rem
            &&& mf.rem < (if d < 0 {
                -d
            } else {
                d
            })
        }),
{
    let base = m.pc as int;
    let av = m.regs[m.code[base + 1] as int];
    let dv = m.regs[m.code[base + 2] as int];
    let a = av as int;
    let d = dv as int;
    if a == 0 {
        assert(av.checked_div(dv) == Some(0i32));
        assert(av.checked_rem(dv) == Some(0i32));
        assert(a == 0int * d + 0);
    } else if d > 0 {
        vstd::arithmetic::div_mod::lemma_fundamental_div_mod(a, d);
        vstd::arithmetic::div_mod::lemma_mod_bound(a, d);
        vstd::arithmetic::div_mod::lemma_div_pos_is_pos(a, d);
        vstd::arithmetic::div_mod::lemma_div_nonincreasing(a, d);
        let q = a / d;
        assert(av.checked_div(dv) == Some((a / d) as i32));
        assert(av.checked_rem(dv) == Some((a % d) as i32));
        assert(a == d * q + a % d);
        assert(q * d == d * q) by (nonlinear_arith);
        assert(a == ((a / d) as i32) * d + a % d);
    } else {
        vstd::arithmetic::div_mod::lemma_fundamental_div_mod(a, -d);
        vstd::arithmetic::div_mod::lemma_mod_bound(a, -d);
        vstd::arithmetic::div_mod::lemma_div_pos_is_pos(a, -d);
        vstd::arithmetic::div_mod::lemma_div_nonincreasing(a, -d);
        let q0 = a / (-d);
        assert(av.checked_div(dv) == Some(((a / (-d)) * -1) as i32));
        assert(av.checked_rem(dv) == Some((a % (-d)) as i32));
        assert(a == (-d) * q0 + a % (-d));
        assert((q0 * -1) * d == (-d) * q0) by (nonlinear_arith);
        assert(a == (q0 * -1) * d + a % (-d));
    }
}

/// Divide with a zero divisor produces a divide-by-zero fault and leaves
/// the whole machine state, the destination register included,
/// unmodified.
pub proof fn lemma_divide_by_zero_faults(m: VmModel)
    requires
        m.regs.len() == 32,
        m.code.len() <= usize::MAX,
        m.pc + 4 <= m.code.len(),
        ({
            let base = m.pc as int;
            &&& m.code[base] == 5
            &&& m.code[base + 1] < 32
            &&& m.code[base + 2] < 32
            &&& m.code[base + 3] < 32
            &&& m.regs[m.code[base + 2] as int] == 0
        }),
    ensures
        spec_step(m) == (m, Some(RunOutcome::Faulted { kind: FaultKind::DivideByZero, at: m.pc })),
{
}

/// Unconditional jump sets the program counter to exactly the value held
/// in the referenced register, and changes nothing else.
pub proof fn lemma_jmp_sets_counter(m: VmModel)
    requires
        m.regs.len() == 32,
        m.code.len() <= usize::MAX,
        m.pc + 4 <= m.code.len(),
        m.code[m.pc as int] == 14,
        m.code[m.pc as int + 1] < 32,
        m.regs[m.code[m.pc as int + 1] as int] >= 0,
    ensures
        spec_step(m) == (
            VmModel { pc: m.regs[m.code[m.pc as int + 1] as int] as usize, ..m },
            None::<RunOutcome>,
        ),
{
}

/// Forward-relative jump adds the register's value to the counter as it
/// stands after the opcode and operand bytes are consumed.
pub proof fn lemma_jmpf_adds_to_counter(m: VmModel)
    requires
        m.regs.len() == 32,
        m.code.len() <= usize::MAX,
        m.pc + 4 <= m.code.len(),
        m.code[m.pc as int] == 15,
        m.code[m.pc as int + 1] < 32,
        m.regs[m.code[m.pc as int + 1] as int] >= 0,
        m.pc + 2 + m.regs[m.code[m.pc as int + 1] as int] <= usize::MAX,
    ensures
        spec_step(m) == (
            VmModel {
                pc: (m.pc + 2 + m.regs[m.code[m.pc as int + 1] as int]) as usize,
                ..m
            },
            None::<RunOutcome>,
        ),
{
}

/// A backward-relative jump whose computed counter would go negative
/// faults instead of wrapping, and leaves the machine unmodified.
pub proof fn lemma_jmpb_underflow_faults(m: VmModel)
    requires
        m.regs.len() == 32,
        m.code.len() <= usize::MAX,
        m.pc + 4 <= m.code.len(),
        m.code[m.pc as int] == 16,
        m.code[m.pc as int + 1] < 32,
        m.pc + 2 - m.regs[m.code[m.pc as int + 1] as int] < 0,
    ensures
        spec_step(m) == (
            m,
            Some(RunOutcome::Faulted { kind: FaultKind::BackwardJumpUnderflow, at: m.pc }),
        ),
{
}

/// Conditional jumps move the counter to the register's value only when
/// the comparison flag matches the opcode's polarity; otherwise execution
/// falls through to the next instruction boundary with the rest of the
/// state unchanged either way.
pub proof fn lemma_conditional_jump_polarity(m: VmModel)
    requires
        m.regs.len() == 32,
        m.code.len() <= usize::MAX,
        m.pc + 4 <= m.code.len(),
        m.code[m.pc as int] == 12 || m.code[m.pc as int] == 13,
        m.code[m.pc as int + 1] < 32,
        m.regs[m.code[m.pc as int + 1] as int] >= 0,
    ensures
        ({
            let taken = if m.code[m.pc as int] == 12 {
                m.flag
            } else {
                !m.flag
            };
            if taken {
                spec_step(m) == (
                    VmModel { pc: m.regs[m.code[m.pc as int + 1] as int] as usize, ..m },
                    None::<RunOutcome>,
                )
            } else {
                spec_step(m) == (VmModel { pc: (m.pc + 4) as usize, ..m }, None::<RunOutcome>)
            }
        }),
{
}

/// Heap-allocate with register value `n` makes the heap exactly `n` long,
/// keeps what was already there (up to `n`), and zero-fills the rest.
pub proof fn lemma_heap_allocate_resizes(m: VmModel)
    requires
        m.regs.len() == 32,
        m.code.len() <= usize::MAX,
        m.pc + 4 <= m.code.len(),
        m.code[m.pc as int] == 19,
        m.code[m.pc as int + 1] < 32,
        m.regs[m.code[m.pc as int + 1] as int] >= 0,
    ensures
        spec_step(m).1 is None,
        ({
            let n = m.regs[m.code[m.pc as int + 1] as int] as int;
            let mf = spec_step(m).0;
            &&& mf == (VmModel { heap: spec_resize(m.heap, n), pc: (m.pc + 4) as usize, ..m })
            &&& mf.heap.len() == n
            &&& forall|j: int| 0 <= j < n && j < m.heap.len() ==> mf.heap[j] == m.heap[j]
            &&& forall|j: int| m.heap.len() <= j < n ==> mf.heap[j] == 0u8
        }),
{
}

/// Heap-allocate is idempotent: resizing to `n` twice is the same as
/// resizing once, so re-running it leaves the length unchanged rather
/// than appending.
pub proof fn lemma_resize_idempotent(h: Seq<u8>, n: int)
    requires
        n >= 0,
    ensures
        spec_resize(spec_resize(h, n), n) == spec_resize(h, n),
{
    assert(spec_resize(spec_resize(h, n), n) =~= spec_resize(h, n));
}

} // verus!
