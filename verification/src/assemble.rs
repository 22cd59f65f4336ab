use vstd::prelude::*;

use crate::lexer::{spec_lex, Lexer, LexicalError};
use crate::parser::{ParseError, Parser};
use crate::program::{spec_program_encode, Program};

verus! {

/// One recoverable assembly-time error report: a bad word (with line and
/// column) or a malformed statement (with opcode and operand position).
#[derive(Debug, Clone, Copy, PartialEq, Eq, Structural)]
pub enum Diagnostic {
    Lexical(LexicalError),
    Parse(ParseError),
}

/// The first newline at or after `i`, or the end of input.
pub open spec fn line_end(s: Seq<u8>, i: int) -> int
    decreases s.len() - i,
{
    if i < 0 {
        i
    } else if i >= s.len() || s[i] == ('\n' as u8) {
        i
    } else {
        line_end(s, i + 1)
    }
}

pub proof fn lemma_line_end_bounds(s: Seq<u8>, i: int)
    requires
        0 <= i <= s.len(),
    ensures
        i <= line_end(s, i) <= s.len(),
    decreases s.len() - i,
{
    if i < s.len() && s[i] != ('\n' as u8) {
        lemma_line_end_bounds(s, i + 1);
    }
}

/// What one source line contributes to the unit: the bytecode of its
/// well-formed statements and its diagnostics, tagged with the line's
/// index in the unit.  A lexical error discards the line's statements;
/// parse errors discard the malformed statements only.
pub open spec fn spec_line_output(line: Seq<u8>, line_no: int) -> (Seq<u8>, Seq<Diagnostic>) {
    let lx = spec_lex(line, 0, 0, 0);
    match lx.1 {
        Some(err) => (
            Seq::<u8>::empty(),
            seq![Diagnostic::Lexical(LexicalError { line: line_no as usize, ..err })],
        ),
        None => {
            let p = crate::parser::spec_parse(lx.0, 0);
            let bytes = match spec_program_encode(p.0, 0) {
                Ok(b) => b,
                Err(_) => Seq::<u8>::empty(),
            };
            (bytes, p.1.map_values(|e: ParseError| Diagnostic::Parse(e)))
        },
    }
}

/// The bytecode and diagnostics of the unit from byte `i` (the start of
/// line `line_no`) on: each line is scanned, grouped and encoded on its
/// own, so one bad line never blocks the lines after it.
pub open spec fn spec_assemble_from(s: Seq<u8>, i: int, line_no: int) -> (Seq<u8>, Seq<Diagnostic>)
    decreases s.len() - i,
    via spec_assemble_from_decreases
{
    if i < 0 || i > s.len() {
        (Seq::<u8>::empty(), Seq::<Diagnostic>::empty())
    } else {
        let e = line_end(s, i);
        let here = spec_line_output(s.subrange(i, e), line_no);
        if e >= s.len() {
            here
        } else {
            let rest = spec_assemble_from(s, e + 1, line_no + 1);
            (here.0 + rest.0, here.1 + rest.1)
        }
    }
}

#[via_fn]
proof fn spec_assemble_from_decreases(s: Seq<u8>, i: int, line_no: int) {
    if 0 <= i <= s.len() {
        lemma_line_end_bounds(s, i);
    }
}

/// The whole unit's bytecode and diagnostics.
pub open spec fn spec_assemble(s: Seq<u8>) -> (Seq<u8>, Seq<Diagnostic>) {
    spec_assemble_from(s, 0, 0)
}

/// A malformed line is reported and does not abort assembly of what
/// follows: the unit's output is exactly that line's diagnostics followed
/// by the full output of the remaining lines, which is the same whatever
/// the line held.
pub proof fn lemma_malformed_line_reports_and_continues(s: Seq<u8>, i: int, line_no: int)
    requires
        0 <= i <= s.len(),
        spec_line_output(s.subrange(i, line_end(s, i)), line_no).1.len() > 0,
    ensures
        ({
            let e = line_end(s, i);
            let here = spec_line_output(s.subrange(i, e), line_no);
            let rest = if e >= s.len() {
                (Seq::<u8>::empty(), Seq::<Diagnostic>::empty())
            } else {
                spec_assemble_from(s, e + 1, line_no + 1)
            };
            &&& spec_assemble_from(s, i, line_no).1 == here.1 + rest.1
            &&& spec_assemble_from(s, i, line_no).0 == here.0 + rest.0
        }),
{
    lemma_line_end_bounds(s, i);
    let e = line_end(s, i);
    if e >= s.len() {
        let here = spec_line_output(s.subrange(i, e), line_no);
        assert(here.1 + Seq::<Diagnostic>::empty() =~= here.1);
        assert(here.0 + Seq::<u8>::empty() =~= here.0);
    }
}

/// Finds the end of the line that starts at `from`.
fn line_end_from(c: &[u8], from: usize) -> (e: usize)
    requires
        from <= c@.len(),
    ensures
        from <= e <= c@.len(),
        e as int == line_end(c@, from as int),
{
    let n = c.len();
    let mut e = from;
    while e < n && c[e] != ('\n' as u8)
        invariant
            from <= e <= n == c@.len(),
            line_end(c@, from as int) == line_end(c@, e as int),
        decreases n - e,
    {
        e = e + 1;
    }
    e
}

/// Runs the full pipeline on a source unit: scan, group and encode each
/// line, collecting diagnostics across all lines.  With no diagnostics
/// the whole unit's bytecode image is returned; with any, the diagnostics
/// are, and no bytecode of a malformed program is handed out.
pub fn assemble(source: &[u8]) -> (r: Result<Vec<u8>, Vec<Diagnostic>>)
    ensures
        ({
            let out = spec_assemble(source@);
            match r {
                Ok(v) => out.1.len() == 0 && v@ == out.0,
                Err(ds) => ds@ == out.1 && out.1.len() > 0,
            }
        }),
{
    let mut result_bytes: Vec<u8> = Vec::new();
    let mut diags: Vec<Diagnostic> = Vec::new();
    let mut i: usize = 0;
    let mut line_no: usize = 0;
    let n = source.len();
    proof {
        assert(result_bytes@ + spec_assemble_from(source@, 0, 0).0 =~= spec_assemble_from(
            source@,
            0,
            0,
        ).0);
        assert(diags@ + spec_assemble_from(source@, 0, 0).1 =~= spec_assemble_from(
            source@,
            0,
            0,
        ).1);
    }
    loop
        invariant_except_break
            spec_assemble(source@).0 == result_bytes@ + spec_assemble_from(
                source@,
                i as int,
                line_no as int,
            ).0,
            spec_assemble(source@).1 == diags@ + spec_assemble_from(
                source@,
                i as int,
                line_no as int,
            ).1,
        invariant
            i <= n == source@.len(),
            line_no <= i,
        ensures
            spec_assemble(source@).0 == result_bytes@,
            spec_assemble(source@).1 == diags@,
        decreases n - i,
    {
        let ghost rb0 = result_bytes@;
        let ghost dg0 = diags@;
        let e = line_end_from(source, i);
        let ghost here = spec_line_output(
            source@.subrange(i as int, e as int),
            line_no as int,
        );
        let mut lv: Vec<u8> = Vec::new();
        let mut j = i;
        while j < e
            invariant
                i <= j <= e <= source@.len(),
                lv@ == source@.subrange(i as int, j as int),
            decreases e - j,
        {
            lv.push(source[j]);
            j = j + 1;
            proof {
                assert(lv@ =~= source@.subrange(i as int, j as int));
            }
        }
        let line_len = lv.len();
        let mut lexer = Lexer::new(lv, line_len);
        match lexer.tokenize() {
            Err(err) => {
                diags.push(
                    Diagnostic::Lexical(
                        LexicalError { kind: err.kind, line: line_no, column: err.column },
                    ),
                );
                proof {
                    assert(diags@ =~= dg0 + here.1);
                    assert(result_bytes@ =~= rb0 + here.0);
                }
            },
            Ok(_) => {
                let mut parser = Parser::new(lexer.into_tokens());
                let (instrs, perrs) = parser.parse();
                proof {
                    assert(instrs@ == crate::parser::spec_parse(
                        spec_lex(source@.subrange(i as int, e as int), 0, 0, 0).0,
                        0,
                    ).0);
                }
                let program = Program { instructions: instrs };
                match program.as_bytes() {
                    Ok(mut bytes) => {
                        result_bytes.append(&mut bytes);
                    },
                    Err(_) => {},
                }
                let ghost dbase = diags@;
                let mut k: usize = 0;
                while k < perrs.len()
                    invariant
                        k <= perrs@.len(),
                        diags@ == dbase + perrs@.take(k as int).map_values(
                            |pe: ParseError| Diagnostic::Parse(pe),
                        ),
                    decreases perrs@.len() - k,
                {
                    diags.push(Diagnostic::Parse(perrs[k]));
                    k = k + 1;
                    proof {
                        assert(diags@ =~= dbase + perrs@.take(k as int).map_values(
                            |pe: ParseError| Diagnostic::Parse(pe),
                        ));
                    }
                }
                proof {
                    assert(perrs@.take(perrs@.len() as int) =~= perrs@);
                    assert(diags@ =~= dg0 + here.1);
                    assert(result_bytes@ =~= rb0 + here.0);
                }
            },
        }
        if e >= n {
            proof {
                assert(spec_assemble_from(source@, i as int, line_no as int) == here);
                assert(spec_assemble(source@).0 =~= result_bytes@);
                assert(spec_assemble(source@).1 =~= diags@);
            }
            break ;
        }
        proof {
            let rest = spec_assemble_from(source@, e + 1, line_no as int + 1);
            assert(spec_assemble_from(source@, i as int, line_no as int).0 == here.0 + rest.0);
            assert(spec_assemble_from(source@, i as int, line_no as int).1 == here.1 + rest.1);
            assert(rb0 + (here.0 + rest.0) =~= result_bytes@ + rest.0);
            assert(dg0 + (here.1 + rest.1) =~= diags@ + rest.1);
        }
        i = e + 1;
        line_no = line_no + 1;
    }
    if diags.len() == 0 {
        Ok(result_bytes)
    } else {
        Err(diags)
    }
}

} // verus!
