use vstd::prelude::*;

use crate::parser::{spec_encode_err, spec_instruction_bytes, AssemblyInstruction, EncodeError};

verus! {

/// The bytecode image of the instructions from position `i` on: each
/// instruction's 4-byte encoding, concatenated; or the first encoding
/// rejection.
pub open spec fn spec_program_encode(instrs: Seq<AssemblyInstruction>, i: int) -> Result<
    Seq<u8>,
    EncodeError,
>
    decreases instrs.len() - i,
{
    if i < 0 || i >= instrs.len() {
        Ok(Seq::<u8>::empty())
    } else {
        match spec_encode_err(instrs[i]) {
            Some(e) => Err(e),
            None => match spec_program_encode(instrs, i + 1) {
                Ok(rest) => Ok(spec_instruction_bytes(instrs[i]) + rest),
                Err(e) => Err(e),
            },
        }
    }
}

/// An ordered sequence of parsed instructions, aggregated into one
/// contiguous bytecode image.
pub struct Program {
    pub instructions: Vec<AssemblyInstruction>,
}

impl Program {
    pub fn default() -> (r: Program)
        ensures
            r.instructions@ =~= Seq::<AssemblyInstruction>::empty(),
    {
        Program { instructions: Vec::new() }
    }

    pub fn set_instructions(&mut self, new_instructions: Vec<AssemblyInstruction>)
        ensures
            final(self).instructions@ == new_instructions@,
    {
        self.instructions = new_instructions;
    }

    /// Concatenates the 4-byte encodings of all instructions, in order, so
    /// the image's length is a multiple of the instruction stride; or
    /// reports the first instruction the encoder rejects.
    pub fn as_bytes(&self) -> (r: Result<Vec<u8>, EncodeError>)
        ensures
            match r {
                Ok(v) => spec_program_encode(self.instructions@, 0) == Ok::<_, EncodeError>(v@)
                    && v@.len() == 4 * self.instructions@.len(),
                Err(e) => spec_program_encode(self.instructions@, 0) == Err::<Seq<u8>, _>(e),
            },
    {
        let mut byte_instructions: Vec<u8> = Vec::new();
        let n = self.instructions.len();
        let mut i: usize = 0;
        while i < n
            invariant
                i <= n == self.instructions@.len(),
                byte_instructions@.len() == 4 * i,
                ({
                    let whole = spec_program_encode(self.instructions@, 0);
                    match spec_program_encode(self.instructions@, i as int) {
                        Ok(rest) => whole == Ok::<_, EncodeError>(byte_instructions@ + rest),
                        Err(e) => whole == Err::<Seq<u8>, _>(e),
                    }
                }),
            decreases n - i,
        {
            let instr = self.instructions[i];
            match instr.as_bytes() {
                Ok(mut chunk) => {
                    let ghost acc0 = byte_instructions@;
                    byte_instructions.append(&mut chunk);
                    proof {
                        lemma_program_encode_prefix(self.instructions@, i as int);
                        if let Ok(rest) = spec_program_encode(self.instructions@, i + 1) {
                            assert(acc0 + (spec_instruction_bytes(self.instructions@[i as int])
                                + rest) =~= byte_instructions@ + rest);
                        }
                    }
                },
                Err(e) => {
                    return Err(e);
                },
            }
            i = i + 1;
        }
        proof {
            if let Ok(rest) = spec_program_encode(self.instructions@, n as int) {
                assert(byte_instructions@ + rest =~= byte_instructions@);
            }
        }
        Ok(byte_instructions)
    }
}

/// Splitting the image at instruction `i`: one successful step extends the
/// prefix by that instruction's 4 bytes.
proof fn lemma_program_encode_prefix(instrs: Seq<AssemblyInstruction>, i: int)
    requires
        0 <= i < instrs.len(),
        spec_encode_err(instrs[i]) is None,
    ensures
        match spec_program_encode(instrs, i + 1) {
            Ok(rest) => spec_program_encode(instrs, i) == Ok::<_, EncodeError>(
                spec_instruction_bytes(instrs[i]) + rest,
            ),
            Err(e) => spec_program_encode(instrs, i) == Err::<Seq<u8>, _>(e),
        },
{
}

} // verus!
