//! The vote instruction and its one-byte layout.

use crate::error::Failure;
use vstd::prelude::*;

verus! {

/// A request to record one vote.
#[derive(Debug, Clone, Copy, PartialEq, Eq, Structural)]
pub struct VoteInstruction {
    /// The option voted for: 0, 1, 2 or 3 for options A, B, C, D.
    pub option: u8,
}

impl VoteInstruction {
    /// The single byte that stands for the instruction.
    pub open spec fn encoding(self) -> Seq<u8> {
        seq![self.option]
    }

    /// The instruction that `bytes` stands for, if it stands for one:
    /// exactly one byte, which is the option.
    pub open spec fn decoding(bytes: Seq<u8>) -> Option<VoteInstruction> {
        if bytes.len() == 1 {
            Some(VoteInstruction { option: bytes[0] })
        } else {
            None
        }
    }

    /// Encodes the instruction in its one-byte layout.
    pub fn encode(&self) -> (out: Vec<u8>)
        ensures
            out@ == self.encoding(),
    {
        let mut out: Vec<u8> = Vec::with_capacity(1);
        out.push(self.option);
        out
    }

    /// Decodes an instruction from its one-byte layout. Any other length is
    /// a `DecodeError`.
    pub fn decode(bytes: &[u8]) -> (result: Result<VoteInstruction, Failure>)
        ensures
            match Self::decoding(bytes@) {
                Some(instruction) => result == Ok::<VoteInstruction, Failure>(instruction),
                None => result == Err::<VoteInstruction, Failure>(Failure::DecodeError),
            },
    {
        if bytes.len() != 1 {
            return Err(Failure::DecodeError);
        }
        Ok(VoteInstruction { option: bytes[0] })
    }
}

/// Decoding what an instruction encodes to gives the instruction back, and
/// encoding what a single byte decodes to gives the byte back.
pub proof fn lemma_instruction_round_trip(instruction: VoteInstruction, bytes: Seq<u8>)
    ensures
        VoteInstruction::decoding(instruction.encoding()) == Some(instruction),
        bytes.len() == 1 ==> VoteInstruction::decoding(bytes).unwrap().encoding() == bytes,
{
    if bytes.len() == 1 {
        assert(VoteInstruction::decoding(bytes).unwrap().encoding() =~= bytes);
    }
}

} // verus!
