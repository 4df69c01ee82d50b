//! Parsing a program image into its instruction sequence.

use vstd::prelude::*;
use crate::language::{spec_decode, Instr, RawInstr};

verus! {

/// A parsed program: one instruction per big-endian byte pair of the image.
pub struct Program {
    pub instructions: Vec<Instr>,
}

/// The instruction decoded from byte pair `k` of an image.
pub open spec fn spec_parse_at(input: Seq<u8>, k: int) -> Instr {
    spec_decode(
        input[2 * k] / 16,
        input[2 * k] % 16,
        input[2 * k + 1] / 16,
        input[2 * k + 1] % 16,
    )
}

/// Splits an image into raw instructions, two bytes each; the image must
/// hold whole instructions.
pub fn split(input: Vec<u8>) -> (r: Vec<RawInstr>)
    requires
        input.len() % 2 == 0,
    ensures
        r.len() == input.len() / 2,
        forall|k: int|
            0 <= k < r.len() ==> {
                &&& (#[trigger] r@[k]).wf()
                &&& r@[k].nibbles[0].0 == input@[2 * k] / 16
                &&& r@[k].nibbles[1].0 == input@[2 * k] % 16
                &&& r@[k].nibbles[2].0 == input@[2 * k + 1] / 16
                &&& r@[k].nibbles[3].0 == input@[2 * k + 1] % 16
            },
{
    let mut r: Vec<RawInstr> = Vec::new();
    let mut k: usize = 0;
    while 2 * k < input.len()
        invariant
            input.len() % 2 == 0,
            2 * k <= input.len(),
            r.len() == k,
            forall|j: int|
                0 <= j < k ==> {
                    &&& (#[trigger] r@[j]).wf()
                    &&& r@[j].nibbles[0].0 == input@[2 * j] / 16
                    &&& r@[j].nibbles[1].0 == input@[2 * j] % 16
                    &&& r@[j].nibbles[2].0 == input@[2 * j + 1] / 16
                    &&& r@[j].nibbles[3].0 == input@[2 * j + 1] % 16
                },
        decreases input.len() - 2 * k,
    {
        r.push(RawInstr::from_bytes([input[2 * k], input[2 * k + 1]]));
        k = k + 1;
    }
    r
}

/// Decodes every byte pair of an image.
pub fn parse_bytes(input: Vec<u8>) -> (r: Program)
    requires
        input.len() % 2 == 0,
    ensures
        r.instructions.len() == input.len() / 2,
        forall|k: int|
            0 <= k < r.instructions.len() ==> #[trigger] r.instructions@[k] == spec_parse_at(
                input@,
                k,
            ),
{
    let ghost input_view = input@;
    let raws = split(input);
    let mut instructions: Vec<Instr> = Vec::new();
    let mut k: usize = 0;
    while k < raws.len()
        invariant
            raws.len() == input_view.len() / 2,
            forall|j: int|
                0 <= j < raws.len() ==> {
                    &&& (#[trigger] raws@[j]).wf()
                    &&& raws@[j].nibbles[0].0 == input_view[2 * j] / 16
                    &&& raws@[j].nibbles[1].0 == input_view[2 * j] % 16
                    &&& raws@[j].nibbles[2].0 == input_view[2 * j + 1] / 16
                    &&& raws@[j].nibbles[3].0 == input_view[2 * j + 1] % 16
                },
            k <= raws.len(),
            instructions.len() == k,
            forall|j: int|
                0 <= j < k ==> #[trigger] instructions@[j] == spec_parse_at(input_view, j),
        decreases raws.len() - k,
    {
        let raw = raws[k].clone();
        instructions.push(raw.into_instr());
        k = k + 1;
    }
    Program { instructions }
}

} // verus!
