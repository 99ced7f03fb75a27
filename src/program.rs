//! Loading a program image into memory.
use vstd::prelude::*;

use crate::machine::{overwritten, Chip8, Chip8Model, MEMORY_SIZE, PROGRAM_START};

verus! {

/// The bytes of `program` that are loaded: all of them but an odd trailing byte.
pub open spec fn loaded_part(program: Seq<u8>) -> Seq<u8> {
    program.take(program.len() - program.len() % 2)
}

/// Copies the program's bytes into memory from the program start on,
/// dropping an odd trailing byte.
pub fn load_program(chip: &mut Chip8, program: &[u8])
    requires
        old(chip).wf(),
        PROGRAM_START + loaded_part(program@).len() <= MEMORY_SIZE,
    ensures
        final(chip).wf(),
        final(chip)@ == (Chip8Model {
            memory: overwritten(old(chip)@.memory, PROGRAM_START as int, loaded_part(program@)),
            ..old(chip)@
        }),
{
    let len = program.len() - program.len() % 2;
    let ghost pre = chip@;
    let mut k: usize = 0;
    assert(pre.memory =~= overwritten(pre.memory, PROGRAM_START as int, program@.take(0)));
    while k < len
        invariant
            pre.wf(),
            len == loaded_part(program@).len(),
            PROGRAM_START + len <= MEMORY_SIZE,
            k <= len,
            chip.wf(),
            chip@ == (Chip8Model {
                memory: overwritten(pre.memory, PROGRAM_START as int, program@.take(k as int)),
                ..pre
            }),
        decreases len - k,
    {
        chip.write(PROGRAM_START + k as u16, program[k]);
        k += 1;
        assert(chip@.memory =~= overwritten(pre.memory, PROGRAM_START as int, program@.take(k as int)));
    }
    assert(program@.take(k as int) =~= loaded_part(program@));
}

} // verus!
