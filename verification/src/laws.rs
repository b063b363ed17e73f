//! Laws of the instruction set, proved from the machine's step function.

use vstd::prelude::*;
use crate::cpu::{loaded_memory, reset_machine, Machine, MachineError};
use crate::display::FONT_CHARS;
use crate::keypad::{is_lowest_pressed, lowest_pressed};
use crate::opcode::Instruction;

verus! {

/// Register-to-register addition leaves the sum modulo 256 in the
/// destination, and sets the flag to 1 exactly when the sum exceeds 255,
/// else to 0. Where the destination is the flag register itself, the sum
/// is what remains in it.
pub proof fn lemma_add_sets_carry(m: Machine, x: u8, y: u8, random: u8)
    requires
        m.wf(),
        x < 16,
        y < 16,
    ensures
        m.fault(Instruction::Add(x, y)) is None,
        m.effect(Instruction::Add(x, y), random).v[x as int] == (m.v[x as int] + m.v[y as int])
            % 256,
        x != 15 ==> m.effect(Instruction::Add(x, y), random).v[15] == (if m.v[x as int]
            + m.v[y as int] > 255 {
            1u8
        } else {
            0u8
        }),
{
}

/// Forward subtraction leaves `vx - vy` modulo 256 in the destination, and
/// sets the flag to 1 exactly when `vx >= vy`, else to 0. Where the
/// destination is the flag register itself, the difference is what remains
/// in it.
pub proof fn lemma_sub_sets_no_borrow(m: Machine, x: u8, y: u8, random: u8)
    requires
        m.wf(),
        x < 16,
        y < 16,
    ensures
        m.fault(Instruction::Sub(x, y)) is None,
        m.effect(Instruction::Sub(x, y), random).v[x as int] == (m.v[x as int] - m.v[y as int])
            % 256,
        x != 15 ==> m.effect(Instruction::Sub(x, y), random).v[15] == (if m.v[x as int]
            >= m.v[y as int] {
            1u8
        } else {
            0u8
        }),
{
}

/// Reverse subtraction is forward subtraction with the operands swapped:
/// it leaves `vy - vx` modulo 256 in the destination, and sets the flag to
/// 1 exactly when `vy >= vx`, else to 0.
pub proof fn lemma_sub_reverse_sets_no_borrow(m: Machine, x: u8, y: u8, random: u8)
    requires
        m.wf(),
        x < 16,
        y < 16,
    ensures
        m.fault(Instruction::SubReverse(x, y)) is None,
        m.effect(Instruction::SubReverse(x, y), random).v[x as int] == (m.v[y as int]
            - m.v[x as int]) % 256,
        x != 15 ==> m.effect(Instruction::SubReverse(x, y), random).v[15] == (if m.v[y as int]
            >= m.v[x as int] {
            1u8
        } else {
            0u8
        }),
{
}

/// A shift right of a register other than the flag register sets the flag
/// to the register's least significant bit and halves the register.
pub proof fn lemma_shift_right_flag(m: Machine, x: u8, random: u8)
    requires
        m.wf(),
        x < 15,
    ensures
        m.fault(Instruction::ShiftRight(x)) is None,
        m.effect(Instruction::ShiftRight(x), random).v[15] == m.v[x as int] & 1,
        m.effect(Instruction::ShiftRight(x), random).v[x as int] == m.v[x as int] >> 1,
{
    let a = m.v[x as int];
    assert(a % 2 == a & 1) by (bit_vector);
    assert(a / 2 == a >> 1) by (bit_vector);
}

/// A shift left of a register other than the flag register sets the flag
/// to the register's most significant bit and doubles the register modulo
/// 256.
pub proof fn lemma_shift_left_flag(m: Machine, x: u8, random: u8)
    requires
        m.wf(),
        x < 15,
    ensures
        m.fault(Instruction::ShiftLeft(x)) is None,
        m.effect(Instruction::ShiftLeft(x), random).v[15] == m.v[x as int] >> 7,
        m.effect(Instruction::ShiftLeft(x), random).v[x as int] == m.v[x as int] << 1,
{
    let a = m.v[x as int];
    assert(a / 128 == a >> 7) by (bit_vector);
    assert(((a * 2) % 256) as u8 == a << 1) by (bit_vector);
}

/// Right after a reset the first 80 bytes of memory are the font and every
/// other byte is zero, the program area included.
pub proof fn lemma_reset_memory(keys: Seq<bool>)
    ensures
        reset_machine(keys).ram.len() == 4096,
        reset_machine(keys).ram.subrange(0, 80) == FONT_CHARS@,
        forall|a: int| 80 <= a < 4096 ==> reset_machine(keys).ram[a] == 0,
{
    assert(reset_machine(keys).ram.subrange(0, 80) =~= FONT_CHARS@);
}

/// A load leaves the font in place, puts the program at the origin and
/// leaves zero everywhere else.
pub proof fn lemma_loaded_memory(rom: Seq<u8>)
    requires
        rom.len() <= 3584,
    ensures
        loaded_memory(rom).subrange(0, 80) == FONT_CHARS@,
        loaded_memory(rom).subrange(0x200, 0x200 + rom.len() as int) == rom,
        forall|a: int| 80 <= a < 0x200 ==> loaded_memory(rom)[a] == 0,
        forall|a: int| 0x200 + rom.len() <= a < 4096 ==> loaded_memory(rom)[a] == 0,
{
    assert(loaded_memory(rom).subrange(0, 80) =~= FONT_CHARS@);
    assert(loaded_memory(rom).subrange(0x200, 0x200 + rom.len() as int) =~= rom);
}

/// A call followed by a return continues at the instruction right after
/// the call, with the stack pointer where it was.
pub proof fn lemma_call_then_return(m: Machine, addr: u16, random: u8)
    requires
        m.wf(),
        m.pc < 4095,
        m.sp < 16,
    ensures
        m.fault(Instruction::Call(addr)) is None,
        m.effect(Instruction::Call(addr), random).pc == addr,
        m.effect(Instruction::Call(addr), random).fault(Instruction::Return) is None,
        m.effect(Instruction::Call(addr), random).effect(Instruction::Return, random).pc == m.pc
            + 2,
        m.effect(Instruction::Call(addr), random).effect(Instruction::Return, random).sp == m.sp,
{
}

/// While no key is held, the wait-for-key instruction changes nothing, so
/// the machine stays at it.
pub proof fn lemma_wait_key_holds(m: Machine, x: u8, random: u8)
    requires
        m.wf(),
        x < 16,
        forall|k: int| 0 <= k < 16 ==> !m.keys[k],
    ensures
        m.fault(Instruction::WaitKey(x)) is None,
        m.effect(Instruction::WaitKey(x), random) == m,
{
    assert(lowest_pressed(m.keys) is None);
}

/// Once a key is held, the wait-for-key instruction stores the lowest held
/// key code in its register and moves on by one instruction.
pub proof fn lemma_wait_key_releases(m: Machine, x: u8, k: u8, random: u8)
    requires
        m.wf(),
        x < 16,
        m.pc < 4095,
        is_lowest_pressed(m.keys, k as int),
    ensures
        m.effect(Instruction::WaitKey(x), random).v[x as int] == k,
        m.effect(Instruction::WaitKey(x), random).pc == m.pc + 2,
{
    let c = choose|c: int| is_lowest_pressed(m.keys, c);
    assert(c == k);
}

/// Only the random instruction depends on the byte drawn.
pub proof fn lemma_random_only_for_random(m: Machine, r1: u8, r2: u8)
    requires
        !m.draws_random(),
    ensures
        m.step(r1) == m.step(r2),
{
}

/// The instruction after a step that reports an unknown word is the next
/// one: nothing but the program counter changes.
pub proof fn lemma_unknown_only_advances(m: Machine, word: u16, random: u8)
    requires
        m.pc < 4095,
    ensures
        m.effect(Instruction::Unknown(word), random) == (Machine { pc: (m.pc + 2) as u16, ..m }),
        m.fault(Instruction::Unknown(word)) == None::<MachineError>,
{
}

/// The store-digits instruction writes the hundreds, tens and ones of the
/// register, in that order, from the index register on.
pub proof fn lemma_store_digits(m: Machine, x: u8, random: u8)
    requires
        m.wf(),
        x < 16,
        m.i + 2 < 4096,
    ensures
        m.fault(Instruction::StoreDigits(x)) is None,
        ({
            let after = m.effect(Instruction::StoreDigits(x), random);
            let value = m.v[x as int] as int;
            &&& after.ram[m.i as int] * 100 + after.ram[m.i + 1] * 10 + after.ram[m.i + 2]
                == value
            &&& after.ram[m.i as int] < 10
            &&& after.ram[m.i + 1] < 10
            &&& after.ram[m.i + 2] < 10
        }),
{
}

} // verus!
