//! The machine core: memory, registers, stack and timers, and the
//! fetch-decode-execute step.

use vstd::prelude::*;
use vstd::slice::slice_subrange;
use rand::rngs::ThreadRng;
use rand::Rng;
use crate::display::{collides, dark_grid, drawn, grid_shaped, Display, Grid, FONT_CHARS};
use crate::keypad::{lowest_pressed, Keypad};
use crate::laws::lemma_random_only_for_random;
use crate::opcode::{decode, operands_in_range, spec_decode, Instruction};

verus! {

pub const RAM: usize = 4096;

pub const REGISTERS: usize = 16;

pub const STACK: usize = 16;

pub const PROG_START: u16 = 0x200;

pub const INSTRUCTION_SIZE: u16 = 2;

pub const ROM_SIZE: usize = 3584;

/// Why a step could not be carried out.
#[derive(Clone, Copy, Debug, PartialEq, Eq, Structural)]
pub enum MachineError {
    /// A memory access would fall outside the 4096 bytes of memory.
    AddressError,
    /// A call with a full stack, or a return with an empty one.
    StackError,
    /// A key instruction named a key code above 15.
    KeyError,
}

/// What a successful step did.
#[derive(Clone, Copy, Debug, PartialEq, Eq, Structural)]
pub enum Step {
    /// An instruction was executed.
    Ran,
    /// The machine is waiting for a key and stays at the same instruction.
    Waiting,
    /// The word names no instruction; only the program counter moved on.
    Unknown(u16),
}

/// What the tone output should do at the end of a frame.
#[derive(Clone, Copy, Debug, PartialEq, Eq, Structural)]
pub enum Tone {
    /// Start sounding.
    Begin,
    /// Stop sounding.
    End,
    /// Go on as before.
    Keep,
}

/// The machine's state as plain mathematical values.
pub struct Machine {
    pub i: u16,
    pub pc: u16,
    pub ram: Seq<u8>,
    pub v: Seq<u8>,
    pub keys: Seq<bool>,
    pub screen: Grid,
    pub stack: Seq<u16>,
    pub sp: u8,
    pub dt: u8,
    pub st: u8,
}

/// Eight-bit sum with wraparound.
pub open spec fn add_result(a: u8, b: u8) -> u8 {
    ((a + b) % 256) as u8
}

/// 1 if the eight-bit sum overflows, else 0.
pub open spec fn carry(a: u8, b: u8) -> u8 {
    if a + b > 255 {
        1
    } else {
        0
    }
}

/// Eight-bit difference `a - b` with wraparound.
pub open spec fn sub_result(a: u8, b: u8) -> u8 {
    ((a - b) % 256) as u8
}

/// 1 if `a - b` needs no borrow, else 0.
pub open spec fn no_borrow(a: u8, b: u8) -> u8 {
    if a >= b {
        1
    } else {
        0
    }
}

/// Memory right after a reset: the font in the first 80 bytes, zero elsewhere.
pub open spec fn font_memory() -> Seq<u8> {
    Seq::new(
        4096,
        |a: int|
            if a < 80 {
                FONT_CHARS@[a]
            } else {
                0u8
            },
    )
}

/// Memory after a reset and a load of `rom` at the program origin.
pub open spec fn loaded_memory(rom: Seq<u8>) -> Seq<u8> {
    Seq::new(
        4096,
        |a: int|
            if 0x200 <= a < 0x200 + rom.len() {
                rom[a - 0x200]
            } else {
                font_memory()[a]
            },
    )
}

impl Machine {
    /// Memory, registers, keys, screen and stack have their fixed sizes.
    pub open spec fn wf(self) -> bool {
        &&& self.ram.len() == 4096
        &&& self.v.len() == 16
        &&& self.keys.len() == 16
        &&& grid_shaped(self.screen)
        &&& self.stack.len() == 16
    }

    /// The big-endian instruction word at the program counter.
    pub open spec fn fetch(self) -> u16 {
        (self.ram[self.pc as int] * 256 + self.ram[self.pc + 1]) as u16
    }

    /// The error, if any, that stops `ins` from being executed.
    pub open spec fn fault(self, ins: Instruction) -> Option<MachineError> {
        match ins {
            Instruction::Return => if self.sp == 0 || self.sp > 16 {
                Some(MachineError::StackError)
            } else {
                None
            },
            Instruction::Call(_) => if self.sp >= 16 {
                Some(MachineError::StackError)
            } else {
                None
            },
            Instruction::Draw(_, _, n) => if self.i + n > 4096 {
                Some(MachineError::AddressError)
            } else {
                None
            },
            Instruction::SkipKeyPressed(x) | Instruction::SkipKeyNotPressed(x) => if self.v[x as int]
                >= 16 {
                Some(MachineError::KeyError)
            } else {
                None
            },
            Instruction::StoreDigits(_) => if self.i + 2 >= 4096 {
                Some(MachineError::AddressError)
            } else {
                None
            },
            Instruction::StoreRegisters(x) | Instruction::LoadRegisters(x) => if self.i + x
                >= 4096 {
                Some(MachineError::AddressError)
            } else {
                None
            },
            _ => None,
        }
    }

    /// The state with the program counter set to `pc`.
    pub open spec fn at(self, pc: int) -> Machine {
        Machine { pc: pc as u16, ..self }
    }

    /// The state with the registers replaced, at the next instruction.
    pub open spec fn with_registers(self, v: Seq<u8>) -> Machine {
        Machine { v, pc: (self.pc + 2) as u16, ..self }
    }

    /// The state after a skip instruction whose condition is `taken`.
    pub open spec fn skip_if(self, taken: bool) -> Machine {
        if taken {
            self.at(self.pc + 4)
        } else {
            self.at(self.pc + 2)
        }
    }

    /// The state after `ins` is executed, where no error stops it. `random`
    /// is the byte drawn for the random instruction.
    pub open spec fn effect(self, ins: Instruction, random: u8) -> Machine {
        let next = (self.pc + 2) as u16;
        let v = self.v;
        match ins {
            Instruction::ClearScreen => Machine { screen: dark_grid(), pc: next, ..self },
            Instruction::Return => Machine {
                sp: (self.sp - 1) as u8,
                pc: self.stack[self.sp - 1],
                ..self
            },
            Instruction::Jump(a) => self.at(a as int),
            Instruction::Call(a) => Machine {
                stack: self.stack.update(self.sp as int, next),
                sp: (self.sp + 1) as u8,
                pc: a,
                ..self
            },
            Instruction::SkipEqualByte(x, kk) => self.skip_if(v[x as int] == kk),
            Instruction::SkipNotEqualByte(x, kk) => self.skip_if(v[x as int] != kk),
            Instruction::SkipEqual(x, y) => self.skip_if(v[x as int] == v[y as int]),
            Instruction::SkipNotEqual(x, y) => self.skip_if(v[x as int] != v[y as int]),
            Instruction::LoadByte(x, kk) => self.with_registers(v.update(x as int, kk)),
            Instruction::AddByte(x, kk) => self.with_registers(
                v.update(x as int, add_result(v[x as int], kk)),
            ),
            Instruction::Move(x, y) => self.with_registers(v.update(x as int, v[y as int])),
            Instruction::Or(x, y) => self.with_registers(
                v.update(x as int, v[x as int] | v[y as int]),
            ),
            Instruction::And(x, y) => self.with_registers(
                v.update(x as int, v[x as int] & v[y as int]),
            ),
            Instruction::Xor(x, y) => self.with_registers(
                v.update(x as int, v[x as int] ^ v[y as int]),
            ),
            Instruction::Add(x, y) => self.with_registers(
                v.update(15, carry(v[x as int], v[y as int])).update(
                    x as int,
                    add_result(v[x as int], v[y as int]),
                ),
            ),
            Instruction::Sub(x, y) => self.with_registers(
                v.update(15, no_borrow(v[x as int], v[y as int])).update(
                    x as int,
                    sub_result(v[x as int], v[y as int]),
                ),
            ),
            Instruction::SubReverse(x, y) => self.with_registers(
                v.update(15, no_borrow(v[y as int], v[x as int])).update(
                    x as int,
                    sub_result(v[y as int], v[x as int]),
                ),
            ),
            Instruction::ShiftRight(x) => {
                let flagged = v.update(15, v[x as int] % 2);
                self.with_registers(flagged.update(x as int, flagged[x as int] / 2))
            },
            Instruction::ShiftLeft(x) => {
                let flagged = v.update(15, v[x as int] / 128);
                self.with_registers(
                    flagged.update(x as int, ((flagged[x as int] * 2) % 256) as u8),
                )
            },
            Instruction::SetIndex(a) => Machine { i: a, pc: next, ..self },
            Instruction::JumpIndexed(a) => self.at(a + v[0]),
            Instruction::Random(x, kk) => self.with_registers(v.update(x as int, random & kk)),
            Instruction::Draw(x, y, n) => {
                let sprite = self.ram.subrange(self.i as int, self.i + n);
                let hit = collides(self.screen, v[x as int] as int, v[y as int] as int, sprite);
                Machine {
                    screen: drawn(self.screen, v[x as int] as int, v[y as int] as int, sprite),
                    v: v.update(15, if hit { 1u8 } else { 0u8 }),
                    pc: next,
                    ..self
                }
            },
            Instruction::SkipKeyPressed(x) => self.skip_if(self.keys[v[x as int] as int]),
            Instruction::SkipKeyNotPressed(x) => self.skip_if(!self.keys[v[x as int] as int]),
            Instruction::LoadDelay(x) => self.with_registers(v.update(x as int, self.dt)),
            Instruction::WaitKey(x) => match lowest_pressed(self.keys) {
                Some(k) => self.with_registers(v.update(x as int, k)),
                None => self,
            },
            Instruction::SetDelay(x) => Machine { dt: v[x as int], pc: next, ..self },
            Instruction::SetSound(x) => Machine { st: v[x as int], pc: next, ..self },
            Instruction::AddIndex(x) => Machine {
                i: ((self.i + v[x as int]) % 65536) as u16,
                pc: next,
                ..self
            },
            Instruction::FontAddress(x) => Machine {
                i: ((v[x as int] % 16) * 5) as u16,
                pc: next,
                ..self
            },
            Instruction::StoreDigits(x) => Machine {
                ram: self.ram.update(self.i as int, v[x as int] / 100).update(
                    self.i + 1,
                    v[x as int] / 10 % 10,
                ).update(self.i + 2, v[x as int] % 10),
                pc: next,
                ..self
            },
            Instruction::StoreRegisters(x) => Machine {
                ram: Seq::new(
                    4096,
                    |a: int|
                        if self.i <= a <= self.i + x {
                            v[a - self.i]
                        } else {
                            self.ram[a]
                        },
                ),
                pc: next,
                ..self
            },
            Instruction::LoadRegisters(x) => self.with_registers(
                Seq::new(
                    16,
                    |k: int|
                        if k <= x {
                            self.ram[self.i + k]
                        } else {
                            v[k]
                        },
                ),
            ),
            Instruction::Unknown(_) => self.at(self.pc + 2),
        }
    }

    /// One fetch-decode-execute cycle: the next state, or the error that
    /// stops the cycle before anything changes.
    pub open spec fn step(self, random: u8) -> Result<Machine, MachineError> {
        if self.pc >= 4095 {
            Err(MachineError::AddressError)
        } else {
            let ins = spec_decode(self.fetch());
            match self.fault(ins) {
                Some(e) => Err(e),
                None => Ok(self.effect(ins, random)),
            }
        }
    }

    /// What a successful cycle reports.
    pub open spec fn report(self) -> Step {
        match spec_decode(self.fetch()) {
            Instruction::Unknown(word) => Step::Unknown(word),
            Instruction::WaitKey(_) => if lowest_pressed(self.keys) is None {
                Step::Waiting
            } else {
                Step::Ran
            },
            _ => Step::Ran,
        }
    }

    /// Whether the instruction at the program counter is the random
    /// instruction.
    pub open spec fn draws_random(self) -> bool {
        self.pc < 4095 && spec_decode(self.fetch()) is Random
    }

    /// The state after one timer tick: each timer one lower unless it is 0.
    pub open spec fn timers_ticked(self) -> Machine {
        Machine {
            dt: if self.dt > 0 { (self.dt - 1) as u8 } else { 0 },
            st: if self.st > 0 { (self.st - 1) as u8 } else { 0 },
            ..self
        }
    }
}

/// Whether a cycle that started in `before` and drew `random` ended with
/// `res` in the state `after`: on success the state is the next state and
/// the report is the cycle's; on an error the state is unchanged.
pub open spec fn stepped(
    before: Machine,
    random: u8,
    res: Result<Step, MachineError>,
    after: Machine,
) -> bool {
    match res {
        Ok(step) => before.step(random) == Ok::<Machine, MachineError>(after) && step
            == before.report(),
        Err(e) => before.step(random) == Err::<Machine, MachineError>(e) && after == before,
    }
}

/// Adds two bytes: the sum modulo 256, and 1 if it overflowed, else 0.
pub fn add_with_carry(a: u8, b: u8) -> (res: (u8, u8))
    ensures
        res.0 == add_result(a, b),
        res.1 == carry(a, b),
{
    let sum: u16 = a as u16 + b as u16;
    ((sum % 256) as u8, if sum > 255 { 1 } else { 0 })
}

/// Subtracts `b` from `a`: the difference modulo 256, and 1 if no borrow
/// was needed, else 0.
pub fn sub_with_borrow(a: u8, b: u8) -> (res: (u8, u8))
    ensures
        res.0 == sub_result(a, b),
        res.1 == no_borrow(a, b),
{
    if a >= b {
        (a - b, 1)
    } else {
        ((a as u16 + 256 - b as u16) as u8, 0)
    }
}

/// The thread-local generator of the `rand` crate, carried as an opaque
/// value.
#[verifier::external_type_specification]
#[verifier::external_body]
pub struct ExThreadRng(rand::rngs::ThreadRng);

/// Calls `rand::thread_rng` for a handle to the calling thread's generator.
/// Nothing is claimed of the handle.
#[verifier::external_body]
fn thread_generator() -> (rng: ThreadRng) {
    rand::thread_rng()
}

/// Calls `Rng::gen::<u8>` on the generator for one random byte. Nothing is
/// claimed of the byte: any value may come back, and the generator moves
/// on to some other state.
#[verifier::external_body]
fn random_byte(rng: &mut ThreadRng) -> (byte: u8) {
    rng.gen::<u8>()
}

/// The machine.
pub struct CPU {
    /// Index register.
    pub i: u16,
    /// Program counter.
    pub pc: u16,
    pub ram: [u8; 4096],
    /// General-purpose registers; register 15 doubles as the flag.
    pub v: [u8; 16],
    pub keypad: Keypad,
    pub display: Display,
    pub stack: [u16; 16],
    /// Number of return addresses on the stack.
    pub sp: u8,
    /// Delay timer.
    pub dt: u8,
    /// Sound timer.
    pub st: u8,
    /// Source of bytes for the random instruction.
    pub rng: ThreadRng,
}

impl View for CPU {
    type V = Machine;

    open spec fn view(&self) -> Machine {
        Machine {
            i: self.i,
            pc: self.pc,
            ram: self.ram@,
            v: self.v@,
            keys: self.keypad.keys@,
            screen: self.display@,
            stack: self.stack@,
            sp: self.sp,
            dt: self.dt,
            st: self.st,
        }
    }
}

/// The state of a machine that was reset while its keys were `keys`.
pub open spec fn reset_machine(keys: Seq<bool>) -> Machine {
    Machine {
        i: 0,
        pc: 0x200,
        ram: font_memory(),
        v: Seq::new(16, |k: int| 0u8),
        keys,
        screen: dark_grid(),
        stack: Seq::new(16, |k: int| 0u16),
        sp: 0,
        dt: 0,
        st: 0,
    }
}

impl CPU {
    /// A machine with everything at zero: no font, program counter 0.
    pub fn new() -> (cpu: CPU)
        ensures
            cpu@ == (Machine {
                i: 0,
                pc: 0,
                ram: Seq::new(4096, |a: int| 0u8),
                v: Seq::new(16, |k: int| 0u8),
                keys: Seq::new(16, |k: int| false),
                screen: dark_grid(),
                stack: Seq::new(16, |k: int| 0u16),
                sp: 0,
                dt: 0,
                st: 0,
            }),
            cpu.display.wf(),
    {
        let cpu = CPU {
            i: 0,
            pc: 0,
            ram: [0; 4096],
            v: [0; 16],
            display: Display::new(),
            keypad: Keypad::new(),
            stack: [0; 16],
            sp: 0,
            dt: 0,
            st: 0,
            rng: thread_generator(),
        };
        assert(cpu.ram@ =~= Seq::new(4096, |a: int| 0u8));
        assert(cpu.v@ =~= Seq::new(16, |k: int| 0u8));
        assert(cpu.stack@ =~= Seq::new(16, |k: int| 0u16));
        cpu
    }

    /// Clears memory, registers, stack, timers and the screen, installs the
    /// font in the first 80 bytes and points the program counter at the
    /// program origin. The keys stay as they are.
    pub fn reset(&mut self)
        ensures
            final(self)@ == reset_machine(old(self)@.keys),
            final(self).display.wf(),
    {
        self.i = 0;
        self.pc = PROG_START;
        self.ram = [0; 4096];
        self.v = [0; 16];
        self.stack = [0; 16];
        self.sp = 0;
        self.dt = 0;
        self.st = 0;
        let mut k: usize = 0;
        while k < 80
            invariant
                k <= 80,
                forall|a: int| 0 <= a < k ==> self.ram@[a] == FONT_CHARS@[a],
                forall|a: int| k <= a < 4096 ==> self.ram@[a] == 0,
                self.keypad == old(self).keypad,
                self.i == 0,
                self.pc == 0x200,
                self.sp == 0,
                self.dt == 0,
                self.st == 0,
                self.v@ =~= Seq::new(16, |k: int| 0u8),
                self.stack@ =~= Seq::new(16, |k: int| 0u16),
            decreases 80 - k,
        {
            self.ram[k] = FONT_CHARS[k];
            k += 1;
        }
        self.display.clear();
        assert(self.ram@ =~= font_memory());
    }

    /// Resets the machine and copies `rom` into memory from the program
    /// origin on.
    pub fn load_cartridge(&mut self, rom: &[u8])
        requires
            rom@.len() <= 3584,
        ensures
            final(self)@ == (Machine { ram: loaded_memory(rom@), ..reset_machine(old(self)@.keys) }),
            final(self).display.wf(),
    {
        self.reset();
        let ghost fresh = self@;
        let mut k: usize = 0;
        while k < rom.len()
            invariant
                k <= rom@.len() <= 3584,
                self@ == (Machine { ram: self.ram@, ..fresh }),
                self.display.wf(),
                fresh.ram == font_memory(),
                forall|a: int|
                    0 <= a < 4096 ==> self.ram@[a] == (if 0x200 <= a < 0x200 + k {
                        rom@[a - 0x200]
                    } else {
                        font_memory()[a]
                    }),
            decreases rom@.len() - k,
        {
            self.ram[k + 0x200] = rom[k];
            k += 1;
        }
        assert(self.ram@ =~= loaded_memory(rom@));
    }

    /// Decides what the tone output should do, given whether it is
    /// sounding now: it starts when the sound timer is running and stops
    /// when the timer has reached zero.
    pub fn tone(&self, playing: bool) -> (action: Tone)
        ensures
            action == (if self.st > 0 && !playing {
                Tone::Begin
            } else if self.st == 0 && playing {
                Tone::End
            } else {
                Tone::Keep
            }),
    {
        if self.st > 0 {
            if playing {
                Tone::Keep
            } else {
                Tone::Begin
            }
        } else if playing {
            Tone::End
        } else {
            Tone::Keep
        }
    }

    /// Performs one fetch-decode-execute cycle, with `random` as the byte
    /// that the random instruction would draw. On an error nothing changes.
    pub fn tick_with(&mut self, random: u8) -> (res: Result<Step, MachineError>)
        ensures
            stepped(old(self)@, random, res, final(self)@),
            res is Err ==> final(self).display == old(self).display,
            old(self).display.wf() ==> final(self).display.wf(),
    {
        if self.pc >= 4095 {
            return Err(MachineError::AddressError);
        }
        let word = self.read_instruction();
        let ins = decode(word);
        let waiting = self.keypad.first_pressed().is_none();
        match self.execute_instruction(ins, random) {
            Err(e) => Err(e),
            Ok(_) => Ok(
                match ins {
                    Instruction::Unknown(w) => Step::Unknown(w),
                    Instruction::WaitKey(_) => if waiting {
                        Step::Waiting
                    } else {
                        Step::Ran
                    },
                    _ => Step::Ran,
                },
            ),
        }
    }

    /// Performs one fetch-decode-execute cycle. Where the instruction is the
    /// random instruction, its byte comes from the machine's generator; any
    /// byte may come, so the cycle is that of `tick_with` for some byte.
    /// Every other instruction draws nothing, and the cycle is that of
    /// `tick_with` for any byte.
    pub fn tick(&mut self) -> (res: Result<Step, MachineError>)
        ensures
            exists|random: u8| stepped(old(self)@, random, res, final(self)@),
            !old(self)@.draws_random() ==> forall|random: u8|
                stepped(old(self)@, random, res, final(self)@),
            res is Err ==> final(self).display == old(self).display,
            old(self).display.wf() ==> final(self).display.wf(),
    {
        let random: u8 = if self.next_is_random() {
            random_byte(&mut self.rng)
        } else {
            0
        };
        let res = self.tick_with(random);
        assert(stepped(old(self)@, random, res, self@));
        assert forall|other: u8| !old(self)@.draws_random() implies stepped(
            old(self)@,
            other,
            res,
            self@,
        ) by {
            lemma_random_only_for_random(old(self)@, other, random);
        }
        res
    }

    /// Tells whether the instruction at the program counter is the random
    /// instruction.
    fn next_is_random(&self) -> (yes: bool)
        ensures
            yes == self@.draws_random(),
    {
        if self.pc >= 4095 {
            return false;
        }
        match decode(self.read_instruction()) {
            Instruction::Random(_, _) => true,
            _ => false,
        }
    }

    /// Counts each timer down by one, unless it is already 0.
    pub fn tick_timers(&mut self)
        ensures
            final(self)@ == old(self)@.timers_ticked(),
            final(self).display == old(self).display,
    {
        if self.dt > 0 {
            self.dt -= 1
        }
        if self.st > 0 {
            self.st -= 1
        }
    }

    /// Reads the big-endian instruction word at the program counter.
    fn read_instruction(&self) -> (word: u16)
        requires
            self.pc < 4095,
        ensures
            word == self@.fetch(),
    {
        let hi: u16 = self.ram[self.pc as usize] as u16;
        let lo: u16 = self.ram[(self.pc + 1) as usize] as u16;
        assert((hi << 8 | lo) == hi * 256 + lo) by (bit_vector)
            requires
                hi < 256,
                lo < 256,
        ;
        hi << 8 | lo
    }

    /// Finds the error, if any, that stops `ins` from being executed.
    fn find_fault(&self, ins: Instruction) -> (res: Result<(), MachineError>)
        requires
            operands_in_range(ins),
        ensures
            match res {
                Ok(_) => self@.fault(ins) is None,
                Err(e) => self@.fault(ins) == Some(e),
            },
    {
        match ins {
            Instruction::Return => if self.sp == 0 || self.sp > 16 {
                Err(MachineError::StackError)
            } else {
                Ok(())
            },
            Instruction::Call(_) => if self.sp >= 16 {
                Err(MachineError::StackError)
            } else {
                Ok(())
            },
            Instruction::Draw(_, _, n) => if self.i as usize + n as usize > 4096 {
                Err(MachineError::AddressError)
            } else {
                Ok(())
            },
            Instruction::SkipKeyPressed(x) | Instruction::SkipKeyNotPressed(x) => if self.v[x as usize]
                >= 16 {
                Err(MachineError::KeyError)
            } else {
                Ok(())
            },
            Instruction::StoreDigits(_) => if self.i as usize + 2 >= 4096 {
                Err(MachineError::AddressError)
            } else {
                Ok(())
            },
            Instruction::StoreRegisters(x) | Instruction::LoadRegisters(x) => if self.i as usize
                + x as usize >= 4096 {
                Err(MachineError::AddressError)
            } else {
                Ok(())
            },
            _ => Ok(()),
        }
    }

    /// Moves the program counter past the next instruction, or past the
    /// next two if `taken`.
    fn skip_if(&mut self, taken: bool)
        requires
            old(self).pc < 4095,
        ensures
            final(self)@ == old(self)@.skip_if(taken),
            final(self).display == old(self).display,
    {
        self.pc += INSTRUCTION_SIZE;
        if taken {
            self.pc += INSTRUCTION_SIZE;
        }
    }

    /// Moves the program counter to the next instruction.
    fn advance(&mut self)
        requires
            old(self).pc < 4095,
        ensures
            final(self)@ == old(self)@.at(old(self).pc + 2),
            final(self).display == old(self).display,
    {
        self.pc += INSTRUCTION_SIZE;
    }

    /// Writes one register and moves on to the next instruction.
    fn set_register(&mut self, x: u8, value: u8)
        requires
            old(self).pc < 4095,
            x < 16,
        ensures
            final(self)@ == old(self)@.with_registers(old(self)@.v.update(x as int, value)),
            final(self).display == old(self).display,
    {
        self.v[x as usize] = value;
        self.pc += INSTRUCTION_SIZE;
    }

    /// Writes the flag register, then register `x`, and moves on to the
    /// next instruction.
    fn set_flag_and_register(&mut self, flag: u8, x: u8, value: u8)
        requires
            old(self).pc < 4095,
            x < 16,
        ensures
            final(self)@ == old(self)@.with_registers(
                old(self)@.v.update(15, flag).update(x as int, value),
            ),
            final(self).display == old(self).display,
    {
        self.v[0xf] = flag;
        self.v[x as usize] = value;
        self.pc += INSTRUCTION_SIZE;
    }

    /// Draws the `n`-byte sprite at the index register at the position held
    /// in registers `x` and `y`, and sets the flag to the collision result.
    fn draw_sprite(&mut self, x: u8, y: u8, n: u8)
        requires
            old(self).pc < 4095,
            x < 16,
            y < 16,
            old(self).i + n <= 4096,
        ensures
            final(self)@ == old(self)@.effect(Instruction::Draw(x, y, n), 0),
            old(self).display.wf() ==> final(self).display.wf(),
    {
        let start: usize = self.i as usize;
        let hit = self.display.draw(
            self.v[x as usize] as usize,
            self.v[y as usize] as usize,
            slice_subrange(self.ram.as_slice(), start, start + n as usize),
        );
        self.v[0xf] = if hit { 1 } else { 0 };
        self.pc += INSTRUCTION_SIZE;
    }

    /// Writes the three decimal digits of `value` at the index register.
    fn store_digits(&mut self, value: u8)
        requires
            old(self).i + 2 < 4096,
        ensures
            final(self)@ == (Machine {
                ram: old(self)@.ram.update(old(self).i as int, value / 100).update(
                    old(self).i + 1,
                    value / 10 % 10,
                ).update(old(self).i + 2, value % 10),
                ..old(self)@
            }),
            final(self).display == old(self).display,
    {
        let at: usize = self.i as usize;
        self.ram[at] = value / 100;
        self.ram[at + 1] = value / 10 % 10;
        self.ram[at + 2] = value % 10;
    }

    /// Executes one decoded instruction, or reports why it cannot be
    /// executed and changes nothing. `random` is used by the random
    /// instruction alone.
    fn execute_instruction(&mut self, ins: Instruction, random: u8) -> (res: Result<
        (),
        MachineError,
    >)
        requires
            old(self).pc < 4095,
            operands_in_range(ins),
        ensures
            match res {
                Ok(_) => old(self)@.fault(ins) is None && final(self)@ == old(self)@.effect(
                    ins,
                    random,
                ),
                Err(e) => old(self)@.fault(ins) == Some(e) && final(self)@ == old(self)@
                    && final(self).display == old(self).display,
            },
            old(self).display.wf() ==> final(self).display.wf(),
    {
        match self.find_fault(ins) {
            Err(e) => {
                return Err(e);
            },
            Ok(_) => {},
        }
        match ins {
            Instruction::ClearScreen
            | Instruction::Return
            | Instruction::Jump(_)
            | Instruction::Call(_)
            | Instruction::JumpIndexed(_)
            | Instruction::WaitKey(_)
            | Instruction::Unknown(_) => self.execute_flow(ins),
            Instruction::SkipEqualByte(_, _)
            | Instruction::SkipNotEqualByte(_, _)
            | Instruction::SkipEqual(_, _)
            | Instruction::SkipNotEqual(_, _)
            | Instruction::SkipKeyPressed(_)
            | Instruction::SkipKeyNotPressed(_) => self.execute_skip(ins),
            Instruction::LoadByte(_, _)
            | Instruction::AddByte(_, _)
            | Instruction::Move(_, _)
            | Instruction::Or(_, _)
            | Instruction::And(_, _)
            | Instruction::Xor(_, _)
            | Instruction::Random(_, _)
            | Instruction::LoadDelay(_) => self.execute_load(ins, random),
            Instruction::Add(_, _)
            | Instruction::Sub(_, _)
            | Instruction::SubReverse(_, _)
            | Instruction::ShiftRight(_)
            | Instruction::ShiftLeft(_) => self.execute_flagged(ins),
            Instruction::SetIndex(_)
            | Instruction::Draw(_, _, _)
            | Instruction::SetDelay(_)
            | Instruction::SetSound(_)
            | Instruction::AddIndex(_)
            | Instruction::FontAddress(_)
            | Instruction::StoreDigits(_)
            | Instruction::StoreRegisters(_)
            | Instruction::LoadRegisters(_) => self.execute_memory(ins),
        }
        Ok(())
    }

    /// Executes an instruction that redirects the program counter, clears
    /// the screen, waits for a key, or does nothing.
    fn execute_flow(&mut self, ins: Instruction)
        requires
            old(self).pc < 4095,
            operands_in_range(ins),
            old(self)@.fault(ins) is None,
            ins is ClearScreen || ins is Return || ins is Jump || ins is Call || ins is JumpIndexed
                || ins is WaitKey || ins is Unknown,
        ensures
            forall|random: u8| final(self)@ == #[trigger] old(self)@.effect(ins, random),
            old(self).display.wf() ==> final(self).display.wf(),
    {
        match ins {
            Instruction::ClearScreen => {
                self.display.clear();
                self.advance();
            },
            Instruction::Return => {
                self.pc = self.stack_pop();
            },
            Instruction::Jump(a) => self.jump(a),
            Instruction::Call(a) => {
                self.stack_push(self.pc + INSTRUCTION_SIZE);
                self.pc = a;
            },
            Instruction::JumpIndexed(a) => self.jump(a + self.v[0] as u16),
            Instruction::WaitKey(x) => {
                match self.keypad.first_pressed() {
                    Some(k) => self.set_register(x, k),
                    None => {},
                }
            },
            _ => self.advance(),
        }
    }

    /// Executes a conditional skip.
    fn execute_skip(&mut self, ins: Instruction)
        requires
            old(self).pc < 4095,
            operands_in_range(ins),
            old(self)@.fault(ins) is None,
            ins is SkipEqualByte || ins is SkipNotEqualByte || ins is SkipEqual
                || ins is SkipNotEqual || ins is SkipKeyPressed || ins is SkipKeyNotPressed,
        ensures
            forall|random: u8| final(self)@ == #[trigger] old(self)@.effect(ins, random),
            final(self).display == old(self).display,
    {
        let taken = match ins {
            Instruction::SkipEqualByte(x, kk) => self.v[x as usize] == kk,
            Instruction::SkipNotEqualByte(x, kk) => self.v[x as usize] != kk,
            Instruction::SkipEqual(x, y) => self.v[x as usize] == self.v[y as usize],
            Instruction::SkipNotEqual(x, y) => self.v[x as usize] != self.v[y as usize],
            Instruction::SkipKeyPressed(x) => self.keypad.is_key_pressed(self.v[x as usize]),
            Instruction::SkipKeyNotPressed(x) => !self.keypad.is_key_pressed(self.v[x as usize]),
            _ => false,
        };
        self.skip_if(taken);
    }

    /// Executes an instruction that writes one register and no flag.
    fn execute_load(&mut self, ins: Instruction, random: u8)
        requires
            old(self).pc < 4095,
            operands_in_range(ins),
            ins is LoadByte || ins is AddByte || ins is Move || ins is Or || ins is And
                || ins is Xor || ins is Random || ins is LoadDelay,
        ensures
            final(self)@ == old(self)@.effect(ins, random),
            final(self).display == old(self).display,
    {
        match ins {
            Instruction::LoadByte(x, kk) => self.set_register(x, kk),
            Instruction::AddByte(x, kk) => {
                let (sum, _) = add_with_carry(self.v[x as usize], kk);
                self.set_register(x, sum);
            },
            Instruction::Move(x, y) => self.set_register(x, self.v[y as usize]),
            Instruction::Or(x, y) => self.set_register(x, self.v[x as usize] | self.v[y as usize]),
            Instruction::And(x, y) => self.set_register(x, self.v[x as usize] & self.v[y as usize]),
            Instruction::Xor(x, y) => self.set_register(x, self.v[x as usize] ^ self.v[y as usize]),
            Instruction::Random(x, kk) => self.set_register(x, random & kk),
            Instruction::LoadDelay(x) => self.set_register(x, self.dt),
            _ => {},
        }
    }

    /// Executes an arithmetic instruction that also writes the flag.
    fn execute_flagged(&mut self, ins: Instruction)
        requires
            old(self).pc < 4095,
            operands_in_range(ins),
            ins is Add || ins is Sub || ins is SubReverse || ins is ShiftRight || ins is ShiftLeft,
        ensures
            forall|random: u8| final(self)@ == #[trigger] old(self)@.effect(ins, random),
            final(self).display == old(self).display,
    {
        match ins {
            Instruction::Add(x, y) => {
                let (sum, flag) = add_with_carry(self.v[x as usize], self.v[y as usize]);
                self.set_flag_and_register(flag, x, sum);
            },
            Instruction::Sub(x, y) => {
                let (diff, flag) = sub_with_borrow(self.v[x as usize], self.v[y as usize]);
                self.set_flag_and_register(flag, x, diff);
            },
            Instruction::SubReverse(x, y) => {
                let (diff, flag) = sub_with_borrow(self.v[y as usize], self.v[x as usize]);
                self.set_flag_and_register(flag, x, diff);
            },
            Instruction::ShiftRight(x) => {
                let flag: u8 = self.v[x as usize] % 2;
                let source: u8 = if x == 0xf { flag } else { self.v[x as usize] };
                self.set_flag_and_register(flag, x, source / 2);
            },
            Instruction::ShiftLeft(x) => {
                let flag: u8 = self.v[x as usize] / 128;
                let source: u8 = if x == 0xf { flag } else { self.v[x as usize] };
                self.set_flag_and_register(flag, x, ((source as u16 * 2) % 256) as u8);
            },
            _ => {},
        }
    }

    /// Executes an instruction that works on the index register, the
    /// timers, memory or the screen.
    fn execute_memory(&mut self, ins: Instruction)
        requires
            old(self).pc < 4095,
            operands_in_range(ins),
            old(self)@.fault(ins) is None,
            ins is SetIndex || ins is Draw || ins is SetDelay || ins is SetSound || ins is AddIndex
                || ins is FontAddress || ins is StoreDigits || ins is StoreRegisters
                || ins is LoadRegisters,
        ensures
            forall|random: u8| final(self)@ == #[trigger] old(self)@.effect(ins, random),
            old(self).display.wf() ==> final(self).display.wf(),
    {
        match ins {
            Instruction::SetIndex(a) => {
                self.i = a;
                self.advance();
            },
            Instruction::Draw(x, y, n) => self.draw_sprite(x, y, n),
            Instruction::SetDelay(x) => {
                self.dt = self.v[x as usize];
                self.advance();
            },
            Instruction::SetSound(x) => {
                self.st = self.v[x as usize];
                self.advance();
            },
            Instruction::AddIndex(x) => {
                self.i = ((self.i as u32 + self.v[x as usize] as u32) % 65536) as u16;
                self.advance();
            },
            Instruction::FontAddress(x) => {
                self.i = (self.v[x as usize] % 16) as u16 * 5;
                self.advance();
            },
            Instruction::StoreDigits(x) => {
                self.store_digits(self.v[x as usize]);
                self.advance();
            },
            Instruction::StoreRegisters(x) => {
                self.store_registers(x);
                self.advance();
            },
            Instruction::LoadRegisters(x) => {
                self.load_registers(x);
                self.advance();
            },
            _ => {},
        }
    }

    /// Copies registers 0 up to and including `x` into memory at the index
    /// register.
    fn store_registers(&mut self, x: u8)
        requires
            x < 16,
            old(self).i + x < 4096,
        ensures
            final(self)@ == (Machine {
                ram: Seq::new(
                    4096,
                    |a: int|
                        if old(self).i <= a <= old(self).i + x {
                            old(self).v@[a - old(self).i]
                        } else {
                            old(self).ram@[a]
                        },
                ),
                ..old(self)@
            }),
            final(self).display == old(self).display,
    {
        let base: usize = self.i as usize;
        let mut k: usize = 0;
        while k <= x as usize
            invariant
                k <= x + 1,
                x < 16,
                base == self.i,
                base + x < 4096,
                self@ == (Machine { ram: self.ram@, ..old(self)@ }),
                self.display == old(self).display,
                forall|a: int|
                    0 <= a < 4096 ==> self.ram@[a] == (if base <= a < base + k {
                        old(self).v@[a - base]
                    } else {
                        old(self).ram@[a]
                    }),
            decreases x + 1 - k,
        {
            self.ram[base + k] = self.v[k];
            k += 1;
        }
        assert(self.ram@ =~= Seq::new(
            4096,
            |a: int|
                if old(self).i <= a <= old(self).i + x {
                    old(self).v@[a - old(self).i]
                } else {
                    old(self).ram@[a]
                },
        ));
    }

    /// Copies memory at the index register into registers 0 up to and
    /// including `x`.
    fn load_registers(&mut self, x: u8)
        requires
            x < 16,
            old(self).i + x < 4096,
        ensures
            final(self)@ == (Machine {
                v: Seq::new(
                    16,
                    |k: int|
                        if k <= x {
                            old(self).ram@[old(self).i + k]
                        } else {
                            old(self).v@[k]
                        },
                ),
                ..old(self)@
            }),
            final(self).display == old(self).display,
    {
        let base: usize = self.i as usize;
        let mut k: usize = 0;
        while k <= x as usize
            invariant
                k <= x + 1,
                x < 16,
                base == self.i,
                base + x < 4096,
                self@ == (Machine { v: self.v@, ..old(self)@ }),
                self.display == old(self).display,
                forall|j: int|
                    0 <= j < 16 ==> self.v@[j] == (if j < k {
                        old(self).ram@[base + j]
                    } else {
                        old(self).v@[j]
                    }),
            decreases x + 1 - k,
        {
            self.v[k] = self.ram[base + k];
            k += 1;
        }
        assert(self.v@ =~= Seq::new(
            16,
            |k: int|
                if k <= x {
                    old(self).ram@[old(self).i + k]
                } else {
                    old(self).v@[k]
                },
        ));
    }

    /// Continues at `addr`.
    fn jump(&mut self, addr: u16)
        ensures
            final(self)@ == old(self)@.at(addr as int),
            final(self).display == old(self).display,
    {
        self.pc = addr;
    }

    /// Puts `val` on the stack.
    fn stack_push(&mut self, val: u16)
        requires
            old(self).sp < 16,
        ensures
            final(self)@ == (Machine {
                stack: old(self)@.stack.update(old(self).sp as int, val),
                sp: (old(self).sp + 1) as u8,
                ..old(self)@
            }),
            final(self).display == old(self).display,
    {
        self.stack[self.sp as usize] = val;
        self.sp += 1;
    }

    /// Takes the most recent value off the stack.
    fn stack_pop(&mut self) -> (val: u16)
        requires
            0 < old(self).sp <= 16,
        ensures
            val == old(self).stack@[old(self).sp - 1],
            final(self)@ == (Machine { sp: (old(self).sp - 1) as u8, ..old(self)@ }),
            final(self).display == old(self).display,
    {
        self.sp -= 1;
        self.stack[self.sp as usize]
    }
}

} // verus!
