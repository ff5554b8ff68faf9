//! The machine state engine: memory, registers, program counter, index
//! register, timers and call stack, together with the fetch-decode-execute
//! step that drives them.
//!
//! Each `tick` executes exactly one instruction.  The two fatal conditions
//! (an unrecognized instruction word, returning with an empty call stack) and
//! the out-of-range memory accesses an index-register-relative instruction
//! could make are reported as errors instead of being executed.

use vstd::prelude::*;

use crate::display::{draw_collision, draw_fb, Display, DISPLAY_AREA};
use crate::instruction::{
    alu_flag, alu_result, kk_of, n_of, nnn_of, opcode_spec, x_of, y_of, Instruction, OpCode,
    OperandType,
};

verus! {

/// Size of the byte-addressable memory space.
pub const MEMORY_SIZE: usize = 4096;

/// Where the built-in font's glyphs start in memory.
pub const FONT_START_ADDR: usize = 0x50;

/// Where a loaded program image starts in memory.
pub const ROM_START_ADDR: usize = 0x200;

/// Bytes per font glyph: one byte per scanline, five scanlines.
pub const FONT_LINES_PER_CHAR: usize = 5;

/// The largest program image that fits below the end of memory.
pub const MAX_ROM_BYTES: usize = 4096 - 0x200 - 1;

/// The conditions that end an emulation session: a word that matches no
/// recognized opcode pattern (carrying the word for diagnostics), a return
/// with an empty call stack, a memory access beyond the address space, and a
/// program image too large to load.
#[derive(Clone, Copy, Debug, PartialEq, Eq, Structural)]
pub enum Fatal {
    UnrecognizedInstruction(u16),
    EmptyStack,
    MemoryOutOfRange,
    RomTooLarge,
}

/// The mathematical model of the machine state.
#[verifier::ext_equal]
pub struct CpuView {
    pub memory: Seq<u8>,
    pub registers: Seq<u8>,
    pub program_counter: u16,
    pub index_register: u16,
    pub delay_timer: u8,
    pub sound_timer: u8,
    pub stack: Seq<u16>,
    pub compatibility_mode: bool,
    pub display: Seq<u8>,
}

/// The machine.
pub struct Cpu {
    pub display: Display,
    pub memory: [u8; MEMORY_SIZE],
    pub registers: [u8; 16],
    pub program_counter: u16,
    pub index_register: u16,
    pub delay_timer: u8,
    pub sound_timer: u8,
    pub stack: Vec<u16>,
    pub compatibility_mode: bool,
}

impl View for Cpu {
    type V = CpuView;

    open spec fn view(&self) -> CpuView {
        CpuView {
            memory: self.memory@,
            registers: self.registers@,
            program_counter: self.program_counter,
            index_register: self.index_register,
            delay_timer: self.delay_timer,
            sound_timer: self.sound_timer,
            stack: self.stack@,
            compatibility_mode: self.compatibility_mode,
            display: self.display@,
        }
    }
}

/// The built-in font: sixteen glyphs of five scanline bytes each, pixels
/// MSB-first, installed at `FONT_START_ADDR` when a program is loaded.
pub open spec fn font_seq() -> Seq<u8> {
    seq![
        0xF0u8, 0x90, 0x90, 0x90, 0xF0,  // 0
        0x20, 0x60, 0x20, 0x20, 0x70,  // 1
        0xF0, 0x10, 0xF0, 0x80, 0xF0,  // 2
        0xF0, 0x10, 0xF0, 0x10, 0xF0,  // 3
        0x90, 0x90, 0xF0, 0x10, 0x10,  // 4
        0xF0, 0x80, 0xF0, 0x10, 0xF0,  // 5
        0xF0, 0x80, 0xF0, 0x90, 0xF0,  // 6
        0xF0, 0x10, 0x20, 0x40, 0x40,  // 7
        0xF0, 0x90, 0xF0, 0x90, 0xF0,  // 8
        0xF0, 0x90, 0xF0, 0x10, 0xF0,  // 9
        0xF0, 0x90, 0xF0, 0x90, 0x90,  // A
        0xE0, 0x90, 0xE0, 0x90, 0xE0,  // B
        0xF0, 0x80, 0x80, 0x80, 0xF0,  // C
        0xE0, 0x90, 0x90, 0x90, 0xE0,  // D
        0xF0, 0x80, 0xF0, 0x80, 0xF0,  // E
        0xF0, 0x80, 0xF0, 0x80, 0x80,  // F
    ]
}

/// `dst` with the bytes of `src` written at offset `at`; everything outside
/// that block keeps its value.
pub open spec fn overwrite_block(dst: Seq<u8>, at: int, src: Seq<u8>) -> Seq<u8> {
    Seq::new(
        dst.len(),
        |k: int|
            if at <= k < at + src.len() {
                src[k - at]
            } else {
                dst[k]
            },
    )
}

/// Memory after a program load: the font installed at `FONT_START_ADDR`, the
/// program image copied verbatim from `ROM_START_ADDR` on, everything else
/// untouched.
pub open spec fn loaded_memory(mem: Seq<u8>, rom: Seq<u8>) -> Seq<u8> {
    overwrite_block(overwrite_block(mem, FONT_START_ADDR as int, font_seq()), ROM_START_ADDR as int, rom)
}

/// The 16-bit big-endian instruction word read from `mem` at address `a`.
pub open spec fn word_at(mem: Seq<u8>, a: int) -> u16 {
    (mem[a] * 256 + mem[a + 1]) as u16
}

/// 16-bit addition wrapping modulo 2^16, as add-to-index performs it.
pub open spec fn wrapping_add16(a: u16, b: u16) -> u16 {
    if a + b > 0xFFFF {
        (a + b - 0x10000) as u16
    } else {
        (a + b) as u16
    }
}

/// The lowest pressed key index at or above `i`, or -1 when none is.
pub open spec fn first_pressed_from(keys: Seq<bool>, i: int) -> int
    decreases 16 - i,
{
    if i < 0 || i >= 16 {
        -1
    } else if keys[i] {
        i
    } else {
        first_pressed_from(keys, i + 1)
    }
}

/// The lowest pressed key index, or -1 when no key is pressed: the member of
/// the pressed-key set that wait-for-key hands out.
pub open spec fn first_pressed(keys: Seq<bool>) -> int {
    first_pressed_from(keys, 0)
}

/// The machine state after one fetch-decode-execute step from `pre`, with
/// `keys` the pressed-key set and `rand_byte` the byte the random source
/// produced, or the fatal condition that stops the session.  On a fatal
/// condition the machine is left as it was.
pub open spec fn step_result(pre: CpuView, keys: Seq<bool>, rand_byte: u8) -> Result<
    CpuView,
    Fatal,
> {
    if pre.program_counter + 1 >= MEMORY_SIZE {
        Err(Fatal::MemoryOutOfRange)
    } else {
        let word = word_at(pre.memory, pre.program_counter as int);
        let mid = CpuView { program_counter: (pre.program_counter + 2) as u16, ..pre };
        let x = x_of(word) as int;
        let y = y_of(word) as int;
        let n = n_of(word) as int;
        let kk = kk_of(word) as u8;
        let nnn = nnn_of(word);
        match opcode_spec(word) {
            OpCode::ClearDisplay => Ok(
                CpuView { display: Seq::new(DISPLAY_AREA as nat, |k: int| 0u8), ..mid },
            ),
            OpCode::DrawSprite => {
                let start = pre.index_register as int;
                if start + n > MEMORY_SIZE {
                    Err(Fatal::MemoryOutOfRange)
                } else {
                    let sprite = pre.memory.subrange(start, start + n);
                    let x0 = pre.registers[x] as int % 64;
                    let y0 = pre.registers[y] as int % 32;
                    let collided = draw_collision(pre.display, x0, y0, sprite);
                    Ok(
                        CpuView {
                            display: draw_fb(pre.display, x0, y0, sprite),
                            registers: pre.registers.update(
                                0xF,
                                if collided {
                                    1u8
                                } else {
                                    0u8
                                },
                            ),
                            ..mid
                        },
                    )
                }
            },
            OpCode::ReturnFromSubroutine => {
                if pre.stack.len() == 0 {
                    Err(Fatal::EmptyStack)
                } else {
                    Ok(
                        CpuView {
                            program_counter: pre.stack.last(),
                            stack: pre.stack.drop_last(),
                            ..mid
                        },
                    )
                }
            },
            OpCode::JumpAbsolute => Ok(CpuView { program_counter: nnn, ..mid }),
            OpCode::JumpWithOffset => {
                let offset = if pre.compatibility_mode {
                    pre.registers[0]
                } else {
                    pre.registers[x]
                };
                Ok(CpuView { program_counter: (nnn + offset) as u16, ..mid })
            },
            OpCode::CallSubroutine => Ok(
                CpuView { stack: pre.stack.push(mid.program_counter), program_counter: nnn, ..mid },
            ),
            OpCode::SkipIfEqual { operand_type } => {
                let lhs = pre.registers[x];
                let rhs = if operand_type is Register {
                    pre.registers[y]
                } else {
                    kk
                };
                Ok(
                    CpuView {
                        program_counter: if lhs == rhs {
                            (mid.program_counter + 2) as u16
                        } else {
                            mid.program_counter
                        },
                        ..mid
                    },
                )
            },
            OpCode::SkipIfNotEqual { operand_type } => {
                let lhs = pre.registers[x];
                let rhs = if operand_type is Register {
                    pre.registers[y]
                } else {
                    kk
                };
                Ok(
                    CpuView {
                        program_counter: if lhs != rhs {
                            (mid.program_counter + 2) as u16
                        } else {
                            mid.program_counter
                        },
                        ..mid
                    },
                )
            },
            OpCode::ArithmeticLogic { operand_type, operation } => {
                let lhs = pre.registers[x];
                let rhs = if operand_type is Register {
                    pre.registers[y]
                } else {
                    kk
                };
                let result = alu_result(operation, lhs, rhs, pre.compatibility_mode);
                let regs = pre.registers.update(x, result);
                let regs_flagged = match alu_flag(operation, lhs, rhs, pre.compatibility_mode) {
                    Some(f) => regs.update(0xF, f),
                    None => regs,
                };
                Ok(CpuView { registers: regs_flagged, ..mid })
            },
            OpCode::SetIndexRegister => Ok(CpuView { index_register: nnn, ..mid }),
            OpCode::AddToIndexRegister => Ok(
                CpuView {
                    index_register: wrapping_add16(pre.index_register, pre.registers[x] as u16),
                    ..mid
                },
            ),
            OpCode::SetIndexRegisterToFont => Ok(
                CpuView {
                    index_register: (FONT_START_ADDR + pre.registers[x] * FONT_LINES_PER_CHAR) as u16,
                    ..mid
                },
            ),
            OpCode::SetDelayRegister => Ok(CpuView { delay_timer: pre.registers[x], ..mid }),
            OpCode::SetSoundRegister => Ok(CpuView { sound_timer: pre.registers[x], ..mid }),
            OpCode::ReadDelayRegister => Ok(
                CpuView { registers: pre.registers.update(x, pre.delay_timer), ..mid },
            ),
            OpCode::SkipIfKeyPressed => {
                let key = (pre.registers[x] & 0xF) as int;
                Ok(
                    CpuView {
                        program_counter: if keys[key] {
                            (mid.program_counter + 2) as u16
                        } else {
                            mid.program_counter
                        },
                        ..mid
                    },
                )
            },
            OpCode::SkipIfKeyNotPressed => {
                let key = (pre.registers[x] & 0xF) as int;
                Ok(
                    CpuView {
                        program_counter: if !keys[key] {
                            (mid.program_counter + 2) as u16
                        } else {
                            mid.program_counter
                        },
                        ..mid
                    },
                )
            },
            OpCode::WaitForKeyPress => {
                let first = first_pressed(keys);
                if first >= 0 {
                    Ok(CpuView { registers: pre.registers.update(x, first as u8), ..mid })
                } else {
                    Ok(CpuView { program_counter: pre.program_counter, ..mid })
                }
            },
            OpCode::DecodeBCD => {
                let start = pre.index_register as int;
                if start + 2 >= MEMORY_SIZE {
                    Err(Fatal::MemoryOutOfRange)
                } else {
                    let v = pre.registers[x];
                    Ok(
                        CpuView {
                            memory: pre.memory.update(start, v / 100).update(
                                start + 1,
                                (v % 100) / 10,
                            ).update(start + 2, v % 10),
                            ..mid
                        },
                    )
                }
            },
            OpCode::SaveRegisters => {
                let start = pre.index_register as int;
                if start + x + 1 > MEMORY_SIZE {
                    Err(Fatal::MemoryOutOfRange)
                } else {
                    Ok(
                        CpuView {
                            memory: overwrite_block(
                                pre.memory,
                                start,
                                pre.registers.subrange(0, x + 1),
                            ),
                            index_register: (pre.index_register + x + 1) as u16,
                            ..mid
                        },
                    )
                }
            },
            OpCode::LoadRegisters => {
                let start = pre.index_register as int;
                if start + x + 1 > MEMORY_SIZE {
                    Err(Fatal::MemoryOutOfRange)
                } else {
                    Ok(
                        CpuView {
                            registers: overwrite_block(
                                pre.registers,
                                0,
                                pre.memory.subrange(start, start + x + 1),
                            ),
                            index_register: (pre.index_register + x + 1) as u16,
                            ..mid
                        },
                    )
                }
            },
            OpCode::Rand => Ok(
                CpuView { registers: pre.registers.update(x, rand_byte & kk), ..mid },
            ),
            OpCode::Unknown(w) => Err(Fatal::UnrecognizedInstruction(w)),
        }
    }
}

/// How one `tick` relates the machine states before and after it: the step
/// relation for the byte the random source produced, with the machine left
/// untouched on a fatal condition.
pub open spec fn tick_rel(
    pre: CpuView,
    post: CpuView,
    keys: Seq<bool>,
    rand_byte: u8,
    r: Result<(), Fatal>,
) -> bool {
    match step_result(pre, keys, rand_byte) {
        Ok(v) => r is Ok && post == v,
        Err(e) => r == Err::<(), Fatal>(e) && post == pre,
    }
}

/// The state of a freshly constructed machine: everything zeroed, the stack
/// empty, compatibility mode off.
pub open spec fn initial_view() -> CpuView {
    CpuView {
        memory: Seq::new(MEMORY_SIZE as nat, |k: int| 0u8),
        registers: Seq::new(16, |k: int| 0u8),
        program_counter: 0,
        index_register: 0,
        delay_timer: 0,
        sound_timer: 0,
        stack: Seq::empty(),
        compatibility_mode: false,
        display: Seq::new(DISPLAY_AREA as nat, |k: int| 0u8),
    }
}

impl Cpu {
    /// A freshly constructed machine, all state zeroed.
    pub fn new() -> (cpu: Cpu)
        ensures
            cpu@ == initial_view(),
    {
        let cpu = Cpu {
            memory: [0; MEMORY_SIZE],
            registers: [0; 16],
            program_counter: 0,
            index_register: 0,
            delay_timer: 0,
            sound_timer: 0,
            stack: Vec::new(),
            display: Display::new(),
            compatibility_mode: false,
        };
        proof {
            assert(cpu@.memory =~= initial_view().memory);
            assert(cpu@.registers =~= initial_view().registers);
            assert(cpu@.stack =~= initial_view().stack);
            assert(cpu@.display =~= initial_view().display);
            assert(cpu@ =~= initial_view());
        }
        cpu
    }

    /// Loads a program image: installs the font, copies the image to
    /// `ROM_START_ADDR`, points the program counter there and records the
    /// compatibility mode.  An image too large for memory is rejected and the
    /// machine is left untouched.
    pub fn load_rom(&mut self, rom: &Vec<u8>, compatibility_mode: bool) -> (r: Result<(), Fatal>)
        ensures
            rom@.len() > MAX_ROM_BYTES ==> r == Err::<(), Fatal>(Fatal::RomTooLarge) && final(self)@
                == old(self)@,
            rom@.len() <= MAX_ROM_BYTES ==> r is Ok && final(self)@ == (CpuView {
                memory: loaded_memory(old(self)@.memory, rom@),
                program_counter: ROM_START_ADDR as u16,
                compatibility_mode: compatibility_mode,
                ..old(self)@
            }),
    {
        if rom.len() > MAX_ROM_BYTES {
            return Err(Fatal::RomTooLarge);
        }
        self.compatibility_mode = compatibility_mode;
        self.program_counter = ROM_START_ADDR as u16;
        let font: [u8; 80] = [
            0xF0, 0x90, 0x90, 0x90, 0xF0,  // 0
            0x20, 0x60, 0x20, 0x20, 0x70,  // 1
            0xF0, 0x10, 0xF0, 0x80, 0xF0,  // 2
            0xF0, 0x10, 0xF0, 0x10, 0xF0,  // 3
            0x90, 0x90, 0xF0, 0x10, 0x10,  // 4
            0xF0, 0x80, 0xF0, 0x10, 0xF0,  // 5
            0xF0, 0x80, 0xF0, 0x90, 0xF0,  // 6
            0xF0, 0x10, 0x20, 0x40, 0x40,  // 7
            0xF0, 0x90, 0xF0, 0x90, 0xF0,  // 8
            0xF0, 0x90, 0xF0, 0x10, 0xF0,  // 9
            0xF0, 0x90, 0xF0, 0x90, 0x90,  // A
            0xE0, 0x90, 0xE0, 0x90, 0xE0,  // B
            0xF0, 0x80, 0x80, 0x80, 0xF0,  // C
            0xE0, 0x90, 0x90, 0x90, 0xE0,  // D
            0xF0, 0x80, 0xF0, 0x80, 0xF0,  // E
            0xF0, 0x80, 0xF0, 0x80, 0x80,  // F
        ];
        proof {
            assert(font@ =~= font_seq());
        }
        let ghost mem0 = self.memory@;
        let mut t: usize = 0;
        while t < 80
            invariant
                t <= 80,
                font@ == font_seq(),
                self.program_counter == ROM_START_ADDR as u16,
                self.compatibility_mode == compatibility_mode,
                self.registers@ == old(self)@.registers,
                self.index_register == old(self)@.index_register,
                self.delay_timer == old(self)@.delay_timer,
                self.sound_timer == old(self)@.sound_timer,
                self.stack@ == old(self)@.stack,
                self.display@ == old(self)@.display,
                self.memory@ == overwrite_block(
                    mem0,
                    FONT_START_ADDR as int,
                    font_seq().subrange(0, t as int),
                ),
            decreases 80 - t,
        {
            self.memory[FONT_START_ADDR + t] = font[t];
            proof {
                assert(self.memory@ =~= overwrite_block(
                    mem0,
                    FONT_START_ADDR as int,
                    font_seq().subrange(0, t as int + 1),
                ));
            }
            t = t + 1;
        }
        proof {
            assert(font_seq().subrange(0, 80) =~= font_seq());
        }
        let ghost mem1 = self.memory@;
        let mut u: usize = 0;
        while u < rom.len()
            invariant
                u <= rom@.len(),
                rom@.len() <= MAX_ROM_BYTES,
                self.program_counter == ROM_START_ADDR as u16,
                self.compatibility_mode == compatibility_mode,
                self.registers@ == old(self)@.registers,
                self.index_register == old(self)@.index_register,
                self.delay_timer == old(self)@.delay_timer,
                self.sound_timer == old(self)@.sound_timer,
                self.stack@ == old(self)@.stack,
                self.display@ == old(self)@.display,
                self.memory@ == overwrite_block(
                    mem1,
                    ROM_START_ADDR as int,
                    rom@.subrange(0, u as int),
                ),
            decreases rom@.len() - u,
        {
            self.memory[ROM_START_ADDR + u] = rom[u];
            proof {
                assert(self.memory@ =~= overwrite_block(
                    mem1,
                    ROM_START_ADDR as int,
                    rom@.subrange(0, u as int + 1),
                ));
            }
            u = u + 1;
        }
        proof {
            assert(rom@.subrange(0, rom@.len() as int) =~= rom@);
            assert(self.memory@ =~= loaded_memory(old(self)@.memory, rom@));
            assert(self@ =~= (CpuView {
                memory: loaded_memory(old(self)@.memory, rom@),
                program_counter: ROM_START_ADDR as u16,
                compatibility_mode: compatibility_mode,
                ..old(self)@
            }));
        }
        Ok(())
    }

    /// Decrements the delay and sound timers, each saturating at zero, and
    /// reports whether the sound timer is still nonzero afterwards (the
    /// signal that keeps the audio tone playing).
    pub fn decrement_timers(&mut self) -> (sound_on: bool)
        ensures
            final(self)@ == (CpuView {
                delay_timer: if old(self)@.delay_timer > 0 {
                    (old(self)@.delay_timer - 1) as u8
                } else {
                    0u8
                },
                sound_timer: if old(self)@.sound_timer > 0 {
                    (old(self)@.sound_timer - 1) as u8
                } else {
                    0u8
                },
                ..old(self)@
            }),
            sound_on == (old(self)@.sound_timer > 1),
    {
        if self.delay_timer > 0 {
            self.delay_timer = self.delay_timer - 1;
        }
        if self.sound_timer > 0 {
            self.sound_timer = self.sound_timer - 1;
        }
        self.sound_timer > 0
    }

    /// A copy of the memory block `[start, start + len)`.
    fn read_memory_block(&self, start: usize, len: usize) -> (block: Vec<u8>)
        requires
            start + len <= MEMORY_SIZE,
        ensures
            block@ == self@.memory.subrange(start as int, start as int + len as int),
    {
        let mut block: Vec<u8> = Vec::new();
        let mut t: usize = 0;
        while t < len
            invariant
                t <= len,
                start + len <= MEMORY_SIZE,
                block@ == self@.memory.subrange(start as int, start as int + t as int),
            decreases len - t,
        {
            block.push(self.memory[start + t]);
            proof {
                assert(block@ =~= self@.memory.subrange(start as int, start as int + t as int + 1));
            }
            t = t + 1;
        }
        block
    }

    /// Copies registers 0 through `x` to memory starting at the index
    /// register, then advances the index register past the block.
    fn save_registers_block(&mut self, x: usize)
        requires
            x < 16,
            old(self)@.index_register as int + x + 1 <= MEMORY_SIZE,
        ensures
            final(self)@ == (CpuView {
                memory: overwrite_block(
                    old(self)@.memory,
                    old(self)@.index_register as int,
                    old(self)@.registers.subrange(0, x as int + 1),
                ),
                index_register: (old(self)@.index_register + x + 1) as u16,
                ..old(self)@
            }),
    {
        let start = self.index_register as usize;
        let mut t: usize = 0;
        while t < x + 1
            invariant
                t <= x + 1,
                x < 16,
                start == old(self)@.index_register as int,
                start + x + 1 <= MEMORY_SIZE,
                self.memory@ == overwrite_block(
                    old(self)@.memory,
                    start as int,
                    old(self)@.registers.subrange(0, t as int),
                ),
                self.registers@ == old(self)@.registers,
                self.program_counter == old(self)@.program_counter,
                self.index_register == old(self)@.index_register,
                self.delay_timer == old(self)@.delay_timer,
                self.sound_timer == old(self)@.sound_timer,
                self.stack@ == old(self)@.stack,
                self.compatibility_mode == old(self)@.compatibility_mode,
                self.display@ == old(self)@.display,
            decreases x + 1 - t,
        {
            self.memory[start + t] = self.registers[t];
            proof {
                assert(self.memory@ =~= overwrite_block(
                    old(self)@.memory,
                    start as int,
                    old(self)@.registers.subrange(0, t as int + 1),
                ));
            }
            t = t + 1;
        }
        self.index_register = self.index_register + (x as u16) + 1;
        proof {
            assert(self@ =~= (CpuView {
                memory: overwrite_block(
                    old(self)@.memory,
                    old(self)@.index_register as int,
                    old(self)@.registers.subrange(0, x as int + 1),
                ),
                index_register: (old(self)@.index_register + x + 1) as u16,
                ..old(self)@
            }));
        }
    }

    /// Copies memory starting at the index register into registers 0 through
    /// `x`, then advances the index register past the block.
    fn load_registers_block(&mut self, x: usize)
        requires
            x < 16,
            old(self)@.index_register as int + x + 1 <= MEMORY_SIZE,
        ensures
            final(self)@ == (CpuView {
                registers: overwrite_block(
                    old(self)@.registers,
                    0,
                    old(self)@.memory.subrange(
                        old(self)@.index_register as int,
                        old(self)@.index_register as int + x + 1,
                    ),
                ),
                index_register: (old(self)@.index_register + x + 1) as u16,
                ..old(self)@
            }),
    {
        let start = self.index_register as usize;
        let mut t: usize = 0;
        while t < x + 1
            invariant
                t <= x + 1,
                x < 16,
                start == old(self)@.index_register as int,
                start + x + 1 <= MEMORY_SIZE,
                self.registers@ == overwrite_block(
                    old(self)@.registers,
                    0,
                    old(self)@.memory.subrange(start as int, start as int + t as int),
                ),
                self.memory@ == old(self)@.memory,
                self.program_counter == old(self)@.program_counter,
                self.index_register == old(self)@.index_register,
                self.delay_timer == old(self)@.delay_timer,
                self.sound_timer == old(self)@.sound_timer,
                self.stack@ == old(self)@.stack,
                self.compatibility_mode == old(self)@.compatibility_mode,
                self.display@ == old(self)@.display,
            decreases x + 1 - t,
        {
            self.registers[t] = self.memory[start + t];
            proof {
                assert(self.registers@ =~= overwrite_block(
                    old(self)@.registers,
                    0,
                    old(self)@.memory.subrange(start as int, start as int + t as int + 1),
                ));
            }
            t = t + 1;
        }
        self.index_register = self.index_register + (x as u16) + 1;
        proof {
            assert(self@ =~= (CpuView {
                registers: overwrite_block(
                    old(self)@.registers,
                    0,
                    old(self)@.memory.subrange(
                        old(self)@.index_register as int,
                        old(self)@.index_register as int + x + 1,
                    ),
                ),
                index_register: (old(self)@.index_register + x + 1) as u16,
                ..old(self)@
            }));
        }
    }

    /// Performs one fetch-decode-execute step, with `random_byte` standing in
    /// for the random source: the step relation holds of exactly that byte.
    /// On a fatal condition the machine is left as it was and the condition
    /// is reported.
    pub fn tick_with_random(&mut self, keys: &[bool; 16], random_byte: u8) -> (r: Result<
        (),
        Fatal,
    >)
        ensures
            tick_rel(old(self)@, final(self)@, keys@, random_byte, r),
    {
        let pc = self.program_counter;
        if pc >= 4095 {
            return Err(Fatal::MemoryOutOfRange);
        }
        let pcu = pc as usize;
        let hi = self.memory[pcu];
        let lo = self.memory[pcu + 1];
        let word: u16 = ((hi as u16) << 8) | (lo as u16);
        proof {
            assert(((hi as u16) << 8) | (lo as u16) == hi as int * 256 + lo as int)
                by (bit_vector);
            assert((word >> 8) & 0xF < 16 && (word >> 4) & 0xF < 16 && (word & 0xF) < 16 && (word
                & 0xFF) < 256 && (word & 0xFFF) < 4096) by (bit_vector);
        }
        self.program_counter = pc + 2;
        let instruction = Instruction::decode(word);
        let xi = instruction.x_register_index;
        let yi = instruction.y_register_index;
        match instruction.op_code {
            OpCode::ClearDisplay => {
                self.display.clear();
                proof {
                    assert(step_result(old(self)@, keys@, random_byte) matches Ok(v) && self@
                        =~= v);
                }
                Ok(())
            },
            OpCode::DrawSprite => {
                let n = instruction.immediate_half_byte as usize;
                let start = self.index_register as usize;
                if start + n > MEMORY_SIZE {
                    self.program_counter = pc;
                    proof {
                        assert(self@ =~= old(self)@);
                    }
                    return Err(Fatal::MemoryOutOfRange);
                }
                let sprite = self.read_memory_block(start, n);
                let x_coord = self.registers[xi];
                let y_coord = self.registers[yi];
                let collision = self.display.draw_sprite(x_coord, y_coord, sprite.as_slice());
                self.registers[0xF] = if collision {
                    1
                } else {
                    0
                };
                proof {
                    assert(step_result(old(self)@, keys@, random_byte) matches Ok(v) && self@
                        =~= v);
                }
                Ok(())
            },
            OpCode::ReturnFromSubroutine => {
                if self.stack.len() == 0 {
                    self.program_counter = pc;
                    proof {
                        assert(self@ =~= old(self)@);
                    }
                    return Err(Fatal::EmptyStack);
                }
                let addr = self.stack.pop().unwrap();
                self.program_counter = addr;
                proof {
                    assert(step_result(old(self)@, keys@, random_byte) matches Ok(v) && self@
                        =~= v);
                }
                Ok(())
            },
            OpCode::JumpAbsolute => {
                self.program_counter = instruction.immediate_word;
                proof {
                    assert(step_result(old(self)@, keys@, random_byte) matches Ok(v) && self@
                        =~= v);
                }
                Ok(())
            },
            OpCode::JumpWithOffset => {
                let offset = if self.compatibility_mode {
                    self.registers[0]
                } else {
                    self.registers[xi]
                };
                self.program_counter = instruction.immediate_word + (offset as u16);
                proof {
                    assert(step_result(old(self)@, keys@, random_byte) matches Ok(v) && self@
                        =~= v);
                }
                Ok(())
            },
            OpCode::CallSubroutine => {
                self.stack.push(self.program_counter);
                self.program_counter = instruction.immediate_word;
                proof {
                    assert(step_result(old(self)@, keys@, random_byte) matches Ok(v) && self@
                        =~= v);
                }
                Ok(())
            },
            OpCode::SkipIfEqual { operand_type } => {
                let lhs = self.registers[xi];
                let rhs = match operand_type {
                    OperandType::Register => self.registers[yi],
                    OperandType::Immediate => instruction.immediate_byte,
                };
                if lhs == rhs {
                    self.program_counter = self.program_counter + 2;
                }
                proof {
                    assert(step_result(old(self)@, keys@, random_byte) matches Ok(v) && self@
                        =~= v);
                }
                Ok(())
            },
            OpCode::SkipIfNotEqual { operand_type } => {
                let lhs = self.registers[xi];
                let rhs = match operand_type {
                    OperandType::Register => self.registers[yi],
                    OperandType::Immediate => instruction.immediate_byte,
                };
                if lhs != rhs {
                    self.program_counter = self.program_counter + 2;
                }
                proof {
                    assert(step_result(old(self)@, keys@, random_byte) matches Ok(v) && self@
                        =~= v);
                }
                Ok(())
            },
            OpCode::ArithmeticLogic { operand_type, operation } => {
                let lhs = self.registers[xi];
                let rhs = match operand_type {
                    OperandType::Register => self.registers[yi],
                    OperandType::Immediate => instruction.immediate_byte,
                };
                let (result, carry) = operation.perform(lhs, rhs, self.compatibility_mode);
                self.registers[xi] = result;
                if let Some(carry_value) = carry {
                    self.registers[0xF] = carry_value;
                }
                proof {
                    assert(step_result(old(self)@, keys@, random_byte) matches Ok(v) && self@
                        =~= v);
                }
                Ok(())
            },
            OpCode::SetIndexRegister => {
                self.index_register = instruction.immediate_word;
                proof {
                    assert(step_result(old(self)@, keys@, random_byte) matches Ok(v) && self@
                        =~= v);
                }
                Ok(())
            },
            OpCode::AddToIndexRegister => {
                self.index_register = self.index_register.wrapping_add(
                    self.registers[xi] as u16,
                );
                proof {
                    assert(step_result(old(self)@, keys@, random_byte) matches Ok(v) && self@
                        =~= v);
                }
                Ok(())
            },
            OpCode::SetIndexRegisterToFont => {
                let char_index = self.registers[xi] as usize;
                self.index_register = (FONT_START_ADDR + char_index * FONT_LINES_PER_CHAR) as u16;
                proof {
                    assert(step_result(old(self)@, keys@, random_byte) matches Ok(v) && self@
                        =~= v);
                }
                Ok(())
            },
            OpCode::SetDelayRegister => {
                self.delay_timer = self.registers[xi];
                proof {
                    assert(step_result(old(self)@, keys@, random_byte) matches Ok(v) && self@
                        =~= v);
                }
                Ok(())
            },
            OpCode::SetSoundRegister => {
                self.sound_timer = self.registers[xi];
                proof {
                    assert(step_result(old(self)@, keys@, random_byte) matches Ok(v) && self@
                        =~= v);
                }
                Ok(())
            },
            OpCode::ReadDelayRegister => {
                self.registers[xi] = self.delay_timer;
                proof {
                    assert(step_result(old(self)@, keys@, random_byte) matches Ok(v) && self@
                        =~= v);
                }
                Ok(())
            },
            OpCode::SkipIfKeyPressed => {
                let reg = self.registers[xi];
                proof {
                    assert(reg & 0x0F < 16) by (bit_vector);
                }
                let key = (reg & 0x0F) as usize;
                if keys[key] {
                    self.program_counter = self.program_counter + 2;
                }
                proof {
                    assert(step_result(old(self)@, keys@, random_byte) matches Ok(v) && self@
                        =~= v);
                }
                Ok(())
            },
            OpCode::SkipIfKeyNotPressed => {
                let reg = self.registers[xi];
                proof {
                    assert(reg & 0x0F < 16) by (bit_vector);
                }
                let key = (reg & 0x0F) as usize;
                if !keys[key] {
                    self.program_counter = self.program_counter + 2;
                }
                proof {
                    assert(step_result(old(self)@, keys@, random_byte) matches Ok(v) && self@
                        =~= v);
                }
                Ok(())
            },
            OpCode::WaitForKeyPress => {
                match first_pressed_key(keys) {
                    Some(key_num) => {
                        self.registers[xi] = key_num;
                    },
                    None => {
                        self.program_counter = pc;
                    },
                }
                proof {
                    assert(step_result(old(self)@, keys@, random_byte) matches Ok(v) && self@
                        =~= v);
                }
                Ok(())
            },
            OpCode::DecodeBCD => {
                let start = self.index_register as usize;
                if start + 2 >= MEMORY_SIZE {
                    self.program_counter = pc;
                    proof {
                        assert(self@ =~= old(self)@);
                    }
                    return Err(Fatal::MemoryOutOfRange);
                }
                let value = self.registers[xi];
                self.memory[start] = value / 100;
                self.memory[start + 1] = (value % 100) / 10;
                self.memory[start + 2] = value % 10;
                proof {
                    assert(step_result(old(self)@, keys@, random_byte) matches Ok(v) && self@
                        =~= v);
                }
                Ok(())
            },
            OpCode::SaveRegisters => {
                let start = self.index_register as usize;
                if start + xi + 1 > MEMORY_SIZE {
                    self.program_counter = pc;
                    proof {
                        assert(self@ =~= old(self)@);
                    }
                    return Err(Fatal::MemoryOutOfRange);
                }
                self.save_registers_block(xi);
                proof {
                    assert(step_result(old(self)@, keys@, random_byte) matches Ok(v) && self@
                        =~= v);
                }
                Ok(())
            },
            OpCode::LoadRegisters => {
                let start = self.index_register as usize;
                if start + xi + 1 > MEMORY_SIZE {
                    self.program_counter = pc;
                    proof {
                        assert(self@ =~= old(self)@);
                    }
                    return Err(Fatal::MemoryOutOfRange);
                }
                self.load_registers_block(xi);
                proof {
                    assert(step_result(old(self)@, keys@, random_byte) matches Ok(v) && self@
                        =~= v);
                }
                Ok(())
            },
            OpCode::Rand => {
                self.registers[xi] = random_byte & instruction.immediate_byte;
                proof {
                    assert(step_result(old(self)@, keys@, random_byte) matches Ok(v) && self@
                        =~= v);
                }
                Ok(())
            },
            OpCode::Unknown(w) => {
                self.program_counter = pc;
                proof {
                    assert(self@ =~= old(self)@);
                }
                Err(Fatal::UnrecognizedInstruction(w))
            },
        }
    }

    /// Performs one fetch-decode-execute step against the current pressed-key
    /// set: the step relation holds of whatever byte the random source
    /// produced.  On a fatal condition the machine is left as it was and the
    /// condition is reported.
    pub fn tick(&mut self, keys: &[bool; 16]) -> (r: Result<(), Fatal>)
        ensures
            exists|rand_byte: u8| tick_rel(old(self)@, final(self)@, keys@, rand_byte, r),
    {
        let rand_byte = random_byte();
        let r = self.tick_with_random(keys, rand_byte);
        proof {
            assert(tick_rel(old(self)@, self@, keys@, rand_byte, r));
        }
        r
    }
}

/// Register-dump round trip: saving registers 0 through `x` at some start
/// address and loading them back from that same address restores the register
/// bank exactly.  (Each of the two transfers advances the index register by
/// `x + 1`; the save-registers and load-registers cases of `step_result`
/// state that directly.)
pub proof fn lemma_register_dump_round_trip(mem: Seq<u8>, regs: Seq<u8>, at: int, x: int)
    requires
        mem.len() == MEMORY_SIZE,
        regs.len() == 16,
        0 <= at,
        0 <= x < 16,
        at + x + 1 <= MEMORY_SIZE,
    ensures
        overwrite_block(
            regs,
            0,
            overwrite_block(mem, at, regs.subrange(0, x + 1)).subrange(at, at + x + 1),
        ) == regs,
{
    assert(overwrite_block(mem, at, regs.subrange(0, x + 1)).subrange(at, at + x + 1)
        =~= regs.subrange(0, x + 1));
    assert(overwrite_block(regs, 0, regs.subrange(0, x + 1)) =~= regs);
}

/// Relies on rand::random: a uniformly distributed byte from the thread-local
/// generator; nothing is promised of the value.
#[verifier::external_body]
fn random_byte() -> u8 {
    rand::random::<u8>()
}

/// The lowest pressed key index, as wait-for-key hands it out.
fn first_pressed_key(keys: &[bool; 16]) -> (r: Option<u8>)
    ensures
        r == (if first_pressed(keys@) >= 0 {
            Some(first_pressed(keys@) as u8)
        } else {
            Option::<u8>::None
        }),
{
    let mut j: usize = 0;
    while j < 16
        invariant
            j <= 16,
            first_pressed(keys@) == first_pressed_from(keys@, j as int),
        decreases 16 - j,
    {
        if keys[j] {
            return Some(j as u8);
        }
        j = j + 1;
    }
    None
}

} // verus!
