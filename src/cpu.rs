use vstd::prelude::*;

use vstd::string::{is_ascii, StringSliceAdditionalSpecFns};
use vstd::arithmetic::div_mod::lemma_add_mod_noop_right;

use crate::instructions::{
    ADD_REG_REG, JMP_NEQ, MOV_LIT_REG, MOV_MEM_REG, MOV_REG_MEM, MOV_REG_REG,
};
use crate::memory::Memory;

verus! {

/// The number of registers: `ip`, `acc` and `r1` to `r8`.
pub const REGISTER_COUNT: usize = 10;

/// Position of the instruction pointer in the register file.
pub const IP: usize = 0;

/// Position of the accumulator in the register file.
pub const ACC: usize = 1;

/// What can go wrong while the machine is driven.
#[derive(Debug, Clone, Copy, PartialEq, Eq, Structural)]
pub enum CPUError {
    LoadFailure,
    InvalidRegister,
    FetchFailure,
    ExecutionFailure,
    InvalidInstruction,
}

/// The 16-bit value of a register slot: low byte first.
pub open spec fn word_le(lo: u8, hi: u8) -> u16 {
    (lo as int + 256 * hi as int) as u16
}

/// The position in the register file of the register whose name has the
/// UTF-8 bytes `name`: `ip`, `acc`, then `r1` to `r8`.
pub open spec fn register_named(name: Seq<u8>) -> Option<int> {
    if name == seq![('i' as u8), ('p' as u8)] {
        Some(0)
    } else if name == seq![('a' as u8), ('c' as u8), ('c' as u8)] {
        Some(1)
    } else if name.len() == 2 && name[0] == ('r' as u8) && ('1' as u8) <= name[1] && name[1] <= ('8' as u8) {
        Some(name[1] - ('1' as u8) + 2)
    } else {
        None
    }
}

/// The register file after `set_register` of `value` on the name `name`.
pub open spec fn set_register_spec(regs: Seq<u16>, name: Seq<u8>, value: u16) -> Result<
    Seq<u16>,
    CPUError,
> {
    match register_named(name) {
        Some(i) => Ok(regs.update(i, value)),
        None => Err(CPUError::InvalidRegister),
    }
}

/// What `get_register` returns on the name `name`.
pub open spec fn get_register_spec(regs: Seq<u16>, name: Seq<u8>) -> Result<u16, CPUError> {
    match register_named(name) {
        Some(i) => Ok(regs[i]),
        None => Err(CPUError::InvalidRegister),
    }
}

/// `ip` advanced by `k` bytes, wrapping at 16 bits.
pub open spec fn ip_plus(ip: u16, k: int) -> u16 {
    ((ip as int + k) % 0x10000) as u16
}

/// The byte `k` places after `ip` in `mem`, when that address lies inside it.
pub open spec fn byte_after(mem: Seq<u8>, ip: u16, k: int) -> Option<u8> {
    let a = ip_plus(ip, k) as int;
    if a < mem.len() {
        Some(mem[a])
    } else {
        None
    }
}

/// A 16-bit operand of the instruction stream: high byte first.
pub open spec fn word_be(hi: u8, lo: u8) -> u16 {
    (256 * hi as int + lo as int) as u16
}

/// The register that an operand byte names: the byte modulo the register count.
pub open spec fn register_of(b: u8) -> int {
    b as int % REGISTER_COUNT as int
}

/// How an instruction ends: the new memory and register file, or an error.
pub type Outcome = Result<(Seq<u8>, Seq<u16>), CPUError>;

/// `r` reports the outcome `expected`, and the state went from
/// `(mem0, regs0)` to `(mem1, regs1)` as it says; after an error it is
/// unchanged.
pub open spec fn follows(
    r: Result<(), CPUError>,
    expected: Outcome,
    mem0: Seq<u8>,
    regs0: Seq<u16>,
    mem1: Seq<u8>,
    regs1: Seq<u16>,
) -> bool {
    match expected {
        Ok((mem, regs)) => r == Ok::<(), CPUError>(()) && mem1 == mem && regs1 == regs,
        Err(e) => r == Err::<(), CPUError>(e) && mem1 == mem0 && regs1 == regs0,
    }
}

/// MOV_LIT_REG: a 16-bit literal, then a register operand.
pub open spec fn mov_lit_reg_spec(mem: Seq<u8>, regs: Seq<u16>) -> Outcome {
    let ip = regs[IP as int];
    match (byte_after(mem, ip, 0), byte_after(mem, ip, 1), byte_after(mem, ip, 2)) {
        (Some(hi), Some(lo), Some(d)) => Ok(
            (mem, regs.update(IP as int, ip_plus(ip, 3)).update(register_of(d), word_be(hi, lo))),
        ),
        _ => Err(CPUError::ExecutionFailure),
    }
}

/// MOV_REG_REG: a source, then a destination register operand.
pub open spec fn mov_reg_reg_spec(mem: Seq<u8>, regs: Seq<u16>) -> Outcome {
    let ip = regs[IP as int];
    match (byte_after(mem, ip, 0), byte_after(mem, ip, 1)) {
        (Some(s), Some(d)) => {
            let moved = regs.update(IP as int, ip_plus(ip, 2));
            Ok((mem, moved.update(register_of(d), moved[register_of(s)])))
        },
        _ => Err(CPUError::ExecutionFailure),
    }
}

/// MOV_REG_MEM: a register operand, then a 16-bit address; the register's
/// slot is copied to the two cells there, low byte first.
pub open spec fn mov_reg_mem_spec(mem: Seq<u8>, regs: Seq<u16>) -> Outcome {
    let ip = regs[IP as int];
    match (byte_after(mem, ip, 0), byte_after(mem, ip, 1), byte_after(mem, ip, 2)) {
        (Some(s), Some(hi), Some(lo)) => {
            let moved = regs.update(IP as int, ip_plus(ip, 3));
            let a = word_be(hi, lo) as int;
            let v = moved[register_of(s)];
            if a + 1 < mem.len() {
                Ok((mem.update(a, (v % 256) as u8).update(a + 1, (v / 256) as u8), moved))
            } else {
                Err(CPUError::ExecutionFailure)
            }
        },
        _ => Err(CPUError::ExecutionFailure),
    }
}

/// MOV_MEM_REG: a 16-bit address, then a register operand; the two cells
/// there are read into the register, low byte first.
pub open spec fn mov_mem_reg_spec(mem: Seq<u8>, regs: Seq<u16>) -> Outcome {
    let ip = regs[IP as int];
    match (byte_after(mem, ip, 0), byte_after(mem, ip, 1), byte_after(mem, ip, 2)) {
        (Some(hi), Some(lo), Some(d)) => {
            let moved = regs.update(IP as int, ip_plus(ip, 3));
            let a = word_be(hi, lo) as int;
            if a + 1 < mem.len() {
                Ok((mem, moved.update(register_of(d), word_le(mem[a], mem[a + 1]))))
            } else {
                Err(CPUError::ExecutionFailure)
            }
        },
        _ => Err(CPUError::ExecutionFailure),
    }
}

/// ADD_REG_REG: two register operands, whose sum modulo 2^16 goes to `acc`.
pub open spec fn add_reg_reg_spec(mem: Seq<u8>, regs: Seq<u16>) -> Outcome {
    let ip = regs[IP as int];
    match (byte_after(mem, ip, 0), byte_after(mem, ip, 1)) {
        (Some(x), Some(y)) => {
            let moved = regs.update(IP as int, ip_plus(ip, 2));
            let sum = (moved[register_of(x)] as int + moved[register_of(y)] as int) % 0x10000;
            Ok((mem, moved.update(ACC as int, sum as u16)))
        },
        _ => Err(CPUError::ExecutionFailure),
    }
}

/// JMP_NEQ: a 16-bit value, then a 16-bit target; `ip` goes to the target
/// when the value differs from `acc`.
pub open spec fn jmp_neq_spec(mem: Seq<u8>, regs: Seq<u16>) -> Outcome {
    let ip = regs[IP as int];
    match (
        byte_after(mem, ip, 0),
        byte_after(mem, ip, 1),
        byte_after(mem, ip, 2),
        byte_after(mem, ip, 3),
    ) {
        (Some(vh), Some(vl), Some(th), Some(tl)) => {
            let moved = regs.update(IP as int, ip_plus(ip, 4));
            if word_be(vh, vl) != moved[ACC as int] {
                Ok((mem, moved.update(IP as int, word_be(th, tl))))
            } else {
                Ok((mem, moved))
            }
        },
        _ => Err(CPUError::ExecutionFailure),
    }
}

/// The outcome of executing `op`, where `regs[IP]` addresses its first
/// operand byte.
pub open spec fn execute_spec(op: u8, mem: Seq<u8>, regs: Seq<u16>) -> Outcome {
    if op == MOV_LIT_REG {
        mov_lit_reg_spec(mem, regs)
    } else if op == MOV_REG_REG {
        mov_reg_reg_spec(mem, regs)
    } else if op == MOV_REG_MEM {
        mov_reg_mem_spec(mem, regs)
    } else if op == MOV_MEM_REG {
        mov_mem_reg_spec(mem, regs)
    } else if op == ADD_REG_REG {
        add_reg_reg_spec(mem, regs)
    } else if op == JMP_NEQ {
        jmp_neq_spec(mem, regs)
    } else {
        Err(CPUError::InvalidInstruction)
    }
}

/// The state after one step: fetch the opcode at `ip`, then execute it.
pub open spec fn step_spec(mem: Seq<u8>, regs: Seq<u16>) -> Outcome {
    let ip = regs[IP as int];
    match byte_after(mem, ip, 0) {
        Some(op) => execute_spec(op, mem, regs.update(IP as int, ip_plus(ip, 1))),
        None => Err(CPUError::FetchFailure),
    }
}

/// Advancing `ip` twice is advancing it once by the sum.
pub broadcast proof fn lemma_ip_plus_add(ip: u16, j: int, k: int)
    requires
        0 <= j,
        0 <= k,
    ensures
        #[trigger] ip_plus(ip_plus(ip, j), k) == ip_plus(ip, j + k),
{
    lemma_add_mod_noop_right(k, ip as int + j, 0x10000);
}

/// Finds the position of a register by name.
fn register_index(name: &str) -> (r: Option<usize>)
    ensures
        r matches Some(i) ==> register_named(name.spec_bytes()) == Some(i as int),
        r is None ==> register_named(name.spec_bytes()) is None,
{
    let b = name.as_bytes();
    let n = b.len();
    if n == 2 && b[0] == ('i' as u8) && b[1] == ('p' as u8) {
        assert(b@ =~= seq![('i' as u8), ('p' as u8)]);
        Some(IP)
    } else if n == 3 && b[0] == ('a' as u8) && b[1] == ('c' as u8) && b[2] == ('c' as u8) {
        assert(b@ =~= seq![('a' as u8), ('c' as u8), ('c' as u8)]);
        Some(ACC)
    } else if n == 2 && b[0] == ('r' as u8) && ('1' as u8) <= b[1] && b[1] <= ('8' as u8) {
        Some((b[1] - ('1' as u8)) as usize + 2)
    } else {
        None
    }
}

/// The name of the register at position `index`, in declaration order.
pub fn register_name(index: usize) -> (r: &'static str)
    requires
        index < REGISTER_COUNT,
    ensures
        register_named(r.spec_bytes()) == Some(index as int),
{
    broadcast use vstd::string::group_string_axioms;

    let names = ["ip", "acc", "r1", "r2", "r3", "r4", "r5", "r6", "r7", "r8"];
    let r = names[index];
    proof {
        reveal_strlit("ip");
        reveal_strlit("acc");
        reveal_strlit("r1");
        reveal_strlit("r2");
        reveal_strlit("r3");
        reveal_strlit("r4");
        reveal_strlit("r5");
        reveal_strlit("r6");
        reveal_strlit("r7");
        reveal_strlit("r8");
        assert(is_ascii(r));
        assert(r.spec_bytes() =~= Seq::new(r@.len(), |i| r@[i] as u8));
        if index == 0 {
            assert(r.spec_bytes() =~= seq![('i' as u8), ('p' as u8)]);
        } else if index == 1 {
            assert(r.spec_bytes() =~= seq![('a' as u8), ('c' as u8), ('c' as u8)]);
        }
    }
    r
}

/// The machine: program and data memory, and a register file held in a
/// byte buffer of its own, two bytes per register.
pub struct CPU {
    pub memory: Memory,
    registers: Memory,
}

impl CPU {
    /// The register file holds one two-byte slot per register.
    pub closed spec fn wf(&self) -> bool {
        self.registers@.len() == 2 * REGISTER_COUNT
    }

    /// The contents of program and data memory.
    pub closed spec fn mem(&self) -> Seq<u8> {
        self.memory@
    }

    /// The value of each register, in declaration order.
    pub closed spec fn regs(&self) -> Seq<u16> {
        Seq::new(
            REGISTER_COUNT as nat,
            |i: int| word_le(self.registers@[2 * i], self.registers@[2 * i + 1]),
        )
    }

    /// A machine over `memory_item`, every register zero.
    pub fn new(memory_item: Memory) -> (c: Self)
        ensures
            c.wf(),
            c.mem() == memory_item@,
            c.regs() == Seq::new(REGISTER_COUNT as nat, |_i: int| 0u16),
    {
        let c = CPU { memory: memory_item, registers: Memory::new(2 * REGISTER_COUNT) };
        assert(c.regs() =~= Seq::new(REGISTER_COUNT as nat, |_i: int| 0u16));
        c
    }

    fn read_slot(&self, i: usize) -> (v: u16)
        requires
            self.wf(),
            i < REGISTER_COUNT,
        ensures
            v == self.regs()[i as int],
    {
        let lo = self.registers.read(2 * i).unwrap();
        let hi = self.registers.read(2 * i + 1).unwrap();
        lo as u16 + 256 * hi as u16
    }

    fn write_slot(&mut self, i: usize, value: u16)
        requires
            old(self).wf(),
            i < REGISTER_COUNT,
        ensures
            final(self).wf(),
            final(self).mem() == old(self).mem(),
            final(self).regs() == old(self).regs().update(i as int, value),
    {
        let lo = (value % 256) as u8;
        let hi = (value / 256) as u8;
        let _ = self.registers.write(2 * i, lo);
        let _ = self.registers.write(2 * i + 1, hi);
        assert(self.regs() =~= old(self).regs().update(i as int, value));
    }

    /// Reads the byte that `ip` addresses and advances `ip` by one; when
    /// `ip` lies outside memory nothing changes.
    pub fn fetch(&mut self) -> (r: Result<u8, CPUError>)
        requires
            old(self).wf(),
        ensures
            final(self).wf(),
            final(self).mem() == old(self).mem(),
            match byte_after(old(self).mem(), old(self).regs()[IP as int], 0) {
                Some(b) => r == Ok::<u8, CPUError>(b) && final(self).regs() == old(self).regs().update(
                    IP as int,
                    ip_plus(old(self).regs()[IP as int], 1),
                ),
                None => r == Err::<u8, CPUError>(CPUError::FetchFailure) && final(self).regs()
                    == old(self).regs(),
            },
    {
        let ip = self.read_slot(IP);
        match self.memory.read(ip as usize) {
            Ok(b) => {
                let next: u16 = if ip == 0xFFFF {
                    0
                } else {
                    ip + 1
                };
                self.write_slot(IP, next);
                Ok(b)
            },
            Err(_) => Err(CPUError::FetchFailure),
        }
    }

    /// Reads two bytes through `fetch`, the first as the high byte; when
    /// either lies outside memory nothing changes.
    pub fn fetch16(&mut self) -> (r: Result<u16, CPUError>)
        requires
            old(self).wf(),
        ensures
            final(self).wf(),
            final(self).mem() == old(self).mem(),
            ({
                let ip = old(self).regs()[IP as int];
                match (byte_after(old(self).mem(), ip, 0), byte_after(old(self).mem(), ip, 1)) {
                    (Some(hi), Some(lo)) => r == Ok::<u16, CPUError>(word_be(hi, lo))
                        && final(self).regs() == old(self).regs().update(IP as int, ip_plus(ip, 2)),
                    _ => r == Err::<u16, CPUError>(CPUError::FetchFailure) && final(self).regs()
                        == old(self).regs(),
                }
            }),
    {
        broadcast use lemma_ip_plus_add;

        let ip = self.read_slot(IP);
        let hi = match self.fetch() {
            Ok(b) => b,
            Err(_) => return Err(CPUError::FetchFailure),
        };
        let lo = match self.fetch() {
            Ok(b) => b,
            Err(_) => {
                self.write_slot(IP, ip);
                assert(self.regs() =~= old(self).regs());
                return Err(CPUError::FetchFailure);
            },
        };
        assert(self.regs() =~= old(self).regs().update(IP as int, ip_plus(ip, 2)));
        Ok(256 * hi as u16 + lo as u16)
    }

    /// Reads a register operand through `fetch` and returns the byte offset
    /// of that register's slot: the byte modulo the register count, doubled.
    fn get_register_index(&mut self) -> (r: Result<u8, CPUError>)
        requires
            old(self).wf(),
        ensures
            final(self).wf(),
            final(self).mem() == old(self).mem(),
            match byte_after(old(self).mem(), old(self).regs()[IP as int], 0) {
                Some(b) => r == Ok::<u8, CPUError>((2 * register_of(b)) as u8) && final(self).regs()
                    == old(self).regs().update(IP as int, ip_plus(old(self).regs()[IP as int], 1)),
                None => r == Err::<u8, CPUError>(CPUError::FetchFailure) && final(self).regs()
                    == old(self).regs(),
            },
    {
        let b = self.fetch()?;
        Ok((b % (REGISTER_COUNT as u8)) * 2)
    }

    /// Restores the instruction pointer to `ip` and reports `e`.
    fn abort(&mut self, ip: u16, e: CPUError) -> (r: Result<(), CPUError>)
        requires
            old(self).wf(),
        ensures
            final(self).wf(),
            final(self).mem() == old(self).mem(),
            final(self).regs() == old(self).regs().update(IP as int, ip),
            r == Err::<(), CPUError>(e),
    {
        self.write_slot(IP, ip);
        Err(e)
    }

    /// Moves a literal into a register.
    fn mov_lit_reg(&mut self) -> (r: Result<(), CPUError>)
        requires
            old(self).wf(),
        ensures
            final(self).wf(),
            follows(
                r,
                mov_lit_reg_spec(old(self).mem(), old(self).regs()),
                old(self).mem(),
                old(self).regs(),
                final(self).mem(),
                final(self).regs(),
            ),
    {
        broadcast use lemma_ip_plus_add;

        let ip = self.read_slot(IP);
        let literal = match self.fetch16() {
            Ok(v) => v,
            Err(_) => return Err(CPUError::ExecutionFailure),
        };
        let d = match self.get_register_index() {
            Ok(d) => d,
            Err(_) => {
                let r = self.abort(ip, CPUError::ExecutionFailure);
                assert(self.regs() =~= old(self).regs());
                return r;
            },
        };
        proof {
            let mem = old(self).mem();
            assert(byte_after(mem, ip_plus(ip, 2), 0) == byte_after(mem, ip, 2));
            assert(ip_plus(ip_plus(ip, 2), 1) == ip_plus(ip, 3));
        }
        self.write_slot((d / 2) as usize, literal);
        proof {
            let mem = old(self).mem();
            let regs = old(self).regs();
            let dst = byte_after(mem, ip, 2)->Some_0;
            assert((d / 2) as int == register_of(dst));
            assert(self.regs() =~= regs.update(IP as int, ip_plus(ip, 3)).update(
                register_of(dst),
                literal,
            ));
        }
        Ok(())
    }

    /// Copies a register into another.
    fn mov_reg_reg(&mut self) -> (r: Result<(), CPUError>)
        requires
            old(self).wf(),
        ensures
            final(self).wf(),
            follows(
                r,
                mov_reg_reg_spec(old(self).mem(), old(self).regs()),
                old(self).mem(),
                old(self).regs(),
                final(self).mem(),
                final(self).regs(),
            ),
    {
        broadcast use lemma_ip_plus_add;

        let ip = self.read_slot(IP);
        let s = match self.get_register_index() {
            Ok(s) => s,
            Err(_) => return Err(CPUError::ExecutionFailure),
        };
        let d = match self.get_register_index() {
            Ok(d) => d,
            Err(_) => {
                let r = self.abort(ip, CPUError::ExecutionFailure);
                assert(self.regs() =~= old(self).regs());
                return r;
            },
        };
        let v = self.read_slot((s / 2) as usize);
        self.write_slot((d / 2) as usize, v);
        proof {
            let mem = old(self).mem();
            let moved = old(self).regs().update(IP as int, ip_plus(ip, 2));
            let src = byte_after(mem, ip, 0)->Some_0;
            let dst = byte_after(mem, ip, 1)->Some_0;
            assert((s / 2) as int == register_of(src));
            assert((d / 2) as int == register_of(dst));
            assert(self.regs() =~= moved.update(register_of(dst), moved[register_of(src)]));
        }
        Ok(())
    }

    /// Stores a register into memory.
    fn mov_reg_mem(&mut self) -> (r: Result<(), CPUError>)
        requires
            old(self).wf(),
        ensures
            final(self).wf(),
            follows(
                r,
                mov_reg_mem_spec(old(self).mem(), old(self).regs()),
                old(self).mem(),
                old(self).regs(),
                final(self).mem(),
                final(self).regs(),
            ),
    {
        broadcast use lemma_ip_plus_add;

        let ip = self.read_slot(IP);
        let s = match self.get_register_index() {
            Ok(s) => s,
            Err(_) => return Err(CPUError::ExecutionFailure),
        };
        let a = match self.fetch16() {
            Ok(a) => a,
            Err(_) => {
                let r = self.abort(ip, CPUError::ExecutionFailure);
                assert(self.regs() =~= old(self).regs());
                return r;
            },
        };
        if a as usize + 1 >= self.memory.len() {
            let r = self.abort(ip, CPUError::ExecutionFailure);
            assert(self.regs() =~= old(self).regs());
            return r;
        }
        let v = self.read_slot((s / 2) as usize);
        let _ = self.memory.write(a as usize, (v % 256) as u8);
        let _ = self.memory.write(a as usize + 1, (v / 256) as u8);
        proof {
            let mem = old(self).mem();
            let src = byte_after(mem, ip, 0)->Some_0;
            assert((s / 2) as int == register_of(src));
            assert(self.regs() =~= old(self).regs().update(IP as int, ip_plus(ip, 3)));
        }
        Ok(())
    }

    /// Loads a register from memory.
    fn mov_mem_reg(&mut self) -> (r: Result<(), CPUError>)
        requires
            old(self).wf(),
        ensures
            final(self).wf(),
            follows(
                r,
                mov_mem_reg_spec(old(self).mem(), old(self).regs()),
                old(self).mem(),
                old(self).regs(),
                final(self).mem(),
                final(self).regs(),
            ),
    {
        broadcast use lemma_ip_plus_add;

        let ip = self.read_slot(IP);
        let a = match self.fetch16() {
            Ok(a) => a,
            Err(_) => return Err(CPUError::ExecutionFailure),
        };
        let d = match self.get_register_index() {
            Ok(d) => d,
            Err(_) => {
                let r = self.abort(ip, CPUError::ExecutionFailure);
                assert(self.regs() =~= old(self).regs());
                return r;
            },
        };
        if a as usize + 1 >= self.memory.len() {
            let r = self.abort(ip, CPUError::ExecutionFailure);
            assert(self.regs() =~= old(self).regs());
            return r;
        }
        let lo = self.memory.read(a as usize).unwrap();
        let hi = self.memory.read(a as usize + 1).unwrap();
        self.write_slot((d / 2) as usize, lo as u16 + 256 * hi as u16);
        proof {
            let mem = old(self).mem();
            let moved = old(self).regs().update(IP as int, ip_plus(ip, 3));
            let dst = byte_after(mem, ip, 2)->Some_0;
            assert((d / 2) as int == register_of(dst));
            assert(self.regs() =~= moved.update(
                register_of(dst),
                word_le(mem[a as int], mem[a as int + 1]),
            ));
        }
        Ok(())
    }

    /// Adds two registers into `acc`.
    fn add_reg_reg(&mut self) -> (r: Result<(), CPUError>)
        requires
            old(self).wf(),
        ensures
            final(self).wf(),
            follows(
                r,
                add_reg_reg_spec(old(self).mem(), old(self).regs()),
                old(self).mem(),
                old(self).regs(),
                final(self).mem(),
                final(self).regs(),
            ),
    {
        broadcast use lemma_ip_plus_add;

        let ip = self.read_slot(IP);
        let x = match self.get_register_index() {
            Ok(x) => x,
            Err(_) => return Err(CPUError::ExecutionFailure),
        };
        let y = match self.get_register_index() {
            Ok(y) => y,
            Err(_) => {
                let r = self.abort(ip, CPUError::ExecutionFailure);
                assert(self.regs() =~= old(self).regs());
                return r;
            },
        };
        let vx = self.read_slot((x / 2) as usize);
        let vy = self.read_slot((y / 2) as usize);
        let sum = ((vx as u32 + vy as u32) % 0x10000) as u16;
        self.write_slot(ACC, sum);
        proof {
            let mem = old(self).mem();
            let moved = old(self).regs().update(IP as int, ip_plus(ip, 2));
            let bx = byte_after(mem, ip, 0)->Some_0;
            let by = byte_after(mem, ip, 1)->Some_0;
            assert((x / 2) as int == register_of(bx));
            assert((y / 2) as int == register_of(by));
            assert(self.regs() =~= moved.update(
                ACC as int,
                ((moved[register_of(bx)] as int + moved[register_of(by)] as int) % 0x10000) as u16,
            ));
        }
        Ok(())
    }

    /// Jumps when `acc` differs from a literal.
    fn jmp_neq(&mut self) -> (r: Result<(), CPUError>)
        requires
            old(self).wf(),
        ensures
            final(self).wf(),
            follows(
                r,
                jmp_neq_spec(old(self).mem(), old(self).regs()),
                old(self).mem(),
                old(self).regs(),
                final(self).mem(),
                final(self).regs(),
            ),
    {
        broadcast use lemma_ip_plus_add;

        let ip = self.read_slot(IP);
        let value = match self.fetch16() {
            Ok(v) => v,
            Err(_) => return Err(CPUError::ExecutionFailure),
        };
        let target = match self.fetch16() {
            Ok(t) => t,
            Err(_) => {
                let r = self.abort(ip, CPUError::ExecutionFailure);
                assert(self.regs() =~= old(self).regs());
                return r;
            },
        };
        let acc = self.read_slot(ACC);
        assert(self.regs() =~= old(self).regs().update(IP as int, ip_plus(ip, 4)));
        if value != acc {
            self.write_slot(IP, target);
            assert(self.regs() =~= old(self).regs().update(IP as int, ip_plus(ip, 4)).update(
                IP as int,
                target,
            ));
        }
        Ok(())
    }

    /// Executes the instruction `op`, whose operands follow at `ip`; on an
    /// error the machine is left as it was.
    pub fn execute(&mut self, op: u8) -> (r: Result<(), CPUError>)
        requires
            old(self).wf(),
        ensures
            final(self).wf(),
            follows(
                r,
                execute_spec(op, old(self).mem(), old(self).regs()),
                old(self).mem(),
                old(self).regs(),
                final(self).mem(),
                final(self).regs(),
            ),
    {
        if op == MOV_LIT_REG {
            self.mov_lit_reg()
        } else if op == MOV_REG_REG {
            self.mov_reg_reg()
        } else if op == MOV_REG_MEM {
            self.mov_reg_mem()
        } else if op == MOV_MEM_REG {
            self.mov_mem_reg()
        } else if op == ADD_REG_REG {
            self.add_reg_reg()
        } else if op == JMP_NEQ {
            self.jmp_neq()
        } else {
            Err(CPUError::InvalidInstruction)
        }
    }

    /// One instruction: fetch the opcode at `ip`, then execute it; on an
    /// error the machine is left as it was.
    pub fn step(&mut self) -> (r: Result<(), CPUError>)
        requires
            old(self).wf(),
        ensures
            final(self).wf(),
            follows(
                r,
                step_spec(old(self).mem(), old(self).regs()),
                old(self).mem(),
                old(self).regs(),
                final(self).mem(),
                final(self).regs(),
            ),
    {
        let ip = self.read_slot(IP);
        let op = self.fetch()?;
        match self.execute(op) {
            Ok(()) => Ok(()),
            Err(e) => {
                let r = self.abort(ip, e);
                assert(self.regs() =~= old(self).regs());
                r
            },
        }
    }

    /// Writes `value` into program memory at `index`, outside the
    /// instruction stream's own path.
    pub fn load(&mut self, index: usize, value: u8) -> (r: Result<(), CPUError>)
        requires
            old(self).wf(),
        ensures
            final(self).wf(),
            final(self).regs() == old(self).regs(),
            index < old(self).mem().len() ==> r == Ok::<(), CPUError>(()) && final(self).mem()
                == old(self).mem().update(index as int, value),
            index >= old(self).mem().len() ==> r == Err::<(), CPUError>(CPUError::LoadFailure)
                && final(self).mem() == old(self).mem(),
    {
        match self.memory.write(index, value) {
            Ok(()) => Ok(()),
            Err(_) => Err(CPUError::LoadFailure),
        }
    }

    /// The value of every register, in declaration order.
    pub fn dump(&self) -> (r: Vec<u16>)
        requires
            self.wf(),
        ensures
            r@ == self.regs(),
    {
        let mut out: Vec<u16> = Vec::new();
        let mut i: usize = 0;
        while i < REGISTER_COUNT
            invariant
                self.wf(),
                i <= REGISTER_COUNT,
                out@ == self.regs().subrange(0, i as int),
            decreases REGISTER_COUNT - i,
        {
            out.push(self.read_slot(i));
            i = i + 1;
            assert(out@ =~= self.regs().subrange(0, i as int));
        }
        assert(out@ =~= self.regs());
        out
    }

    /// The value of the register called `name`.
    pub fn get_register(&self, name: &str) -> (r: Result<u16, CPUError>)
        requires
            self.wf(),
        ensures
            r == get_register_spec(self.regs(), name.spec_bytes()),
    {
        match register_index(name) {
            Some(i) => Ok(self.read_slot(i)),
            None => Err(CPUError::InvalidRegister),
        }
    }

    /// Sets the register called `name` to `value`; on an unknown name
    /// nothing changes.
    pub fn set_register(&mut self, name: &str, value: u16) -> (r: Result<(), CPUError>)
        requires
            old(self).wf(),
        ensures
            final(self).wf(),
            final(self).mem() == old(self).mem(),
            match set_register_spec(old(self).regs(), name.spec_bytes(), value) {
                Ok(regs) => r == Ok::<(), CPUError>(()) && final(self).regs() == regs,
                Err(e) => r == Err::<(), CPUError>(e) && final(self).regs() == old(self).regs(),
            },
    {
        match register_index(name) {
            Some(i) => {
                self.write_slot(i, value);
                Ok(())
            },
            None => Err(CPUError::InvalidRegister),
        }
    }
}

} // verus!
