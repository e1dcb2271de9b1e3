use vstd::prelude::*;

use crate::cpu::{
    byte_after, get_register_spec, ip_plus, register_named, set_register_spec, step_spec,
    word_be, CPUError, ACC, CPU, IP, REGISTER_COUNT,
};
use crate::instructions::JMP_NEQ;

verus! {

/// Every declared name addresses one of the registers.
pub proof fn named_register_in_range(name: Seq<u8>)
    requires
        register_named(name) is Some,
    ensures
        0 <= register_named(name)->Some_0 < REGISTER_COUNT,
{
}

/// Setting a declared register and reading it back gives exactly the value
/// that was set.
pub proof fn set_then_get(regs: Seq<u16>, name: Seq<u8>, v: u16)
    requires
        regs.len() == REGISTER_COUNT,
        register_named(name) is Some,
    ensures
        set_register_spec(regs, name, v) is Ok,
        get_register_spec(set_register_spec(regs, name, v)->Ok_0, name) == Ok::<u16, CPUError>(v),
{
    named_register_in_range(name);
}

/// A name outside the declared set is refused by both reading and
/// writing, with `InvalidRegister`.
pub proof fn undeclared_name_refused(regs: Seq<u16>, name: Seq<u8>, v: u16)
    requires
        register_named(name) is None,
    ensures
        get_register_spec(regs, name) == Err::<u16, CPUError>(CPUError::InvalidRegister),
        set_register_spec(regs, name, v) == Err::<Seq<u16>, CPUError>(CPUError::InvalidRegister),
{
}

/// A step on JMP_NEQ whose operands lie in memory falls through to the
/// next instruction when the value equals `acc`, and otherwise sets `ip`
/// to the target exactly.
pub proof fn jmp_neq_branches(mem: Seq<u8>, regs: Seq<u16>)
    requires
        regs.len() == REGISTER_COUNT,
        byte_after(mem, regs[IP as int], 0) == Some(JMP_NEQ),
        forall|k: int| 1 <= k <= 4 ==> (#[trigger] byte_after(mem, regs[IP as int], k)) is Some,
    ensures
        ({
            let ip = regs[IP as int];
            let value = word_be(
                byte_after(mem, ip, 1)->Some_0,
                byte_after(mem, ip, 2)->Some_0,
            );
            let target = word_be(
                byte_after(mem, ip, 3)->Some_0,
                byte_after(mem, ip, 4)->Some_0,
            );
            &&& step_spec(mem, regs) is Ok
            &&& step_spec(mem, regs)->Ok_0.1[IP as int] == if value == regs[ACC as int] {
                ip_plus(ip, 5)
            } else {
                target
            }
        }),
{
    let ip = regs[IP as int];
    let next = ip_plus(ip, 1);
    assert forall|k: int| 0 <= k <= 3 implies byte_after(mem, next, k) == byte_after(mem, ip, k + 1) by {
        crate::cpu::lemma_ip_plus_add(ip, 1, k);
    }
    crate::cpu::lemma_ip_plus_add(ip, 1, 4);
    assert(byte_after(mem, next, 0) == byte_after(mem, ip, 1));
    assert(byte_after(mem, next, 1) == byte_after(mem, ip, 2));
    assert(byte_after(mem, next, 2) == byte_after(mem, ip, 3));
    assert(byte_after(mem, next, 3) == byte_after(mem, ip, 4));
}

/// A step whose `ip` lies outside memory fails with `FetchFailure` and
/// yields no byte.
pub proof fn step_outside_memory_fails(mem: Seq<u8>, regs: Seq<u16>)
    requires
        regs.len() == REGISTER_COUNT,
        regs[IP as int] >= mem.len(),
    ensures
        step_spec(mem, regs) == Err::<(Seq<u8>, Seq<u16>), CPUError>(CPUError::FetchFailure),
{
}

/// Two dumps of one machine state, with no step between them, are equal:
/// a dump only reads.
pub proof fn dumps_agree(c: &CPU, first: Seq<u16>, second: Seq<u16>)
    requires
        first == c.regs(),
        second == c.regs(),
    ensures
        first == second,
{
}

} // verus!
