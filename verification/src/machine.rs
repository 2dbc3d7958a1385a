//! Semantics of the target machine, used to state and prove what the
//! generated assembly does.
//!
//! The machine has a 16-bit address register `a`, a 16-bit data register `d`,
//! a memory of 16-bit words, and a program counter.  An address load sets
//! `a`; a compute instruction combines `d` and the memory word `mem[a]`,
//! stores the result per its destination field, and jumps to the instruction
//! index held in `a` when its jump condition holds of the result.  A label
//! definition occupies one instruction slot and does nothing; jumps target
//! the slot of the definition.  Named symbols are resolved through an
//! environment mapping each name to a 16-bit value (a register address, a
//! static cell, or a label position).

use vstd::prelude::*;

use crate::insn::{Comp, Dest, Jump, SInstr};

verus! {

/// Machine state: program counter, registers, and memory.
#[verifier::ext_equal]
pub struct MState {
    pub pc: int,
    pub a: u16,
    pub d: u16,
    pub mem: Map<u16, u16>,
}

/// Memory assigns a word to every address.
pub open spec fn mem_total(m: Map<u16, u16>) -> bool {
    forall|x: u16| m.dom().contains(x)
}

/// 16-bit wrapping sum.
pub open spec fn wrap_add(x: u16, y: u16) -> u16 {
    ((x + y) % 0x10000) as u16
}

/// 16-bit wrapping difference.
pub open spec fn wrap_sub(x: u16, y: u16) -> u16 {
    ((x + 0x10000 - y) % 0x10000) as u16
}

/// The signed value of a 16-bit word in two's complement.
pub open spec fn signed(v: u16) -> int {
    if v >= 0x8000 {
        v - 0x10000
    } else {
        v as int
    }
}

/// The value of a computation, given the registers and the word `m` at the
/// current address.
pub open spec fn eval_comp(c: Comp, a: u16, d: u16, m: u16) -> u16 {
    match c {
        Comp::Zero => 0,
        Comp::NegOne => 0xFFFF,
        Comp::JustD => d,
        Comp::JustA => a,
        Comp::JustM => m,
        Comp::NotM => (0xFFFF - m) as u16,
        Comp::NegM => wrap_sub(0, m),
        Comp::MPlusOne => wrap_add(m, 1),
        Comp::MMinusOne => wrap_sub(m, 1),
        Comp::DPlusM => wrap_add(d, m),
        Comp::MMinusD => wrap_sub(m, d),
        Comp::DPlusA => wrap_add(d, a),
        Comp::DAndM => d & m,
        Comp::DOrM => d | m,
    }
}

/// Whether a jump condition holds of a computed value.
pub open spec fn jump_taken(j: Jump, v: u16) -> bool {
    match j {
        Jump::NoJump => false,
        Jump::JMP => true,
        Jump::JEQ => v == 0,
        Jump::JNE => v != 0,
        Jump::JLT => signed(v) < 0,
        Jump::JGT => signed(v) > 0,
        Jump::JGE => signed(v) >= 0,
        Jump::JLE => signed(v) <= 0,
    }
}

/// The value a symbol resolves to; unknown symbols resolve to 0.
pub open spec fn sym_val(env: Map<Seq<char>, u16>, s: Seq<char>) -> u16 {
    if env.dom().contains(s) {
        env[s]
    } else {
        0
    }
}

/// One execution step.  Past the end of the program the state is unchanged.
pub open spec fn step(prog: Seq<SInstr>, env: Map<Seq<char>, u16>, s: MState) -> MState {
    if 0 <= s.pc < prog.len() {
        match prog[s.pc] {
            SInstr::At(n) => MState { pc: s.pc + 1, a: (n % 0x10000) as u16, ..s },
            SInstr::AtSym(name) => MState { pc: s.pc + 1, a: sym_val(env, name), ..s },
            SInstr::LabelDef(_) => MState { pc: s.pc + 1, ..s },
            SInstr::C(dest, comp, jump) => {
                let v = eval_comp(comp, s.a, s.d, s.mem[s.a]);
                let a2 = match dest {
                    Dest::RegA => v,
                    Dest::RegAM => v,
                    _ => s.a,
                };
                let d2 = if dest is RegD {
                    v
                } else {
                    s.d
                };
                let mem2 = match dest {
                    Dest::RegM => s.mem.insert(s.a, v),
                    Dest::RegAM => s.mem.insert(s.a, v),
                    _ => s.mem,
                };
                let pc2 = if jump_taken(jump, v) {
                    a2 as int
                } else {
                    s.pc + 1
                };
                MState { pc: pc2, a: a2, d: d2, mem: mem2 }
            },
        }
    } else {
        s
    }
}

/// Exactly `n` execution steps.
pub open spec fn run_n(prog: Seq<SInstr>, env: Map<Seq<char>, u16>, s: MState, n: nat) -> MState
    decreases n,
{
    if n == 0 {
        s
    } else {
        run_n(prog, env, step(prog, env, s), (n - 1) as nat)
    }
}

/// Running `m + n` steps is running `m` steps and then `n` more.
pub proof fn lemma_run_n_add(
    prog: Seq<SInstr>,
    env: Map<Seq<char>, u16>,
    s: MState,
    m: nat,
    n: nat,
)
    ensures
        run_n(prog, env, s, m + n) == run_n(prog, env, run_n(prog, env, s, m), n),
    decreases m,
{
    if m > 0 {
        lemma_run_n_add(prog, env, step(prog, env, s), (m - 1) as nat, n);
    }
}

} // verus!
