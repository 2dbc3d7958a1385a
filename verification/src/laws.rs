//! What the generated assembly does on the target machine.
//!
//! Each lemma here takes a program that embeds one emitted template at a
//! given position and states the machine state after executing it.  On top
//! of the per-template lemmas stand the end-to-end guarantees: a pushed
//! constant popped into a segment lands in that segment's cell with the
//! stack height restored, arithmetic combines the two pushed operands, and
//! comparisons push exactly the two canonical boolean encodings.

use vstd::prelude::*;

use crate::insn::{Comp, SInstr};
use crate::machine::{
    eval_comp, jump_taken, lemma_run_n_add, mem_total, run_n, signed, step, sym_val, wrap_add,
    wrap_sub, MState,
};
use crate::template::{
    spec_pop_ptr_instrs, spec_pop_reg_instrs, spec_push_ptr_instrs, spec_push_reg_instrs,
};
use crate::writer::{
    cmp_end_label, cmp_false_label, cmp_jumps, cmp_true_label, is_cmp_mnemonic,
    spec_binary_instrs, spec_cmp_instrs, spec_goto_instrs, spec_if_instrs, spec_init_instrs,
    spec_pop_static_instrs, spec_push_const_instrs, spec_push_static_instrs, spec_unary_instrs,
};

verus! {

/// The well-known register symbols: the stack pointer at address 0 and the
/// scratch register at address 13.
pub open spec fn env_regs(env: Map<Seq<char>, u16>) -> bool {
    &&& env.dom().contains("SP"@)
    &&& env["SP"@] == 0
    &&& env.dom().contains("R13"@)
    &&& env["R13"@] == 13
}

/// Effect of the `push constant k` template: the value lands on top of the
/// stack and the stack pointer moves up one word.
pub proof fn lemma_push_const_effect(
    prog: Seq<SInstr>,
    env: Map<Seq<char>, u16>,
    base: int,
    k: u64,
    s: MState,
)
    requires
        mem_total(s.mem),
        env_regs(env),
        0 <= base,
        base + 7 <= prog.len(),
        prog.subrange(base, base + 7) == spec_push_const_instrs(k),
        s.pc == base,
        15 < s.mem[0] < 0xFFFF,
    ensures
        run_n(prog, env, s, 7) == (MState {
            pc: base + 7,
            a: 0,
            d: (k % 0x10000) as u16,
            mem: s.mem.insert(s.mem[0], (k % 0x10000) as u16).insert(0, (s.mem[0] + 1) as u16),
        }),
{
    let sp = s.mem[0];
    let k16 = (k % 0x10000) as u16;
    let pci = spec_push_const_instrs(k);
    assert(forall|j: int| 0 <= j < 7 ==> prog[base + j] == #[trigger] pci[j]);
    let s1 = step(prog, env, s);
    assert(s1 == (MState { pc: base + 1, a: k16, ..s }));
    let s2 = step(prog, env, s1);
    assert(s2 == (MState { pc: base + 2, a: k16, d: k16, mem: s.mem }));
    let s3 = step(prog, env, s2);
    assert(s3 == (MState { pc: base + 3, a: 0, d: k16, mem: s.mem }));
    let s4 = step(prog, env, s3);
    assert(s4 == (MState { pc: base + 4, a: sp, d: k16, mem: s.mem }));
    let s5 = step(prog, env, s4);
    assert(s5 == (MState { pc: base + 5, a: sp, d: k16, mem: s.mem.insert(sp, k16) }));
    let s6 = step(prog, env, s5);
    assert(s6 == (MState { pc: base + 6, a: 0, d: k16, mem: s.mem.insert(sp, k16) }));
    let s7 = step(prog, env, s6);
    assert(s6.mem[0] == sp);
    assert(wrap_add(sp, 1) == (sp + 1) as u16);
    assert(s7 == (MState {
        pc: base + 7,
        a: 0,
        d: k16,
        mem: s.mem.insert(sp, k16).insert(0, (sp + 1) as u16),
    }));
    assert(run_n(prog, env, s, 7) == run_n(prog, env, s1, 6));
    assert(run_n(prog, env, s1, 6) == run_n(prog, env, s2, 5));
    assert(run_n(prog, env, s2, 5) == run_n(prog, env, s3, 4));
    assert(run_n(prog, env, s3, 4) == run_n(prog, env, s4, 3));
    assert(run_n(prog, env, s4, 3) == run_n(prog, env, s5, 2));
    assert(run_n(prog, env, s5, 2) == run_n(prog, env, s6, 1));
    assert(run_n(prog, env, s6, 1) == run_n(prog, env, s7, 0));
}

/// Effect of the `pop` template for an addressed segment: the base-register
/// cell plus the index receives the popped word, through the scratch
/// register, and the stack pointer moves down one word.
pub proof fn lemma_pop_reg_effect(
    prog: Seq<SInstr>,
    env: Map<Seq<char>, u16>,
    base: int,
    i: u64,
    reg: Seq<char>,
    regaddr: u16,
    s: MState,
)
    requires
        mem_total(s.mem),
        env_regs(env),
        env.dom().contains(reg),
        env[reg] == regaddr,
        reg != "SP"@,
        reg != "R13"@,
        0 <= base,
        base + 12 <= prog.len(),
        prog.subrange(base, base + 12) == spec_pop_reg_instrs(i, reg),
        s.pc == base,
        16 < s.mem[0],
        i + s.mem[regaddr] < 0x10000,
    ensures
        run_n(prog, env, s, 12) == (MState {
            pc: base + 12,
            a: (i + s.mem[regaddr]) as u16,
            d: s.mem[(s.mem[0] - 1) as u16],
            mem: s.mem.insert(13, (i + s.mem[regaddr]) as u16).insert(
                0,
                (s.mem[0] - 1) as u16,
            ).insert((i + s.mem[regaddr]) as u16, s.mem[(s.mem[0] - 1) as u16]),
        }),
{
    let sp = s.mem[0];
    let target = (i + s.mem[regaddr]) as u16;
    let w = s.mem[(sp - 1) as u16];
    let blk = spec_pop_reg_instrs(i, reg);
    assert(forall|j: int| 0 <= j < 12 ==> prog[base + j] == #[trigger] blk[j]);
    let i16 = (i % 0x10000) as u16;
    let s1 = step(prog, env, s);
    assert(s1 == (MState { pc: base + 1, a: i16, ..s }));
    let s2 = step(prog, env, s1);
    assert(s2 == (MState { pc: base + 2, a: i16, d: i16, mem: s.mem }));
    let s3 = step(prog, env, s2);
    assert(s3 == (MState { pc: base + 3, a: regaddr, d: i16, mem: s.mem }));
    let s4 = step(prog, env, s3);
    assert(wrap_add(i16, s.mem[regaddr]) == target);
    assert(s4 == (MState { pc: base + 4, a: regaddr, d: target, mem: s.mem }));
    let s5 = step(prog, env, s4);
    assert(s5 == (MState { pc: base + 5, a: 13, d: target, mem: s.mem }));
    let s6 = step(prog, env, s5);
    let mem1 = s.mem.insert(13, target);
    assert(s6 == (MState { pc: base + 6, a: 13, d: target, mem: mem1 }));
    let s7 = step(prog, env, s6);
    assert(s7 == (MState { pc: base + 7, a: 0, d: target, mem: mem1 }));
    let s8 = step(prog, env, s7);
    assert(mem1[0] == sp);
    assert(wrap_sub(sp, 1) == (sp - 1) as u16);
    let mem2 = mem1.insert(0, (sp - 1) as u16);
    assert(s8 == (MState { pc: base + 8, a: (sp - 1) as u16, d: target, mem: mem2 }));
    let s9 = step(prog, env, s8);
    assert(mem2[(sp - 1) as u16] == w);
    assert(s9 == (MState { pc: base + 9, a: (sp - 1) as u16, d: w, mem: mem2 }));
    let s10 = step(prog, env, s9);
    assert(s10 == (MState { pc: base + 10, a: 13, d: w, mem: mem2 }));
    let s11 = step(prog, env, s10);
    assert(mem2[13] == target);
    assert(s11 == (MState { pc: base + 11, a: target, d: w, mem: mem2 }));
    let s12 = step(prog, env, s11);
    assert(s12 == (MState { pc: base + 12, a: target, d: w, mem: mem2.insert(target, w) }));
    assert(run_n(prog, env, s, 12) == run_n(prog, env, s1, 11));
    assert(run_n(prog, env, s1, 11) == run_n(prog, env, s2, 10));
    assert(run_n(prog, env, s2, 10) == run_n(prog, env, s3, 9));
    assert(run_n(prog, env, s3, 9) == run_n(prog, env, s4, 8));
    assert(run_n(prog, env, s4, 8) == run_n(prog, env, s5, 7));
    assert(run_n(prog, env, s5, 7) == run_n(prog, env, s6, 6));
    assert(run_n(prog, env, s6, 6) == run_n(prog, env, s7, 5));
    assert(run_n(prog, env, s7, 5) == run_n(prog, env, s8, 4));
    assert(run_n(prog, env, s8, 4) == run_n(prog, env, s9, 3));
    assert(run_n(prog, env, s9, 3) == run_n(prog, env, s10, 2));
    assert(run_n(prog, env, s10, 2) == run_n(prog, env, s11, 1));
    assert(run_n(prog, env, s11, 1) == run_n(prog, env, s12, 0));
}

/// Effect of the `pop` template for a direct segment: the absolute cell
/// `base address + index` receives the popped word.
pub proof fn lemma_pop_ptr_effect(
    prog: Seq<SInstr>,
    env: Map<Seq<char>, u16>,
    base: int,
    i: u64,
    b: u64,
    s: MState,
)
    requires
        mem_total(s.mem),
        env_regs(env),
        0 <= base,
        base + 12 <= prog.len(),
        prog.subrange(base, base + 12) == spec_pop_ptr_instrs(i, b),
        s.pc == base,
        16 < s.mem[0],
        i + b < 0x10000,
    ensures
        run_n(prog, env, s, 12) == (MState {
            pc: base + 12,
            a: (i + b) as u16,
            d: s.mem[(s.mem[0] - 1) as u16],
            mem: s.mem.insert(13, (i + b) as u16).insert(0, (s.mem[0] - 1) as u16).insert(
                (i + b) as u16,
                s.mem[(s.mem[0] - 1) as u16],
            ),
        }),
{
    let sp = s.mem[0];
    let target = (i + b) as u16;
    let w = s.mem[(sp - 1) as u16];
    let blk = spec_pop_ptr_instrs(i, b);
    assert(forall|j: int| 0 <= j < 12 ==> prog[base + j] == #[trigger] blk[j]);
    let i16 = (i % 0x10000) as u16;
    let b16 = (b % 0x10000) as u16;
    let s1 = step(prog, env, s);
    assert(s1 == (MState { pc: base + 1, a: i16, ..s }));
    let s2 = step(prog, env, s1);
    assert(s2 == (MState { pc: base + 2, a: i16, d: i16, mem: s.mem }));
    let s3 = step(prog, env, s2);
    assert(s3 == (MState { pc: base + 3, a: b16, d: i16, mem: s.mem }));
    let s4 = step(prog, env, s3);
    assert(wrap_add(i16, b16) == target);
    assert(s4 == (MState { pc: base + 4, a: b16, d: target, mem: s.mem }));
    let s5 = step(prog, env, s4);
    assert(s5 == (MState { pc: base + 5, a: 13, d: target, mem: s.mem }));
    let s6 = step(prog, env, s5);
    let mem1 = s.mem.insert(13, target);
    assert(s6 == (MState { pc: base + 6, a: 13, d: target, mem: mem1 }));
    let s7 = step(prog, env, s6);
    assert(s7 == (MState { pc: base + 7, a: 0, d: target, mem: mem1 }));
    let s8 = step(prog, env, s7);
    assert(mem1[0] == sp);
    assert(wrap_sub(sp, 1) == (sp - 1) as u16);
    let mem2 = mem1.insert(0, (sp - 1) as u16);
    assert(s8 == (MState { pc: base + 8, a: (sp - 1) as u16, d: target, mem: mem2 }));
    let s9 = step(prog, env, s8);
    assert(mem2[(sp - 1) as u16] == w);
    assert(s9 == (MState { pc: base + 9, a: (sp - 1) as u16, d: w, mem: mem2 }));
    let s10 = step(prog, env, s9);
    assert(s10 == (MState { pc: base + 10, a: 13, d: w, mem: mem2 }));
    let s11 = step(prog, env, s10);
    assert(mem2[13] == target);
    assert(s11 == (MState { pc: base + 11, a: target, d: w, mem: mem2 }));
    let s12 = step(prog, env, s11);
    assert(s12 == (MState { pc: base + 12, a: target, d: w, mem: mem2.insert(target, w) }));
    assert(run_n(prog, env, s, 12) == run_n(prog, env, s1, 11));
    assert(run_n(prog, env, s1, 11) == run_n(prog, env, s2, 10));
    assert(run_n(prog, env, s2, 10) == run_n(prog, env, s3, 9));
    assert(run_n(prog, env, s3, 9) == run_n(prog, env, s4, 8));
    assert(run_n(prog, env, s4, 8) == run_n(prog, env, s5, 7));
    assert(run_n(prog, env, s5, 7) == run_n(prog, env, s6, 6));
    assert(run_n(prog, env, s6, 6) == run_n(prog, env, s7, 5));
    assert(run_n(prog, env, s7, 5) == run_n(prog, env, s8, 4));
    assert(run_n(prog, env, s8, 4) == run_n(prog, env, s9, 3));
    assert(run_n(prog, env, s9, 3) == run_n(prog, env, s10, 2));
    assert(run_n(prog, env, s10, 2) == run_n(prog, env, s11, 1));
    assert(run_n(prog, env, s11, 1) == run_n(prog, env, s12, 0));
}

/// Effect of the `pop static` template: the cell the namespaced symbol
/// resolves to receives the popped word.
pub proof fn lemma_pop_static_effect(
    prog: Seq<SInstr>,
    env: Map<Seq<char>, u16>,
    base: int,
    unit: Seq<char>,
    i: u64,
    s: MState,
)
    requires
        mem_total(s.mem),
        env_regs(env),
        env.dom().contains(crate::writer::static_sym(unit, i as nat)),
        0 <= base,
        base + 5 <= prog.len(),
        prog.subrange(base, base + 5) == spec_pop_static_instrs(unit, i),
        s.pc == base,
        16 < s.mem[0],
    ensures
        run_n(prog, env, s, 5) == (MState {
            pc: base + 5,
            a: env[crate::writer::static_sym(unit, i as nat)],
            d: s.mem[(s.mem[0] - 1) as u16],
            mem: s.mem.insert(0, (s.mem[0] - 1) as u16).insert(
                env[crate::writer::static_sym(unit, i as nat)],
                s.mem[(s.mem[0] - 1) as u16],
            ),
        }),
{
    let sp = s.mem[0];
    let w = s.mem[(sp - 1) as u16];
    let sym = crate::writer::static_sym(unit, i as nat);
    let addr = env[sym];
    let blk = spec_pop_static_instrs(unit, i);
    assert(forall|j: int| 0 <= j < 5 ==> prog[base + j] == #[trigger] blk[j]);
    let s1 = step(prog, env, s);
    assert(s1 == (MState { pc: base + 1, a: 0, ..s }));
    let s2 = step(prog, env, s1);
    assert(wrap_sub(sp, 1) == (sp - 1) as u16);
    let mem1 = s.mem.insert(0, (sp - 1) as u16);
    assert(s2 == (MState { pc: base + 2, a: (sp - 1) as u16, d: s.d, mem: mem1 }));
    let s3 = step(prog, env, s2);
    assert(mem1[(sp - 1) as u16] == w);
    assert(s3 == (MState { pc: base + 3, a: (sp - 1) as u16, d: w, mem: mem1 }));
    let s4 = step(prog, env, s3);
    assert(s4 == (MState { pc: base + 4, a: addr, d: w, mem: mem1 }));
    let s5 = step(prog, env, s4);
    assert(s5 == (MState { pc: base + 5, a: addr, d: w, mem: mem1.insert(addr, w) }));
    assert(run_n(prog, env, s, 5) == run_n(prog, env, s1, 4));
    assert(run_n(prog, env, s1, 4) == run_n(prog, env, s2, 3));
    assert(run_n(prog, env, s2, 3) == run_n(prog, env, s3, 2));
    assert(run_n(prog, env, s3, 2) == run_n(prog, env, s4, 1));
    assert(run_n(prog, env, s4, 1) == run_n(prog, env, s5, 0));
}

/// Effect of a binary arithmetic-logical template: the two top words are
/// replaced by their combination and the stack shrinks by one word.  The
/// first-pushed operand stands as the memory operand, the second-pushed as
/// the data register.
pub proof fn lemma_binary_effect(
    prog: Seq<SInstr>,
    env: Map<Seq<char>, u16>,
    base: int,
    comp: Comp,
    s: MState,
)
    requires
        mem_total(s.mem),
        env_regs(env),
        0 <= base,
        base + 8 <= prog.len(),
        prog.subrange(base, base + 8) == spec_binary_instrs(comp),
        s.pc == base,
        17 < s.mem[0],
    ensures
        ({
            let sp = s.mem[0];
            let y = s.mem[(sp - 1) as u16];
            let x = s.mem[(sp - 2) as u16];
            let res = eval_comp(comp, (sp - 2) as u16, y, x);
            run_n(prog, env, s, 8) == (MState {
                pc: base + 8,
                a: 0,
                d: y,
                mem: s.mem.insert(0, (sp - 1) as u16).insert(0, (sp - 2) as u16).insert(
                    (sp - 2) as u16,
                    res,
                ).insert(0, (sp - 1) as u16),
            })
        }),
{
    let sp = s.mem[0];
    let y = s.mem[(sp - 1) as u16];
    let x = s.mem[(sp - 2) as u16];
    let res = eval_comp(comp, (sp - 2) as u16, y, x);
    let blk = spec_binary_instrs(comp);
    assert(forall|j: int| 0 <= j < 8 ==> prog[base + j] == #[trigger] blk[j]);
    let s1 = step(prog, env, s);
    assert(s1 == (MState { pc: base + 1, a: 0, ..s }));
    let s2 = step(prog, env, s1);
    assert(wrap_sub(sp, 1) == (sp - 1) as u16);
    let mem1 = s.mem.insert(0, (sp - 1) as u16);
    assert(s2 == (MState { pc: base + 2, a: (sp - 1) as u16, d: s.d, mem: mem1 }));
    let s3 = step(prog, env, s2);
    assert(mem1[(sp - 1) as u16] == y);
    assert(s3 == (MState { pc: base + 3, a: (sp - 1) as u16, d: y, mem: mem1 }));
    let s4 = step(prog, env, s3);
    assert(s4 == (MState { pc: base + 4, a: 0, d: y, mem: mem1 }));
    let s5 = step(prog, env, s4);
    assert(mem1[0] == (sp - 1) as u16);
    assert(wrap_sub((sp - 1) as u16, 1) == (sp - 2) as u16);
    let mem2 = mem1.insert(0, (sp - 2) as u16);
    assert(s5 == (MState { pc: base + 5, a: (sp - 2) as u16, d: y, mem: mem2 }));
    let s6 = step(prog, env, s5);
    assert(mem2[(sp - 2) as u16] == x);
    let mem3 = mem2.insert((sp - 2) as u16, res);
    assert(s6 == (MState { pc: base + 6, a: (sp - 2) as u16, d: y, mem: mem3 }));
    let s7 = step(prog, env, s6);
    assert(s7 == (MState { pc: base + 7, a: 0, d: y, mem: mem3 }));
    let s8 = step(prog, env, s7);
    assert(mem3[0] == (sp - 2) as u16);
    assert(wrap_add((sp - 2) as u16, 1) == (sp - 1) as u16);
    assert(s8 == (MState { pc: base + 8, a: 0, d: y, mem: mem3.insert(0, (sp - 1) as u16) }));
    assert(run_n(prog, env, s, 8) == run_n(prog, env, s1, 7));
    assert(run_n(prog, env, s1, 7) == run_n(prog, env, s2, 6));
    assert(run_n(prog, env, s2, 6) == run_n(prog, env, s3, 5));
    assert(run_n(prog, env, s3, 5) == run_n(prog, env, s4, 4));
    assert(run_n(prog, env, s4, 4) == run_n(prog, env, s5, 3));
    assert(run_n(prog, env, s5, 3) == run_n(prog, env, s6, 2));
    assert(run_n(prog, env, s6, 2) == run_n(prog, env, s7, 1));
    assert(run_n(prog, env, s7, 1) == run_n(prog, env, s8, 0));
}

/// Effect of a comparison template: the two top words are replaced by the
/// canonical boolean encoding of the comparison of their signed difference
/// with zero — all-ones where the comparison holds, all-zero otherwise —
/// and the stack shrinks by one word.
pub proof fn lemma_cmp_effect(
    prog: Seq<SInstr>,
    env: Map<Seq<char>, u16>,
    base: int,
    op: Seq<char>,
    n: nat,
    s: MState,
)
    requires
        mem_total(s.mem),
        env_regs(env),
        is_cmp_mnemonic(op),
        env.dom().contains(cmp_true_label(op, n)),
        env[cmp_true_label(op, n)] == (base + 10) as u16,
        env.dom().contains(cmp_false_label(op, n)),
        env[cmp_false_label(op, n)] == (base + 14) as u16,
        env.dom().contains(cmp_end_label(op, n)),
        env[cmp_end_label(op, n)] == (base + 16) as u16,
        0 <= base,
        base + 22 <= prog.len(),
        base + 22 <= 0x10000,
        prog.subrange(base, base + 22) == spec_cmp_instrs(op, n),
        s.pc == base,
        17 < s.mem[0],
    ensures
        ({
            let sp = s.mem[0];
            let y = s.mem[(sp - 1) as u16];
            let x = s.mem[(sp - 2) as u16];
            let diff = wrap_sub(x, y);
            let word: u16 = if jump_taken(cmp_jumps(op).0, diff) {
                0xFFFF
            } else {
                0
            };
            run_n(prog, env, s, 18) == (MState {
                pc: base + 22,
                a: 0,
                d: word,
                mem: s.mem.insert(0, (sp - 1) as u16).insert(0, (sp - 2) as u16).insert(
                    (sp - 2) as u16,
                    word,
                ).insert(0, (sp - 1) as u16),
            })
        }),
{
    let sp = s.mem[0];
    let y = s.mem[(sp - 1) as u16];
    let x = s.mem[(sp - 2) as u16];
    let diff = wrap_sub(x, y);
    let tj = cmp_jumps(op).0;
    let fj = cmp_jumps(op).1;
    assert(jump_taken(fj, diff) == !jump_taken(tj, diff));
    let word: u16 = if jump_taken(tj, diff) {
        0xFFFF
    } else {
        0
    };
    let blk = spec_cmp_instrs(op, n);
    assert(forall|j: int| 0 <= j < 22 ==> prog[base + j] == #[trigger] blk[j]);
    let s1 = step(prog, env, s);
    assert(s1 == (MState { pc: base + 1, a: 0, ..s }));
    let s2 = step(prog, env, s1);
    assert(wrap_sub(sp, 1) == (sp - 1) as u16);
    let mem1 = s.mem.insert(0, (sp - 1) as u16);
    assert(s2 == (MState { pc: base + 2, a: (sp - 1) as u16, d: s.d, mem: mem1 }));
    let s3 = step(prog, env, s2);
    assert(mem1[(sp - 1) as u16] == y);
    assert(s3 == (MState { pc: base + 3, a: (sp - 1) as u16, d: y, mem: mem1 }));
    let s4 = step(prog, env, s3);
    assert(s4 == (MState { pc: base + 4, a: 0, d: y, mem: mem1 }));
    let s5 = step(prog, env, s4);
    assert(mem1[0] == (sp - 1) as u16);
    assert(wrap_sub((sp - 1) as u16, 1) == (sp - 2) as u16);
    let mem2 = mem1.insert(0, (sp - 2) as u16);
    assert(s5 == (MState { pc: base + 5, a: (sp - 2) as u16, d: y, mem: mem2 }));
    let s6 = step(prog, env, s5);
    assert(mem2[(sp - 2) as u16] == x);
    assert(s6 == (MState { pc: base + 6, a: (sp - 2) as u16, d: diff, mem: mem2 }));
    let s7 = step(prog, env, s6);
    assert(s7 == (MState { pc: base + 7, a: (base + 10) as u16, d: diff, mem: mem2 }));
    let s8 = step(prog, env, s7);
    assert(run_n(prog, env, s, 18) == run_n(prog, env, s1, 17));
    assert(run_n(prog, env, s1, 17) == run_n(prog, env, s2, 16));
    assert(run_n(prog, env, s2, 16) == run_n(prog, env, s3, 15));
    assert(run_n(prog, env, s3, 15) == run_n(prog, env, s4, 14));
    assert(run_n(prog, env, s4, 14) == run_n(prog, env, s5, 13));
    assert(run_n(prog, env, s5, 13) == run_n(prog, env, s6, 12));
    assert(run_n(prog, env, s6, 12) == run_n(prog, env, s7, 11));
    assert(run_n(prog, env, s7, 11) == run_n(prog, env, s8, 10));
    let mem3 = mem2.insert((sp - 2) as u16, word);
    let target = MState {
        pc: base + 22,
        a: 0,
        d: word,
        mem: mem3.insert(0, (sp - 1) as u16),
    };
    if jump_taken(tj, diff) {
        // the first conditional jump is taken, to the true branch
        assert(s8 == (MState { pc: base + 10, a: (base + 10) as u16, d: diff, mem: mem2 }));
        let s9 = step(prog, env, s8);
        assert(s9 == (MState { pc: base + 11, a: (base + 10) as u16, d: diff, mem: mem2 }));
        let s10 = step(prog, env, s9);
        assert(s10 == (MState { pc: base + 12, a: (base + 10) as u16, d: 0xFFFF, mem: mem2 }));
        let s11 = step(prog, env, s10);
        assert(s11 == (MState { pc: base + 13, a: (base + 16) as u16, d: 0xFFFF, mem: mem2 }));
        let s12 = step(prog, env, s11);
        assert(s12 == (MState { pc: base + 16, a: (base + 16) as u16, d: 0xFFFF, mem: mem2 }));
        let s13 = step(prog, env, s12);
        assert(s13 == (MState { pc: base + 17, a: (base + 16) as u16, d: 0xFFFF, mem: mem2 }));
        let s14 = step(prog, env, s13);
        assert(s14 == (MState { pc: base + 18, a: 0, d: 0xFFFF, mem: mem2 }));
        let s15 = step(prog, env, s14);
        assert(mem2[0] == (sp - 2) as u16);
        assert(s15 == (MState { pc: base + 19, a: (sp - 2) as u16, d: 0xFFFF, mem: mem2 }));
        let s16 = step(prog, env, s15);
        assert(s16 == (MState { pc: base + 20, a: (sp - 2) as u16, d: 0xFFFF, mem: mem3 }));
        let s17 = step(prog, env, s16);
        assert(s17 == (MState { pc: base + 21, a: 0, d: 0xFFFF, mem: mem3 }));
        let s18 = step(prog, env, s17);
        assert(mem3[0] == (sp - 2) as u16);
        assert(wrap_add((sp - 2) as u16, 1) == (sp - 1) as u16);
        assert(s18 == target);
        assert(run_n(prog, env, s8, 10) == run_n(prog, env, s9, 9));
        assert(run_n(prog, env, s9, 9) == run_n(prog, env, s10, 8));
        assert(run_n(prog, env, s10, 8) == run_n(prog, env, s11, 7));
        assert(run_n(prog, env, s11, 7) == run_n(prog, env, s12, 6));
        assert(run_n(prog, env, s12, 6) == run_n(prog, env, s13, 5));
        assert(run_n(prog, env, s13, 5) == run_n(prog, env, s14, 4));
        assert(run_n(prog, env, s14, 4) == run_n(prog, env, s15, 3));
        assert(run_n(prog, env, s15, 3) == run_n(prog, env, s16, 2));
        assert(run_n(prog, env, s16, 2) == run_n(prog, env, s17, 1));
        assert(run_n(prog, env, s17, 1) == run_n(prog, env, s18, 0));
    } else {
        // the first conditional jump falls through; the second is taken,
        // to the false branch
        assert(s8 == (MState { pc: base + 8, a: (base + 10) as u16, d: diff, mem: mem2 }));
        let s9 = step(prog, env, s8);
        assert(s9 == (MState { pc: base + 9, a: (base + 14) as u16, d: diff, mem: mem2 }));
        let s10 = step(prog, env, s9);
        assert(s10 == (MState { pc: base + 14, a: (base + 14) as u16, d: diff, mem: mem2 }));
        let s11 = step(prog, env, s10);
        assert(s11 == (MState { pc: base + 15, a: (base + 14) as u16, d: diff, mem: mem2 }));
        let s12 = step(prog, env, s11);
        assert(s12 == (MState { pc: base + 16, a: (base + 14) as u16, d: 0, mem: mem2 }));
        let s13 = step(prog, env, s12);
        assert(s13 == (MState { pc: base + 17, a: (base + 14) as u16, d: 0, mem: mem2 }));
        let s14 = step(prog, env, s13);
        assert(s14 == (MState { pc: base + 18, a: 0, d: 0, mem: mem2 }));
        let s15 = step(prog, env, s14);
        assert(mem2[0] == (sp - 2) as u16);
        assert(s15 == (MState { pc: base + 19, a: (sp - 2) as u16, d: 0, mem: mem2 }));
        let s16 = step(prog, env, s15);
        assert(s16 == (MState { pc: base + 20, a: (sp - 2) as u16, d: 0, mem: mem3 }));
        let s17 = step(prog, env, s16);
        assert(s17 == (MState { pc: base + 21, a: 0, d: 0, mem: mem3 }));
        let s18 = step(prog, env, s17);
        assert(mem3[0] == (sp - 2) as u16);
        assert(wrap_add((sp - 2) as u16, 1) == (sp - 1) as u16);
        assert(s18 == target);
        assert(run_n(prog, env, s8, 10) == run_n(prog, env, s9, 9));
        assert(run_n(prog, env, s9, 9) == run_n(prog, env, s10, 8));
        assert(run_n(prog, env, s10, 8) == run_n(prog, env, s11, 7));
        assert(run_n(prog, env, s11, 7) == run_n(prog, env, s12, 6));
        assert(run_n(prog, env, s12, 6) == run_n(prog, env, s13, 5));
        assert(run_n(prog, env, s13, 5) == run_n(prog, env, s14, 4));
        assert(run_n(prog, env, s14, 4) == run_n(prog, env, s15, 3));
        assert(run_n(prog, env, s15, 3) == run_n(prog, env, s16, 2));
        assert(run_n(prog, env, s16, 2) == run_n(prog, env, s17, 1));
        assert(run_n(prog, env, s17, 1) == run_n(prog, env, s18, 0));
    }
}

/// Effect of the `push` template for an addressed segment: the word at
/// `mem[reg] + index` lands on top of the stack and the stack pointer moves
/// up one word.
pub proof fn lemma_push_reg_effect(
    prog: Seq<SInstr>,
    env: Map<Seq<char>, u16>,
    base: int,
    i: u64,
    reg: Seq<char>,
    regaddr: u16,
    s: MState,
)
    requires
        mem_total(s.mem),
        env_regs(env),
        env.dom().contains(reg),
        env[reg] == regaddr,
        0 <= base,
        base + 14 <= prog.len(),
        prog.subrange(base, base + 14) == spec_push_reg_instrs(i, reg),
        s.pc == base,
        15 < s.mem[0] < 0xFFFF,
        i + s.mem[regaddr] < 0x10000,
        i + s.mem[regaddr] != 13,
    ensures
        run_n(prog, env, s, 14) == (MState {
            pc: base + 14,
            a: 0,
            d: s.mem[(i + s.mem[regaddr]) as u16],
            mem: s.mem.insert(13, (i + s.mem[regaddr]) as u16).insert(
                s.mem[0],
                s.mem[(i + s.mem[regaddr]) as u16],
            ).insert(0, (s.mem[0] + 1) as u16),
        }),
{
    let sp = s.mem[0];
    let target = (i + s.mem[regaddr]) as u16;
    let v = s.mem[target];
    let blk = spec_push_reg_instrs(i, reg);
    assert(forall|j: int| 0 <= j < 14 ==> prog[base + j] == #[trigger] blk[j]);
    let i16 = (i % 0x10000) as u16;
    let s1 = step(prog, env, s);
    assert(s1 == (MState { pc: base + 1, a: i16, ..s }));
    let s2 = step(prog, env, s1);
    assert(s2 == (MState { pc: base + 2, a: i16, d: i16, mem: s.mem }));
    let s3 = step(prog, env, s2);
    assert(s3 == (MState { pc: base + 3, a: regaddr, d: i16, mem: s.mem }));
    let s4 = step(prog, env, s3);
    assert(wrap_add(i16, s.mem[regaddr]) == target);
    assert(s4 == (MState { pc: base + 4, a: regaddr, d: target, mem: s.mem }));
    let s5 = step(prog, env, s4);
    assert(s5 == (MState { pc: base + 5, a: 13, d: target, mem: s.mem }));
    let s6 = step(prog, env, s5);
    let mem1 = s.mem.insert(13, target);
    assert(s6 == (MState { pc: base + 6, a: 13, d: target, mem: mem1 }));
    let s7 = step(prog, env, s6);
    assert(s7 == (MState { pc: base + 7, a: 13, d: target, mem: mem1 }));
    let s8 = step(prog, env, s7);
    assert(mem1[13] == target);
    assert(s8 == (MState { pc: base + 8, a: target, d: target, mem: mem1 }));
    let s9 = step(prog, env, s8);
    assert(mem1[target] == v);
    assert(s9 == (MState { pc: base + 9, a: target, d: v, mem: mem1 }));
    let s10 = step(prog, env, s9);
    assert(s10 == (MState { pc: base + 10, a: 0, d: v, mem: mem1 }));
    let s11 = step(prog, env, s10);
    assert(mem1[0] == sp);
    assert(s11 == (MState { pc: base + 11, a: sp, d: v, mem: mem1 }));
    let s12 = step(prog, env, s11);
    let mem2 = mem1.insert(sp, v);
    assert(s12 == (MState { pc: base + 12, a: sp, d: v, mem: mem2 }));
    let s13 = step(prog, env, s12);
    assert(s13 == (MState { pc: base + 13, a: 0, d: v, mem: mem2 }));
    let s14 = step(prog, env, s13);
    assert(mem2[0] == sp);
    assert(wrap_add(sp, 1) == (sp + 1) as u16);
    assert(s14 == (MState { pc: base + 14, a: 0, d: v, mem: mem2.insert(0, (sp + 1) as u16) }));
    assert(run_n(prog, env, s, 14) == run_n(prog, env, s1, 13));
    assert(run_n(prog, env, s1, 13) == run_n(prog, env, s2, 12));
    assert(run_n(prog, env, s2, 12) == run_n(prog, env, s3, 11));
    assert(run_n(prog, env, s3, 11) == run_n(prog, env, s4, 10));
    assert(run_n(prog, env, s4, 10) == run_n(prog, env, s5, 9));
    assert(run_n(prog, env, s5, 9) == run_n(prog, env, s6, 8));
    assert(run_n(prog, env, s6, 8) == run_n(prog, env, s7, 7));
    assert(run_n(prog, env, s7, 7) == run_n(prog, env, s8, 6));
    assert(run_n(prog, env, s8, 6) == run_n(prog, env, s9, 5));
    assert(run_n(prog, env, s9, 5) == run_n(prog, env, s10, 4));
    assert(run_n(prog, env, s10, 4) == run_n(prog, env, s11, 3));
    assert(run_n(prog, env, s11, 3) == run_n(prog, env, s12, 2));
    assert(run_n(prog, env, s12, 2) == run_n(prog, env, s13, 1));
    assert(run_n(prog, env, s13, 1) == run_n(prog, env, s14, 0));
}

/// Effect of the `push` template for a direct segment: the word at the
/// absolute cell `base address + index` lands on top of the stack.
pub proof fn lemma_push_ptr_effect(
    prog: Seq<SInstr>,
    env: Map<Seq<char>, u16>,
    base: int,
    i: u64,
    b: u64,
    s: MState,
)
    requires
        mem_total(s.mem),
        env_regs(env),
        0 <= base,
        base + 14 <= prog.len(),
        prog.subrange(base, base + 14) == spec_push_ptr_instrs(i, b),
        s.pc == base,
        15 < s.mem[0] < 0xFFFF,
        i + b < 0x10000,
        i + b != 13,
    ensures
        run_n(prog, env, s, 14) == (MState {
            pc: base + 14,
            a: 0,
            d: s.mem[(i + b) as u16],
            mem: s.mem.insert(13, (i + b) as u16).insert(s.mem[0], s.mem[(i + b) as u16]).insert(
                0,
                (s.mem[0] + 1) as u16,
            ),
        }),
{
    let sp = s.mem[0];
    let target = (i + b) as u16;
    let v = s.mem[target];
    let blk = spec_push_ptr_instrs(i, b);
    assert(forall|j: int| 0 <= j < 14 ==> prog[base + j] == #[trigger] blk[j]);
    let i16 = (i % 0x10000) as u16;
    let b16 = (b % 0x10000) as u16;
    let s1 = step(prog, env, s);
    assert(s1 == (MState { pc: base + 1, a: i16, ..s }));
    let s2 = step(prog, env, s1);
    assert(s2 == (MState { pc: base + 2, a: i16, d: i16, mem: s.mem }));
    let s3 = step(prog, env, s2);
    assert(s3 == (MState { pc: base + 3, a: b16, d: i16, mem: s.mem }));
    let s4 = step(prog, env, s3);
    assert(wrap_add(i16, b16) == target);
    assert(s4 == (MState { pc: base + 4, a: b16, d: target, mem: s.mem }));
    let s5 = step(prog, env, s4);
    assert(s5 == (MState { pc: base + 5, a: 13, d: target, mem: s.mem }));
    let s6 = step(prog, env, s5);
    let mem1 = s.mem.insert(13, target);
    assert(s6 == (MState { pc: base + 6, a: 13, d: target, mem: mem1 }));
    let s7 = step(prog, env, s6);
    assert(s7 == (MState { pc: base + 7, a: 13, d: target, mem: mem1 }));
    let s8 = step(prog, env, s7);
    assert(mem1[13] == target);
    assert(s8 == (MState { pc: base + 8, a: target, d: target, mem: mem1 }));
    let s9 = step(prog, env, s8);
    assert(mem1[target] == v);
    assert(s9 == (MState { pc: base + 9, a: target, d: v, mem: mem1 }));
    let s10 = step(prog, env, s9);
    assert(s10 == (MState { pc: base + 10, a: 0, d: v, mem: mem1 }));
    let s11 = step(prog, env, s10);
    assert(mem1[0] == sp);
    assert(s11 == (MState { pc: base + 11, a: sp, d: v, mem: mem1 }));
    let s12 = step(prog, env, s11);
    let mem2 = mem1.insert(sp, v);
    assert(s12 == (MState { pc: base + 12, a: sp, d: v, mem: mem2 }));
    let s13 = step(prog, env, s12);
    assert(s13 == (MState { pc: base + 13, a: 0, d: v, mem: mem2 }));
    let s14 = step(prog, env, s13);
    assert(mem2[0] == sp);
    assert(wrap_add(sp, 1) == (sp + 1) as u16);
    assert(s14 == (MState { pc: base + 14, a: 0, d: v, mem: mem2.insert(0, (sp + 1) as u16) }));
    assert(run_n(prog, env, s, 14) == run_n(prog, env, s1, 13));
    assert(run_n(prog, env, s1, 13) == run_n(prog, env, s2, 12));
    assert(run_n(prog, env, s2, 12) == run_n(prog, env, s3, 11));
    assert(run_n(prog, env, s3, 11) == run_n(prog, env, s4, 10));
    assert(run_n(prog, env, s4, 10) == run_n(prog, env, s5, 9));
    assert(run_n(prog, env, s5, 9) == run_n(prog, env, s6, 8));
    assert(run_n(prog, env, s6, 8) == run_n(prog, env, s7, 7));
    assert(run_n(prog, env, s7, 7) == run_n(prog, env, s8, 6));
    assert(run_n(prog, env, s8, 6) == run_n(prog, env, s9, 5));
    assert(run_n(prog, env, s9, 5) == run_n(prog, env, s10, 4));
    assert(run_n(prog, env, s10, 4) == run_n(prog, env, s11, 3));
    assert(run_n(prog, env, s11, 3) == run_n(prog, env, s12, 2));
    assert(run_n(prog, env, s12, 2) == run_n(prog, env, s13, 1));
    assert(run_n(prog, env, s13, 1) == run_n(prog, env, s14, 0));
}

/// Effect of the `push static` template: the word in the cell the
/// namespaced symbol resolves to lands on top of the stack.
pub proof fn lemma_push_static_effect(
    prog: Seq<SInstr>,
    env: Map<Seq<char>, u16>,
    base: int,
    unit: Seq<char>,
    i: u64,
    s: MState,
)
    requires
        mem_total(s.mem),
        env_regs(env),
        env.dom().contains(crate::writer::static_sym(unit, i as nat)),
        0 <= base,
        base + 7 <= prog.len(),
        prog.subrange(base, base + 7) == spec_push_static_instrs(unit, i),
        s.pc == base,
        15 < s.mem[0] < 0xFFFF,
    ensures
        run_n(prog, env, s, 7) == (MState {
            pc: base + 7,
            a: 0,
            d: s.mem[env[crate::writer::static_sym(unit, i as nat)]],
            mem: s.mem.insert(
                s.mem[0],
                s.mem[env[crate::writer::static_sym(unit, i as nat)]],
            ).insert(0, (s.mem[0] + 1) as u16),
        }),
{
    let sp = s.mem[0];
    let sym = crate::writer::static_sym(unit, i as nat);
    let addr = env[sym];
    let v = s.mem[addr];
    let blk = spec_push_static_instrs(unit, i);
    assert(forall|j: int| 0 <= j < 7 ==> prog[base + j] == #[trigger] blk[j]);
    let s1 = step(prog, env, s);
    assert(sym_val(env, sym) == addr);
    assert(s1 == (MState { pc: base + 1, a: addr, ..s }));
    let s2 = step(prog, env, s1);
    assert(s2 == (MState { pc: base + 2, a: addr, d: v, mem: s.mem }));
    let s3 = step(prog, env, s2);
    assert(s3 == (MState { pc: base + 3, a: 0, d: v, mem: s.mem }));
    let s4 = step(prog, env, s3);
    assert(s4 == (MState { pc: base + 4, a: sp, d: v, mem: s.mem }));
    let s5 = step(prog, env, s4);
    let mem1 = s.mem.insert(sp, v);
    assert(s5 == (MState { pc: base + 5, a: sp, d: v, mem: mem1 }));
    let s6 = step(prog, env, s5);
    assert(s6 == (MState { pc: base + 6, a: 0, d: v, mem: mem1 }));
    let s7 = step(prog, env, s6);
    assert(mem1[0] == sp);
    assert(wrap_add(sp, 1) == (sp + 1) as u16);
    assert(s7 == (MState { pc: base + 7, a: 0, d: v, mem: mem1.insert(0, (sp + 1) as u16) }));
    assert(run_n(prog, env, s, 7) == run_n(prog, env, s1, 6));
    assert(run_n(prog, env, s1, 6) == run_n(prog, env, s2, 5));
    assert(run_n(prog, env, s2, 5) == run_n(prog, env, s3, 4));
    assert(run_n(prog, env, s3, 4) == run_n(prog, env, s4, 3));
    assert(run_n(prog, env, s4, 3) == run_n(prog, env, s5, 2));
    assert(run_n(prog, env, s5, 2) == run_n(prog, env, s6, 1));
    assert(run_n(prog, env, s6, 1) == run_n(prog, env, s7, 0));
}

/// Effect of a unary arithmetic-logical template: the top word is
/// transformed in place and the stack height is unchanged.
pub proof fn lemma_unary_effect(
    prog: Seq<SInstr>,
    env: Map<Seq<char>, u16>,
    base: int,
    comp: Comp,
    s: MState,
)
    requires
        mem_total(s.mem),
        env_regs(env),
        0 <= base,
        base + 5 <= prog.len(),
        prog.subrange(base, base + 5) == spec_unary_instrs(comp),
        s.pc == base,
        16 < s.mem[0],
    ensures
        ({
            let sp = s.mem[0];
            let top = s.mem[(sp - 1) as u16];
            let res = eval_comp(comp, (sp - 1) as u16, s.d, top);
            run_n(prog, env, s, 5) == (MState {
                pc: base + 5,
                a: 0,
                d: s.d,
                mem: s.mem.insert(0, (sp - 1) as u16).insert((sp - 1) as u16, res).insert(0, sp),
            })
        }),
{
    let sp = s.mem[0];
    let top = s.mem[(sp - 1) as u16];
    let res = eval_comp(comp, (sp - 1) as u16, s.d, top);
    let blk = spec_unary_instrs(comp);
    assert(forall|j: int| 0 <= j < 5 ==> prog[base + j] == #[trigger] blk[j]);
    let s1 = step(prog, env, s);
    assert(s1 == (MState { pc: base + 1, a: 0, ..s }));
    let s2 = step(prog, env, s1);
    assert(wrap_sub(sp, 1) == (sp - 1) as u16);
    let mem1 = s.mem.insert(0, (sp - 1) as u16);
    assert(s2 == (MState { pc: base + 2, a: (sp - 1) as u16, d: s.d, mem: mem1 }));
    let s3 = step(prog, env, s2);
    assert(mem1[(sp - 1) as u16] == top);
    let mem2 = mem1.insert((sp - 1) as u16, res);
    assert(s3 == (MState { pc: base + 3, a: (sp - 1) as u16, d: s.d, mem: mem2 }));
    let s4 = step(prog, env, s3);
    assert(s4 == (MState { pc: base + 4, a: 0, d: s.d, mem: mem2 }));
    let s5 = step(prog, env, s4);
    assert(mem2[0] == (sp - 1) as u16);
    assert(wrap_add((sp - 1) as u16, 1) == sp);
    assert(s5 == (MState { pc: base + 5, a: 0, d: s.d, mem: mem2.insert(0, sp) }));
    assert(run_n(prog, env, s, 5) == run_n(prog, env, s1, 4));
    assert(run_n(prog, env, s1, 4) == run_n(prog, env, s2, 3));
    assert(run_n(prog, env, s2, 3) == run_n(prog, env, s3, 2));
    assert(run_n(prog, env, s3, 2) == run_n(prog, env, s4, 1));
    assert(run_n(prog, env, s4, 1) == run_n(prog, env, s5, 0));
}

/// Effect of the `goto` template: execution continues at the position the
/// label resolves to; registers and memory are untouched.
pub proof fn lemma_goto_effect(
    prog: Seq<SInstr>,
    env: Map<Seq<char>, u16>,
    base: int,
    name: Seq<char>,
    s: MState,
)
    requires
        mem_total(s.mem),
        env.dom().contains(name),
        0 <= base,
        base + 2 <= prog.len(),
        prog.subrange(base, base + 2) == spec_goto_instrs(name),
        s.pc == base,
    ensures
        run_n(prog, env, s, 2) == (MState { pc: env[name] as int, a: env[name], ..s }),
{
    let blk = spec_goto_instrs(name);
    assert(forall|j: int| 0 <= j < 2 ==> prog[base + j] == #[trigger] blk[j]);
    let s1 = step(prog, env, s);
    assert(s1 == (MState { pc: base + 1, a: env[name], ..s }));
    let s2 = step(prog, env, s1);
    assert(s2 == (MState { pc: env[name] as int, a: env[name], ..s }));
    assert(run_n(prog, env, s, 2) == run_n(prog, env, s1, 1));
    assert(run_n(prog, env, s1, 1) == run_n(prog, env, s2, 0));
}

/// Effect of the `if-goto` template: one word is popped; execution jumps to
/// the label's position exactly where that word is non-zero, and falls
/// through where it is zero.
pub proof fn lemma_if_goto_effect(
    prog: Seq<SInstr>,
    env: Map<Seq<char>, u16>,
    base: int,
    name: Seq<char>,
    s: MState,
)
    requires
        mem_total(s.mem),
        env_regs(env),
        env.dom().contains(name),
        0 <= base,
        base + 5 <= prog.len(),
        prog.subrange(base, base + 5) == spec_if_instrs(name),
        s.pc == base,
        16 < s.mem[0],
    ensures
        ({
            let sp = s.mem[0];
            let top = s.mem[(sp - 1) as u16];
            run_n(prog, env, s, 5) == (MState {
                pc: if top != 0 {
                    env[name] as int
                } else {
                    base + 5
                },
                a: env[name],
                d: top,
                mem: s.mem.insert(0, (sp - 1) as u16),
            })
        }),
{
    let sp = s.mem[0];
    let top = s.mem[(sp - 1) as u16];
    let blk = spec_if_instrs(name);
    assert(forall|j: int| 0 <= j < 5 ==> prog[base + j] == #[trigger] blk[j]);
    let s1 = step(prog, env, s);
    assert(s1 == (MState { pc: base + 1, a: 0, ..s }));
    let s2 = step(prog, env, s1);
    assert(wrap_sub(sp, 1) == (sp - 1) as u16);
    let mem1 = s.mem.insert(0, (sp - 1) as u16);
    assert(s2 == (MState { pc: base + 2, a: (sp - 1) as u16, d: s.d, mem: mem1 }));
    let s3 = step(prog, env, s2);
    assert(mem1[(sp - 1) as u16] == top);
    assert(s3 == (MState { pc: base + 3, a: (sp - 1) as u16, d: top, mem: mem1 }));
    let s4 = step(prog, env, s3);
    assert(s4 == (MState { pc: base + 4, a: env[name], d: top, mem: mem1 }));
    let s5 = step(prog, env, s4);
    assert(run_n(prog, env, s, 5) == run_n(prog, env, s1, 4));
    assert(run_n(prog, env, s1, 4) == run_n(prog, env, s2, 3));
    assert(run_n(prog, env, s2, 3) == run_n(prog, env, s3, 2));
    assert(run_n(prog, env, s3, 2) == run_n(prog, env, s4, 1));
    assert(run_n(prog, env, s4, 1) == run_n(prog, env, s5, 0));
}

/// Effect of the bootstrap prologue: the stack pointer is initialized to
/// the fixed base 256 and the argument base register to 400.
pub proof fn lemma_init_effect(
    prog: Seq<SInstr>,
    env: Map<Seq<char>, u16>,
    base: int,
    s: MState,
)
    requires
        mem_total(s.mem),
        env_regs(env),
        env.dom().contains("ARG"@),
        env["ARG"@] == 2,
        0 <= base,
        base + 8 <= prog.len(),
        prog.subrange(base, base + 8) == spec_init_instrs(),
        s.pc == base,
    ensures
        run_n(prog, env, s, 8) == (MState {
            pc: base + 8,
            a: 2,
            d: 400,
            mem: s.mem.insert(0, 256).insert(2, 400),
        }),
{
    let blk = spec_init_instrs();
    assert(forall|j: int| 0 <= j < 8 ==> prog[base + j] == #[trigger] blk[j]);
    let s1 = step(prog, env, s);
    assert(s1 == (MState { pc: base + 1, a: 256, ..s }));
    let s2 = step(prog, env, s1);
    assert(s2 == (MState { pc: base + 2, a: 256, d: 256, mem: s.mem }));
    let s3 = step(prog, env, s2);
    assert(s3 == (MState { pc: base + 3, a: 0, d: 256, mem: s.mem }));
    let s4 = step(prog, env, s3);
    let mem1 = s.mem.insert(0, 256);
    assert(s4 == (MState { pc: base + 4, a: 0, d: 256, mem: mem1 }));
    let s5 = step(prog, env, s4);
    assert(s5 == (MState { pc: base + 5, a: 400, d: 256, mem: mem1 }));
    let s6 = step(prog, env, s5);
    assert(s6 == (MState { pc: base + 6, a: 400, d: 400, mem: mem1 }));
    let s7 = step(prog, env, s6);
    assert(s7 == (MState { pc: base + 7, a: 2, d: 400, mem: mem1 }));
    let s8 = step(prog, env, s7);
    assert(s8 == (MState { pc: base + 8, a: 2, d: 400, mem: mem1.insert(2, 400) }));
    assert(run_n(prog, env, s, 8) == run_n(prog, env, s1, 7));
    assert(run_n(prog, env, s1, 7) == run_n(prog, env, s2, 6));
    assert(run_n(prog, env, s2, 6) == run_n(prog, env, s3, 5));
    assert(run_n(prog, env, s3, 5) == run_n(prog, env, s4, 4));
    assert(run_n(prog, env, s4, 4) == run_n(prog, env, s5, 3));
    assert(run_n(prog, env, s5, 3) == run_n(prog, env, s6, 2));
    assert(run_n(prog, env, s6, 2) == run_n(prog, env, s7, 1));
    assert(run_n(prog, env, s7, 1) == run_n(prog, env, s8, 0));
}

/// A program region equal to a concatenation splits into regions equal to
/// the parts.
proof fn lemma_subrange_split(
    prog: Seq<SInstr>,
    base: int,
    b1: Seq<SInstr>,
    b2: Seq<SInstr>,
)
    requires
        0 <= base,
        base + b1.len() + b2.len() <= prog.len(),
        prog.subrange(base, base + b1.len() + b2.len()) == b1 + b2,
    ensures
        prog.subrange(base, base + b1.len()) == b1,
        prog.subrange(base + b1.len(), base + b1.len() + b2.len()) == b2,
{
    assert(forall|m: int|
        0 <= m < b1.len() + b2.len() ==> prog[base + m] == #[trigger] (b1 + b2)[m]);
    assert(prog.subrange(base, base + b1.len()) =~= b1);
    assert forall|j: int| 0 <= j < b2.len() implies prog.subrange(
        base + b1.len(),
        base + b1.len() + b2.len(),
    )[j] == b2[j] by {
        assert(prog[base + b1.len() + j] == (b1 + b2)[b1.len() + j]);
    }
    assert(prog.subrange(base + b1.len(), base + b1.len() + b2.len()) =~= b2);
}

/// The value of a 16-bit wrapping difference, by cases.
pub proof fn lemma_wrap_sub_cases(a: u16, b: u16)
    ensures
        a >= b ==> wrap_sub(a, b) == a - b,
        a < b ==> wrap_sub(a, b) == a - b + 0x10000,
{
    if a >= b {
        vstd::arithmetic::div_mod::lemma_mod_multiples_vanish(1, a - b, 0x10000);
        vstd::arithmetic::div_mod::lemma_small_mod((a - b) as nat, 0x10000);
    } else {
        vstd::arithmetic::div_mod::lemma_small_mod((a + 0x10000 - b) as nat, 0x10000);
    }
}

/// Where the signed difference does not overflow 16 bits, the wrapped
/// difference's signed value is exactly the signed difference.
pub proof fn lemma_signed_diff(a: u16, b: u16)
    requires
        -0x8000 <= signed(a) - signed(b) < 0x8000,
    ensures
        signed(wrap_sub(a, b)) == signed(a) - signed(b),
{
    lemma_wrap_sub_cases(a, b);
}

/// The wrapped difference is zero exactly of equal words.
pub proof fn lemma_wrap_sub_zero(a: u16, b: u16)
    ensures
        (wrap_sub(a, b) == 0) <==> (a == b),
{
    lemma_wrap_sub_cases(a, b);
}

/// For all valid `push constant k` followed immediately by `pop` into an
/// addressed segment: the segment's cell `mem[reg] + i` ends up holding
/// `k`, the stack height returns to its pre-push value, and the base
/// register itself is unmodified.
pub proof fn lemma_push_then_pop_reg(
    prog: Seq<SInstr>,
    env: Map<Seq<char>, u16>,
    base: int,
    k: u64,
    i: u64,
    reg: Seq<char>,
    regaddr: u16,
    s: MState,
)
    requires
        mem_total(s.mem),
        env_regs(env),
        env.dom().contains(reg),
        env[reg] == regaddr,
        0 < regaddr < 13,
        0 <= base,
        base + 19 <= prog.len(),
        prog.subrange(base, base + 19) == spec_push_const_instrs(k) + spec_pop_reg_instrs(
            i,
            reg,
        ),
        s.pc == base,
        15 < s.mem[0] < 0xFFFF,
        15 < i + s.mem[regaddr] < 0x10000,
    ensures
        ({
            let sp = s.mem[0];
            let target = (i + s.mem[regaddr]) as u16;
            let fin = run_n(prog, env, s, 19);
            &&& fin.pc == base + 19
            &&& fin.mem[target] == (k % 0x10000) as u16
            &&& fin.mem[0] == sp
            &&& fin.mem[regaddr] == s.mem[regaddr]
        }),
{
    let sp = s.mem[0];
    let k16 = (k % 0x10000) as u16;
    let target = (i + s.mem[regaddr]) as u16;
    lemma_subrange_split(prog, base, spec_push_const_instrs(k), spec_pop_reg_instrs(i, reg));
    lemma_push_const_effect(prog, env, base, k, s);
    let mid = run_n(prog, env, s, 7);
    assert(mem_total(mid.mem));
    assert(mid.mem[0] == sp + 1);
    assert(mid.mem[regaddr] == s.mem[regaddr]);
    lemma_pop_reg_effect(prog, env, base + 7, i, reg, regaddr, mid);
    lemma_run_n_add(prog, env, s, 7, 12);
    let fin = run_n(prog, env, s, 19);
    assert(fin == run_n(prog, env, mid, 12));
    assert(mid.mem[(mid.mem[0] - 1) as u16] == k16);
    assert(fin.mem[target] == k16);
    assert(fin.mem[0] == sp);
    assert(fin.mem[regaddr] == s.mem[regaddr]);
}

/// For all valid `push constant k` followed immediately by `pop` into a
/// direct segment: the absolute cell `b + i` ends up holding `k` and the
/// stack height returns to its pre-push value.
pub proof fn lemma_push_then_pop_ptr(
    prog: Seq<SInstr>,
    env: Map<Seq<char>, u16>,
    base: int,
    k: u64,
    i: u64,
    b: u64,
    s: MState,
)
    requires
        mem_total(s.mem),
        env_regs(env),
        0 <= base,
        base + 19 <= prog.len(),
        prog.subrange(base, base + 19) == spec_push_const_instrs(k) + spec_pop_ptr_instrs(i, b),
        s.pc == base,
        15 < s.mem[0] < 0xFFFF,
        i + b < 0x10000,
        i + b != 0,
        i + b != 13,
    ensures
        ({
            let sp = s.mem[0];
            let target = (i + b) as u16;
            let fin = run_n(prog, env, s, 19);
            &&& fin.pc == base + 19
            &&& fin.mem[target] == (k % 0x10000) as u16
            &&& fin.mem[0] == sp
        }),
{
    let sp = s.mem[0];
    let k16 = (k % 0x10000) as u16;
    let target = (i + b) as u16;
    lemma_subrange_split(prog, base, spec_push_const_instrs(k), spec_pop_ptr_instrs(i, b));
    lemma_push_const_effect(prog, env, base, k, s);
    let mid = run_n(prog, env, s, 7);
    assert(mem_total(mid.mem));
    assert(mid.mem[0] == sp + 1);
    lemma_pop_ptr_effect(prog, env, base + 7, i, b, mid);
    lemma_run_n_add(prog, env, s, 7, 12);
    let fin = run_n(prog, env, s, 19);
    assert(fin == run_n(prog, env, mid, 12));
    assert(mid.mem[(mid.mem[0] - 1) as u16] == k16);
    assert(fin.mem[target] == k16);
    assert(fin.mem[0] == sp);
}

/// For all valid `push constant k` followed immediately by `pop static i`:
/// the cell the namespaced symbol resolves to ends up holding `k` and the
/// stack height returns to its pre-push value.
pub proof fn lemma_push_then_pop_static(
    prog: Seq<SInstr>,
    env: Map<Seq<char>, u16>,
    base: int,
    k: u64,
    i: u64,
    unit: Seq<char>,
    s: MState,
)
    requires
        mem_total(s.mem),
        env_regs(env),
        env.dom().contains(crate::writer::static_sym(unit, i as nat)),
        env[crate::writer::static_sym(unit, i as nat)] != 0,
        env[crate::writer::static_sym(unit, i as nat)] != 13,
        0 <= base,
        base + 12 <= prog.len(),
        prog.subrange(base, base + 12) == spec_push_const_instrs(k) + spec_pop_static_instrs(
            unit,
            i,
        ),
        s.pc == base,
        15 < s.mem[0] < 0xFFFF,
    ensures
        ({
            let sp = s.mem[0];
            let target = env[crate::writer::static_sym(unit, i as nat)];
            let fin = run_n(prog, env, s, 12);
            &&& fin.pc == base + 12
            &&& fin.mem[target] == (k % 0x10000) as u16
            &&& fin.mem[0] == sp
        }),
{
    let sp = s.mem[0];
    let k16 = (k % 0x10000) as u16;
    let target = env[crate::writer::static_sym(unit, i as nat)];
    lemma_subrange_split(prog, base, spec_push_const_instrs(k), spec_pop_static_instrs(unit, i));
    lemma_push_const_effect(prog, env, base, k, s);
    let mid = run_n(prog, env, s, 7);
    assert(mem_total(mid.mem));
    assert(mid.mem[0] == sp + 1);
    lemma_pop_static_effect(prog, env, base + 7, unit, i, mid);
    lemma_run_n_add(prog, env, s, 7, 5);
    let fin = run_n(prog, env, s, 12);
    assert(fin == run_n(prog, env, mid, 5));
    assert(mid.mem[(mid.mem[0] - 1) as u16] == k16);
    assert(fin.mem[target] == k16);
    assert(fin.mem[0] == sp);
}

/// For all pairs of operands pushed then combined by a binary operation:
/// the single result replaces them, with `add` giving the truncated sum and
/// `sub` giving first-pushed minus second-pushed, truncated.
pub proof fn lemma_push_push_binary(
    prog: Seq<SInstr>,
    env: Map<Seq<char>, u16>,
    base: int,
    a: u64,
    b: u64,
    comp: Comp,
    s: MState,
)
    requires
        mem_total(s.mem),
        env_regs(env),
        comp is DPlusM || comp is MMinusD || comp is DAndM || comp is DOrM,
        0 <= base,
        base + 22 <= prog.len(),
        prog.subrange(base, base + 22) == spec_push_const_instrs(a) + spec_push_const_instrs(b)
            + spec_binary_instrs(comp),
        s.pc == base,
        15 < s.mem[0],
        s.mem[0] + 2 < 0x10000,
    ensures
        ({
            let sp = s.mem[0];
            let a16 = (a % 0x10000) as u16;
            let b16 = (b % 0x10000) as u16;
            let fin = run_n(prog, env, s, 22);
            &&& fin.pc == base + 22
            &&& fin.mem[0] == sp + 1
            &&& fin.mem[sp] == eval_comp(comp, sp, b16, a16)
            &&& (comp is DPlusM ==> fin.mem[sp] == wrap_add(a16, b16))
            &&& (comp is MMinusD ==> fin.mem[sp] == wrap_sub(a16, b16))
        }),
{
    let sp = s.mem[0];
    let a16 = (a % 0x10000) as u16;
    let b16 = (b % 0x10000) as u16;
    assert(spec_push_const_instrs(a) + (spec_push_const_instrs(b) + spec_binary_instrs(comp))
        =~= spec_push_const_instrs(a) + spec_push_const_instrs(b) + spec_binary_instrs(comp));
    lemma_subrange_split(
        prog,
        base,
        spec_push_const_instrs(a),
        spec_push_const_instrs(b) + spec_binary_instrs(comp),
    );
    lemma_subrange_split(prog, base + 7, spec_push_const_instrs(b), spec_binary_instrs(comp));
    lemma_push_const_effect(prog, env, base, a, s);
    let s_a = run_n(prog, env, s, 7);
    assert(mem_total(s_a.mem));
    assert(s_a.mem[0] == sp + 1);
    lemma_push_const_effect(prog, env, base + 7, b, s_a);
    let s_b = run_n(prog, env, s_a, 7);
    assert(mem_total(s_b.mem));
    assert(s_b.mem[0] == sp + 2);
    lemma_binary_effect(prog, env, base + 14, comp, s_b);
    lemma_run_n_add(prog, env, s, 7, 15);
    lemma_run_n_add(prog, env, s_a, 7, 8);
    let fin = run_n(prog, env, s, 22);
    assert(fin == run_n(prog, env, s_b, 8));
    assert(s_b.mem[(sp + 1) as u16] == b16);
    assert(s_b.mem[sp] == a16);
    assert(fin.mem[0] == sp + 1);
    assert(fin.mem[sp] == eval_comp(comp, sp, b16, a16));
}

/// Whether a comparison mnemonic holds of two signed values.
pub open spec fn cmp_holds(op: Seq<char>, sa: int, sb: int) -> bool {
    if op == "eq"@ {
        sa == sb
    } else if op == "lt"@ {
        sa < sb
    } else {
        sa > sb
    }
}

/// For all pairs of operands pushed then compared: the two words are
/// replaced by exactly one of the two canonical boolean encodings — all-ones
/// where the comparison of the operands' signed values holds, all-zero
/// where it does not — never any other value.
pub proof fn lemma_push_push_compare(
    prog: Seq<SInstr>,
    env: Map<Seq<char>, u16>,
    base: int,
    a: u64,
    b: u64,
    op: Seq<char>,
    n: nat,
    s: MState,
)
    requires
        mem_total(s.mem),
        env_regs(env),
        is_cmp_mnemonic(op),
        env.dom().contains(cmp_true_label(op, n)),
        env[cmp_true_label(op, n)] == (base + 24) as u16,
        env.dom().contains(cmp_false_label(op, n)),
        env[cmp_false_label(op, n)] == (base + 28) as u16,
        env.dom().contains(cmp_end_label(op, n)),
        env[cmp_end_label(op, n)] == (base + 30) as u16,
        0 <= base,
        base + 36 <= prog.len(),
        base + 36 <= 0x10000,
        prog.subrange(base, base + 36) == spec_push_const_instrs(a) + spec_push_const_instrs(b)
            + spec_cmp_instrs(op, n),
        s.pc == base,
        15 < s.mem[0],
        s.mem[0] + 2 < 0x10000,
        !(op == "eq"@) ==> -0x8000 <= signed((a % 0x10000) as u16) - signed(
            (b % 0x10000) as u16,
        ) < 0x8000,
    ensures
        ({
            let sp = s.mem[0];
            let a16 = (a % 0x10000) as u16;
            let b16 = (b % 0x10000) as u16;
            let fin = run_n(prog, env, s, 32);
            &&& fin.pc == base + 36
            &&& fin.mem[0] == sp + 1
            &&& (fin.mem[sp] == 0 || fin.mem[sp] == 0xFFFF)
            &&& fin.mem[sp] == (if cmp_holds(op, signed(a16), signed(b16)) {
                0xFFFF as u16
            } else {
                0 as u16
            })
        }),
{
    let sp = s.mem[0];
    let a16 = (a % 0x10000) as u16;
    let b16 = (b % 0x10000) as u16;
    crate::writer::lemma_arith_mnemonics_distinct();
    assert(spec_push_const_instrs(a) + (spec_push_const_instrs(b) + spec_cmp_instrs(op, n))
        =~= spec_push_const_instrs(a) + spec_push_const_instrs(b) + spec_cmp_instrs(op, n));
    lemma_subrange_split(
        prog,
        base,
        spec_push_const_instrs(a),
        spec_push_const_instrs(b) + spec_cmp_instrs(op, n),
    );
    lemma_subrange_split(prog, base + 7, spec_push_const_instrs(b), spec_cmp_instrs(op, n));
    lemma_push_const_effect(prog, env, base, a, s);
    let s_a = run_n(prog, env, s, 7);
    assert(mem_total(s_a.mem));
    assert(s_a.mem[0] == sp + 1);
    lemma_push_const_effect(prog, env, base + 7, b, s_a);
    let s_b = run_n(prog, env, s_a, 7);
    assert(mem_total(s_b.mem));
    assert(s_b.mem[0] == sp + 2);
    lemma_cmp_effect(prog, env, base + 14, op, n, s_b);
    lemma_run_n_add(prog, env, s, 7, 25);
    lemma_run_n_add(prog, env, s_a, 7, 18);
    let fin = run_n(prog, env, s, 32);
    assert(fin == run_n(prog, env, s_b, 18));
    assert(s_b.mem[(sp + 1) as u16] == b16);
    assert(s_b.mem[sp] == a16);
    let diff = wrap_sub(a16, b16);
    if op == "eq"@ {
        lemma_wrap_sub_zero(a16, b16);
    } else {
        lemma_signed_diff(a16, b16);
    }
    assert(jump_taken(cmp_jumps(op).0, diff) == cmp_holds(op, signed(a16), signed(b16)));
    assert(fin.mem[0] == sp + 1);
}

} // verus!
