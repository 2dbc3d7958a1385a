//! Instruction templates for `push`/`pop` on addressed segments.
//!
//! `local`/`argument`/`this`/`that` resolve through a base register: the
//! cell is `mem[reg] + index`, computed into the scratch register `R13`.
//! `temp`/`pointer` resolve to a fixed absolute address `base + index`
//! (base 5 and 3 respectively), not a dereferenced pointer.

use vstd::prelude::*;

use crate::insn::{
    render_instrs, render_sinstrs, view_instrs, Comp, Dest, Instr, Jump, SInstr,
};
use crate::parser::{all_digits, dec_val, parse_index};

verus! {

/// Instructions that push `mem[mem[reg] + index]` onto the stack.
pub open spec fn spec_push_reg_instrs(index: u64, reg: Seq<char>) -> Seq<SInstr> {
    seq![
        SInstr::At(index),
        SInstr::C(Dest::RegD, Comp::JustA, Jump::NoJump),
        SInstr::AtSym(reg),
        SInstr::C(Dest::RegD, Comp::DPlusM, Jump::NoJump),
        SInstr::AtSym("R13"@),
        SInstr::C(Dest::RegM, Comp::JustD, Jump::NoJump),
        SInstr::AtSym("R13"@),
        SInstr::C(Dest::RegA, Comp::JustM, Jump::NoJump),
        SInstr::C(Dest::RegD, Comp::JustM, Jump::NoJump),
        SInstr::AtSym("SP"@),
        SInstr::C(Dest::RegA, Comp::JustM, Jump::NoJump),
        SInstr::C(Dest::RegM, Comp::JustD, Jump::NoJump),
        SInstr::AtSym("SP"@),
        SInstr::C(Dest::RegM, Comp::MPlusOne, Jump::NoJump),
    ]
}

/// Instructions that pop the stack's top word into `mem[mem[reg] + index]`.
pub open spec fn spec_pop_reg_instrs(index: u64, reg: Seq<char>) -> Seq<SInstr> {
    seq![
        SInstr::At(index),
        SInstr::C(Dest::RegD, Comp::JustA, Jump::NoJump),
        SInstr::AtSym(reg),
        SInstr::C(Dest::RegD, Comp::DPlusM, Jump::NoJump),
        SInstr::AtSym("R13"@),
        SInstr::C(Dest::RegM, Comp::JustD, Jump::NoJump),
        SInstr::AtSym("SP"@),
        SInstr::C(Dest::RegAM, Comp::MMinusOne, Jump::NoJump),
        SInstr::C(Dest::RegD, Comp::JustM, Jump::NoJump),
        SInstr::AtSym("R13"@),
        SInstr::C(Dest::RegA, Comp::JustM, Jump::NoJump),
        SInstr::C(Dest::RegM, Comp::JustD, Jump::NoJump),
    ]
}

/// Instructions that push `mem[base + index]` onto the stack, for a fixed
/// absolute base address.
pub open spec fn spec_push_ptr_instrs(index: u64, base: u64) -> Seq<SInstr> {
    seq![
        SInstr::At(index),
        SInstr::C(Dest::RegD, Comp::JustA, Jump::NoJump),
        SInstr::At(base),
        SInstr::C(Dest::RegD, Comp::DPlusA, Jump::NoJump),
        SInstr::AtSym("R13"@),
        SInstr::C(Dest::RegM, Comp::JustD, Jump::NoJump),
        SInstr::AtSym("R13"@),
        SInstr::C(Dest::RegA, Comp::JustM, Jump::NoJump),
        SInstr::C(Dest::RegD, Comp::JustM, Jump::NoJump),
        SInstr::AtSym("SP"@),
        SInstr::C(Dest::RegA, Comp::JustM, Jump::NoJump),
        SInstr::C(Dest::RegM, Comp::JustD, Jump::NoJump),
        SInstr::AtSym("SP"@),
        SInstr::C(Dest::RegM, Comp::MPlusOne, Jump::NoJump),
    ]
}

/// Instructions that pop the stack's top word into `mem[base + index]`, for
/// a fixed absolute base address.
pub open spec fn spec_pop_ptr_instrs(index: u64, base: u64) -> Seq<SInstr> {
    seq![
        SInstr::At(index),
        SInstr::C(Dest::RegD, Comp::JustA, Jump::NoJump),
        SInstr::At(base),
        SInstr::C(Dest::RegD, Comp::DPlusA, Jump::NoJump),
        SInstr::AtSym("R13"@),
        SInstr::C(Dest::RegM, Comp::JustD, Jump::NoJump),
        SInstr::AtSym("SP"@),
        SInstr::C(Dest::RegAM, Comp::MMinusOne, Jump::NoJump),
        SInstr::C(Dest::RegD, Comp::JustM, Jump::NoJump),
        SInstr::AtSym("R13"@),
        SInstr::C(Dest::RegA, Comp::JustM, Jump::NoJump),
        SInstr::C(Dest::RegM, Comp::JustD, Jump::NoJump),
    ]
}

/// Appends the push-through-register template to `out`.
pub(crate) fn build_push_reg(index: u64, reg_name: &str, out: &mut Vec<Instr>)
    ensures
        view_instrs(final(out)@) == view_instrs(old(out)@) + spec_push_reg_instrs(
            index,
            reg_name@,
        ),
{
    out.push(Instr::At(index));
    out.push(Instr::C(Dest::RegD, Comp::JustA, Jump::NoJump));
    out.push(Instr::AtSym(reg_name.to_owned()));
    out.push(Instr::C(Dest::RegD, Comp::DPlusM, Jump::NoJump));
    out.push(Instr::AtSym("R13".to_owned()));
    out.push(Instr::C(Dest::RegM, Comp::JustD, Jump::NoJump));
    out.push(Instr::AtSym("R13".to_owned()));
    out.push(Instr::C(Dest::RegA, Comp::JustM, Jump::NoJump));
    out.push(Instr::C(Dest::RegD, Comp::JustM, Jump::NoJump));
    out.push(Instr::AtSym("SP".to_owned()));
    out.push(Instr::C(Dest::RegA, Comp::JustM, Jump::NoJump));
    out.push(Instr::C(Dest::RegM, Comp::JustD, Jump::NoJump));
    out.push(Instr::AtSym("SP".to_owned()));
    out.push(Instr::C(Dest::RegM, Comp::MPlusOne, Jump::NoJump));
    proof {
        assert(view_instrs(out@) =~= view_instrs(old(out)@) + spec_push_reg_instrs(
            index,
            reg_name@,
        ));
    }
}

/// Appends the pop-through-register template to `out`.
pub(crate) fn build_pop_reg(index: u64, reg_name: &str, out: &mut Vec<Instr>)
    ensures
        view_instrs(final(out)@) == view_instrs(old(out)@) + spec_pop_reg_instrs(
            index,
            reg_name@,
        ),
{
    out.push(Instr::At(index));
    out.push(Instr::C(Dest::RegD, Comp::JustA, Jump::NoJump));
    out.push(Instr::AtSym(reg_name.to_owned()));
    out.push(Instr::C(Dest::RegD, Comp::DPlusM, Jump::NoJump));
    out.push(Instr::AtSym("R13".to_owned()));
    out.push(Instr::C(Dest::RegM, Comp::JustD, Jump::NoJump));
    out.push(Instr::AtSym("SP".to_owned()));
    out.push(Instr::C(Dest::RegAM, Comp::MMinusOne, Jump::NoJump));
    out.push(Instr::C(Dest::RegD, Comp::JustM, Jump::NoJump));
    out.push(Instr::AtSym("R13".to_owned()));
    out.push(Instr::C(Dest::RegA, Comp::JustM, Jump::NoJump));
    out.push(Instr::C(Dest::RegM, Comp::JustD, Jump::NoJump));
    proof {
        assert(view_instrs(out@) =~= view_instrs(old(out)@) + spec_pop_reg_instrs(
            index,
            reg_name@,
        ));
    }
}

/// Appends the push-at-absolute-address template to `out`.
pub(crate) fn build_push_ptr(index: u64, base: u64, out: &mut Vec<Instr>)
    ensures
        view_instrs(final(out)@) == view_instrs(old(out)@) + spec_push_ptr_instrs(index, base),
{
    out.push(Instr::At(index));
    out.push(Instr::C(Dest::RegD, Comp::JustA, Jump::NoJump));
    out.push(Instr::At(base));
    out.push(Instr::C(Dest::RegD, Comp::DPlusA, Jump::NoJump));
    out.push(Instr::AtSym("R13".to_owned()));
    out.push(Instr::C(Dest::RegM, Comp::JustD, Jump::NoJump));
    out.push(Instr::AtSym("R13".to_owned()));
    out.push(Instr::C(Dest::RegA, Comp::JustM, Jump::NoJump));
    out.push(Instr::C(Dest::RegD, Comp::JustM, Jump::NoJump));
    out.push(Instr::AtSym("SP".to_owned()));
    out.push(Instr::C(Dest::RegA, Comp::JustM, Jump::NoJump));
    out.push(Instr::C(Dest::RegM, Comp::JustD, Jump::NoJump));
    out.push(Instr::AtSym("SP".to_owned()));
    out.push(Instr::C(Dest::RegM, Comp::MPlusOne, Jump::NoJump));
    proof {
        assert(view_instrs(out@) =~= view_instrs(old(out)@) + spec_push_ptr_instrs(index, base));
    }
}

/// Appends the pop-at-absolute-address template to `out`.
pub(crate) fn build_pop_ptr(index: u64, base: u64, out: &mut Vec<Instr>)
    ensures
        view_instrs(final(out)@) == view_instrs(old(out)@) + spec_pop_ptr_instrs(index, base),
{
    out.push(Instr::At(index));
    out.push(Instr::C(Dest::RegD, Comp::JustA, Jump::NoJump));
    out.push(Instr::At(base));
    out.push(Instr::C(Dest::RegD, Comp::DPlusA, Jump::NoJump));
    out.push(Instr::AtSym("R13".to_owned()));
    out.push(Instr::C(Dest::RegM, Comp::JustD, Jump::NoJump));
    out.push(Instr::AtSym("SP".to_owned()));
    out.push(Instr::C(Dest::RegAM, Comp::MMinusOne, Jump::NoJump));
    out.push(Instr::C(Dest::RegD, Comp::JustM, Jump::NoJump));
    out.push(Instr::AtSym("R13".to_owned()));
    out.push(Instr::C(Dest::RegA, Comp::JustM, Jump::NoJump));
    out.push(Instr::C(Dest::RegM, Comp::JustD, Jump::NoJump));
    proof {
        assert(view_instrs(out@) =~= view_instrs(old(out)@) + spec_pop_ptr_instrs(index, base));
    }
}

/// Assembly text that pops the stack's top word into the cell `index` past
/// the base register named `reg_name`.
pub fn generate_pop_specified_register_template(index: usize, reg_name: &str) -> (r: String)
    ensures
        r@ == render_sinstrs(spec_pop_reg_instrs(index as u64, reg_name@)),
{
    let mut v: Vec<Instr> = Vec::new();
    build_pop_reg(index as u64, reg_name, &mut v);
    proof {
        assert(view_instrs(v@) =~= spec_pop_reg_instrs(index as u64, reg_name@));
    }
    render_instrs(&v)
}

/// Assembly text that pushes the cell `index` past the base register named
/// `reg_name` onto the stack.
pub fn generate_push_specified_register_template(index: usize, reg_name: &str) -> (r: String)
    ensures
        r@ == render_sinstrs(spec_push_reg_instrs(index as u64, reg_name@)),
{
    let mut v: Vec<Instr> = Vec::new();
    build_push_reg(index as u64, reg_name, &mut v);
    proof {
        assert(view_instrs(v@) =~= spec_push_reg_instrs(index as u64, reg_name@));
    }
    render_instrs(&v)
}

/// Assembly text that pops the stack's top word into the absolute cell
/// `base + index`, where `reg_name` holds the base address in decimal.
pub fn generate_pop_specified_register_template_pointer(index: usize, reg_name: &str) -> (r:
    String)
    requires
        all_digits(reg_name@),
        dec_val(reg_name@) <= i64::MAX,
    ensures
        r@ == render_sinstrs(spec_pop_ptr_instrs(index as u64, dec_val(reg_name@) as u64)),
{
    let base: u64 = match parse_index(reg_name) {
        Some(b) => b as u64,
        Option::None => 0,
    };
    let mut v: Vec<Instr> = Vec::new();
    build_pop_ptr(index as u64, base, &mut v);
    proof {
        assert(view_instrs(v@) =~= spec_pop_ptr_instrs(index as u64, base));
    }
    render_instrs(&v)
}

/// Assembly text that pushes the absolute cell `base + index` onto the
/// stack, where `reg_name` holds the base address in decimal.
pub fn generate_push_specified_register_template_pointer(index: usize, reg_name: &str) -> (r:
    String)
    requires
        all_digits(reg_name@),
        dec_val(reg_name@) <= i64::MAX,
    ensures
        r@ == render_sinstrs(spec_push_ptr_instrs(index as u64, dec_val(reg_name@) as u64)),
{
    let base: u64 = match parse_index(reg_name) {
        Some(b) => b as u64,
        Option::None => 0,
    };
    let mut v: Vec<Instr> = Vec::new();
    build_push_ptr(index as u64, base, &mut v);
    proof {
        assert(view_instrs(v@) =~= spec_push_ptr_instrs(index as u64, base));
    }
    render_instrs(&v)
}

} // verus!
