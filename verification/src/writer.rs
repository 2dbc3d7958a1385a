//! The assembly code generator.
//!
//! `CodeWriter` consumes one command at a time and appends the target
//! instructions for it.  It owns the generator-wide state: the comparison
//! counter, incremented once per emitted `eq`/`lt`/`gt` and injected into
//! the three internal branch labels so that no two emitted comparisons
//! collide, and the current source-unit name, used to namespace `static`
//! accesses as `unit.index`.

use vstd::prelude::*;

use crate::insn::{
    render_instrs, render_sinstrs, spec_dec, u64_to_string, view_instrs, Comp, Dest, Instr, Jump,
    SInstr,
};
use crate::parser::{str_eq, CommandType};
use crate::template::{
    build_pop_ptr, build_pop_reg, build_push_ptr, build_push_reg, spec_pop_ptr_instrs,
    spec_pop_reg_instrs, spec_push_ptr_instrs, spec_push_reg_instrs,
};

verus! {

/// A logically malformed or unsupported generation request.
#[derive(PartialEq, Eq, Structural, Debug, Clone, Copy)]
pub enum GenError {
    /// The segment token does not match the fixed segment vocabulary.
    UnknownSegment,
    /// The operation has no meaning for the segment: popping `constant`,
    /// which has no backing storage.
    InvalidOperation,
    /// The command is recognized VM syntax with no defined lowering
    /// (`function`, `call`, `return`).
    Unsupported,
}

/// A storage segment of the VM language.
#[derive(PartialEq, Eq, Structural, Debug, Clone, Copy)]
#[allow(non_camel_case_types)]
pub enum Segment {
    constant,
    Static,
    Local,
    Arg,
    That,
    This,
    Temp,
    Pointer,
}

/// The fixed segment vocabulary: which token names which segment.
pub open spec fn spec_segment_of(t: Seq<char>) -> Option<Segment> {
    if t == "constant"@ {
        Some(Segment::constant)
    } else if t == "static"@ {
        Some(Segment::Static)
    } else if t == "local"@ {
        Some(Segment::Local)
    } else if t == "argument"@ {
        Some(Segment::Arg)
    } else if t == "that"@ {
        Some(Segment::That)
    } else if t == "this"@ {
        Some(Segment::This)
    } else if t == "temp"@ {
        Some(Segment::Temp)
    } else if t == "pointer"@ {
        Some(Segment::Pointer)
    } else {
        Option::None
    }
}

/// The base-register name of an addressed segment, or the fixed base
/// address (in decimal) of a direct segment.
pub open spec fn reg_name_text(seg: Segment) -> Seq<char> {
    match seg {
        Segment::Local => "LCL"@,
        Segment::Arg => "ARG"@,
        Segment::That => "THAT"@,
        Segment::This => "THIS"@,
        Segment::Temp => "5"@,
        Segment::Pointer => "3"@,
        _ => Seq::empty(),
    }
}

/// The fixed absolute base address of a direct segment.
pub open spec fn ptr_base(seg: Segment) -> u64 {
    match seg {
        Segment::Temp => 5,
        Segment::Pointer => 3,
        _ => 0,
    }
}

/// The namespaced symbol of a static variable: `unit.index`.  The symbol is
/// a pure function of the unit name and the index, so it is stable for a
/// given pair for the lifetime of the run.
pub open spec fn static_sym(unit: Seq<char>, index: nat) -> Seq<char> {
    unit + "."@ + spec_dec(index)
}

/// Instructions that push the immediate value `index` onto the stack.
pub open spec fn spec_push_const_instrs(index: u64) -> Seq<SInstr> {
    seq![
        SInstr::At(index),
        SInstr::C(Dest::RegD, Comp::JustA, Jump::NoJump),
        SInstr::AtSym("SP"@),
        SInstr::C(Dest::RegA, Comp::JustM, Jump::NoJump),
        SInstr::C(Dest::RegM, Comp::JustD, Jump::NoJump),
        SInstr::AtSym("SP"@),
        SInstr::C(Dest::RegM, Comp::MPlusOne, Jump::NoJump),
    ]
}

/// Instructions that push the static cell `unit.index` onto the stack.
pub open spec fn spec_push_static_instrs(unit: Seq<char>, index: u64) -> Seq<SInstr> {
    seq![
        SInstr::AtSym(static_sym(unit, index as nat)),
        SInstr::C(Dest::RegD, Comp::JustM, Jump::NoJump),
        SInstr::AtSym("SP"@),
        SInstr::C(Dest::RegA, Comp::JustM, Jump::NoJump),
        SInstr::C(Dest::RegM, Comp::JustD, Jump::NoJump),
        SInstr::AtSym("SP"@),
        SInstr::C(Dest::RegM, Comp::MPlusOne, Jump::NoJump),
    ]
}

/// Instructions that pop the stack's top word into the static cell
/// `unit.index`.
pub open spec fn spec_pop_static_instrs(unit: Seq<char>, index: u64) -> Seq<SInstr> {
    seq![
        SInstr::AtSym("SP"@),
        SInstr::C(Dest::RegAM, Comp::MMinusOne, Jump::NoJump),
        SInstr::C(Dest::RegD, Comp::JustM, Jump::NoJump),
        SInstr::AtSym(static_sym(unit, index as nat)),
        SInstr::C(Dest::RegM, Comp::JustD, Jump::NoJump),
    ]
}

/// Instructions emitted for `push <seg> <index>` with unit name `unit`.
pub open spec fn spec_push_instrs(seg: Segment, index: u64, unit: Seq<char>) -> Seq<SInstr> {
    match seg {
        Segment::constant => spec_push_const_instrs(index),
        Segment::Static => spec_push_static_instrs(unit, index),
        Segment::Local | Segment::Arg | Segment::That | Segment::This => spec_push_reg_instrs(
            index,
            reg_name_text(seg),
        ),
        Segment::Temp | Segment::Pointer => spec_push_ptr_instrs(index, ptr_base(seg)),
    }
}

/// Instructions emitted for `pop <seg> <index>` (never `constant`) with
/// unit name `unit`.
pub open spec fn spec_pop_instrs(seg: Segment, index: u64, unit: Seq<char>) -> Seq<SInstr> {
    match seg {
        Segment::constant => Seq::empty(),
        Segment::Static => spec_pop_static_instrs(unit, index),
        Segment::Local | Segment::Arg | Segment::That | Segment::This => spec_pop_reg_instrs(
            index,
            reg_name_text(seg),
        ),
        Segment::Temp | Segment::Pointer => spec_pop_ptr_instrs(index, ptr_base(seg)),
    }
}

/// The three comparison mnemonics, which consume two words and push a
/// canonical boolean.
pub open spec fn is_cmp_mnemonic(t: Seq<char>) -> bool {
    t == "eq"@ || t == "lt"@ || t == "gt"@
}

/// The jump conditions of a comparison: taken on success and on failure.
/// The two are exact complements of one another.
pub open spec fn cmp_jumps(op: Seq<char>) -> (Jump, Jump) {
    if op == "eq"@ {
        (Jump::JEQ, Jump::JNE)
    } else if op == "lt"@ {
        (Jump::JLT, Jump::JGE)
    } else {
        (Jump::JGT, Jump::JLE)
    }
}

/// An internal comparison label: `prefix_op_n`.
pub open spec fn cmp_label(prefix: Seq<char>, op: Seq<char>, n: nat) -> Seq<char> {
    prefix + "_"@ + op + "_"@ + spec_dec(n)
}

/// The label of the branch that pushes the true encoding.
pub open spec fn cmp_true_label(op: Seq<char>, n: nat) -> Seq<char> {
    cmp_label("RETURNTRUE"@, op, n)
}

/// The label of the branch that pushes the false encoding.
pub open spec fn cmp_false_label(op: Seq<char>, n: nat) -> Seq<char> {
    cmp_label("RETURNFALSE"@, op, n)
}

/// The label of the join point after the two branches.
pub open spec fn cmp_end_label(op: Seq<char>, n: nat) -> Seq<char> {
    cmp_label("RETURNEND"@, op, n)
}

/// Instructions emitted for a comparison `op` with counter value `n`: pop
/// two words, compute their signed difference, and push all-ones where the
/// comparison holds and all-zero where it does not.
pub open spec fn spec_cmp_instrs(op: Seq<char>, n: nat) -> Seq<SInstr> {
    seq![
        SInstr::AtSym("SP"@),
        SInstr::C(Dest::RegAM, Comp::MMinusOne, Jump::NoJump),
        SInstr::C(Dest::RegD, Comp::JustM, Jump::NoJump),
        SInstr::AtSym("SP"@),
        SInstr::C(Dest::RegAM, Comp::MMinusOne, Jump::NoJump),
        SInstr::C(Dest::RegD, Comp::MMinusD, Jump::NoJump),
        SInstr::AtSym(cmp_true_label(op, n)),
        SInstr::C(Dest::NoDest, Comp::JustD, cmp_jumps(op).0),
        SInstr::AtSym(cmp_false_label(op, n)),
        SInstr::C(Dest::NoDest, Comp::JustD, cmp_jumps(op).1),
        SInstr::LabelDef(cmp_true_label(op, n)),
        SInstr::C(Dest::RegD, Comp::NegOne, Jump::NoJump),
        SInstr::AtSym(cmp_end_label(op, n)),
        SInstr::C(Dest::NoDest, Comp::Zero, Jump::JMP),
        SInstr::LabelDef(cmp_false_label(op, n)),
        SInstr::C(Dest::RegD, Comp::Zero, Jump::NoJump),
        SInstr::LabelDef(cmp_end_label(op, n)),
        SInstr::AtSym("SP"@),
        SInstr::C(Dest::RegA, Comp::JustM, Jump::NoJump),
        SInstr::C(Dest::RegM, Comp::JustD, Jump::NoJump),
        SInstr::AtSym("SP"@),
        SInstr::C(Dest::RegM, Comp::MPlusOne, Jump::NoJump),
    ]
}

/// Instructions of a binary arithmetic-logical operation: pop two words,
/// combine, push the result.
pub open spec fn spec_binary_instrs(comp: Comp) -> Seq<SInstr> {
    seq![
        SInstr::AtSym("SP"@),
        SInstr::C(Dest::RegAM, Comp::MMinusOne, Jump::NoJump),
        SInstr::C(Dest::RegD, Comp::JustM, Jump::NoJump),
        SInstr::AtSym("SP"@),
        SInstr::C(Dest::RegAM, Comp::MMinusOne, Jump::NoJump),
        SInstr::C(Dest::RegM, comp, Jump::NoJump),
        SInstr::AtSym("SP"@),
        SInstr::C(Dest::RegM, Comp::MPlusOne, Jump::NoJump),
    ]
}

/// Instructions of a unary arithmetic-logical operation: transform the top
/// word in place.
pub open spec fn spec_unary_instrs(comp: Comp) -> Seq<SInstr> {
    seq![
        SInstr::AtSym("SP"@),
        SInstr::C(Dest::RegAM, Comp::MMinusOne, Jump::NoJump),
        SInstr::C(Dest::RegM, comp, Jump::NoJump),
        SInstr::AtSym("SP"@),
        SInstr::C(Dest::RegM, Comp::MPlusOne, Jump::NoJump),
    ]
}

/// Instructions emitted for a non-comparison arithmetic mnemonic.
pub open spec fn spec_simple_arith_instrs(op: Seq<char>) -> Seq<SInstr> {
    if op == "add"@ {
        spec_binary_instrs(Comp::DPlusM)
    } else if op == "sub"@ {
        spec_binary_instrs(Comp::MMinusD)
    } else if op == "and"@ {
        spec_binary_instrs(Comp::DAndM)
    } else if op == "or"@ {
        spec_binary_instrs(Comp::DOrM)
    } else if op == "neg"@ {
        spec_unary_instrs(Comp::NegM)
    } else {
        spec_unary_instrs(Comp::NotM)
    }
}

/// Instructions emitted for `label <name>`: a definition point.
pub open spec fn spec_label_instrs(name: Seq<char>) -> Seq<SInstr> {
    seq![SInstr::LabelDef(name)]
}

/// Instructions emitted for `goto <name>`: an unconditional jump.
pub open spec fn spec_goto_instrs(name: Seq<char>) -> Seq<SInstr> {
    seq![SInstr::AtSym(name), SInstr::C(Dest::NoDest, Comp::Zero, Jump::JMP)]
}

/// Instructions emitted for `if-goto <name>`: pop one word and jump iff it
/// is non-zero.
pub open spec fn spec_if_instrs(name: Seq<char>) -> Seq<SInstr> {
    seq![
        SInstr::AtSym("SP"@),
        SInstr::C(Dest::RegAM, Comp::MMinusOne, Jump::NoJump),
        SInstr::C(Dest::RegD, Comp::JustM, Jump::NoJump),
        SInstr::AtSym(name),
        SInstr::C(Dest::NoDest, Comp::JustD, Jump::JNE),
    ]
}

/// The bootstrap prologue: initialize the stack pointer to 256 and the
/// argument base register to 400.
pub open spec fn spec_init_instrs() -> Seq<SInstr> {
    seq![
        SInstr::At(256),
        SInstr::C(Dest::RegD, Comp::JustA, Jump::NoJump),
        SInstr::AtSym("SP"@),
        SInstr::C(Dest::RegM, Comp::JustD, Jump::NoJump),
        SInstr::At(400),
        SInstr::C(Dest::RegD, Comp::JustA, Jump::NoJump),
        SInstr::AtSym("ARG"@),
        SInstr::C(Dest::RegM, Comp::JustD, Jump::NoJump),
    ]
}

/// Equal-length prefixes of equal concatenations are equal, as are the
/// remainders.
proof fn lemma_concat_cancel(a: Seq<char>, b: Seq<char>, c: Seq<char>, d: Seq<char>)
    requires
        a.len() == c.len(),
        a + b == c + d,
    ensures
        a == c,
        b == d,
{
    assert((a + b).len() == a.len() + b.len());
    assert((c + d).len() == c.len() + d.len());
    assert((a + b).len() == (c + d).len());
    assert(b.len() == d.len());
    assert forall|j: int| 0 <= j < a.len() implies a[j] == c[j] by {
        assert((a + b)[j] == a[j]);
        assert((c + d)[j] == c[j]);
        assert((a + b)[j] == (c + d)[j]);
    }
    assert(a =~= c);
    assert forall|j: int| 0 <= j < b.len() implies b[j] == d[j] by {
        assert((a + b)[a.len() + j] == b[j]);
        assert((c + d)[c.len() + j] == d[j]);
        assert((a + b)[a.len() + j] == (c + d)[a.len() + j]);
    }
    assert(b =~= d);
}

/// Within one comparison emission, the three internal labels are pairwise
/// distinct: the true branch, the false branch and the join point never
/// collide.
pub proof fn lemma_cmp_labels_distinct_within(op: Seq<char>, n: nat)
    ensures
        cmp_true_label(op, n) != cmp_false_label(op, n),
        cmp_true_label(op, n) != cmp_end_label(op, n),
        cmp_false_label(op, n) != cmp_end_label(op, n),
{
    reveal_strlit("RETURNTRUE");
    reveal_strlit("RETURNFALSE");
    reveal_strlit("RETURNEND");
    assert("RETURNTRUE"@.len() == 10 && "RETURNFALSE"@.len() == 11 && "RETURNEND"@.len() == 9);
    assert("RETURNTRUE"@[6] == 'T' && "RETURNFALSE"@[6] == 'F' && "RETURNEND"@[6] == 'E');
    assert(cmp_true_label(op, n)[6] == 'T');
    assert(cmp_false_label(op, n)[6] == 'F');
    assert(cmp_end_label(op, n)[6] == 'E');
}

/// A comparison label determines the operator and the counter value it was
/// built from: the label scheme is injective for each label kind.
proof fn lemma_cmp_label_inj(prefix: Seq<char>, op1: Seq<char>, n1: nat, op2: Seq<char>, n2: nat)
    requires
        is_cmp_mnemonic(op1),
        is_cmp_mnemonic(op2),
        cmp_label(prefix, op1, n1) == cmp_label(prefix, op2, n2),
    ensures
        op1 == op2,
        n1 == n2,
{
    reveal_strlit("eq");
    reveal_strlit("lt");
    reveal_strlit("gt");
    reveal_strlit("_");
    assert(op1.len() == 2 && op2.len() == 2);
    let a1 = prefix + "_"@ + op1 + "_"@;
    let a2 = prefix + "_"@ + op2 + "_"@;
    lemma_concat_cancel(a1, crate::insn::spec_dec(n1), a2, crate::insn::spec_dec(n2));
    if n1 != n2 {
        crate::insn::lemma_spec_dec_injective(n1, n2);
    }
    lemma_concat_cancel(prefix + "_"@ + op1, "_"@, prefix + "_"@ + op2, "_"@);
    lemma_concat_cancel(prefix + "_"@, op1, prefix + "_"@, op2);
}

/// Two comparison emissions with different counter values share no internal
/// label: all nine cross pairs are distinct, whatever the two operators.
pub proof fn lemma_cmp_labels_unique(op1: Seq<char>, n1: nat, op2: Seq<char>, n2: nat)
    requires
        is_cmp_mnemonic(op1),
        is_cmp_mnemonic(op2),
        n1 != n2,
    ensures
        cmp_true_label(op1, n1) != cmp_true_label(op2, n2),
        cmp_false_label(op1, n1) != cmp_false_label(op2, n2),
        cmp_end_label(op1, n1) != cmp_end_label(op2, n2),
        cmp_true_label(op1, n1) != cmp_false_label(op2, n2),
        cmp_true_label(op1, n1) != cmp_end_label(op2, n2),
        cmp_false_label(op1, n1) != cmp_true_label(op2, n2),
        cmp_false_label(op1, n1) != cmp_end_label(op2, n2),
        cmp_end_label(op1, n1) != cmp_true_label(op2, n2),
        cmp_end_label(op1, n1) != cmp_false_label(op2, n2),
{
    reveal_strlit("RETURNTRUE");
    reveal_strlit("RETURNFALSE");
    reveal_strlit("RETURNEND");
    assert("RETURNTRUE"@.len() == 10 && "RETURNFALSE"@.len() == 11 && "RETURNEND"@.len() == 9);
    assert("RETURNTRUE"@[6] == 'T' && "RETURNFALSE"@[6] == 'F' && "RETURNEND"@[6] == 'E');
    assert(cmp_true_label(op1, n1)[6] == 'T' && cmp_true_label(op2, n2)[6] == 'T');
    assert(cmp_false_label(op1, n1)[6] == 'F' && cmp_false_label(op2, n2)[6] == 'F');
    assert(cmp_end_label(op1, n1)[6] == 'E' && cmp_end_label(op2, n2)[6] == 'E');
    if cmp_true_label(op1, n1) == cmp_true_label(op2, n2) {
        lemma_cmp_label_inj("RETURNTRUE"@, op1, n1, op2, n2);
    }
    if cmp_false_label(op1, n1) == cmp_false_label(op2, n2) {
        lemma_cmp_label_inj("RETURNFALSE"@, op1, n1, op2, n2);
    }
    if cmp_end_label(op1, n1) == cmp_end_label(op2, n2) {
        lemma_cmp_label_inj("RETURNEND"@, op1, n1, op2, n2);
    }
}

/// Static namespacing: the symbol scheme `unit.index` is injective.  Two
/// units never share a symbol for any index, and one unit's symbol for an
/// index is stable; in particular `static 3` in two different units
/// resolves to two different output symbols.
pub proof fn lemma_static_sym_injective(u1: Seq<char>, i1: nat, u2: Seq<char>, i2: nat)
    ensures
        static_sym(u1, i1) == static_sym(u2, i2) ==> (u1 == u2 && i1 == i2),
{
    if static_sym(u1, i1) == static_sym(u2, i2) {
        reveal_strlit(".");
        assert("."@.len() == 1 && "."@[0] == '.');
        crate::insn::lemma_spec_dec_props(i1);
        crate::insn::lemma_spec_dec_props(i2);
        let d1 = crate::insn::spec_dec(i1);
        let d2 = crate::insn::spec_dec(i2);
        if u1.len() == u2.len() {
            lemma_concat_cancel(u1 + "."@, d1, u2 + "."@, d2);
            lemma_concat_cancel(u1, "."@, u2, "."@);
            if i1 != i2 {
                crate::insn::lemma_spec_dec_injective(i1, i2);
            }
        } else if u1.len() < u2.len() {
            // the character at the end of the longer unit name is the dot
            // of one symbol but a digit of the other
            let s = static_sym(u1, i1);
            let p = u2.len() as int;
            assert((u2 + "."@).len() == u2.len() + 1);
            assert(s == (u2 + "."@) + d2);
            assert(s[p] == (u2 + "."@)[p]);
            assert(s[p] == '.');
            assert((u1 + "."@).len() == u1.len() + 1);
            assert(s == (u1 + "."@) + d1);
            assert(((u2 + "."@) + d2).len() == u2.len() + 1 + d2.len());
            assert(((u1 + "."@) + d1).len() == u1.len() + 1 + d1.len());
            assert(p < s.len());
            assert(((u1 + "."@) + d1)[p] == d1[p - (u1.len() + 1)]);
            assert(s[p] == d1[p - (u1.len() + 1)]);
            assert(crate::parser::is_digit(d1[p - (u1.len() + 1)]));
            assert(false);
        } else {
            let s = static_sym(u1, i1);
            let p = u1.len() as int;
            assert((u1 + "."@).len() == u1.len() + 1);
            assert(s == (u1 + "."@) + d1);
            assert(s[p] == (u1 + "."@)[p]);
            assert(s[p] == '.');
            assert((u2 + "."@).len() == u2.len() + 1);
            assert(s == (u2 + "."@) + d2);
            assert(((u1 + "."@) + d1).len() == u1.len() + 1 + d1.len());
            assert(((u2 + "."@) + d2).len() == u2.len() + 1 + d2.len());
            assert(p < s.len());
            assert(((u2 + "."@) + d2)[p] == d2[p - (u2.len() + 1)]);
            assert(s[p] == d2[p - (u2.len() + 1)]);
            assert(crate::parser::is_digit(d2[p - (u2.len() + 1)]));
            assert(false);
        }
    }
}

/// The view of an optionally present string slice, empty where absent.
pub open spec fn opt_label_view(o: Option<&str>) -> Seq<char> {
    match o {
        Option::Some(s) => s@,
        Option::None => Seq::empty(),
    }
}

/// Tells the six simple arithmetic mnemonics apart from the three
/// comparison mnemonics.
pub proof fn lemma_arith_mnemonics_distinct()
    ensures
        !is_cmp_mnemonic("add"@),
        !is_cmp_mnemonic("sub"@),
        !is_cmp_mnemonic("neg"@),
        !is_cmp_mnemonic("and"@),
        !is_cmp_mnemonic("or"@),
        !is_cmp_mnemonic("not"@),
        is_cmp_mnemonic("eq"@),
        is_cmp_mnemonic("lt"@),
        is_cmp_mnemonic("gt"@),
        "add"@ != "sub"@ && "add"@ != "neg"@ && "add"@ != "and"@ && "add"@ != "or"@ && "add"@
            != "not"@,
        "sub"@ != "neg"@ && "sub"@ != "and"@ && "sub"@ != "or"@ && "sub"@ != "not"@,
        "neg"@ != "and"@ && "neg"@ != "or"@ && "neg"@ != "not"@,
        "and"@ != "or"@ && "and"@ != "not"@,
        "or"@ != "not"@,
        "eq"@ != "lt"@ && "eq"@ != "gt"@ && "lt"@ != "gt"@,
{
    reveal_strlit("add");
    reveal_strlit("sub");
    reveal_strlit("neg");
    reveal_strlit("and");
    reveal_strlit("or");
    reveal_strlit("not");
    reveal_strlit("eq");
    reveal_strlit("lt");
    reveal_strlit("gt");
    assert("add"@.len() == 3);
    assert("sub"@.len() == 3);
    assert("neg"@.len() == 3);
    assert("and"@.len() == 3);
    assert("not"@.len() == 3);
    assert("or"@.len() == 2);
    assert("eq"@.len() == 2);
    assert("lt"@.len() == 2);
    assert("gt"@.len() == 2);
    assert("or"@[0] == 'o' && "eq"@[0] == 'e' && "lt"@[0] == 'l' && "gt"@[0] == 'g');
    assert("add"@[0] == 'a' && "sub"@[0] == 's' && "neg"@[0] == 'n' && "and"@[0] == 'a'
        && "not"@[0] == 'n');
    assert("add"@[1] == 'd' && "and"@[1] == 'n' && "neg"@[1] == 'e' && "not"@[1] == 'o');
}

fn segment_of_token(t: &str) -> (r: Option<Segment>)
    ensures
        r == spec_segment_of(t@),
{
    if str_eq(t, "constant") {
        Some(Segment::constant)
    } else if str_eq(t, "static") {
        Some(Segment::Static)
    } else if str_eq(t, "local") {
        Some(Segment::Local)
    } else if str_eq(t, "argument") {
        Some(Segment::Arg)
    } else if str_eq(t, "that") {
        Some(Segment::That)
    } else if str_eq(t, "this") {
        Some(Segment::This)
    } else if str_eq(t, "temp") {
        Some(Segment::Temp)
    } else if str_eq(t, "pointer") {
        Some(Segment::Pointer)
    } else {
        Option::None
    }
}

/// Builds the namespaced static symbol `unit.index`.
fn build_static_sym(unit: &str, index: u64) -> (s: String)
    ensures
        s@ == static_sym(unit@, index as nat),
{
    let mut s = unit.to_owned();
    s.append(".");
    let digits = u64_to_string(index);
    s.append(digits.as_str());
    proof {
        assert(s@ =~= static_sym(unit@, index as nat));
    }
    s
}

/// Builds an internal comparison label `prefix_op_n`.
fn build_cmp_label(prefix: &str, op: &str, n: u64) -> (s: String)
    ensures
        s@ == cmp_label(prefix@, op@, n as nat),
{
    let mut s = prefix.to_owned();
    s.append("_");
    s.append(op);
    s.append("_");
    let digits = u64_to_string(n);
    s.append(digits.as_str());
    proof {
        assert(s@ =~= cmp_label(prefix@, op@, n as nat));
    }
    s
}

impl Segment {
    /// The base-register name of an addressed segment, or the fixed base
    /// address of a direct segment, as assembly text.
    pub fn get_register_name(&self) -> (r: &'static str)
        requires
            !(*self is constant),
            !(*self is Static),
        ensures
            r@ == reg_name_text(*self),
    {
        match self {
            Segment::Local => "LCL",
            Segment::Arg => "ARG",
            Segment::That => "THAT",
            Segment::This => "THIS",
            Segment::Temp => "5",
            Segment::Pointer => "3",
            _ => "",
        }
    }

    /// Appends the instructions that push one word from this segment.
    /// `label` carries the current unit name, required for `static`.
    pub fn write_push_asm(&self, index: i64, out: &mut Vec<Instr>, label: Option<&str>)
        requires
            0 <= index,
            *self is Static ==> label is Some,
        ensures
            view_instrs(final(out)@) == view_instrs(old(out)@) + spec_push_instrs(
                *self,
                index as u64,
                opt_label_view(label),
            ),
    {
        match self {
            Segment::constant => {
                out.push(Instr::At(index as u64));
                out.push(Instr::C(Dest::RegD, Comp::JustA, Jump::NoJump));
                out.push(Instr::AtSym("SP".to_owned()));
                out.push(Instr::C(Dest::RegA, Comp::JustM, Jump::NoJump));
                out.push(Instr::C(Dest::RegM, Comp::JustD, Jump::NoJump));
                out.push(Instr::AtSym("SP".to_owned()));
                out.push(Instr::C(Dest::RegM, Comp::MPlusOne, Jump::NoJump));
                proof {
                    assert(view_instrs(out@) =~= view_instrs(old(out)@) + spec_push_const_instrs(
                        index as u64,
                    ));
                }
            },
            Segment::Static => {
                let unit = match label {
                    Some(u) => u,
                    Option::None => "",
                };
                let sym = build_static_sym(unit, index as u64);
                out.push(Instr::AtSym(sym));
                out.push(Instr::C(Dest::RegD, Comp::JustM, Jump::NoJump));
                out.push(Instr::AtSym("SP".to_owned()));
                out.push(Instr::C(Dest::RegA, Comp::JustM, Jump::NoJump));
                out.push(Instr::C(Dest::RegM, Comp::JustD, Jump::NoJump));
                out.push(Instr::AtSym("SP".to_owned()));
                out.push(Instr::C(Dest::RegM, Comp::MPlusOne, Jump::NoJump));
                proof {
                    assert(view_instrs(out@) =~= view_instrs(old(out)@) + spec_push_static_instrs(
                        opt_label_view(label),
                        index as u64,
                    ));
                }
            },
            Segment::Local | Segment::Arg | Segment::That | Segment::This => {
                build_push_reg(index as u64, self.get_register_name(), out);
            },
            Segment::Temp => {
                build_push_ptr(index as u64, 5, out);
            },
            Segment::Pointer => {
                build_push_ptr(index as u64, 3, out);
            },
        }
    }

    /// Appends the instructions that pop one word into this segment.
    /// `constant` has no backing storage and cannot be popped.
    pub fn write_pop_asm(&self, index: i64, out: &mut Vec<Instr>, label: Option<&str>)
        requires
            0 <= index,
            !(*self is constant),
            *self is Static ==> label is Some,
        ensures
            view_instrs(final(out)@) == view_instrs(old(out)@) + spec_pop_instrs(
                *self,
                index as u64,
                opt_label_view(label),
            ),
    {
        match self {
            Segment::constant => {
                proof {
                    assert(false);
                }
            },
            Segment::Static => {
                let unit = match label {
                    Some(u) => u,
                    Option::None => "",
                };
                let sym = build_static_sym(unit, index as u64);
                out.push(Instr::AtSym("SP".to_owned()));
                out.push(Instr::C(Dest::RegAM, Comp::MMinusOne, Jump::NoJump));
                out.push(Instr::C(Dest::RegD, Comp::JustM, Jump::NoJump));
                out.push(Instr::AtSym(sym));
                out.push(Instr::C(Dest::RegM, Comp::JustD, Jump::NoJump));
                proof {
                    assert(view_instrs(out@) =~= view_instrs(old(out)@) + spec_pop_static_instrs(
                        opt_label_view(label),
                        index as u64,
                    ));
                }
            },
            Segment::Local | Segment::Arg | Segment::That | Segment::This => {
                build_pop_reg(index as u64, self.get_register_name(), out);
            },
            Segment::Temp => {
                build_pop_ptr(index as u64, 5, out);
            },
            Segment::Pointer => {
                build_pop_ptr(index as u64, 3, out);
            },
        }
    }
}

/// The assembly code generator.  It persists across source units: the
/// comparison counter is never reset, and the unit name is replaced as the
/// driver moves to the next unit.
pub struct CodeWriter {
    instrs: Vec<Instr>,
    logical_op_count: usize,
    filename: String,
}

impl CodeWriter {
    /// The instructions emitted so far.
    pub closed spec fn instrs_v(&self) -> Seq<SInstr> {
        view_instrs(self.instrs@)
    }

    /// The comparison counter.
    pub closed spec fn count(&self) -> nat {
        self.logical_op_count as nat
    }

    /// The current source-unit name.
    pub closed spec fn unit(&self) -> Seq<char> {
        self.filename@
    }

    /// A fresh generator: no output, counter at zero, no unit name.
    pub fn new() -> (w: CodeWriter)
        ensures
            w.instrs_v() == Seq::<SInstr>::empty(),
            w.count() == 0,
            w.unit() == Seq::<char>::empty(),
    {
        let w = CodeWriter { instrs: Vec::new(), logical_op_count: 0, filename: String::new() };
        proof {
            assert(w.instrs_v() =~= Seq::<SInstr>::empty());
        }
        w
    }

    /// Sets the current source-unit name.  Must happen before any `static`
    /// access of that unit is translated.
    #[allow(non_snake_case)]
    pub fn setFileName(&mut self, filename: &str)
        ensures
            final(self).unit() == filename@,
            final(self).instrs_v() == old(self).instrs_v(),
            final(self).count() == old(self).count(),
    {
        self.filename = filename.to_owned();
    }

    /// Emits the bootstrap prologue.  Only meaningful before all other
    /// output, and only on request.
    pub fn debug(&mut self)
        ensures
            final(self).instrs_v() == old(self).instrs_v() + spec_init_instrs(),
            final(self).count() == old(self).count(),
            final(self).unit() == old(self).unit(),
    {
        self.instrs.push(Instr::At(256));
        self.instrs.push(Instr::C(Dest::RegD, Comp::JustA, Jump::NoJump));
        self.instrs.push(Instr::AtSym("SP".to_owned()));
        self.instrs.push(Instr::C(Dest::RegM, Comp::JustD, Jump::NoJump));
        self.instrs.push(Instr::At(400));
        self.instrs.push(Instr::C(Dest::RegD, Comp::JustA, Jump::NoJump));
        self.instrs.push(Instr::AtSym("ARG".to_owned()));
        self.instrs.push(Instr::C(Dest::RegM, Comp::JustD, Jump::NoJump));
        proof {
            assert(self.instrs_v() =~= old(self).instrs_v() + spec_init_instrs());
        }
    }

    /// Emits one comparison: bumps the counter and appends the comparison
    /// template with the three namespaced internal labels.
    fn generate_cmp_template(&mut self, command: &str)
        requires
            is_cmp_mnemonic(command@),
            old(self).count() < usize::MAX,
        ensures
            final(self).count() == old(self).count() + 1,
            final(self).instrs_v() == old(self).instrs_v() + spec_cmp_instrs(
                command@,
                old(self).count() + 1,
            ),
            final(self).unit() == old(self).unit(),
    {
        self.logical_op_count = self.logical_op_count + 1;
        let n = self.logical_op_count as u64;
        let true_label = build_cmp_label("RETURNTRUE", command, n);
        let false_label = build_cmp_label("RETURNFALSE", command, n);
        let end_label = build_cmp_label("RETURNEND", command, n);
        let (true_cmp, false_cmp) = if str_eq(command, "eq") {
            (Jump::JEQ, Jump::JNE)
        } else if str_eq(command, "lt") {
            (Jump::JLT, Jump::JGE)
        } else {
            (Jump::JGT, Jump::JLE)
        };
        self.instrs.push(Instr::AtSym("SP".to_owned()));
        self.instrs.push(Instr::C(Dest::RegAM, Comp::MMinusOne, Jump::NoJump));
        self.instrs.push(Instr::C(Dest::RegD, Comp::JustM, Jump::NoJump));
        self.instrs.push(Instr::AtSym("SP".to_owned()));
        self.instrs.push(Instr::C(Dest::RegAM, Comp::MMinusOne, Jump::NoJump));
        self.instrs.push(Instr::C(Dest::RegD, Comp::MMinusD, Jump::NoJump));
        self.instrs.push(Instr::AtSym(true_label.clone()));
        self.instrs.push(Instr::C(Dest::NoDest, Comp::JustD, true_cmp));
        self.instrs.push(Instr::AtSym(false_label.clone()));
        self.instrs.push(Instr::C(Dest::NoDest, Comp::JustD, false_cmp));
        self.instrs.push(Instr::LabelDef(true_label));
        self.instrs.push(Instr::C(Dest::RegD, Comp::NegOne, Jump::NoJump));
        self.instrs.push(Instr::AtSym(end_label.clone()));
        self.instrs.push(Instr::C(Dest::NoDest, Comp::Zero, Jump::JMP));
        self.instrs.push(Instr::LabelDef(false_label));
        self.instrs.push(Instr::C(Dest::RegD, Comp::Zero, Jump::NoJump));
        self.instrs.push(Instr::LabelDef(end_label));
        self.instrs.push(Instr::AtSym("SP".to_owned()));
        self.instrs.push(Instr::C(Dest::RegA, Comp::JustM, Jump::NoJump));
        self.instrs.push(Instr::C(Dest::RegM, Comp::JustD, Jump::NoJump));
        self.instrs.push(Instr::AtSym("SP".to_owned()));
        self.instrs.push(Instr::C(Dest::RegM, Comp::MPlusOne, Jump::NoJump));
        proof {
            assert(self.instrs_v() =~= old(self).instrs_v() + spec_cmp_instrs(
                command@,
                old(self).count() + 1,
            ));
        }
    }

    /// Emits one arithmetic-logical command.  A binary operation nets one
    /// word off the stack, a unary one leaves the height unchanged, and a
    /// comparison nets one word off and bumps the comparison counter.
    #[allow(non_snake_case)]
    pub fn writeArithmetic(&mut self, command: &str)
        requires
            crate::parser::is_arith_mnemonic(command@),
            old(self).count() < usize::MAX,
        ensures
            final(self).unit() == old(self).unit(),
            is_cmp_mnemonic(command@) ==> {
                &&& final(self).count() == old(self).count() + 1
                &&& final(self).instrs_v() == old(self).instrs_v() + spec_cmp_instrs(
                    command@,
                    old(self).count() + 1,
                )
            },
            !is_cmp_mnemonic(command@) ==> {
                &&& final(self).count() == old(self).count()
                &&& final(self).instrs_v() == old(self).instrs_v() + spec_simple_arith_instrs(
                    command@,
                )
            },
    {
        proof {
            lemma_arith_mnemonics_distinct();
        }
        if str_eq(command, "add") {
            self.push_binary(Comp::DPlusM);
        } else if str_eq(command, "sub") {
            self.push_binary(Comp::MMinusD);
        } else if str_eq(command, "neg") {
            self.push_unary(Comp::NegM);
        } else if str_eq(command, "and") {
            self.push_binary(Comp::DAndM);
        } else if str_eq(command, "or") {
            self.push_binary(Comp::DOrM);
        } else if str_eq(command, "not") {
            self.push_unary(Comp::NotM);
        } else {
            self.generate_cmp_template(command);
        }
    }

    fn push_binary(&mut self, comp: Comp)
        ensures
            final(self).instrs_v() == old(self).instrs_v() + spec_binary_instrs(comp),
            final(self).count() == old(self).count(),
            final(self).unit() == old(self).unit(),
    {
        self.instrs.push(Instr::AtSym("SP".to_owned()));
        self.instrs.push(Instr::C(Dest::RegAM, Comp::MMinusOne, Jump::NoJump));
        self.instrs.push(Instr::C(Dest::RegD, Comp::JustM, Jump::NoJump));
        self.instrs.push(Instr::AtSym("SP".to_owned()));
        self.instrs.push(Instr::C(Dest::RegAM, Comp::MMinusOne, Jump::NoJump));
        self.instrs.push(Instr::C(Dest::RegM, comp, Jump::NoJump));
        self.instrs.push(Instr::AtSym("SP".to_owned()));
        self.instrs.push(Instr::C(Dest::RegM, Comp::MPlusOne, Jump::NoJump));
        proof {
            assert(self.instrs_v() =~= old(self).instrs_v() + spec_binary_instrs(comp));
        }
    }

    fn push_unary(&mut self, comp: Comp)
        ensures
            final(self).instrs_v() == old(self).instrs_v() + spec_unary_instrs(comp),
            final(self).count() == old(self).count(),
            final(self).unit() == old(self).unit(),
    {
        self.instrs.push(Instr::AtSym("SP".to_owned()));
        self.instrs.push(Instr::C(Dest::RegAM, Comp::MMinusOne, Jump::NoJump));
        self.instrs.push(Instr::C(Dest::RegM, comp, Jump::NoJump));
        self.instrs.push(Instr::AtSym("SP".to_owned()));
        self.instrs.push(Instr::C(Dest::RegM, Comp::MPlusOne, Jump::NoJump));
        proof {
            assert(self.instrs_v() =~= old(self).instrs_v() + spec_unary_instrs(comp));
        }
    }

    /// Emits one `push` or `pop` command.  Fails with `UnknownSegment` when
    /// the segment token is outside the fixed vocabulary and with
    /// `InvalidOperation` for `pop constant`; either failure emits nothing.
    #[allow(non_snake_case)]
    pub fn writePushPop(&mut self, command: &CommandType, segment: &str, index: i64) -> (r:
        Result<(), GenError>)
        requires
            *command is C_PUSH || *command is C_POP,
            0 <= index,
        ensures
            final(self).count() == old(self).count(),
            final(self).unit() == old(self).unit(),
            ({
                match (r, spec_segment_of(segment@)) {
                    (Ok(_), Some(seg)) => {
                        &&& (*command is C_PUSH ==> final(self).instrs_v() == old(
                            self,
                        ).instrs_v() + spec_push_instrs(seg, index as u64, old(self).unit()))
                        &&& (*command is C_POP ==> !(seg is constant) && final(self).instrs_v()
                            == old(self).instrs_v() + spec_pop_instrs(
                            seg,
                            index as u64,
                            old(self).unit(),
                        ))
                    },
                    (Err(e), seg_o) => {
                        &&& final(self).instrs_v() == old(self).instrs_v()
                        &&& ((e == GenError::UnknownSegment && seg_o is None) || (e
                            == GenError::InvalidOperation && seg_o == Some(Segment::constant)
                            && *command is C_POP))
                    },
                    _ => false,
                }
            }),
    {
        let seg = match segment_of_token(segment) {
            Some(s) => s,
            Option::None => {
                return Err(GenError::UnknownSegment);
            },
        };
        if *command == CommandType::C_PUSH {
            seg.write_push_asm(index, &mut self.instrs, Some(self.filename.as_str()));
            Ok(())
        } else {
            if seg == Segment::constant {
                return Err(GenError::InvalidOperation);
            }
            seg.write_pop_asm(index, &mut self.instrs, Some(self.filename.as_str()));
            Ok(())
        }
    }

    /// Emits a label definition usable as a jump target.  The name is used
    /// verbatim: VM label names are not namespaced per unit.
    #[allow(non_snake_case)]
    pub fn writeLabel(&mut self, command: &CommandType, label: &str)
        ensures
            final(self).instrs_v() == old(self).instrs_v() + spec_label_instrs(label@),
            final(self).count() == old(self).count(),
            final(self).unit() == old(self).unit(),
    {
        self.instrs.push(Instr::LabelDef(label.to_owned()));
        proof {
            assert(self.instrs_v() =~= old(self).instrs_v() + spec_label_instrs(label@));
        }
    }

    /// Emits an unconditional jump to a label.
    #[allow(non_snake_case)]
    pub fn writeGoto(&mut self, command: &CommandType, label: &str)
        ensures
            final(self).instrs_v() == old(self).instrs_v() + spec_goto_instrs(label@),
            final(self).count() == old(self).count(),
            final(self).unit() == old(self).unit(),
    {
        self.instrs.push(Instr::AtSym(label.to_owned()));
        self.instrs.push(Instr::C(Dest::NoDest, Comp::Zero, Jump::JMP));
        proof {
            assert(self.instrs_v() =~= old(self).instrs_v() + spec_goto_instrs(label@));
        }
    }

    /// Emits a conditional jump: pop one word and jump iff it is non-zero.
    #[allow(non_snake_case)]
    pub fn writeIf(&mut self, command: &CommandType, label: &str)
        ensures
            final(self).instrs_v() == old(self).instrs_v() + spec_if_instrs(label@),
            final(self).count() == old(self).count(),
            final(self).unit() == old(self).unit(),
    {
        self.instrs.push(Instr::AtSym("SP".to_owned()));
        self.instrs.push(Instr::C(Dest::RegAM, Comp::MMinusOne, Jump::NoJump));
        self.instrs.push(Instr::C(Dest::RegD, Comp::JustM, Jump::NoJump));
        self.instrs.push(Instr::AtSym(label.to_owned()));
        self.instrs.push(Instr::C(Dest::NoDest, Comp::JustD, Jump::JNE));
        proof {
            assert(self.instrs_v() =~= old(self).instrs_v() + spec_if_instrs(label@));
        }
    }

    /// The assembly text emitted so far.
    pub fn output(&self) -> (s: String)
        ensures
            s@ == render_sinstrs(self.instrs_v()),
    {
        render_instrs(&self.instrs)
    }
}

} // verus!
