//! Typed model of the target machine's instruction set, and rendering of
//! instructions to assembly text.
//!
//! An instruction is either an address load (`@n` or `@symbol`), a
//! compute instruction `dest=comp;jump`, or a label definition `(name)`.
//! Only the destinations, computations and jump conditions that the code
//! generator emits are modelled.

use vstd::prelude::*;

verus! {

/// Destination field of a compute instruction.
#[derive(Clone, Copy, PartialEq, Eq, Structural, Debug)]
pub enum Dest {
    NoDest,
    RegM,
    RegD,
    RegA,
    RegAM,
}

/// Computation field of a compute instruction.
#[derive(Clone, Copy, PartialEq, Eq, Structural, Debug)]
pub enum Comp {
    Zero,
    NegOne,
    JustD,
    JustA,
    JustM,
    NotM,
    NegM,
    MPlusOne,
    MMinusOne,
    DPlusM,
    MMinusD,
    DPlusA,
    DAndM,
    DOrM,
}

/// Jump field of a compute instruction.
#[derive(Clone, Copy, PartialEq, Eq, Structural, Debug)]
pub enum Jump {
    NoJump,
    JMP,
    JEQ,
    JNE,
    JLT,
    JGT,
    JGE,
    JLE,
}

/// One target-machine instruction, as built by the code generator.
#[derive(Debug)]
pub enum Instr {
    /// `@n` with a numeric constant.
    At(u64),
    /// `@symbol` with a named symbol (register name, static variable, label).
    AtSym(String),
    /// `dest=comp;jump`.
    C(Dest, Comp, Jump),
    /// `(name)`, a label definition.
    LabelDef(String),
}

/// Mathematical counterpart of `Instr`: symbols are character sequences.
#[verifier::ext_equal]
pub enum SInstr {
    At(u64),
    AtSym(Seq<char>),
    C(Dest, Comp, Jump),
    LabelDef(Seq<char>),
}

/// The mathematical value of one built instruction.
pub open spec fn view_instr(i: Instr) -> SInstr {
    match i {
        Instr::At(n) => SInstr::At(n),
        Instr::AtSym(s) => SInstr::AtSym(s@),
        Instr::C(d, c, j) => SInstr::C(d, c, j),
        Instr::LabelDef(s) => SInstr::LabelDef(s@),
    }
}

/// The mathematical value of a built instruction sequence.
pub open spec fn view_instrs(v: Seq<Instr>) -> Seq<SInstr> {
    v.map_values(|i: Instr| view_instr(i))
}

/// The decimal digit character for `n < 10`.
pub open spec fn dec_digit(n: nat) -> char
    recommends
        n < 10,
{
    if n == 0 {
        '0'
    } else if n == 1 {
        '1'
    } else if n == 2 {
        '2'
    } else if n == 3 {
        '3'
    } else if n == 4 {
        '4'
    } else if n == 5 {
        '5'
    } else if n == 6 {
        '6'
    } else if n == 7 {
        '7'
    } else if n == 8 {
        '8'
    } else {
        '9'
    }
}

/// The decimal rendering of a natural number, without leading zeros
/// (except for `0` itself).
pub open spec fn spec_dec(n: nat) -> Seq<char>
    decreases n,
{
    if n < 10 {
        seq![dec_digit(n)]
    } else {
        spec_dec(n / 10).push(dec_digit(n % 10))
    }
}

/// A decimal rendering is non-empty, two or more characters from 10 up,
/// and made of digit characters only.
pub proof fn lemma_spec_dec_props(n: nat)
    ensures
        spec_dec(n).len() >= 1,
        n >= 10 ==> spec_dec(n).len() >= 2,
        forall|j: int|
            0 <= j < spec_dec(n).len() ==> crate::parser::is_digit(#[trigger] spec_dec(n)[j]),
    decreases n,
{
    if n >= 10 {
        lemma_spec_dec_props(n / 10);
    }
}

/// Different numbers render to different decimal texts.
pub proof fn lemma_spec_dec_injective(n1: nat, n2: nat)
    requires
        n1 != n2,
    ensures
        spec_dec(n1) != spec_dec(n2),
    decreases n1 + n2,
{
    lemma_spec_dec_props(n1);
    lemma_spec_dec_props(n2);
    if n1 < 10 && n2 < 10 {
        assert(spec_dec(n1)[0] != spec_dec(n2)[0]);
    } else if n1 < 10 || n2 < 10 {
        // one rendering has one character, the other at least two
    } else {
        if n1 / 10 == n2 / 10 {
            assert(n1 % 10 != n2 % 10);
            assert(spec_dec(n1).last() != spec_dec(n2).last());
        } else {
            lemma_spec_dec_injective(n1 / 10, n2 / 10);
            if spec_dec(n1) == spec_dec(n2) {
                assert(spec_dec(n1).drop_last() =~= spec_dec(n1 / 10));
                assert(spec_dec(n2).drop_last() =~= spec_dec(n2 / 10));
                assert(false);
            }
        }
    }
}

/// A one-character string for a decimal digit.
fn digit_str(d: u64) -> (r: &'static str)
    requires
        d < 10,
    ensures
        r@ =~= seq![dec_digit(d as nat)],
{
    proof {
        reveal_strlit("0");
        reveal_strlit("1");
        reveal_strlit("2");
        reveal_strlit("3");
        reveal_strlit("4");
        reveal_strlit("5");
        reveal_strlit("6");
        reveal_strlit("7");
        reveal_strlit("8");
        reveal_strlit("9");
    }
    if d == 0 {
        "0"
    } else if d == 1 {
        "1"
    } else if d == 2 {
        "2"
    } else if d == 3 {
        "3"
    } else if d == 4 {
        "4"
    } else if d == 5 {
        "5"
    } else if d == 6 {
        "6"
    } else if d == 7 {
        "7"
    } else if d == 8 {
        "8"
    } else {
        "9"
    }
}

/// Renders a number in decimal.
pub fn u64_to_string(n: u64) -> (s: String)
    ensures
        s@ == spec_dec(n as nat),
    decreases n,
{
    if n < 10 {
        let s = digit_str(n).to_owned();
        assert(s@ == spec_dec(n as nat));
        s
    } else {
        let mut s = u64_to_string(n / 10);
        s.append(digit_str(n % 10));
        assert(s@ =~= spec_dec((n / 10) as nat).push(dec_digit((n % 10) as nat)));
        s
    }
}

/// Text of a destination field, including the `=` where a destination exists.
pub open spec fn dest_text(d: Dest) -> Seq<char> {
    match d {
        Dest::NoDest => Seq::empty(),
        Dest::RegM => "M="@,
        Dest::RegD => "D="@,
        Dest::RegA => "A="@,
        Dest::RegAM => "AM="@,
    }
}

/// Text of a computation field.
pub open spec fn comp_text(c: Comp) -> Seq<char> {
    match c {
        Comp::Zero => "0"@,
        Comp::NegOne => "-1"@,
        Comp::JustD => "D"@,
        Comp::JustA => "A"@,
        Comp::JustM => "M"@,
        Comp::NotM => "!M"@,
        Comp::NegM => "-M"@,
        Comp::MPlusOne => "M+1"@,
        Comp::MMinusOne => "M-1"@,
        Comp::DPlusM => "D+M"@,
        Comp::MMinusD => "M-D"@,
        Comp::DPlusA => "D+A"@,
        Comp::DAndM => "D&M"@,
        Comp::DOrM => "D|M"@,
    }
}

/// Text of a jump field, including the `;` where a jump exists.
pub open spec fn jump_text(j: Jump) -> Seq<char> {
    match j {
        Jump::NoJump => Seq::empty(),
        Jump::JMP => ";JMP"@,
        Jump::JEQ => ";JEQ"@,
        Jump::JNE => ";JNE"@,
        Jump::JLT => ";JLT"@,
        Jump::JGT => ";JGT"@,
        Jump::JGE => ";JGE"@,
        Jump::JLE => ";JLE"@,
    }
}

/// Text of one instruction: one assembly line ended by a newline.
pub open spec fn render_sinstr(i: SInstr) -> Seq<char> {
    match i {
        SInstr::At(n) => "@"@ + spec_dec(n as nat) + "\n"@,
        SInstr::AtSym(s) => "@"@ + s + "\n"@,
        SInstr::C(d, c, j) => dest_text(d) + comp_text(c) + jump_text(j) + "\n"@,
        SInstr::LabelDef(s) => "("@ + s + ")\n"@,
    }
}

/// Text of an instruction sequence: the lines in order.
pub open spec fn render_sinstrs(v: Seq<SInstr>) -> Seq<char>
    decreases v.len(),
{
    if v.len() == 0 {
        Seq::empty()
    } else {
        render_sinstr(v[0]) + render_sinstrs(v.skip(1))
    }
}

/// Rendering distributes over concatenation of instruction sequences.
pub proof fn lemma_render_concat(a: Seq<SInstr>, b: Seq<SInstr>)
    ensures
        render_sinstrs(a + b) == render_sinstrs(a) + render_sinstrs(b),
    decreases a.len(),
{
    if a.len() == 0 {
        assert(a + b =~= b);
        assert(render_sinstrs(a) + render_sinstrs(b) =~= render_sinstrs(b));
    } else {
        assert((a + b).skip(1) =~= a.skip(1) + b);
        lemma_render_concat(a.skip(1), b);
        assert(render_sinstrs(a + b) =~= render_sinstrs(a) + render_sinstrs(b));
    }
}

fn dest_str(d: Dest) -> (r: &'static str)
    ensures
        r@ == dest_text(d),
{
    proof {
        reveal_strlit("");
        reveal_strlit("M=");
        reveal_strlit("D=");
        reveal_strlit("A=");
        reveal_strlit("AM=");
    }
    match d {
        Dest::NoDest => {
            let r = "";
            assert(r@ =~= dest_text(d));
            r
        },
        Dest::RegM => "M=",
        Dest::RegD => "D=",
        Dest::RegA => "A=",
        Dest::RegAM => "AM=",
    }
}

fn comp_str(c: Comp) -> (r: &'static str)
    ensures
        r@ == comp_text(c),
{
    match c {
        Comp::Zero => "0",
        Comp::NegOne => "-1",
        Comp::JustD => "D",
        Comp::JustA => "A",
        Comp::JustM => "M",
        Comp::NotM => "!M",
        Comp::NegM => "-M",
        Comp::MPlusOne => "M+1",
        Comp::MMinusOne => "M-1",
        Comp::DPlusM => "D+M",
        Comp::MMinusD => "M-D",
        Comp::DPlusA => "D+A",
        Comp::DAndM => "D&M",
        Comp::DOrM => "D|M",
    }
}

fn jump_str(j: Jump) -> (r: &'static str)
    ensures
        r@ == jump_text(j),
{
    proof {
        reveal_strlit("");
    }
    match j {
        Jump::NoJump => {
            let r = "";
            assert(r@ =~= jump_text(j));
            r
        },
        Jump::JMP => ";JMP",
        Jump::JEQ => ";JEQ",
        Jump::JNE => ";JNE",
        Jump::JLT => ";JLT",
        Jump::JGT => ";JGT",
        Jump::JGE => ";JGE",
        Jump::JLE => ";JLE",
    }
}

/// Appends the text of one instruction to `out`.
pub fn render_instr(i: &Instr, out: &mut String)
    ensures
        final(out)@ == old(out)@ + render_sinstr(view_instr(*i)),
{
    match i {
        Instr::At(n) => {
            out.append("@");
            let digits = u64_to_string(*n);
            out.append(digits.as_str());
            out.append("\n");
        },
        Instr::AtSym(s) => {
            out.append("@");
            out.append(s.as_str());
            out.append("\n");
        },
        Instr::C(d, c, j) => {
            out.append(dest_str(*d));
            out.append(comp_str(*c));
            out.append(jump_str(*j));
            out.append("\n");
        },
        Instr::LabelDef(s) => {
            out.append("(");
            out.append(s.as_str());
            out.append(")\n");
        },
    }
    assert(out@ =~= old(out)@ + render_sinstr(view_instr(*i)));
}

/// Renders a whole instruction sequence to assembly text.
pub fn render_instrs(v: &Vec<Instr>) -> (s: String)
    ensures
        s@ == render_sinstrs(view_instrs(v@)),
{
    let mut s = String::new();
    let mut i: usize = 0;
    while i < v.len()
        invariant
            i <= v.len(),
            s@ == render_sinstrs(view_instrs(v@.take(i as int))),
        decreases v.len() - i,
    {
        proof {
            assert(view_instrs(v@.take(i + 1)) =~= view_instrs(v@.take(i as int)).push(
                view_instr(v@[i as int]),
            ));
            lemma_render_concat(
                view_instrs(v@.take(i as int)),
                seq![view_instr(v@[i as int])],
            );
            assert(view_instrs(v@.take(i as int)).push(view_instr(v@[i as int])) =~= view_instrs(
                v@.take(i as int),
            ) + seq![view_instr(v@[i as int])]);
            let si = view_instr(v@[i as int]);
            assert(seq![si].len() == 1);
            assert(seq![si][0] == si);
            assert(seq![si].skip(1) =~= Seq::<SInstr>::empty());
            assert(render_sinstrs(Seq::<SInstr>::empty()) == Seq::<char>::empty());
            assert(render_sinstrs(seq![si]) =~= render_sinstr(si));
        }
        render_instr(&v[i], &mut s);
        i = i + 1;
    }
    proof {
        assert(v@.take(v@.len() as int) =~= v@);
    }
    s
}

} // verus!
