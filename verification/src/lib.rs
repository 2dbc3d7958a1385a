//! Translator from a line-oriented, stack-based VM language to assembly for a
//! 16-bit register/memory-mapped target machine.
//!
//! The crate parses VM commands into a typed command stream (`parser`) and
//! emits target assembly per command (`writer`), with segment-to-register
//! resolution, globally unique labels for comparisons, and per-source-unit
//! namespacing of `static` variables.  The emitted assembly is modelled as a
//! sequence of typed instructions (`insn`); a machine model (`machine`) gives
//! those instructions their semantics, and the lemmas in `laws` prove that
//! every emitted template has the intended stack effect.

use vstd::prelude::*;

pub mod insn;
pub mod laws;
pub mod machine;
pub mod parser;
pub mod template;
pub mod writer;

use crate::insn::SInstr;
use crate::parser::{
    clean_line, first_meaningful_from, is_meaningful, spec_parse, strs_view, CommandType,
    ParseError, Parser, SpecCmd,
};
use crate::writer::{
    is_cmp_mnemonic, spec_cmp_instrs, spec_goto_instrs, spec_if_instrs, spec_init_instrs,
    spec_label_instrs, spec_pop_instrs, spec_push_instrs, spec_segment_of,
    spec_simple_arith_instrs, CodeWriter, GenError, Segment,
};

verus! {

/// One VM source unit: its name (which namespaces its `static` variables)
/// and its text lines.
pub struct SourceUnit {
    pub name: String,
    pub lines: Vec<String>,
}

/// A fatal translation failure: either a lexical violation in a source line
/// or a logically malformed or unsupported generation request.
#[derive(PartialEq, Eq, Structural, Debug, Clone, Copy)]
pub enum TranslateError {
    Parse(ParseError),
    Gen(GenError),
}

/// The content of an optionally present character sequence, empty where
/// absent.
pub open spec fn opt_seq(o: Option<Seq<char>>) -> Seq<char> {
    match o {
        Option::Some(s) => s,
        Option::None => Seq::empty(),
    }
}

/// The content of an optionally present integer, zero where absent.
pub open spec fn opt_i64(o: Option<i64>) -> i64 {
    match o {
        Option::Some(v) => v,
        Option::None => 0,
    }
}

/// The instructions emitted for one parsed command, and the comparison
/// counter afterwards.  `function`, `call` and `return` are recognized
/// syntax with no defined lowering and fail with `Unsupported`.
pub open spec fn spec_gen_cmd(c: SpecCmd, unit: Seq<char>, count: nat) -> Result<
    (Seq<SInstr>, nat),
    GenError,
> {
    match c.ty {
        CommandType::C_ARITHMETIC => {
            let op = opt_seq(c.arg1);
            if is_cmp_mnemonic(op) {
                Ok((spec_cmp_instrs(op, count + 1), count + 1))
            } else {
                Ok((spec_simple_arith_instrs(op), count))
            }
        },
        CommandType::C_PUSH => {
            match spec_segment_of(opt_seq(c.arg1)) {
                Option::None => Err(GenError::UnknownSegment),
                Option::Some(seg) => Ok((spec_push_instrs(seg, opt_i64(c.arg2) as u64, unit), count)),
            }
        },
        CommandType::C_POP => {
            match spec_segment_of(opt_seq(c.arg1)) {
                Option::None => Err(GenError::UnknownSegment),
                Option::Some(seg) => {
                    if seg is constant {
                        Err(GenError::InvalidOperation)
                    } else {
                        Ok((spec_pop_instrs(seg, opt_i64(c.arg2) as u64, unit), count))
                    }
                },
            }
        },
        CommandType::C_LABEL => Ok((spec_label_instrs(opt_seq(c.arg1)), count)),
        CommandType::C_GOTO => Ok((spec_goto_instrs(opt_seq(c.arg1)), count)),
        CommandType::C_IF => Ok((spec_if_instrs(opt_seq(c.arg1)), count)),
        CommandType::C_FUNCTION | CommandType::C_CALL | CommandType::C_RETURN => Err(
            GenError::Unsupported,
        ),
    }
}

/// The instructions emitted for one unit's lines from position `i` on, and
/// the comparison counter afterwards; or the first failure.
pub open spec fn spec_translate_lines(
    lines: Seq<Seq<char>>,
    i: int,
    unit: Seq<char>,
    count: nat,
) -> Result<(Seq<SInstr>, nat), TranslateError>
    decreases lines.len() - i,
    when 0 <= i <= lines.len()
{
    if i >= lines.len() {
        Ok((Seq::empty(), count))
    } else if !is_meaningful(lines[i]) {
        spec_translate_lines(lines, i + 1, unit, count)
    } else {
        match spec_parse(clean_line(lines[i])) {
            Err(e) => Err(TranslateError::Parse(e)),
            Ok(c) => match spec_gen_cmd(c, unit, count) {
                Err(e) => Err(TranslateError::Gen(e)),
                Ok((ins, count2)) => match spec_translate_lines(lines, i + 1, unit, count2) {
                    Err(e) => Err(e),
                    Ok((rest, count3)) => Ok((ins + rest, count3)),
                },
            },
        }
    }
}

/// The instructions emitted for the units from position `i` on, and the
/// comparison counter afterwards; or the first failure.  The counter is
/// threaded across units and never reset.
pub open spec fn spec_translate_units(units: Seq<SourceUnit>, i: int, count: nat) -> Result<
    (Seq<SInstr>, nat),
    TranslateError,
>
    decreases units.len() - i,
    when 0 <= i <= units.len()
{
    if i >= units.len() {
        Ok((Seq::empty(), count))
    } else {
        match spec_translate_lines(strs_view(units[i].lines@), 0, units[i].name@, count) {
            Err(e) => Err(e),
            Ok((ins, count2)) => match spec_translate_units(units, i + 1, count2) {
                Err(e) => Err(e),
                Ok((rest, count3)) => Ok((ins + rest, count3)),
            },
        }
    }
}

/// Prepends already-emitted instructions to a translation result.
pub open spec fn prepend_result(p: Seq<SInstr>, r: Result<(Seq<SInstr>, nat), TranslateError>)
    -> Result<(Seq<SInstr>, nat), TranslateError> {
    match r {
        Ok((ins, c)) => Ok((p + ins, c)),
        Err(e) => Err(e),
    }
}

/// The total number of lines of the units from position `i` on.
pub open spec fn total_lines_from(units: Seq<SourceUnit>, i: int) -> nat
    decreases units.len() - i,
    when 0 <= i <= units.len()
{
    if i >= units.len() {
        0
    } else {
        units[i].lines@.len() + total_lines_from(units, i + 1)
    }
}

/// Translating lines is unaffected by skipping their leading
/// non-meaningful prefix.
proof fn lemma_translate_lines_skip(lines: Seq<Seq<char>>, i: int, unit: Seq<char>, count: nat)
    requires
        0 <= i <= lines.len(),
    ensures
        spec_translate_lines(lines, i, unit, count) == spec_translate_lines(
            lines,
            first_meaningful_from(lines, i),
            unit,
            count,
        ),
    decreases lines.len() - i,
{
    crate::parser::lemma_first_meaningful_props(lines, i);
    if i < lines.len() && !is_meaningful(lines[i]) {
        lemma_translate_lines_skip(lines, i + 1, unit, count);
    }
}

/// The comparison counter is strictly increasing and never reset within a
/// run: every successful translation leaves the counter at or above where
/// it started, so no emitted comparison ever reuses an earlier value.
pub proof fn lemma_translate_lines_counter_monotonic(
    lines: Seq<Seq<char>>,
    i: int,
    unit: Seq<char>,
    count: nat,
)
    requires
        0 <= i <= lines.len(),
    ensures
        (match spec_translate_lines(lines, i, unit, count) {
            Ok((ins, c2)) => c2 >= count,
            Err(_) => true,
        }),
    decreases lines.len() - i,
{
    if i < lines.len() {
        if !is_meaningful(lines[i]) {
            lemma_translate_lines_counter_monotonic(lines, i + 1, unit, count);
        } else {
            match spec_parse(clean_line(lines[i])) {
                Err(_) => {},
                Ok(c) => match spec_gen_cmd(c, unit, count) {
                    Err(_) => {},
                    Ok((_, count2)) => {
                        lemma_translate_lines_counter_monotonic(lines, i + 1, unit, count2);
                    },
                },
            }
        }
    }
}

/// Counter monotonicity across units: the counter is threaded through all
/// units of a run and only ever grows.
pub proof fn lemma_translate_units_counter_monotonic(
    units: Seq<SourceUnit>,
    i: int,
    count: nat,
)
    requires
        0 <= i <= units.len(),
    ensures
        (match spec_translate_units(units, i, count) {
            Ok((ins, c2)) => c2 >= count,
            Err(_) => true,
        }),
    decreases units.len() - i,
{
    if i < units.len() {
        lemma_translate_lines_counter_monotonic(
            strs_view(units[i].lines@),
            0,
            units[i].name@,
            count,
        );
        match spec_translate_lines(strs_view(units[i].lines@), 0, units[i].name@, count) {
            Err(_) => {},
            Ok((_, count2)) => {
                lemma_translate_units_counter_monotonic(units, i + 1, count2);
            },
        }
    }
}

/// Prepending emitted instructions composes.
proof fn lemma_prepend_compose(
    p: Seq<SInstr>,
    q: Seq<SInstr>,
    r: Result<(Seq<SInstr>, nat), TranslateError>,
)
    ensures
        prepend_result(p, prepend_result(q, r)) == prepend_result(p + q, r),
{
    match r {
        Ok((ins, c)) => {
            assert(p + (q + ins) =~= (p + q) + ins);
        },
        Err(_) => {},
    }
}

/// Translates all units' commands in order, appending the assembly for each
/// to `output`.  The bootstrap prologue comes first when `debug` is set.
/// Any parse or generation failure is fatal: the first one is returned,
/// nothing further is emitted, and the run does not claim success.
#[verifier::loop_isolation(false)]
#[verifier::rlimit(100)]
pub fn compile(inputs: Vec<SourceUnit>, output: &mut CodeWriter, debug: bool) -> (r: Result<
    (),
    TranslateError,
>)
    requires
        old(output).count() + total_lines_from(inputs@, 0) <= usize::MAX,
    ensures
        match spec_translate_units(inputs@, 0, old(output).count()) {
            Ok((ins, c2)) => {
                &&& r is Ok
                &&& final(output).instrs_v() == old(output).instrs_v() + (if debug {
                    spec_init_instrs()
                } else {
                    Seq::empty()
                }) + ins
                &&& final(output).count() == c2
                &&& (inputs@.len() == 0 ==> final(output).unit() == old(output).unit())
                &&& (inputs@.len() > 0 ==> final(output).unit() == inputs@.last().name@)
            },
            Err(e) => {
                &&& r == Result::<(), TranslateError>::Err(e)
                &&& final(output).count() >= old(output).count()
                &&& final(output).instrs_v().take(old(output).instrs_v().len() as int) == old(
                    output,
                ).instrs_v()
            },
        },
{
    // only for debugging, to initialize the stack pointer
    if debug {
        output.debug();
    }
    let ghost count0 = old(output).count();
    let ghost base = old(output).instrs_v() + (if debug {
        spec_init_instrs()
    } else {
        Seq::<SInstr>::empty()
    });
    proof {
        assert(output.instrs_v() =~= base);
        assert(base.take(old(output).instrs_v().len() as int) =~= old(output).instrs_v());
    }
    let mut ui: usize = 0;
    while ui < inputs.len()
        invariant
            0 <= ui <= inputs@.len(),
            output.count() + total_lines_from(inputs@, ui as int) <= usize::MAX,
            output.count() >= count0,
            output.instrs_v().len() >= base.len(),
            output.instrs_v().take(base.len() as int) == base,
            output.instrs_v().take(old(output).instrs_v().len() as int) == old(
                output,
            ).instrs_v(),
            base.len() >= old(output).instrs_v().len(),
            spec_translate_units(inputs@, 0, count0) == prepend_result(
                output.instrs_v().skip(base.len() as int),
                spec_translate_units(inputs@, ui as int, output.count()),
            ),
            ui > 0 ==> output.unit() == inputs@[ui - 1].name@,
            ui == 0 ==> output.unit() == old(output).unit(),
        decreases inputs@.len() - ui,
    {
        let lines = inputs[ui].lines.clone();
        proof {
            assert forall|j: int| 0 <= j < lines@.len() implies lines@[j]@
                == inputs@[ui as int].lines@[j]@ by {
                assert(cloned::<String>(inputs@[ui as int].lines@[j], lines@[j]));
            }
            assert(strs_view(lines@) =~= strs_view(inputs@[ui as int].lines@));
        }
        let ghost lv = strs_view(inputs@[ui as int].lines@);
        let ghost name = inputs@[ui as int].name@;
        let ghost count_u = output.count();
        let ghost base_u = output.instrs_v();
        let ghost unit_res = spec_translate_lines(lv, 0, name, count_u);
        output.setFileName(inputs[ui].name.as_str());
        let mut parser = Parser::new(lines);
        while parser.has_next_cmd()
            invariant
                parser.wf(),
                parser.lines_v() == lv,
                0 <= parser.pos_v() <= lv.len(),
                output.unit() == name,
                output.count() + (lv.len() - parser.pos_v()) + total_lines_from(
                    inputs@,
                    ui + 1,
                ) <= usize::MAX,
                output.count() >= count0,
                output.instrs_v().len() >= base_u.len(),
                output.instrs_v().take(base_u.len() as int) == base_u,
                output.instrs_v().take(old(output).instrs_v().len() as int) == old(
                    output,
                ).instrs_v(),
                base_u.len() >= old(output).instrs_v().len(),
                prepend_result(
                    output.instrs_v().skip(base_u.len() as int),
                    spec_translate_lines(lv, parser.pos_v(), name, output.count()),
                ) == unit_res,
            decreases lv.len() - parser.pos_v(),
        {
            let ghost pos0 = parser.pos_v();
            let ghost countb = output.count();
            let ghost emitted0 = output.instrs_v().skip(base_u.len() as int);
            let ghost k = first_meaningful_from(lv, pos0);
            proof {
                crate::parser::lemma_first_meaningful_props(lv, pos0);
                lemma_translate_lines_skip(lv, pos0, name, countb);
            }
            let res = parser.advance();
            match res {
                Err(e) => {
                    proof {
                        lemma_prepend_compose(
                            emitted0,
                            Seq::<SInstr>::empty(),
                            Result::<(Seq<SInstr>, nat), TranslateError>::Err(
                                TranslateError::Parse(e),
                            ),
                        );
                    }
                    return Err(TranslateError::Parse(e));
                },
                Ok(()) => {},
            }
            let ghost c = spec_parse(clean_line(lv[k])) ->Ok_0;
            let ghost gen = spec_gen_cmd(c, name, countb);
            let ct = *parser.get_command_type();
            match ct {
                CommandType::C_ARITHMETIC => {
                    output.writeArithmetic(parser.get_arg_1().as_str());
                },
                CommandType::C_PUSH | CommandType::C_POP => {
                    let r2 = output.writePushPop(&ct, parser.get_arg_1().as_str(),
                        parser.get_arg_2());
                    match r2 {
                        Err(e) => {
                            return Err(TranslateError::Gen(e));
                        },
                        Ok(()) => {},
                    }
                },
                CommandType::C_LABEL => {
                    output.writeLabel(&ct, parser.get_arg_1().as_str());
                },
                CommandType::C_GOTO => {
                    output.writeGoto(&ct, parser.get_arg_1().as_str());
                },
                CommandType::C_IF => {
                    output.writeIf(&ct, parser.get_arg_1().as_str());
                },
                CommandType::C_FUNCTION | CommandType::C_CALL | CommandType::C_RETURN => {
                    return Err(TranslateError::Gen(GenError::Unsupported));
                },
            }
            proof {
                let ins = gen ->Ok_0.0;
                let c2 = gen ->Ok_0.1;
                assert(output.instrs_v() =~= (base_u + emitted0) + ins);
                assert(output.instrs_v().take(base_u.len() as int) =~= base_u);
                assert(output.instrs_v().take(old(output).instrs_v().len() as int)
                    =~= old(output).instrs_v());
                assert(output.instrs_v().skip(base_u.len() as int) =~= emitted0 + ins);
                assert(spec_translate_lines(lv, pos0, name, countb) == prepend_result(
                    ins,
                    spec_translate_lines(lv, k + 1, name, c2),
                ));
                lemma_prepend_compose(
                    emitted0,
                    ins,
                    spec_translate_lines(lv, k + 1, name, c2),
                );
            }
        }
        proof {
            let pos = parser.pos_v();
            crate::parser::lemma_first_meaningful_props(lv, pos);
            lemma_translate_lines_skip(lv, pos, name, output.count());
            let emitted = output.instrs_v().skip(base_u.len() as int);
            assert(spec_translate_lines(lv, pos, name, output.count()) == Result::<
                (Seq<SInstr>, nat),
                TranslateError,
            >::Ok((Seq::empty(), output.count())));
            assert(emitted + Seq::<SInstr>::empty() =~= emitted);
            assert(unit_res == Result::<(Seq<SInstr>, nat), TranslateError>::Ok(
                (emitted, output.count()),
            ));
            // fold the finished unit into the outer decomposition
            assert(spec_translate_units(inputs@, ui as int, count_u) == prepend_result(
                emitted,
                spec_translate_units(inputs@, ui + 1, output.count()),
            ));
            let done0 = base_u.skip(base.len() as int);
            assert(output.instrs_v() =~= base_u + emitted);
            assert(output.instrs_v().take(base.len() as int) =~= base);
            assert(output.instrs_v().skip(base.len() as int) =~= done0 + emitted);
            lemma_prepend_compose(
                done0,
                emitted,
                spec_translate_units(inputs@, ui + 1, output.count()),
            );
        }
        ui = ui + 1;
    }
    proof {
        let emitted = output.instrs_v().skip(base.len() as int);
        assert(output.instrs_v() =~= base + emitted);
        assert(emitted + Seq::<SInstr>::empty() =~= emitted);
    }
    Ok(())
}

} // verus!
