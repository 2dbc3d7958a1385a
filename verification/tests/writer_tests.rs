use vm_translator::parser::CommandType;
use vm_translator::template::{
    generate_pop_specified_register_template, generate_pop_specified_register_template_pointer,
    generate_push_specified_register_template, generate_push_specified_register_template_pointer,
};
use vm_translator::writer::{CodeWriter, GenError};

#[test]
fn writer_work_test() {
    let mut writer = CodeWriter::new();
    writer
        .writePushPop(&CommandType::C_PUSH, "constant", 7)
        .unwrap();
    writer
        .writePushPop(&CommandType::C_PUSH, "constant", 8)
        .unwrap();
    writer.writeArithmetic("add");
}

#[test]
fn push_constant_text() {
    let mut writer = CodeWriter::new();
    writer
        .writePushPop(&CommandType::C_PUSH, "constant", 7)
        .unwrap();
    assert_eq!(
        "@7\nD=A\n@SP\nA=M\nM=D\n@SP\nM=M+1\n",
        writer.output()
    );
}

#[test]
fn pop_constant_is_invalid_and_emits_nothing() {
    let mut writer = CodeWriter::new();
    assert_eq!(
        Err(GenError::InvalidOperation),
        writer.writePushPop(&CommandType::C_POP, "constant", 0)
    );
    assert_eq!("", writer.output());
}

#[test]
fn unknown_segment_is_rejected() {
    let mut writer = CodeWriter::new();
    assert_eq!(
        Err(GenError::UnknownSegment),
        writer.writePushPop(&CommandType::C_PUSH, "heap", 0)
    );
    assert_eq!("", writer.output());
}

#[test]
fn static_symbols_are_namespaced_per_unit() {
    let mut foo = CodeWriter::new();
    foo.setFileName("Foo");
    foo.writePushPop(&CommandType::C_PUSH, "static", 3).unwrap();
    let foo_text = foo.output();
    assert!(foo_text.contains("@Foo.3\n"));

    let mut bar = CodeWriter::new();
    bar.setFileName("Bar");
    bar.writePushPop(&CommandType::C_PUSH, "static", 3).unwrap();
    let bar_text = bar.output();
    assert!(bar_text.contains("@Bar.3\n"));
    assert!(!bar_text.contains("@Foo.3\n"));

    // the same unit and index resolve to the same symbol both times
    let mut again = CodeWriter::new();
    again.setFileName("Foo");
    again.writePushPop(&CommandType::C_PUSH, "static", 3).unwrap();
    again.writePushPop(&CommandType::C_POP, "static", 3).unwrap();
    let text = again.output();
    assert_eq!(2, text.matches("@Foo.3\n").count());
}

#[test]
fn comparison_labels_never_repeat() {
    let mut writer = CodeWriter::new();
    writer.writeArithmetic("eq");
    writer.writeArithmetic("eq");
    let text = writer.output();
    assert_eq!(1, text.matches("(RETURNTRUE_eq_1)").count());
    assert_eq!(1, text.matches("(RETURNTRUE_eq_2)").count());
    assert_eq!(1, text.matches("(RETURNFALSE_eq_1)").count());
    assert_eq!(1, text.matches("(RETURNFALSE_eq_2)").count());
    assert_eq!(1, text.matches("(RETURNEND_eq_1)").count());
    assert_eq!(1, text.matches("(RETURNEND_eq_2)").count());
}

#[test]
fn comparison_counter_spans_operators() {
    let mut writer = CodeWriter::new();
    writer.writeArithmetic("eq");
    writer.writeArithmetic("lt");
    writer.writeArithmetic("gt");
    let text = writer.output();
    assert!(text.contains("(RETURNTRUE_eq_1)"));
    assert!(text.contains("(RETURNTRUE_lt_2)"));
    assert!(text.contains("(RETURNTRUE_gt_3)"));
}

#[test]
fn branching_commands_emit_label_goto_and_if() {
    let mut writer = CodeWriter::new();
    writer.writeLabel(&CommandType::C_LABEL, "LOOP_START");
    writer.writeGoto(&CommandType::C_GOTO, "LOOP_START");
    writer.writeIf(&CommandType::C_IF, "LOOP_START");
    assert_eq!(
        "(LOOP_START)\n\
         @LOOP_START\n0;JMP\n\
         @SP\nAM=M-1\nD=M\n@LOOP_START\nD;JNE\n",
        writer.output()
    );
}

#[test]
fn bootstrap_prologue_text() {
    let mut writer = CodeWriter::new();
    writer.debug();
    assert_eq!(
        "@256\nD=A\n@SP\nM=D\n@400\nD=A\n@ARG\nM=D\n",
        writer.output()
    );
}

#[test]
fn register_template_text() {
    assert_eq!(
        "@2\nD=A\n@LCL\nD=D+M\n@R13\nM=D\n@R13\nA=M\nD=M\n@SP\nA=M\nM=D\n@SP\nM=M+1\n",
        generate_push_specified_register_template(2, "LCL")
    );
    assert_eq!(
        "@2\nD=A\n@LCL\nD=D+M\n@R13\nM=D\n@SP\nAM=M-1\nD=M\n@R13\nA=M\nM=D\n",
        generate_pop_specified_register_template(2, "LCL")
    );
}

#[test]
fn pointer_template_text() {
    assert_eq!(
        "@1\nD=A\n@5\nD=D+A\n@R13\nM=D\n@R13\nA=M\nD=M\n@SP\nA=M\nM=D\n@SP\nM=M+1\n",
        generate_push_specified_register_template_pointer(1, "5")
    );
    assert_eq!(
        "@0\nD=A\n@3\nD=D+A\n@R13\nM=D\n@SP\nAM=M-1\nD=M\n@R13\nA=M\nM=D\n",
        generate_pop_specified_register_template_pointer(0, "3")
    );
}

#[test]
fn comparison_template_text() {
    let mut writer = CodeWriter::new();
    writer.writeArithmetic("eq");
    assert_eq!(
        "@SP\nAM=M-1\nD=M\n@SP\nAM=M-1\nD=M-D\n\
         @RETURNTRUE_eq_1\nD;JEQ\n@RETURNFALSE_eq_1\nD;JNE\n\
         (RETURNTRUE_eq_1)\nD=-1\n@RETURNEND_eq_1\n0;JMP\n\
         (RETURNFALSE_eq_1)\nD=0\n(RETURNEND_eq_1)\n\
         @SP\nA=M\nM=D\n@SP\nM=M+1\n",
        writer.output()
    );
}

#[test]
fn multi_digit_constants_render_in_decimal() {
    let mut writer = CodeWriter::new();
    writer
        .writePushPop(&CommandType::C_PUSH, "constant", 12345)
        .unwrap();
    assert!(writer.output().starts_with("@12345\n"));
}

#[test]
fn arithmetic_templates_text() {
    let mut writer = CodeWriter::new();
    writer.writeArithmetic("sub");
    writer.writeArithmetic("neg");
    writer.writeArithmetic("not");
    let text = writer.output();
    assert_eq!(
        "@SP\nAM=M-1\nD=M\n@SP\nAM=M-1\nM=M-D\n@SP\nM=M+1\n\
         @SP\nAM=M-1\nM=-M\n@SP\nM=M+1\n\
         @SP\nAM=M-1\nM=!M\n@SP\nM=M+1\n",
        text
    );
}
