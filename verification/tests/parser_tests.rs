use vm_translator::parser::{CommandType, Parser, ParseError};

fn lines_of(text: &str) -> Vec<String> {
    text.lines().map(|l| l.to_string()).collect()
}

fn simple_add_lines() -> Vec<String> {
    lines_of(
        "// Pushes and adds two constants.\n\
         \n\
         push constant 7\n\
         push constant 8\n\
         add\n",
    )
}

fn stack_test_lines() -> Vec<String> {
    lines_of(
        "// Executes a sequence of arithmetic and logical operations\n\
         // on the stack.\n\
         push constant 17\n\
         push constant 17\n\
         eq\n",
    )
}

fn basic_loop_lines() -> Vec<String> {
    lines_of(
        "// Computes the sum 1 + 2 + ... + argument[0] and pushes the result.\n\
         push constant 0\n\
         pop local 0         // initializes sum = 0\n\
         label LOOP_START\n\
         push argument 0\n\
         push local 0\n\
         add\n",
    )
}

#[test]
fn parser_work_test() {
    let mut parser = Parser::new(simple_add_lines());
    parser.advance().unwrap();
    parser.has_next_cmd();
    assert_eq!(&CommandType::C_PUSH, parser.get_command_type());
    assert_eq!("constant", parser.get_arg_1());
    assert_eq!(7, parser.get_arg_2());

    parser.advance().unwrap();
    parser.has_next_cmd();
    assert_eq!(&CommandType::C_PUSH, parser.get_command_type());
    assert_eq!("constant", parser.get_arg_1());
    assert_eq!(8, parser.get_arg_2());

    parser.advance().unwrap();
    parser.has_next_cmd();
    parser.get_command_type();
    assert_eq!(&CommandType::C_ARITHMETIC, parser.get_command_type());
    assert_eq!("add", parser.get_arg_1());
}

#[test]
fn work_test_stack() {
    let mut parser = Parser::new(stack_test_lines());
    parser.advance().unwrap();
    parser.has_next_cmd();
    assert_eq!(&CommandType::C_PUSH, parser.get_command_type());
    assert_eq!("constant", parser.get_arg_1());
    assert_eq!(17, parser.get_arg_2());

    parser.advance().unwrap();
    parser.has_next_cmd();
    assert_eq!(&CommandType::C_PUSH, parser.get_command_type());
    assert_eq!("constant", parser.get_arg_1());
    assert_eq!(17, parser.get_arg_2());

    parser.advance().unwrap();
    parser.has_next_cmd();
    parser.get_command_type();
    assert_eq!(&CommandType::C_ARITHMETIC, parser.get_command_type());
    assert_eq!("eq", parser.get_arg_1());
}

#[test]
fn work_test_label() {
    let mut parser = Parser::new(basic_loop_lines());
    parser.advance().unwrap();
    parser.has_next_cmd();

    parser.advance().unwrap();
    parser.has_next_cmd();

    parser.advance().unwrap();
    parser.has_next_cmd();
    parser.get_command_type();
    assert_eq!(&CommandType::C_LABEL, parser.get_command_type());
    assert_eq!("LOOP_START", parser.get_arg_1());
}

#[test]
fn skips_blank_and_comment_lines() {
    let mut parser = Parser::new(lines_of("\n   \n// only a comment\nadd // trailing\n"));
    assert!(parser.has_next_cmd());
    parser.advance().unwrap();
    assert_eq!(&CommandType::C_ARITHMETIC, parser.get_command_type());
    assert_eq!("add", parser.get_arg_1());
    assert!(!parser.has_next_cmd());
}

#[test]
fn recognizes_every_mnemonic() {
    let mut parser = Parser::new(lines_of(
        "sub\nneg\ngt\nlt\nand\nor\nnot\ngoto END\nif-goto END\nreturn\n",
    ));
    for expected in [
        CommandType::C_ARITHMETIC,
        CommandType::C_ARITHMETIC,
        CommandType::C_ARITHMETIC,
        CommandType::C_ARITHMETIC,
        CommandType::C_ARITHMETIC,
        CommandType::C_ARITHMETIC,
        CommandType::C_ARITHMETIC,
        CommandType::C_GOTO,
        CommandType::C_IF,
        CommandType::C_RETURN,
    ] {
        parser.advance().unwrap();
        assert_eq!(&expected, parser.get_command_type());
    }
}

#[test]
fn parses_function_and_call() {
    let mut parser = Parser::new(lines_of("function Foo.bar 2\ncall Foo.bar 1\n"));
    parser.advance().unwrap();
    assert_eq!(&CommandType::C_FUNCTION, parser.get_command_type());
    assert_eq!("Foo.bar", parser.get_arg_1());
    assert_eq!(2, parser.get_arg_2());
    parser.advance().unwrap();
    assert_eq!(&CommandType::C_CALL, parser.get_command_type());
    assert_eq!(1, parser.get_arg_2());
}

#[test]
fn rejects_unknown_mnemonic() {
    let mut parser = Parser::new(lines_of("frobnicate constant 1\n"));
    assert_eq!(Err(ParseError::UnrecognizedMnemonic), parser.advance());
}

#[test]
fn rejects_missing_operand() {
    let mut parser = Parser::new(lines_of("push constant\n"));
    assert_eq!(Err(ParseError::MissingOperand), parser.advance());
    let mut parser = Parser::new(lines_of("label\n"));
    assert_eq!(Err(ParseError::MissingOperand), parser.advance());
}

#[test]
fn rejects_bad_index() {
    let mut parser = Parser::new(lines_of("push constant abc\n"));
    assert_eq!(Err(ParseError::InvalidIndex), parser.advance());
    let mut parser = Parser::new(lines_of("push constant -3\n"));
    assert_eq!(Err(ParseError::InvalidIndex), parser.advance());
    let mut parser = Parser::new(lines_of("push constant 99999999999999999999\n"));
    assert_eq!(Err(ParseError::InvalidIndex), parser.advance());
}

#[test]
fn splits_on_runs_of_whitespace() {
    let mut parser = Parser::new(lines_of("push\t constant   7\n"));
    parser.advance().unwrap();
    assert_eq!(&CommandType::C_PUSH, parser.get_command_type());
    assert_eq!("constant", parser.get_arg_1());
    assert_eq!(7, parser.get_arg_2());
}
