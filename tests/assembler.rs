use ot_asm::codegen::generate_code;
use ot_asm::isa::{AsmError, Condition, ErrorKind, Immediate, Operator, Reg, Stmt};
use ot_asm::listing::write_output;
use ot_asm::parser::{
    is_calc, is_cond, parse, parse_calc, parse_cond, parse_copy, parse_immediate, parse_line,
    parse_reg, register_named,
};
use ot_asm::resolve::solve_labels;

fn lines(src: &str) -> Vec<String> {
    src.lines().map(String::from).collect()
}

fn assemble(src: &str) -> Result<Vec<u8>, AsmError> {
    let stmts = parse(&lines(src))?;
    generate_code(&stmts)
}

fn kind_of<T: std::fmt::Debug>(r: Result<T, AsmError>) -> ErrorKind {
    r.unwrap_err().kind
}

#[test]
fn let_literal_yields_its_value() {
    for v in 0..=31u8 {
        assert_eq!(assemble(&format!("LET {v}")).unwrap(), vec![v]);
    }
}

#[test]
fn let_literal_out_of_range_fails() {
    assert_eq!(kind_of(assemble("LET -1")), ErrorKind::NegativeImmediate);
    assert_eq!(kind_of(assemble("LET 32")), ErrorKind::ImmediateTooLarge);
    assert_eq!(kind_of(assemble("LET 1000")), ErrorKind::ImmediateTooLarge);
    assert_eq!(kind_of(assemble("LET 99999999999")), ErrorKind::InvalidNumber);
    assert_eq!(kind_of(assemble("LET five")), ErrorKind::InvalidNumber);
}

#[test]
fn let_accepts_a_plus_sign() {
    assert_eq!(assemble("LET +7").unwrap(), vec![7]);
    assert_eq!(assemble("LET -0").unwrap(), vec![0]);
}

#[test]
fn mnemonics_are_case_insensitive() {
    let expected = parse(&lines("LET 3")).unwrap();
    assert_eq!(parse(&lines("let 3")).unwrap(), expected);
    assert_eq!(parse(&lines("Let 3")).unwrap(), expected);
    assert_eq!(expected, vec![Stmt::Let(Immediate::Int(3))]);
    assert_eq!(parse(&lines("add\nCoPy reg0 Reg1\nlseq")).unwrap(), parse(&lines("ADD\nCOPY REG0 REG1\nLSEQ")).unwrap());
}

#[test]
fn io_register_aliases() {
    assert_eq!(parse_copy("IO", "IN").unwrap(), Stmt::CopyReg(Reg::Io, Reg::Io));
    assert_eq!(parse_copy("OUT", "OUT").unwrap(), Stmt::CopyReg(Reg::Io, Reg::Io));
    assert_eq!(parse_reg("io").unwrap(), Reg::Io);
    assert_eq!(parse_reg("in").unwrap(), Reg::Io);
    assert_eq!(parse_reg("Out").unwrap(), Reg::Io);
    assert_eq!(assemble("COPY IO IN").unwrap(), assemble("COPY OUT OUT").unwrap());
    assert_eq!(assemble("COPY IO IN").unwrap(), vec![128 + 6 + (6 << 3)]);
}

#[test]
fn one_byte_per_instruction() {
    let src = "@a:\nLET 1\n# comment\n\n@b:\nOR\n@c:\nGR\n@d:";
    let stmts = parse(&lines(src)).unwrap();
    assert_eq!(stmts.len(), 7);
    assert_eq!(generate_code(&stmts).unwrap().len(), 3);
}

#[test]
fn forward_and_backward_references_agree() {
    let code = assemble("LET @x\nADD\n@x:\nSUB\nLET @x").unwrap();
    assert_eq!(code, vec![2, 68, 69, 2]);
}

#[test]
fn class_tags_in_top_bits() {
    let code = assemble("LET 31\nNAND\nCOPY REG5 IO\nGR\nLET @end\n@end:").unwrap();
    let classes: Vec<u8> = code.iter().map(|b| b >> 6).collect();
    assert_eq!(classes, vec![0, 1, 2, 3, 0]);
}

#[test]
fn end_to_end_example() {
    let code = assemble("LET 5\n@loop:\nADD\nCOPY REG0 REG1\nLSEQ\nLET @loop").unwrap();
    assert_eq!(code, vec![5, 68, 136, 195, 1]);
}

#[test]
fn label_past_address_space_fails() {
    let mut src = String::new();
    for _ in 0..63 {
        src.push_str("ADD\n");
    }
    src.push_str("@last:\nADD\n");
    assert_eq!(assemble(&src).unwrap().len(), 64);
    src.push_str("@over:\nLET @over\n");
    let err = assemble(&src).unwrap_err();
    assert_eq!(err.kind, ErrorKind::AddressOverflow);
    assert_eq!(err.token, "over");
    assert_eq!(err.at, 65);
}

#[test]
fn unresolved_label_fails() {
    let err = assemble("ADD\nLET @nowhere").unwrap_err();
    assert_eq!(err.kind, ErrorKind::UnresolvedLabel);
    assert_eq!(err.token, "nowhere");
    assert_eq!(err.at, 1);
}

#[test]
fn later_definition_wins() {
    assert_eq!(assemble("@x:\nADD\n@x:\nLET @x").unwrap(), vec![68, 1]);
}

#[test]
fn parse_errors_carry_line_and_token() {
    let err = parse(&lines("ADD\n\nJUMP 3")).unwrap_err();
    assert_eq!(err.kind, ErrorKind::UnknownOpcode);
    assert_eq!(err.at, 2);
    assert_eq!(err.token, "JUMP");
    assert_eq!(kind_of(parse(&lines("LET"))), ErrorKind::MissingImmediate);
    assert_eq!(kind_of(parse(&lines("COPY REG0"))), ErrorKind::MissingRegister);
    let err = parse(&lines("COPY REG0 REG9")).unwrap_err();
    assert_eq!(err.kind, ErrorKind::UnknownRegister);
    assert_eq!(err.token, "REG9");
    assert_eq!(kind_of(parse_cond("JUMP")), ErrorKind::UnknownCondition);
    assert_eq!(kind_of(parse_calc("JUMP")), ErrorKind::UnknownOpcode);
}

#[test]
fn comments_blanks_and_labels() {
    assert_eq!(parse_line("   ").unwrap(), None);
    assert_eq!(parse_line("#LET 40").unwrap(), None);
    assert_eq!(parse_line("  @top:  ignored").unwrap(), Some(Stmt::Label("top".to_string())));
    assert_eq!(parse_line("@:").unwrap(), Some(Stmt::Label(String::new())));
    assert_eq!(parse_line("\tsub extra words").unwrap(), Some(Stmt::Calc(Operator::Sub)));
    assert_eq!(parse_immediate("@far").unwrap(), Stmt::Let(Immediate::Label("far".to_string())));
}

#[test]
fn mnemonic_tables() {
    assert!(is_calc("NAND") && !is_calc("nand") && !is_calc("EQ"));
    assert!(is_cond("GREQ") && !is_cond("ADD"));
    assert_eq!(parse_calc("AND").unwrap(), Stmt::Calc(Operator::And));
    assert_eq!(parse_cond("NEQ").unwrap(), Stmt::Cond(Condition::NEq));
    assert_eq!(register_named("REG3"), Some(Reg::Reg3));
    assert_eq!(register_named("reg3"), None);
    assert_eq!(assemble("OR\nNOR\nOFF\nEQ\nLS\nON").unwrap(), vec![64, 66, 192, 193, 194, 196]);
}

#[test]
fn symbol_table_addresses() {
    let stmts = parse(&lines("@a:\nADD\n@b:\nSUB\nSUB\n@c:")).unwrap();
    let table = solve_labels(&stmts).unwrap();
    assert_eq!(table.get("a"), Some(0));
    assert_eq!(table.get("b"), Some(1));
    assert_eq!(table.get("c"), Some(3));
    assert_eq!(table.get("d"), None);
}

#[test]
fn listing_echoes_each_statement() {
    let stmts = parse(&lines("LET 5\n@loop:\nadd\ncopy reg0 in\nLSEQ\nLET @loop")).unwrap();
    let code = generate_code(&stmts).unwrap();
    let text = write_output(&stmts, &code);
    assert_eq!(
        text,
        "5   # LET 5\n    # @loop:\n68  # ADD\n176 # COPY REG0 IO\n195 # LSEQ\n1   # LET @loop\n"
    );
}
