use asm_lsp::instr::{Arch, Dialect};
use asm_lsp::loader::{populate_instructions, ParseError};

fn sample() -> &'static str {
    "instruction|MOV|Move data between registers\n\
     form|gas,go|r32,r32\n\
     form|gas|m32,imm32|encoding notes\n\
     \n\
     instruction|ADD|Integer addition\n\
     form|go|r64,r64|"
}

#[test]
fn parses_instructions_in_order() {
    let instructions = populate_instructions(sample(), Arch::X86).unwrap();
    assert_eq!(instructions.len(), 2);
    assert_eq!(instructions[0].name, "MOV");
    assert_eq!(instructions[0].summary, "Move data between registers");
    assert_eq!(instructions[1].name, "ADD");
    assert_eq!(instructions[1].summary, "Integer addition");
    assert!(instructions.iter().all(|i| i.arch == Arch::X86));
}

#[test]
fn parses_forms_with_operands_dialects_and_notes() {
    let instructions = populate_instructions(sample(), Arch::X86_64).unwrap();
    let mov = &instructions[0];
    assert_eq!(mov.forms.len(), 2);
    assert_eq!(mov.forms[0].operands, vec!["r32".to_string(), "r32".to_string()]);
    assert_eq!(mov.forms[0].dialects, vec![Dialect::Gas, Dialect::Go]);
    assert!(mov.forms[0].notes.is_none());
    assert_eq!(mov.forms[1].operands, vec!["m32".to_string(), "imm32".to_string()]);
    assert_eq!(mov.forms[1].dialects, vec![Dialect::Gas]);
    assert_eq!(mov.forms[1].notes.as_deref(), Some("encoding notes"));
    // An empty trailing notes field means no notes.
    let add = &instructions[1];
    assert_eq!(add.forms.len(), 1);
    assert!(add.forms[0].notes.is_none());
}

#[test]
fn empty_operand_field_means_no_operands() {
    let text = "instruction|NOP|No operation\nform|gas|";
    let instructions = populate_instructions(text, Arch::X86).unwrap();
    assert_eq!(instructions[0].forms[0].operands.len(), 0);
}

#[test]
fn parsing_is_deterministic() {
    let a = populate_instructions(sample(), Arch::X86).unwrap();
    let b = populate_instructions(sample(), Arch::X86).unwrap();
    assert_eq!(a.len(), b.len());
    for (x, y) in a.iter().zip(b.iter()) {
        assert_eq!(x.name, y.name);
        assert_eq!(x.summary, y.summary);
        assert_eq!(x.forms.len(), y.forms.len());
    }
}

#[test]
fn empty_text_yields_no_instructions() {
    let instructions = populate_instructions("", Arch::X86).unwrap();
    assert_eq!(instructions.len(), 0);
}

#[test]
fn unknown_directive_is_rejected() {
    let err = populate_instructions("bogus|x", Arch::X86).unwrap_err();
    assert_eq!(err, ParseError::UnknownDirective { line: 0 });
}

#[test]
fn missing_field_is_rejected() {
    let err = populate_instructions("instruction|OnlyName", Arch::X86).unwrap_err();
    assert_eq!(err, ParseError::MissingField { line: 0 });
    let err = populate_instructions(
        "instruction|MOV|Move data\nform|gas",
        Arch::X86,
    )
    .unwrap_err();
    assert_eq!(err, ParseError::MissingField { line: 1 });
}

#[test]
fn empty_name_is_rejected() {
    let err = populate_instructions("instruction||summary", Arch::X86).unwrap_err();
    assert_eq!(err, ParseError::EmptyName { line: 0 });
}

#[test]
fn form_before_instruction_is_rejected() {
    let err = populate_instructions("form|gas|r32", Arch::X86).unwrap_err();
    assert_eq!(err, ParseError::FormWithoutInstruction { line: 0 });
}

#[test]
fn unknown_dialect_is_rejected() {
    let err = populate_instructions(
        "instruction|MOV|Move data\nform|nasm|r32",
        Arch::X86,
    )
    .unwrap_err();
    assert_eq!(err, ParseError::UnknownDialect { line: 1 });
}
