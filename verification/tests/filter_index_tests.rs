use asm_lsp::filter::filter_targets;
use asm_lsp::index::{populate_name_to_instruction_map, NameToInstructionMap};
use asm_lsp::instr::{
    get_target_config, Arch, Dialect, Form, Instruction, InstructionSets, TargetConfig,
};

fn mov(arch: Arch) -> Instruction {
    Instruction {
        name: "MOV".to_string(),
        arch,
        summary: "Move data".to_string(),
        forms: vec![
            Form {
                operands: vec!["r32".to_string(), "r32".to_string()],
                dialects: vec![Dialect::Gas, Dialect::Go],
                notes: None,
            },
            Form {
                operands: vec!["m32".to_string(), "imm32".to_string()],
                dialects: vec![Dialect::Gas],
                notes: None,
            },
        ],
    }
}

fn config(assemblers: Vec<Dialect>) -> TargetConfig {
    TargetConfig {
        instruction_sets: InstructionSets { x86: true, x86_64: true },
        assemblers,
    }
}

#[test]
fn all_dialects_enabled_preserves_form_count() {
    let instruction = mov(Arch::X86);
    let filtered = filter_targets(&instruction, &config(vec![Dialect::Gas, Dialect::Go]));
    assert_eq!(filtered.forms.len(), instruction.forms.len());
    assert_eq!(filtered.name, instruction.name);
}

#[test]
fn single_dialect_keeps_only_matching_forms() {
    let instruction = mov(Arch::X86);
    let filtered = filter_targets(&instruction, &config(vec![Dialect::Go]));
    assert_eq!(filtered.forms.len(), 1);
    assert_eq!(filtered.forms[0].operands, vec!["r32".to_string(), "r32".to_string()]);
}

#[test]
fn zero_dialects_yield_zero_forms_and_no_index_entry() {
    let instruction = mov(Arch::X86);
    let filtered = filter_targets(&instruction, &config(vec![]));
    assert_eq!(filtered.forms.len(), 0);
    // The record itself survives filtering; it is excluded at the index
    // boundary.
    assert_eq!(filtered.name, "MOV");
    let mut map = NameToInstructionMap::new();
    populate_name_to_instruction_map(Arch::X86, vec![filtered], &mut map);
    assert!(map.get(Arch::X86, "mov").is_none());
}

#[test]
fn lookup_is_case_insensitive() {
    let mut map = NameToInstructionMap::new();
    populate_name_to_instruction_map(Arch::X86, vec![mov(Arch::X86)], &mut map);
    let exact = map.get(Arch::X86, "MOV").expect("exact mnemonic");
    let lower = map.get(Arch::X86, "mov").expect("lowercase variant");
    let mixed = map.get(Arch::X86, "mOv").expect("mixed-case variant");
    assert_eq!(exact.name, "MOV");
    assert_eq!(lower.name, "MOV");
    assert_eq!(mixed.name, "MOV");
    assert_eq!(exact.summary, lower.summary);
    assert_eq!(exact.summary, mixed.summary);
}

#[test]
fn unknown_mnemonic_is_absent() {
    let mut map = NameToInstructionMap::new();
    populate_name_to_instruction_map(Arch::X86, vec![mov(Arch::X86)], &mut map);
    assert!(map.get(Arch::X86, "frobnicate").is_none());
}

#[test]
fn last_insertion_wins_for_equal_keys() {
    let mut first = mov(Arch::X86);
    first.summary = "first".to_string();
    let mut second = mov(Arch::X86);
    second.summary = "second".to_string();
    let mut map = NameToInstructionMap::new();
    populate_name_to_instruction_map(Arch::X86, vec![first, second], &mut map);
    let found = map.get(Arch::X86, "mov").expect("key present");
    assert_eq!(found.summary, "second");
}

#[test]
fn cross_architecture_entries_are_independent() {
    let mut map = NameToInstructionMap::new();
    populate_name_to_instruction_map(Arch::X86, vec![mov(Arch::X86)], &mut map);
    populate_name_to_instruction_map(Arch::X86_64, vec![mov(Arch::X86_64)], &mut map);
    let a = map.get(Arch::X86, "mov").expect("x86 entry");
    let b = map.get(Arch::X86_64, "mov").expect("x86_64 entry");
    assert_eq!(a.arch, Arch::X86);
    assert_eq!(b.arch, Arch::X86_64);

    // Disabling one architecture removes only that architecture's entry.
    let mut only_64 = NameToInstructionMap::new();
    populate_name_to_instruction_map(Arch::X86_64, vec![mov(Arch::X86_64)], &mut only_64);
    assert!(only_64.get(Arch::X86, "mov").is_none());
    assert!(only_64.get(Arch::X86_64, "mov").is_some());

    let mut only_32 = NameToInstructionMap::new();
    populate_name_to_instruction_map(Arch::X86, vec![mov(Arch::X86)], &mut only_32);
    assert!(only_32.get(Arch::X86, "mov").is_some());
    assert!(only_32.get(Arch::X86_64, "mov").is_none());
}

#[test]
fn target_config_defaults_enable_everything() {
    let cfg = get_target_config(None, None, None);
    assert!(cfg.instruction_sets.x86);
    assert!(cfg.instruction_sets.x86_64);
    assert_eq!(cfg.assemblers, vec![Dialect::Gas, Dialect::Go]);
}

#[test]
fn target_config_honours_explicit_options() {
    let cfg = get_target_config(Some(false), Some(true), Some(vec![Dialect::Go]));
    assert!(!cfg.instruction_sets.x86);
    assert!(cfg.instruction_sets.x86_64);
    assert_eq!(cfg.assemblers, vec![Dialect::Go]);
}
