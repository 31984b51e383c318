use asm_lsp::dispatch::{
    dispatch_message, run_session, Action, HoverQuery, InboundMessage, RequestId,
};
use asm_lsp::hover::{hover_content, render_instruction_exec};
use asm_lsp::index::{populate_name_to_instruction_map, NameToInstructionMap};
use asm_lsp::instr::{Arch, Dialect, Form, Instruction};

fn mov(arch: Arch, summary: &str) -> Instruction {
    Instruction {
        name: "MOV".to_string(),
        arch,
        summary: summary.to_string(),
        forms: vec![Form {
            operands: vec!["r32".to_string(), "r32".to_string()],
            dialects: vec![Dialect::Gas],
            notes: None,
        }],
    }
}

fn both_arch_index() -> NameToInstructionMap {
    let mut map = NameToInstructionMap::new();
    populate_name_to_instruction_map(Arch::X86, vec![mov(Arch::X86, "Move data")], &mut map);
    populate_name_to_instruction_map(
        Arch::X86_64,
        vec![mov(Arch::X86_64, "Move data wide")],
        &mut map,
    );
    map
}

#[test]
fn rendering_has_exact_markdown_shape() {
    let instruction = mov(Arch::X86, "Move data");
    let md = render_instruction_exec(&instruction);
    assert_eq!(md, "**MOV** [x86]\n\nMove data\n\n- r32, r32");
}

#[test]
fn rendering_includes_notes_when_present() {
    let mut instruction = mov(Arch::X86_64, "Move data");
    instruction.forms[0].notes = Some("sign-extended".to_string());
    let md = render_instruction_exec(&instruction);
    assert_eq!(md, "**MOV** [x86_64]\n\nMove data\n\n- r32, r32 | sign-extended");
}

#[test]
fn hover_concatenates_both_architectures_x86_first() {
    let map = both_arch_index();
    let md = hover_content(&map, "mov");
    let expected_x86 = "**MOV** [x86]\n\nMove data\n\n- r32, r32";
    let expected_x86_64 = "**MOV** [x86_64]\n\nMove data wide\n\n- r32, r32";
    assert_eq!(md, format!("{}\n\n{}", expected_x86, expected_x86_64));
    // Exactly one blank-line separator between the two sections.
    let sections: Vec<&str> = md.split("\n\n").collect();
    assert!(sections.len() >= 2);
    assert!(md.starts_with("**MOV** [x86]"));
    assert!(md.contains("**MOV** [x86_64]"));
    assert!(md.find("[x86]").unwrap() < md.find("[x86_64]").unwrap());
}

#[test]
fn hover_for_single_architecture_has_one_section() {
    let mut map = NameToInstructionMap::new();
    populate_name_to_instruction_map(Arch::X86_64, vec![mov(Arch::X86_64, "Move data")], &mut map);
    let md = hover_content(&map, "MOV");
    assert_eq!(md, "**MOV** [x86_64]\n\nMove data\n\n- r32, r32");
}

#[test]
fn hover_for_unknown_token_is_empty_string() {
    let map = both_arch_index();
    let md = hover_content(&map, "frobnicate");
    assert_eq!(md, "");
}

#[test]
fn hover_request_gets_exactly_one_reply() {
    let map = both_arch_index();
    let msg = InboundMessage::HoverRequest {
        id: RequestId::Number(7),
        query: Some(HoverQuery {
            text: "mov eax, ebx".to_string(),
            line: 0,
            character: 1,
        }),
    };
    match dispatch_message(&map, &msg) {
        Action::Reply { id: RequestId::Number(7), content } => {
            assert!(content.starts_with("**MOV** [x86]"));
        }
        other => panic!("expected a reply, got {:?}", action_name(&other)),
    }
}

#[test]
fn undecodable_hover_request_gets_empty_reply() {
    let map = both_arch_index();
    let msg = InboundMessage::HoverRequest { id: RequestId::Number(1), query: None };
    match dispatch_message(&map, &msg) {
        Action::Reply { content, .. } => assert_eq!(content, ""),
        other => panic!("expected a reply, got {:?}", action_name(&other)),
    }
}

#[test]
fn hover_on_non_word_position_gets_empty_reply() {
    let map = both_arch_index();
    let msg = InboundMessage::HoverRequest {
        id: RequestId::Text("q".to_string()),
        query: Some(HoverQuery {
            text: "mov eax, ebx".to_string(),
            line: 0,
            character: 3,
        }),
    };
    match dispatch_message(&map, &msg) {
        Action::Reply { content, .. } => assert_eq!(content, ""),
        other => panic!("expected a reply, got {:?}", action_name(&other)),
    }
}

#[test]
fn unsupported_request_is_logged_and_not_answered() {
    let map = both_arch_index();
    let msg = InboundMessage::OtherRequest {
        id: RequestId::Number(2),
        method: "textDocument/definition".to_string(),
    };
    match dispatch_message(&map, &msg) {
        Action::LogUnsupported { method } => assert_eq!(method, "textDocument/definition"),
        other => panic!("expected a log, got {:?}", action_name(&other)),
    }
}

#[test]
fn notifications_and_responses_are_ignored() {
    let map = both_arch_index();
    assert!(matches!(dispatch_message(&map, &InboundMessage::Notification), Action::Ignore));
    assert!(matches!(dispatch_message(&map, &InboundMessage::ResponseMessage), Action::Ignore));
}

#[test]
fn shutdown_terminates() {
    let map = both_arch_index();
    let msg = InboundMessage::ShutdownRequest { id: RequestId::Number(9) };
    assert!(matches!(dispatch_message(&map, &msg), Action::Terminate));
}

#[test]
fn no_message_after_shutdown_is_dispatched() {
    let map = both_arch_index();
    let hover = |id: i64| InboundMessage::HoverRequest {
        id: RequestId::Number(id),
        query: Some(HoverQuery {
            text: "mov eax, ebx".to_string(),
            line: 0,
            character: 1,
        }),
    };
    let msgs = vec![
        hover(1),
        InboundMessage::Notification,
        InboundMessage::ShutdownRequest { id: RequestId::Number(2) },
        hover(3),
        hover(4),
    ];
    let actions = run_session(&map, &msgs);
    // Only the two messages before the shutdown produced actions.
    assert_eq!(actions.len(), 2);
    assert!(matches!(actions[0], Action::Reply { .. }));
    assert!(matches!(actions[1], Action::Ignore));
}

fn action_name(a: &Action) -> &'static str {
    match a {
        Action::Reply { .. } => "Reply",
        Action::LogUnsupported { .. } => "LogUnsupported",
        Action::Ignore => "Ignore",
        Action::Terminate => "Terminate",
    }
}
