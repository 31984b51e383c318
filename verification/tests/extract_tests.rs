use asm_lsp::extract::{get_word_from_text, TokenError};

#[test]
fn cursor_inside_first_word_extracts_it() {
    assert_eq!(get_word_from_text("mov eax, ebx", 0, 1).unwrap(), "mov");
}

#[test]
fn cursor_on_space_fails() {
    assert_eq!(get_word_from_text("mov eax, ebx", 0, 3), Err(TokenError::NotFound));
    assert_eq!(get_word_from_text("mov eax, ebx", 0, 8), Err(TokenError::NotFound));
}

#[test]
fn cursor_on_comma_fails() {
    assert_eq!(get_word_from_text("mov eax, ebx", 0, 7), Err(TokenError::NotFound));
}

#[test]
fn cursor_inside_second_word_extracts_it() {
    assert_eq!(get_word_from_text("mov eax, ebx", 0, 5).unwrap(), "eax");
}

#[test]
fn cursor_in_final_word_extracts_it() {
    assert_eq!(get_word_from_text("mov eax, ebx", 0, 11).unwrap(), "ebx");
}

#[test]
fn word_boundaries_are_maximal() {
    assert_eq!(get_word_from_text("mov eax, ebx", 0, 0).unwrap(), "mov");
    assert_eq!(get_word_from_text("mov eax, ebx", 0, 4).unwrap(), "eax");
    assert_eq!(get_word_from_text("mov eax, ebx", 0, 6).unwrap(), "eax");
}

#[test]
fn percent_and_underscore_are_word_characters() {
    assert_eq!(get_word_from_text("addl %eax, %ebx", 0, 6).unwrap(), "%eax");
    assert_eq!(get_word_from_text("my_label:", 0, 3).unwrap(), "my_label");
}

#[test]
fn line_out_of_bounds_fails() {
    assert_eq!(get_word_from_text("mov eax, ebx", 3, 0), Err(TokenError::NotFound));
}

#[test]
fn column_out_of_bounds_fails() {
    assert_eq!(get_word_from_text("mov", 0, 3), Err(TokenError::NotFound));
    assert_eq!(get_word_from_text("mov", 0, 99), Err(TokenError::NotFound));
}

#[test]
fn empty_line_fails() {
    assert_eq!(get_word_from_text("", 0, 0), Err(TokenError::NotFound));
    assert_eq!(get_word_from_text("mov\n\nadd", 1, 0), Err(TokenError::NotFound));
}

#[test]
fn later_lines_are_addressed_by_line_number() {
    let text = "mov eax, ebx\nadd ecx, edx";
    assert_eq!(get_word_from_text(text, 1, 1).unwrap(), "add");
    assert_eq!(get_word_from_text(text, 1, 5).unwrap(), "ecx");
}

#[test]
fn columns_count_utf16_code_units() {
    // The first character is outside the basic multilingual plane and
    // occupies two UTF-16 code units, so "mov" starts at column 3.
    let text = "\u{1D54F} mov";
    assert_eq!(get_word_from_text(text, 0, 3).unwrap(), "mov");
    assert_eq!(get_word_from_text(text, 0, 5).unwrap(), "mov");
    // Both code units of the astral character map onto it, and it is not
    // a word character.
    assert_eq!(get_word_from_text(text, 0, 0), Err(TokenError::NotFound));
    assert_eq!(get_word_from_text(text, 0, 1), Err(TokenError::NotFound));
    assert_eq!(get_word_from_text(text, 0, 2), Err(TokenError::NotFound));
}
