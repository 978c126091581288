use solidity_analyzer::{analyze, can_analyze};

fn versions(input: &str) -> Vec<String> {
    assert!(can_analyze(input));
    let result = analyze(input.to_string());
    assert!(result.imports.is_empty());
    result.version_pragmas
}

fn list(texts: &[&str]) -> Vec<String> {
    texts.iter().map(|text| text.to_string()).collect()
}

#[test]
fn empty_text_gives_nothing() {
    assert_eq!(versions(""), list(&[]));
}

#[test]
fn version_pragma_in_text() {
    assert_eq!(versions("pragma solidity ^0.8.0;"), list(&["^0.8.0"]));
}

#[test]
fn version_range_is_trimmed_not_split() {
    assert_eq!(versions("pragma solidity \t>=0.7.0 <0.9.0 \n ;"), list(&[">=0.7.0 <0.9.0"]));
}

#[test]
fn two_version_pragmas_in_text() {
    assert_eq!(
        versions("pragma solidity ^0.8.0; pragma solidity >=0.7.0 <0.9.0;"),
        list(&["^0.8.0", ">=0.7.0 <0.9.0"])
    );
}

#[test]
fn quoted_pragma_value_keeps_its_quotes() {
    assert_eq!(versions("pragma solidity \"^0.8.0\";"), list(&["\"^0.8.0\""]));
    assert_eq!(
        versions("pragma solidity \"^0.8.0\"; pragma solidity \">=0.7.0 <0.9.0\";"),
        list(&["\"^0.8.0\"", "\">=0.7.0 <0.9.0\""])
    );
}

#[test]
fn abicoder_pragma_in_text_is_skipped() {
    assert_eq!(versions("pragma abicoder v2;"), list(&[]));
    assert_eq!(versions("pragma abicoder v2; pragma solidity ^0.8.0;"), list(&["^0.8.0"]));
}

#[test]
fn text_without_pragma_gives_nothing() {
    assert_eq!(versions("contract C { function f() public {} }"), list(&[]));
}

#[test]
fn decoy_inside_contract_body_is_not_inspected() {
    assert_eq!(
        versions("contract C { string s = \"pragma solidity \\\"9.9.9\\\"\"; }"),
        list(&[])
    );
    assert_eq!(versions("contract C { function f() { pragma solidity ^9.9.9; } }"), list(&[]));
}

#[test]
fn pragma_after_contract_body_is_found() {
    assert_eq!(
        versions("contract C { function f() { if (x) { y; } } } pragma solidity ^0.8.0;"),
        list(&["^0.8.0"])
    );
}

#[test]
fn pragma_in_comment_is_no_pragma() {
    assert_eq!(
        versions("// pragma solidity ^0.1.0;\n/* pragma solidity ^0.2.0; */ pragma solidity ^0.8.0;"),
        list(&["^0.8.0"])
    );
}

#[test]
fn stray_close_brace_in_text_does_not_abort() {
    assert_eq!(
        versions("pragma solidity ^0.8.0; } pragma solidity ^0.7.0; pragma solidity ^0.6.0;"),
        list(&["^0.8.0", "^0.6.0"])
    );
}

#[test]
fn lex_error_in_text_does_not_abort() {
    assert_eq!(
        versions("pragma solidity ^0.8.0;\n#\npragma solidity ^0.7.0;"),
        list(&["^0.8.0", "^0.7.0"])
    );
}

#[test]
fn unterminated_comment_keeps_what_was_found() {
    assert_eq!(versions("pragma solidity ^0.8.0; /* never closed"), list(&["^0.8.0"]));
}

#[test]
fn unterminated_string_keeps_what_was_found() {
    assert_eq!(versions("pragma solidity ^0.8.0; string s = \"open"), list(&["^0.8.0"]));
}

#[test]
fn pragma_cut_off_in_text_gives_nothing() {
    assert_eq!(versions("pragma"), list(&[]));
    assert_eq!(versions("pragma solidity"), list(&[]));
    assert_eq!(versions("pragma solidity ;"), list(&[]));
}

#[test]
fn pragma_without_semicolon_at_end_of_text() {
    assert_eq!(versions("pragma solidity ^0.8.0"), list(&["^0.8.0"]));
}

#[test]
fn analyzing_twice_gives_the_same() {
    let input = "pragma solidity ^0.8.0; contract C { } pragma solidity >=0.7.0 <0.9.0;";
    let first = analyze(input.to_string());
    let second = analyze(input.to_string());
    assert_eq!(first, second);
    assert_eq!(first.version_pragmas, list(&["^0.8.0", ">=0.7.0 <0.9.0"]));
}

#[test]
fn text_that_begins_with_a_fraction_is_refused() {
    assert!(!can_analyze(".5"));
    assert!(!can_analyze(".0 pragma solidity ^0.8.0;"));
    assert!(!can_analyze(".9e3"));
}

#[test]
fn text_that_begins_otherwise_is_taken() {
    assert!(can_analyze(""));
    assert!(can_analyze("."));
    assert!(can_analyze(".."));
    assert!(can_analyze(".a"));
    assert!(can_analyze("./"));
    assert!(can_analyze(".:"));
    assert!(can_analyze(". 5"));
    assert!(can_analyze(" .5"));
    assert!(can_analyze("0.5"));
    assert!(can_analyze("5"));
    assert!(can_analyze(".\u{0665}"));
}

#[test]
fn fraction_after_the_first_position_is_tokenized() {
    assert_eq!(versions(" .5; pragma solidity ^0.8.0;"), list(&["^0.8.0"]));
    assert_eq!(versions("x = .5; pragma solidity ^0.8.0;"), list(&["^0.8.0"]));
}

#[test]
fn lone_dot_at_the_start_is_tokenized() {
    assert_eq!(versions(".; pragma solidity ^0.8.0;"), list(&["^0.8.0"]));
}
