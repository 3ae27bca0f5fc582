use dice_lsp::{analyze_file, Diagnostic, Position, Range, Severity};

fn on_line(line: usize, from: usize, to: usize) -> Range {
    Range { start: Position { line, column: from }, end: Position { line, column: to } }
}

fn error(line: usize, from: usize, to: usize, message: &str) -> Diagnostic {
    Diagnostic { range: on_line(line, from, to), severity: Severity::Error, message: message.to_string() }
}

fn warning(line: usize, from: usize, to: usize, message: &str) -> Diagnostic {
    Diagnostic {
        range: on_line(line, from, to),
        severity: Severity::Warning,
        message: message.to_string(),
    }
}

const SEMICOLONS: &str = "Semicolons are unnecessary in Dice";

#[test]
fn empty_document_has_no_diagnostics() {
    assert_eq!(analyze_file(""), vec![]);
}

#[test]
fn analysis_is_repeatable() {
    let text = "if a then\n)(\nlet x = 1;\nelse\nelse\n";
    assert_eq!(analyze_file(text), analyze_file(text));
}

#[test]
fn nested_parens_are_silent() {
    assert_eq!(analyze_file("(a (b) (c (d)))\n()\n((\n))"), vec![]);
}

#[test]
fn unmatched_close_is_reported_at_once() {
    assert_eq!(analyze_file(")"), vec![error(0, 0, 1, "Unmatched ')'")]);
}

#[test]
fn unmatched_open_is_reported_at_the_end() {
    assert_eq!(analyze_file("("), vec![error(0, 0, 1, "Unmatched '('")]);
}

#[test]
fn unmatched_open_comes_after_later_lines() {
    assert_eq!(
        analyze_file("x (\nend"),
        vec![
            error(1, 0, 3, "Unmatched 'end' with no corresponding 'if'"),
            error(0, 2, 3, "Unmatched '('"),
        ]
    );
}

#[test]
fn close_before_open_reports_both() {
    assert_eq!(
        analyze_file(")("),
        vec![error(0, 0, 1, "Unmatched ')'"), error(0, 1, 2, "Unmatched '('")]
    );
}

#[test]
fn open_parens_are_reported_oldest_first() {
    assert_eq!(
        analyze_file("(\n  (()"),
        vec![error(0, 0, 1, "Unmatched '('"), error(1, 2, 3, "Unmatched '('")]
    );
}

#[test]
fn parens_match_across_lines() {
    assert_eq!(analyze_file("f(\n  1\n)"), vec![]);
}

#[test]
fn paren_columns_count_bytes() {
    // 'é' takes two bytes, so the parenthesis stands at column 3.
    assert_eq!(analyze_file("é )"), vec![error(0, 3, 4, "Unmatched ')'")]);
}

#[test]
fn balanced_block_is_silent() {
    assert_eq!(analyze_file("if a then\nend"), vec![]);
}

#[test]
fn if_with_one_else_is_silent() {
    assert_eq!(analyze_file("if a then\nelse\nend"), vec![]);
}

#[test]
fn duplicate_else_is_reported_at_the_second() {
    assert_eq!(
        analyze_file("if a then\nelse\nelse\nend"),
        vec![error(2, 0, 4, "Multiple 'else' blocks for one 'if'")]
    );
}

#[test]
fn third_else_is_reported_too() {
    assert_eq!(
        analyze_file("if a then\nelse\nelse\nelse\nend"),
        vec![
            error(2, 0, 4, "Multiple 'else' blocks for one 'if'"),
            error(3, 0, 4, "Multiple 'else' blocks for one 'if'"),
        ]
    );
}

#[test]
fn orphan_else_is_reported() {
    assert_eq!(analyze_file("else"), vec![error(0, 0, 4, "Unmatched 'else' with no open 'if'")]);
}

#[test]
fn orphan_end_is_reported() {
    assert_eq!(
        analyze_file("end"),
        vec![error(0, 0, 3, "Unmatched 'end' with no corresponding 'if'")]
    );
}

#[test]
fn indented_else_and_end_are_reported_at_the_line_start() {
    assert_eq!(
        analyze_file("  else\n\tend  "),
        vec![
            error(0, 0, 4, "Unmatched 'else' with no open 'if'"),
            error(1, 0, 3, "Unmatched 'end' with no corresponding 'if'"),
        ]
    );
}

#[test]
fn unclosed_if_is_reported() {
    assert_eq!(
        analyze_file("if a then"),
        vec![error(0, 0, 2, "Unclosed 'if' block, missing 'end'")]
    );
}

#[test]
fn unclosed_if_comes_after_line_diagnostics() {
    assert_eq!(
        analyze_file("if a then\nx;\n)"),
        vec![
            warning(1, 0, 2, SEMICOLONS),
            error(2, 0, 1, "Unmatched ')'"),
            error(0, 0, 2, "Unclosed 'if' block, missing 'end'"),
        ]
    );
}

#[test]
fn unclosed_if_is_reported_where_the_if_stands() {
    assert_eq!(
        analyze_file("    if a then"),
        vec![error(0, 4, 6, "Unclosed 'if' block, missing 'end'")]
    );
}

#[test]
fn unclosed_ifs_come_before_unmatched_opens() {
    assert_eq!(
        analyze_file("(\nif a then\n  if b then"),
        vec![
            error(1, 0, 2, "Unclosed 'if' block, missing 'end'"),
            error(2, 2, 4, "Unclosed 'if' block, missing 'end'"),
            error(0, 0, 1, "Unmatched '('"),
        ]
    );
}

#[test]
fn else_belongs_to_the_innermost_if() {
    assert_eq!(
        analyze_file("if a then\nif b then\nelse\nend\nelse\nend"),
        vec![]
    );
}

#[test]
fn end_closes_the_innermost_if() {
    assert_eq!(
        analyze_file("if a then\nelse\nif b then\nend\nelse\nend"),
        vec![error(4, 0, 4, "Multiple 'else' blocks for one 'if'")]
    );
}

#[test]
fn if_needs_then_to_open_a_block() {
    assert_eq!(
        analyze_file("if a\nend"),
        vec![error(1, 0, 3, "Unmatched 'end' with no corresponding 'if'")]
    );
}

#[test]
fn then_need_not_end_the_line_to_open_a_block() {
    assert_eq!(analyze_file("if a then b\nend"), vec![]);
}

#[test]
fn else_with_more_on_the_line_is_no_else() {
    assert_eq!(analyze_file("else x\nend if"), vec![]);
}

#[test]
fn semicolon_warning_spans_the_trimmed_line() {
    assert_eq!(analyze_file("let x = 1;"), vec![warning(0, 0, 10, SEMICOLONS)]);
}

#[test]
fn many_semicolons_give_one_warning() {
    assert_eq!(analyze_file("  a; b;; c;  "), vec![warning(0, 0, 9, SEMICOLONS)]);
}

#[test]
fn each_line_with_a_semicolon_gets_its_warning() {
    assert_eq!(
        analyze_file("a;\nb\n;c"),
        vec![warning(0, 0, 2, SEMICOLONS), warning(2, 0, 2, SEMICOLONS)]
    );
}

#[test]
fn semicolon_length_counts_bytes() {
    assert_eq!(analyze_file("é;"), vec![warning(0, 0, 3, SEMICOLONS)]);
}

#[test]
fn type_mismatch_is_reported() {
    assert_eq!(
        analyze_file("let a = 1\nlet b = \"x\"\nif a == b then"),
        vec![
            error(2, 0, 14, "Type mismatch in condition: cannot compare int and string"),
            error(2, 0, 2, "Unclosed 'if' block, missing 'end'"),
        ]
    );
}

#[test]
fn type_mismatch_names_the_left_type_first() {
    assert_eq!(
        analyze_file("if \"x\" != 3 then\nend"),
        vec![error(0, 0, 16, "Type mismatch in condition: cannot compare string and int")]
    );
}

#[test]
fn type_mismatch_spans_the_untrimmed_line() {
    assert_eq!(
        analyze_file("  if 1 < \"a\" then  \nend"),
        vec![error(0, 0, 19, "Type mismatch in condition: cannot compare int and string")]
    );
}

#[test]
fn same_types_are_no_mismatch() {
    assert_eq!(analyze_file("let a = 1\nlet b = -2\nif a <= b then\nend"), vec![]);
}

#[test]
fn undeclared_operands_are_no_mismatch() {
    assert_eq!(analyze_file("if a == b then\nend"), vec![]);
}

#[test]
fn one_undeclared_operand_is_no_mismatch() {
    assert_eq!(analyze_file("if a == \"x\" then\nend"), vec![]);
}

#[test]
fn later_declaration_is_not_seen() {
    assert_eq!(analyze_file("if a == \"x\" then\nend\nlet a = 1"), vec![]);
}

#[test]
fn last_declaration_wins() {
    assert_eq!(
        analyze_file("let a = 1\nlet a = \"s\"\nif a == 1 then\nend"),
        vec![error(2, 0, 14, "Type mismatch in condition: cannot compare string and int")]
    );
}

#[test]
fn variable_takes_the_type_of_a_variable() {
    assert_eq!(
        analyze_file("let a = \"s\"\nlet b = a\nif b == 1 then\nend"),
        vec![error(2, 0, 14, "Type mismatch in condition: cannot compare string and int")]
    );
}

#[test]
fn declaration_with_two_equals_signs_is_ignored() {
    assert_eq!(analyze_file("let a = 1 = 2\nif a == \"x\" then\nend"), vec![]);
}

#[test]
fn declaration_without_a_type_is_ignored() {
    assert_eq!(analyze_file("let a = 1\nlet a = zz\nif a == \"x\" then\nend").len(), 1);
}

#[test]
fn greater_or_equal_is_split_at_both_bytes() {
    // Split at '>' alone, the right operand would be "= b" and have no type.
    assert_eq!(
        analyze_file("let a = 1\nlet b = \"x\"\nif a >= b then\nend"),
        vec![error(2, 0, 14, "Type mismatch in condition: cannot compare int and string")]
    );
}

#[test]
fn two_byte_sign_is_found_before_an_earlier_one_byte_sign() {
    // The condition holds '<' first, but '>=' comes first in the search.
    assert_eq!(
        analyze_file("if 1 < 2 >= \"x\" then\nend"),
        vec![]
    );
    assert_eq!(
        analyze_file("let c = 1\nif c >= \"x\" < 2 then\nend"),
        vec![]
    );
}

#[test]
fn header_must_end_with_then_to_be_checked() {
    assert_eq!(analyze_file("if 1 == \"x\" then go\nend"), vec![]);
}

#[test]
fn diagnostics_of_a_line_come_in_order() {
    assert_eq!(
        analyze_file(") if 1 == \"a\" then;\nelse\nelse"),
        vec![error(0, 0, 1, "Unmatched ')'"), warning(0, 0, 19, SEMICOLONS)]
            .into_iter()
            .chain(vec![
                error(1, 0, 4, "Unmatched 'else' with no open 'if'"),
                error(2, 0, 4, "Unmatched 'else' with no open 'if'"),
            ])
            .collect::<Vec<_>>()
    );
}

#[test]
fn mismatch_comes_between_semicolon_and_block() {
    assert_eq!(
        analyze_file("if 1 == \"a;\" then"),
        vec![
            warning(0, 0, 17, SEMICOLONS),
            error(0, 0, 17, "Type mismatch in condition: cannot compare int and string"),
            error(0, 0, 2, "Unclosed 'if' block, missing 'end'"),
        ]
    );
}

#[test]
fn carriage_returns_before_line_feeds_are_dropped() {
    assert_eq!(
        analyze_file("if 1 == \"a\" then\r\nend\r\n"),
        vec![error(0, 0, 16, "Type mismatch in condition: cannot compare int and string")]
    );
}

#[test]
fn carriage_return_at_the_end_of_the_document_stays() {
    assert_eq!(
        analyze_file("if 1 == \"a\" then\r"),
        vec![
            error(0, 0, 17, "Type mismatch in condition: cannot compare int and string"),
            error(0, 0, 2, "Unclosed 'if' block, missing 'end'"),
        ]
    );
}

#[test]
fn non_ascii_text_is_analysed() {
    assert_eq!(analyze_file("let naïve = \"ü\"\nif naïve == 1 then\nend\n日本語\n"), vec![
        error(1, 0, 19, "Type mismatch in condition: cannot compare string and int"),
    ]);
}

#[test]
fn unicode_white_space_is_trimmed() {
    // U+00A0 before, U+3000 after.
    assert_eq!(
        analyze_file("\u{a0}end\u{3000}"),
        vec![error(0, 0, 3, "Unmatched 'end' with no corresponding 'if'")]
    );
    assert_eq!(
        analyze_file("\u{2003}if a then"),
        vec![error(0, 3, 5, "Unclosed 'if' block, missing 'end'")]
    );
}
