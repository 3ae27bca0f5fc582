//! The library against a model of it that is written with the standard
//! library's string functions, on many generated documents.

use dice_lsp::{analyze_file, Diagnostic, Position, Range, Severity};
use std::collections::HashMap;

fn finding(severity: Severity, line: usize, from: usize, to: usize, message: &str) -> Diagnostic {
    Diagnostic {
        range: Range { start: Position { line, column: from }, end: Position { line, column: to } },
        severity,
        message: message.to_string(),
    }
}

fn type_of(expr: &str, types: &HashMap<String, &'static str>) -> Option<&'static str> {
    let e = expr.trim();
    if e.starts_with('"') && e.ends_with('"') {
        Some("string")
    } else if e.parse::<i64>().is_ok() {
        Some("int")
    } else {
        types.get(e).copied()
    }
}

fn model(text: &str) -> Vec<Diagnostic> {
    let mut found = Vec::new();
    let mut types: HashMap<String, &'static str> = HashMap::new();
    let mut ifs: Vec<(usize, usize, bool)> = Vec::new();
    let mut opens: Vec<(usize, usize)> = Vec::new();
    for (n, line) in text.lines().enumerate() {
        for (at, c) in line.char_indices() {
            if c == '(' {
                opens.push((n, at));
            } else if c == ')' && opens.pop().is_none() {
                found.push(finding(Severity::Error, n, at, at + 1, "Unmatched ')'"));
            }
        }
        let t = line.trim();
        if t.contains(';') {
            let message = "Semicolons are unnecessary in Dice";
            found.push(finding(Severity::Warning, n, 0, t.len(), message));
        }
        if let Some(rest) = t.strip_prefix("let ") {
            if rest.matches('=').count() == 1 {
                let (name, value) = rest.split_once('=').unwrap();
                if let Some(ty) = type_of(value, &types) {
                    types.insert(name.trim().to_string(), ty);
                }
            }
        }
        if t.starts_with("if ") && t.ends_with("then") {
            let cond = t[2..t.len() - 4].trim();
            let signs = [">=", "<=", ">", "<", "==", "!="];
            if let Some(sign) = signs.into_iter().find(|s| cond.contains(s)) {
                let (left, right) = cond.split_once(sign).unwrap();
                if let (Some(a), Some(b)) = (type_of(left, &types), type_of(right, &types)) {
                    if a != b {
                        let message =
                            format!("Type mismatch in condition: cannot compare {} and {}", a, b);
                        found.push(finding(Severity::Error, n, 0, line.len(), &message));
                    }
                }
            }
        }
        if t.starts_with("if ") && t.contains(" then") {
            ifs.push((n, line.len() - line.trim_start().len(), false));
        } else if t == "else" {
            match ifs.last_mut() {
                Some((_, _, true)) => {
                    let message = "Multiple 'else' blocks for one 'if'";
                    found.push(finding(Severity::Error, n, 0, 4, message));
                }
                Some(top) => top.2 = true,
                None => {
                    let message = "Unmatched 'else' with no open 'if'";
                    found.push(finding(Severity::Error, n, 0, 4, message));
                }
            }
        } else if t == "end" && ifs.pop().is_none() {
            let message = "Unmatched 'end' with no corresponding 'if'";
            found.push(finding(Severity::Error, n, 0, 3, message));
        }
    }
    for (n, at, _) in ifs {
        found.push(finding(Severity::Error, n, at, at + 2, "Unclosed 'if' block, missing 'end'"));
    }
    for (n, at) in opens {
        found.push(finding(Severity::Error, n, at, at + 1, "Unmatched '('"));
    }
    found
}

struct Dice(u64);

impl Dice {
    fn roll(&mut self, sides: usize) -> usize {
        self.0 = self.0.wrapping_mul(6364136223846793005).wrapping_add(1442695040888963407);
        ((self.0 >> 33) as usize) % sides
    }
}

const PIECES: [&str; 48] = [
    "if ", "if", "then", " then", "else", "end", "let ", "let", "=", "==", "!=", ">=", "<=", ">",
    "<", "(", ")", ";", "\"", "\"x\"", "a", "b", "c", "abc", "0", "1", "42", "-", "+", "-7",
    "9223372036854775807", "9223372036854775808", " ", " ", "  ", "\t", "\n", "\n", "\n", "\r\n",
    "\r", "\u{a0}", "\u{2003}", "\u{3000}", "\u{85}", "é", "日", "\u{200b}",
];

fn document(dice: &mut Dice, pieces: usize) -> String {
    let mut text = String::new();
    for _ in 0..dice.roll(pieces) {
        text.push_str(PIECES[dice.roll(PIECES.len())]);
    }
    text
}

const LINES: [&str; 30] = [
    "let a = 1", "let b = \"x\"", "let c = a", "let a = b", "let d = e", "let a = 1 = 2",
    "  let a = -5  ", "if a == b then", "if a >= b then", "if b <= 1 then", "if \"s\" != c then",
    "if a > d then", "if a < \"z\" then", "    if c == 7 then", "if a == b then go", "if a then",
    "else", "  else", "end", "end  ", "x;", "(", ")", "f(a, (b))", "(a;", "", "   ",
    "if (a == 1) then", "let e = (1)", "if c >= a == b then",
];

fn program(dice: &mut Dice, lines: usize) -> String {
    let mut text = String::new();
    for _ in 0..dice.roll(lines) {
        text.push_str(LINES[dice.roll(LINES.len())]);
        text.push_str(["\n", "\n", "\r\n", "\r"][dice.roll(4)]);
    }
    text
}

#[test]
fn agrees_with_the_model_on_scraps() {
    let mut dice = Dice(1);
    for _ in 0..20000 {
        let text = document(&mut dice, 24);
        assert_eq!(analyze_file(&text), model(&text), "{:?}", text);
    }
}

#[test]
fn agrees_with_the_model_on_long_scraps() {
    let mut dice = Dice(2);
    for _ in 0..500 {
        let text = document(&mut dice, 600);
        assert_eq!(analyze_file(&text), model(&text), "{:?}", text);
    }
}

#[test]
fn agrees_with_the_model_on_programs() {
    let mut dice = Dice(3);
    for _ in 0..20000 {
        let text = program(&mut dice, 14);
        assert_eq!(analyze_file(&text), model(&text), "{:?}", text);
    }
}
