use jalm::formatter::format_source;
use jalm::parser::parse;
use jalm::roundtrip::round_trip;
use jalm::syntax::SyntaxKind;
use jalm::tree::{SyntaxElement, SyntaxNode};

/// A small deterministic generator of numbers.
struct Dice(u64);

impl Dice {
    fn roll(&mut self, sides: u64) -> u64 {
        self.0 = self.0.wrapping_mul(6364136223846793005).wrapping_add(1442695040888963407);
        (self.0 >> 33) % sides
    }

    fn pick<'a>(&mut self, from: &[&'a str]) -> &'a str {
        from[self.roll(from.len() as u64) as usize]
    }
}

const NAMES: &[&str] = &["a", "b", "foo", "bar_1", "_x", "i64", "bool", "main", "b2", "e5", "r"];
const LITERALS: &[&str] =
    &["0", "42", "1_000", "1.5", "0.0_1", "true", "false", "\"s\"", "\"a\\\"b\"", "b\"x\"", "\"\n\""];
const OPERATORS: &[&str] = &["+", "-", "*", "/", "%", "==", "!=", "<", "<=", ">", ">=", "&&", "||"];
const GAPS: &[&str] = &["", "", "", " ", "  ", "\n", "\t", " /* c */ ", " // d\n", "\r\n"];

/// What may stand between two tokens; `needed` where they would else run
/// together.
fn gap(dice: &mut Dice, needed: bool, out: &mut String) {
    let text = dice.pick(GAPS);
    if needed && text.is_empty() {
        out.push(' ');
    } else {
        out.push_str(text);
    }
}

fn path(dice: &mut Dice, out: &mut String) {
    out.push_str(dice.pick(NAMES));
    for _ in 0..dice.roll(3) {
        out.push_str("::");
        gap(dice, false, out);
        out.push_str(dice.pick(NAMES));
    }
}

fn expr(dice: &mut Dice, depth: u32, out: &mut String) {
    let choice = if depth == 0 { dice.roll(2) } else { dice.roll(10) };
    match choice {
        0 => out.push_str(dice.pick(NAMES)),
        1 => out.push_str(dice.pick(LITERALS)),
        2 | 3 => {
            expr(dice, depth - 1, out);
            gap(dice, false, out);
            out.push_str(dice.pick(OPERATORS));
            gap(dice, false, out);
            expr(dice, depth - 1, out);
        }
        4 => {
            out.push('(');
            gap(dice, false, out);
            expr(dice, depth - 1, out);
            gap(dice, false, out);
            out.push(')');
        }
        5 => {
            expr(dice, 0, out);
            suffixes(dice, depth, out);
        }
        6 => {
            out.push('(');
            expr(dice, depth - 1, out);
            out.push(')');
            suffixes(dice, depth, out);
        }
        7 => {
            out.push_str("if");
            gap(dice, true, out);
            expr(dice, depth - 1, out);
            gap(dice, false, out);
            block(dice, depth - 1, out);
            if dice.roll(2) == 0 {
                gap(dice, false, out);
                out.push_str("else");
                gap(dice, false, out);
                block(dice, depth - 1, out);
            }
        }
        8 => {
            out.push_str("match");
            gap(dice, true, out);
            out.push_str(dice.pick(NAMES));
            gap(dice, false, out);
            out.push('{');
            for _ in 0..dice.roll(3) {
                gap(dice, false, out);
                out.push_str(dice.pick(&["_", "1", "x", "true", "\"p\""]));
                gap(dice, false, out);
                out.push_str("=>");
                gap(dice, false, out);
                expr(dice, depth - 1, out);
                gap(dice, false, out);
                out.push(',');
            }
            gap(dice, false, out);
            out.push('}');
        }
        _ => block(dice, depth - 1, out),
    }
}

fn suffixes(dice: &mut Dice, depth: u32, out: &mut String) {
    for _ in 0..1 + dice.roll(3) {
        gap(dice, false, out);
        if dice.roll(2) == 0 {
            out.push('.');
            gap(dice, false, out);
            out.push_str(dice.pick(NAMES));
        } else {
            out.push('(');
            let count = dice.roll(3);
            for i in 0..count {
                gap(dice, false, out);
                expr(dice, depth - 1, out);
                gap(dice, false, out);
                if i + 1 < count || dice.roll(2) == 0 {
                    out.push(',');
                }
            }
            gap(dice, false, out);
            out.push(')');
        }
    }
}

fn block(dice: &mut Dice, depth: u32, out: &mut String) {
    out.push('{');
    for _ in 0..dice.roll(3) {
        gap(dice, false, out);
        match dice.roll(3) {
            0 => {
                out.push_str("let");
                gap(dice, true, out);
                if dice.roll(3) == 0 {
                    out.push_str("mut");
                    gap(dice, true, out);
                }
                out.push_str(dice.pick(&["x", "_", "y1", "1"]));
                if dice.roll(2) == 0 {
                    gap(dice, false, out);
                    out.push(':');
                    gap(dice, false, out);
                    path(dice, out);
                }
                gap(dice, false, out);
                out.push('=');
                gap(dice, false, out);
                expr(dice, depth, out);
            }
            1 => {
                out.push_str("return");
                if dice.roll(2) == 0 {
                    gap(dice, true, out);
                    expr(dice, depth, out);
                }
            }
            _ => expr(dice, depth, out),
        }
        gap(dice, false, out);
        out.push(';');
    }
    if dice.roll(2) == 0 {
        gap(dice, false, out);
        expr(dice, depth, out);
    }
    gap(dice, false, out);
    out.push('}');
}

fn item(dice: &mut Dice, out: &mut String) {
    match dice.roll(6) {
        0 => {
            out.push_str("mod");
            gap(dice, true, out);
            out.push_str(dice.pick(NAMES));
            gap(dice, false, out);
            out.push(';');
        }
        1 => {
            out.push_str("use");
            gap(dice, true, out);
            path(dice, out);
            if dice.roll(2) == 0 {
                gap(dice, true, out);
                out.push_str("as");
                gap(dice, true, out);
                out.push_str(dice.pick(NAMES));
            }
            gap(dice, false, out);
            out.push(';');
        }
        2 => {
            if dice.roll(2) == 0 {
                out.push_str("pub");
                gap(dice, true, out);
            }
            out.push_str("struct");
            gap(dice, true, out);
            out.push_str(dice.pick(NAMES));
            gap(dice, false, out);
            out.push('{');
            for _ in 0..dice.roll(3) {
                gap(dice, false, out);
                out.push_str(dice.pick(NAMES));
                gap(dice, false, out);
                out.push(':');
                gap(dice, false, out);
                path(dice, out);
                gap(dice, false, out);
                out.push(';');
            }
            gap(dice, false, out);
            out.push('}');
        }
        3 => {
            if dice.roll(2) == 0 {
                out.push_str("pub");
                gap(dice, true, out);
            }
            out.push_str("enum");
            gap(dice, true, out);
            out.push_str(dice.pick(NAMES));
            gap(dice, false, out);
            out.push('{');
            for _ in 0..dice.roll(3) {
                gap(dice, false, out);
                out.push_str(dice.pick(NAMES));
                if dice.roll(2) == 0 {
                    gap(dice, false, out);
                    out.push('(');
                    let count = dice.roll(3);
                    for i in 0..count {
                        gap(dice, false, out);
                        path(dice, out);
                        gap(dice, false, out);
                        if i + 1 < count || dice.roll(2) == 0 {
                            out.push(',');
                        }
                    }
                    gap(dice, false, out);
                    out.push(')');
                }
                gap(dice, false, out);
                out.push(';');
            }
            gap(dice, false, out);
            out.push('}');
        }
        _ => {
            if dice.roll(3) == 0 {
                out.push_str("pub");
                gap(dice, true, out);
            }
            if dice.roll(3) == 0 {
                out.push_str("async");
                gap(dice, true, out);
            }
            out.push_str("fn");
            gap(dice, true, out);
            out.push_str(dice.pick(NAMES));
            gap(dice, false, out);
            out.push('(');
            let count = dice.roll(3);
            for i in 0..count {
                gap(dice, false, out);
                if dice.roll(4) == 0 {
                    out.push_str("mut");
                    gap(dice, true, out);
                }
                out.push_str(dice.pick(NAMES));
                gap(dice, false, out);
                out.push(':');
                gap(dice, false, out);
                path(dice, out);
                gap(dice, false, out);
                if i + 1 < count || dice.roll(2) == 0 {
                    out.push(',');
                }
            }
            gap(dice, false, out);
            out.push(')');
            if dice.roll(2) == 0 {
                gap(dice, false, out);
                out.push_str("->");
                gap(dice, false, out);
                path(dice, out);
            }
            if dice.roll(3) == 0 {
                gap(dice, false, out);
                out.push('!');
                gap(dice, false, out);
                out.push('{');
                let count = dice.roll(3);
                for i in 0..count {
                    gap(dice, false, out);
                    out.push_str(dice.pick(&["io", "net", "fs", "time", "rand", "ffi", "disk"]));
                    gap(dice, false, out);
                    if i + 1 < count || dice.roll(2) == 0 {
                        out.push(',');
                    }
                }
                gap(dice, false, out);
                out.push('}');
            }
            gap(dice, false, out);
            block(dice, 3, out);
        }
    }
}

fn program(seed: u64) -> String {
    let mut dice = Dice(seed);
    let mut out = String::new();
    for _ in 0..1 + dice.roll(4) {
        gap(&mut dice, false, &mut out);
        item(&mut dice, &mut out);
    }
    gap(&mut dice, false, &mut out);
    out
}

fn soup(seed: u64) -> String {
    const PIECES: &[&str] = &[
        "fn", "pub", "let", "mut", "if", "else", "match", "return", "struct", "enum", "mod",
        "use", "as", "async", "x", "y", "1", "2.5", "\"s\"", "\"open", "(", ")", "{", "}", ",",
        ";", ":", "::", "->", "=>", "=", "==", "+", "*", "!", ".", "_", "@", "\u{e9}", " ", "\n",
        "/* c */", "// d\n", "/*", "b\"", "<<=", "..=",
    ];
    let mut dice = Dice(seed);
    let mut out = String::new();
    for _ in 0..dice.roll(40) {
        out.push_str(dice.pick(PIECES));
    }
    out
}

/// The nodes of a tree with the tokens in them, but for trivia, commas and
/// round brackets.
fn shape(node: &SyntaxNode, out: &mut String) {
    out.push_str(node.kind.debug_name());
    out.push('(');
    for child in &node.children {
        match child {
            SyntaxElement::Node(inner) => shape(inner, out),
            SyntaxElement::Token(token) => {
                let separator = matches!(
                    token.kind,
                    SyntaxKind::Comma | SyntaxKind::LParen | SyntaxKind::RParen
                );
                if !token.kind.is_trivia() && !separator {
                    out.push_str(&token.text);
                    out.push(' ');
                }
            }
        }
    }
    out.push(')');
}

fn shape_of(source: &str) -> String {
    let mut out = String::new();
    shape(&parse(source).syntax(), &mut out);
    out
}

#[test]
fn generated_programs_parse_cleanly() {
    for seed in 0..3000 {
        let source = program(seed);
        let errors = parse(&source).errors;
        assert!(errors.is_empty(), "seed {seed}: {source:?}: {errors:?}");
    }
}

#[test]
fn generated_programs_format_to_a_fixed_point() {
    for seed in 0..3000 {
        let source = program(seed);
        let once = format_source(&source).expect("format once");
        let twice = format_source(&once).expect("format twice");
        assert_eq!(once, twice, "seed {seed}: {source:?}");
    }
}

#[test]
fn generated_programs_keep_their_shape_when_formatted() {
    for seed in 0..3000 {
        let source = program(seed);
        let formatted = format_source(&source).expect("format");
        assert_eq!(shape_of(&source), shape_of(&formatted), "seed {seed}: {source:?}");
    }
}

#[test]
fn any_text_round_trips_with_errors_in_order() {
    for seed in 0..3000 {
        let source = soup(seed);
        let (text, tree) = round_trip(&source);
        assert_eq!(text, source, "seed {seed}");
        assert!(tree.starts_with("Root\n"));
        assert!(!tree.contains("Tombstone"));
        let errors = parse(&source).errors;
        for pair in errors.windows(2) {
            assert!(pair[0].span.start <= pair[1].span.start, "seed {seed}: {source:?}");
        }
    }
}
