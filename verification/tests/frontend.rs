//! Front-end tests: lexing, parsing, the mandatory blocks, validation,
//! and the parse / pretty-print / parse round trip.

use simulanka::ast::{BExp, Command, Exp, Program};
use simulanka::lexer::{lexer, TokenKind};
use simulanka::parser::Parser;
use simulanka::semantic::validate_program;

fn parse_src(src: &str) -> Result<Program, String> {
    let tokens = lexer(src);
    let mut p = Parser::new(tokens);
    p.parse_program()
}

const FULL: &str = "ENVIRONMENT {width:5,height:6,steps:2} \
    SPECIES {Ant {x:0, y:1, routine: walk}, \
    ROUTINE walk { \
        self.x = self.x + 1; \
        if (self.x > 3 && self.y < 9 || self.x == 0) { self.y = 0 - self.x } else if (self.x != 1) { self.y = 2 } \
        while (self.y >= 5) { self.y = self.y - 1 } \
        for a in environment { a.y = a.y / 2 % 3 } \
        print(\"hi\", self.x) \
        l = [1, 2 * 3] \
        l[0] = len(l) \
        spawn Ant at (1, 2); \
        return self.x \
    }} \
    EVOLVE {generations:1, instances:1} FITNESS { return self.x } \
    MUTATE { mutation: { self.x = random(0, 2) } } \
    SPAWN { spawn Ant at (0,0) } \
    VISUALIZE { draw_rect(0, 0, 5, 5) }";

#[test]
fn lexer_produces_positions_and_eof() {
    let toks = lexer("x = 12\n  y");
    assert!(matches!(toks[0].kind, TokenKind::Identifier(ref s) if s == "x"));
    assert_eq!((toks[0].line, toks[0].col), (1, 1));
    assert!(matches!(toks[1].kind, TokenKind::Equal));
    assert!(matches!(toks[2].kind, TokenKind::Number(12)));
    assert_eq!((toks[2].line, toks[2].col), (1, 5));
    assert!(matches!(toks[3].kind, TokenKind::Identifier(ref s) if s == "y"));
    assert_eq!((toks[3].line, toks[3].col), (2, 3));
    assert!(matches!(toks[4].kind, TokenKind::Eof));
}

#[test]
fn lexer_keywords_are_case_insensitive() {
    let toks = lexer("environment SPECIES EvOlVe spawn at");
    assert!(matches!(toks[0].kind, TokenKind::Environment));
    assert!(matches!(toks[1].kind, TokenKind::Species));
    assert!(matches!(toks[2].kind, TokenKind::Evolve));
    assert!(matches!(toks[3].kind, TokenKind::Spawn));
    assert!(matches!(toks[4].kind, TokenKind::At));
}

#[test]
fn lexer_skips_comments_and_reads_strings() {
    let toks = lexer("// a comment\n\"hello world\" 7");
    assert!(matches!(toks[0].kind, TokenKind::StringLiteral(ref s) if s == "hello world"));
    assert!(matches!(toks[1].kind, TokenKind::Number(7)));
}

#[test]
fn lexer_two_char_operators() {
    let toks = lexer("== != >= <= && || = > <");
    assert!(matches!(toks[0].kind, TokenKind::DoubleEqual));
    assert!(matches!(toks[1].kind, TokenKind::NotEqual));
    assert!(matches!(toks[2].kind, TokenKind::GreaterEqual));
    assert!(matches!(toks[3].kind, TokenKind::LessEqual));
    assert!(matches!(toks[4].kind, TokenKind::And));
    assert!(matches!(toks[5].kind, TokenKind::Or));
    assert!(matches!(toks[6].kind, TokenKind::Equal));
    assert!(matches!(toks[7].kind, TokenKind::Greater));
    assert!(matches!(toks[8].kind, TokenKind::Less));
}

#[test]
fn huge_number_literal_saturates() {
    let toks = lexer("99999999999999999999");
    assert!(matches!(toks[0].kind, TokenKind::Number(i32::MAX)));
}

#[test]
fn parse_reads_environment_defaults() {
    let src = "ENVIRONMENT {} SPECIES {} EVOLVE {} FITNESS {} MUTATE {} SPAWN {}";
    let p = parse_src(src).expect("parse");
    assert_eq!((p.env_width, p.env_height, p.env_steps), (50, 50, 10));
    assert_eq!(p.evolve_block.generations, 1);
    assert_eq!(p.evolve_block.instances, 1);
    assert!(!p.visualize);
}

#[test]
fn missing_blocks_fail_with_named_message() {
    let cases = [
        ("SPECIES {} EVOLVE {} FITNESS {} MUTATE {} SPAWN {}", "ENVIRONMENT"),
        ("ENVIRONMENT {} EVOLVE {} FITNESS {} MUTATE {} SPAWN {}", "SPECIES"),
        ("ENVIRONMENT {} SPECIES {} FITNESS {} MUTATE {} SPAWN {}", "EVOLVE"),
        ("ENVIRONMENT {} SPECIES {} EVOLVE {} MUTATE {} SPAWN {}", "FITNESS"),
        ("ENVIRONMENT {} SPECIES {} EVOLVE {} FITNESS {} SPAWN {}", "MUTATE"),
        ("ENVIRONMENT {} SPECIES {} EVOLVE {} FITNESS {} MUTATE {}", "SPAWN"),
    ];
    for (src, block) in cases.iter() {
        match parse_src(src) {
            Ok(_) => panic!("program without {} parsed", block),
            Err(e) => assert!(e.contains(block), "message {:?} names {}", e, block),
        }
    }
}

#[test]
fn validator_rejects_undefined_variable() {
    let src = "ENVIRONMENT {} SPECIES {Ant {x:0, routine: walk}, \
        ROUTINE walk { self.x = nowhere }} \
        EVOLVE {} FITNESS {} MUTATE {} SPAWN {}";
    let p = parse_src(src).expect("parse");
    let r = validate_program(&p);
    assert!(r.is_err());
    let errors = r.err().unwrap();
    assert!(errors.iter().any(|m| m.contains("Undefined variable")));
}

#[test]
fn validator_rejects_string_operand_misuse() {
    let src = "ENVIRONMENT {} SPECIES {Ant {x:0, routine: walk}, \
        ROUTINE walk { self.x = \"a\" * 2 }} \
        EVOLVE {} FITNESS {} MUTATE {} SPAWN {}";
    let p = parse_src(src).expect("parse");
    assert!(validate_program(&p).is_err());
}

#[test]
fn validator_accepts_known_names_and_notes_dynamics() {
    let src = "ENVIRONMENT {} SPECIES {Ant {x:0, routine: walk}, \
        ROUTINE walk { self.shiny = width + steps }} \
        EVOLVE {} FITNESS { return self.x } MUTATE {} SPAWN {}";
    let p = parse_src(src).expect("parse");
    let notes = validate_program(&p).expect("valid");
    assert!(notes.iter().any(|m| m.contains("dynamic property")));
}

fn print_exp(e: &Exp) -> String {
    match e {
        Exp::Int(v, _) => format!("{}", v),
        Exp::Bool(b, _) => format!("{}", b),
        Exp::StringLiteral(s, _) => format!("\"{}\"", s),
        Exp::Var(n, _) => n.clone(),
        Exp::Dot(o, f, _) => format!("{}.{}", print_exp(o), f),
        Exp::BinaryOp(l, op, r, _) => format!("({} {} {})", print_exp(l), op, print_exp(r)),
        Exp::Call(n, args, _) => {
            let parts: Vec<String> = args.iter().map(print_exp).collect();
            format!("{}({})", n, parts.join(", "))
        }
        Exp::Index(l, i, _) => format!("{}[{}]", print_exp(l), print_exp(i)),
        Exp::List(items, _) => {
            let parts: Vec<String> = items.iter().map(print_exp).collect();
            format!("[{}]", parts.join(", "))
        }
    }
}

fn print_bexp(b: &BExp) -> String {
    match b {
        BExp::Equal(l, r) => format!("{} == {}", print_exp(l), print_exp(r)),
        BExp::NotEqual(l, r) => format!("{} != {}", print_exp(l), print_exp(r)),
        BExp::Greater(l, r) => format!("{} > {}", print_exp(l), print_exp(r)),
        BExp::Less(l, r) => format!("{} < {}", print_exp(l), print_exp(r)),
        BExp::GreaterEqual(l, r) => format!("{} >= {}", print_exp(l), print_exp(r)),
        BExp::LessEqual(l, r) => format!("{} <= {}", print_exp(l), print_exp(r)),
        BExp::And(l, r) => format!("{} && {}", print_bexp(l), print_bexp(r)),
        BExp::Or(l, r) => format!("{} || {}", print_bexp(l), print_bexp(r)),
    }
}

fn print_block(cmds: &[Command]) -> String {
    let parts: Vec<String> = cmds.iter().map(print_cmd).collect();
    format!("{{ {} }}", parts.join(" "))
}

fn print_cmd(c: &Command) -> String {
    match c {
        Command::Assign { target, value, .. } => {
            format!("{} = {};", print_exp(target), print_exp(value))
        }
        Command::If { condition, then_block, else_block, .. } => {
            let mut s = format!("if ({}) {}", print_bexp(condition), print_block(then_block));
            if let Some(e) = else_block {
                s.push_str(&format!(" else {}", print_block(e)));
            }
            s
        }
        Command::While { condition, body, .. } => {
            format!("while ({}) {}", print_bexp(condition), print_block(body))
        }
        Command::For { var, collection, body, .. } => {
            format!("for {} in {} {}", var, collection, print_block(body))
        }
        Command::Return(e, _) => format!("return {};", print_exp(e)),
        Command::Print(exps, _) => {
            let parts: Vec<String> = exps.iter().map(print_exp).collect();
            format!("print({});", parts.join(", "))
        }
        Command::Spawn { species, x, y, .. } => {
            format!("spawn {} at ({}, {});", species, print_exp(x), print_exp(y))
        }
        Command::Exp(e, _) => format!("{};", print_exp(e)),
    }
}

fn print_program(p: &Program) -> String {
    let mut out = format!(
        "ENVIRONMENT {{ width: {}, height: {}, steps: {} }} ",
        p.env_width, p.env_height, p.env_steps
    );
    out.push_str("SPECIES { ");
    for rt in &p.routines_block {
        out.push_str(&format!("ROUTINE {} {} ", rt.name, print_block(&rt.body)));
    }
    for (name, def) in &p.species_block {
        out.push_str(&format!("{} {{ ", name));
        for (k, e) in &def.properties {
            out.push_str(&format!("{}: {}, ", k, print_exp(e)));
        }
        out.push_str(&format!("routine: {} }} ", def.routine_call));
    }
    out.push_str("} ");
    out.push_str(&format!(
        "EVOLVE {{ generations: {}, instances: {} }} ",
        p.evolve_block.generations, p.evolve_block.instances
    ));
    out.push_str(&format!("FITNESS {} ", print_block(&p.fitness_block.commands)));
    out.push_str("MUTATE { ");
    for rule in &p.mutations_block {
        if let Some(b) = &rule.body {
            out.push_str(&format!("{}: {} ", rule.action, print_block(b)));
        }
    }
    out.push_str("} ");
    out.push_str(&format!("SPAWN {} ", print_block(&p.spawns_block)));
    if p.visualize {
        out.push_str(&format!("VISUALIZE {} ", print_block(&p.visualize_block)));
    }
    out
}

#[test]
fn parse_pretty_print_round_trip() {
    let p1 = parse_src(FULL).expect("first parse");
    let printed1 = print_program(&p1);
    let p2 = parse_src(&printed1).expect("reparse of pretty print");
    let printed2 = print_program(&p2);
    assert_eq!(printed1, printed2);
    assert_eq!(p1.env_width, p2.env_width);
    assert_eq!(p1.routines_block.len(), p2.routines_block.len());
    assert_eq!(p1.species_block.len(), p2.species_block.len());
    assert_eq!(p1.mutations_block.len(), p2.mutations_block.len());
}
