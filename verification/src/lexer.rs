//! The lexer: source text to a flat token sequence with line and column
//! positions. Whitespace and `//` line comments are skipped, keywords are
//! matched case-insensitively, and the stream always ends with an `EOF`
//! sentinel.

use vstd::prelude::*;

use crate::strings::{digits_val, is_digit_char};

verus! {

/// Mathematical model of a token kind.
#[verifier::ext_equal]
pub ghost enum KindModel {
    Environment,
    Species,
    Evolve,
    Mutate,
    Fitness,
    Visualize,
    Routine,
    Spawn,
    At,
    Random,
    If,
    Else,
    While,
    For,
    In,
    Return,
    Print,
    True,
    False,
    Identifier(Seq<char>),
    Number(int),
    StringLiteral(Seq<char>),
    LBrace,
    RBrace,
    LParen,
    RParen,
    LBracket,
    RBracket,
    Colon,
    SemiColon,
    Comma,
    Equal,
    Plus,
    Minus,
    Star,
    Slash,
    Greater,
    Less,
    GreaterEqual,
    LessEqual,
    DoubleEqual,
    NotEqual,
    Percent,
    Dot,
    And,
    Or,
    Eof,
}

/// A token kind: a keyword, an identifier, a literal, punctuation, an
/// operator, or the end-of-input sentinel.
pub enum TokenKind {
    Environment,
    Species,
    Evolve,
    Mutate,
    Fitness,
    Visualize,
    Routine,
    Spawn,
    At,
    Random,
    If,
    Else,
    While,
    For,
    In,
    Return,
    Print,
    True,
    False,
    Identifier(String),
    Number(i32),
    StringLiteral(String),
    LBrace,
    RBrace,
    LParen,
    RParen,
    LBracket,
    RBracket,
    Colon,
    SemiColon,
    Comma,
    Equal,
    Plus,
    Minus,
    Star,
    Slash,
    Greater,
    Less,
    GreaterEqual,
    LessEqual,
    DoubleEqual,
    NotEqual,
    Percent,
    Dot,
    And,
    Or,
    Eof,
}

impl View for TokenKind {
    type V = KindModel;

    open spec fn view(&self) -> KindModel {
        match self {
            TokenKind::Environment => KindModel::Environment,
            TokenKind::Species => KindModel::Species,
            TokenKind::Evolve => KindModel::Evolve,
            TokenKind::Mutate => KindModel::Mutate,
            TokenKind::Fitness => KindModel::Fitness,
            TokenKind::Visualize => KindModel::Visualize,
            TokenKind::Routine => KindModel::Routine,
            TokenKind::Spawn => KindModel::Spawn,
            TokenKind::At => KindModel::At,
            TokenKind::Random => KindModel::Random,
            TokenKind::If => KindModel::If,
            TokenKind::Else => KindModel::Else,
            TokenKind::While => KindModel::While,
            TokenKind::For => KindModel::For,
            TokenKind::In => KindModel::In,
            TokenKind::Return => KindModel::Return,
            TokenKind::Print => KindModel::Print,
            TokenKind::True => KindModel::True,
            TokenKind::False => KindModel::False,
            TokenKind::Identifier(s) => KindModel::Identifier(s@),
            TokenKind::Number(v) => KindModel::Number(*v as int),
            TokenKind::StringLiteral(s) => KindModel::StringLiteral(s@),
            TokenKind::LBrace => KindModel::LBrace,
            TokenKind::RBrace => KindModel::RBrace,
            TokenKind::LParen => KindModel::LParen,
            TokenKind::RParen => KindModel::RParen,
            TokenKind::LBracket => KindModel::LBracket,
            TokenKind::RBracket => KindModel::RBracket,
            TokenKind::Colon => KindModel::Colon,
            TokenKind::SemiColon => KindModel::SemiColon,
            TokenKind::Comma => KindModel::Comma,
            TokenKind::Equal => KindModel::Equal,
            TokenKind::Plus => KindModel::Plus,
            TokenKind::Minus => KindModel::Minus,
            TokenKind::Star => KindModel::Star,
            TokenKind::Slash => KindModel::Slash,
            TokenKind::Greater => KindModel::Greater,
            TokenKind::Less => KindModel::Less,
            TokenKind::GreaterEqual => KindModel::GreaterEqual,
            TokenKind::LessEqual => KindModel::LessEqual,
            TokenKind::DoubleEqual => KindModel::DoubleEqual,
            TokenKind::NotEqual => KindModel::NotEqual,
            TokenKind::Percent => KindModel::Percent,
            TokenKind::Dot => KindModel::Dot,
            TokenKind::And => KindModel::And,
            TokenKind::Or => KindModel::Or,
            TokenKind::Eof => KindModel::Eof,
        }
    }
}

/// Mathematical model of a token.
#[verifier::ext_equal]
pub ghost struct TokModel {
    pub kind: KindModel,
    pub line: int,
    pub col: int,
}

/// One token with its source position.
pub struct Token {
    pub kind: TokenKind,
    pub line: usize,
    pub col: usize,
}

impl View for Token {
    type V = TokModel;

    open spec fn view(&self) -> TokModel {
        TokModel { kind: self.kind@, line: self.line as int, col: self.col as int }
    }
}

/// The token models of a token list.
pub open spec fn toks_view(s: Seq<Token>) -> Seq<TokModel> {
    s.map_values(|t: Token| t@)
}

/// Whether `c` continues an identifier.
pub open spec fn is_ident_char(c: char) -> bool {
    ('a' <= c <= 'z') || ('A' <= c <= 'Z') || ('0' <= c <= '9') || c == '_'
}

/// Whether `c` starts an identifier.
pub open spec fn is_ident_start(c: char) -> bool {
    ('a' <= c <= 'z') || ('A' <= c <= 'Z') || c == '_'
}

/// The ASCII upper-case fold of one character.
pub open spec fn upfold(c: char) -> char {
    if 'a' <= c <= 'z' {
        ((c as u8) - 32) as char
    } else {
        c
    }
}

/// The ASCII upper-case fold of a word.
pub open spec fn upfold_seq(s: Seq<char>) -> Seq<char> {
    s.map_values(|c: char| upfold(c))
}

/// The keyword kind a word denotes, matched case-insensitively, or an
/// identifier carrying the word itself.
pub open spec fn spec_keyword(s: Seq<char>) -> KindModel {
    let u = upfold_seq(s);
    if u == "ENVIRONMENT"@ {
        KindModel::Environment
    } else if u == "SPECIES"@ {
        KindModel::Species
    } else if u == "EVOLVE"@ {
        KindModel::Evolve
    } else if u == "MUTATE"@ {
        KindModel::Mutate
    } else if u == "FITNESS"@ {
        KindModel::Fitness
    } else if u == "VISUALIZE"@ {
        KindModel::Visualize
    } else if u == "ROUTINE"@ {
        KindModel::Routine
    } else if u == "SPAWN"@ {
        KindModel::Spawn
    } else if u == "AT"@ {
        KindModel::At
    } else if u == "RANDOM"@ {
        KindModel::Random
    } else if u == "IF"@ {
        KindModel::If
    } else if u == "ELSE"@ {
        KindModel::Else
    } else if u == "WHILE"@ {
        KindModel::While
    } else if u == "FOR"@ {
        KindModel::For
    } else if u == "IN"@ {
        KindModel::In
    } else if u == "RETURN"@ {
        KindModel::Return
    } else if u == "PRINT"@ {
        KindModel::Print
    } else if u == "TRUE"@ {
        KindModel::True
    } else if u == "FALSE"@ {
        KindModel::False
    } else {
        KindModel::Identifier(s)
    }
}

/// The first position at or after `j` that is not a digit.
pub open spec fn scan_digits(s: Seq<char>, j: int) -> int
    decreases s.len() - j,
{
    if j < s.len() && is_digit_char(s[j]) {
        scan_digits(s, j + 1)
    } else {
        j
    }
}

/// The first position at or after `j` that does not continue an
/// identifier.
pub open spec fn scan_ident(s: Seq<char>, j: int) -> int
    decreases s.len() - j,
{
    if j < s.len() && is_ident_char(s[j]) {
        scan_ident(s, j + 1)
    } else {
        j
    }
}

/// The position of the closing quote at or after `j`, or the input's end.
pub open spec fn scan_string(s: Seq<char>, j: int) -> int
    decreases s.len() - j,
{
    if j < s.len() && s[j] != '"' {
        scan_string(s, j + 1)
    } else {
        j
    }
}

/// The first position at or after `j` holding a line break, or the
/// input's end.
pub open spec fn scan_comment(s: Seq<char>, j: int) -> int
    decreases s.len() - j,
{
    if j < s.len() && s[j] != '\n' {
        scan_comment(s, j + 1)
    } else {
        j
    }
}

pub proof fn lemma_scan_digits_bounds(s: Seq<char>, j: int)
    requires
        0 <= j <= s.len(),
    ensures
        j <= scan_digits(s, j) <= s.len(),
    decreases s.len() - j,
{
    if j < s.len() && is_digit_char(s[j]) {
        lemma_scan_digits_bounds(s, j + 1);
    }
}

pub proof fn lemma_scan_ident_bounds(s: Seq<char>, j: int)
    requires
        0 <= j <= s.len(),
    ensures
        j <= scan_ident(s, j) <= s.len(),
    decreases s.len() - j,
{
    if j < s.len() && is_ident_char(s[j]) {
        lemma_scan_ident_bounds(s, j + 1);
    }
}

pub proof fn lemma_scan_string_bounds(s: Seq<char>, j: int)
    requires
        0 <= j <= s.len(),
    ensures
        j <= scan_string(s, j) <= s.len(),
    decreases s.len() - j,
{
    if j < s.len() && s[j] != '"' {
        lemma_scan_string_bounds(s, j + 1);
    }
}

pub proof fn lemma_scan_comment_bounds(s: Seq<char>, j: int)
    requires
        0 <= j <= s.len(),
    ensures
        j <= scan_comment(s, j) <= s.len(),
    decreases s.len() - j,
{
    if j < s.len() && s[j] != '\n' {
        lemma_scan_comment_bounds(s, j + 1);
    }
}

/// The numeric value of a digit run, saturated into 32 bits.
pub open spec fn sat_number(ds: Seq<char>) -> int {
    if digits_val(ds) > i32::MAX {
        i32::MAX as int
    } else {
        digits_val(ds)
    }
}

/// The tokens lexed from position `i` on, at source position
/// `(line, col)`, ending with the `EOF` sentinel.
pub open spec fn lex_spec(s: Seq<char>, i: int, line: int, col: int) -> Seq<TokModel>
    decreases s.len() - i, 0nat
        via lex_spec_decreases
{
    if i < 0 || i >= s.len() {
        seq![TokModel { kind: KindModel::Eof, line: line, col: col }]
    } else {
        let c = s[i];
        if c == ' ' || c == '\r' || c == '\t' {
            lex_spec(s, i + 1, line, col + 1)
        } else if c == '\n' {
            lex_spec(s, i + 1, line + 1, 1)
        } else if c == '!' {
            if i + 1 < s.len() && s[i + 1] == '=' {
                seq![TokModel { kind: KindModel::NotEqual, line: line, col: col }] + lex_spec(
                    s,
                    i + 2,
                    line,
                    col + 2,
                )
            } else {
                lex_spec(s, i + 1, line, col + 1)
            }
        } else if c == '"' {
            let e = scan_string(s, i + 1);
            let content = s.subrange(i + 1, e);
            let consumed_to = if e < s.len() {
                e + 1
            } else {
                e
            };
            seq![TokModel { kind: KindModel::StringLiteral(content), line: line, col: col }]
                + lex_spec(s, consumed_to, line, col + 1 + (consumed_to - (i + 1)))
        } else if c == '{' {
            seq![TokModel { kind: KindModel::LBrace, line: line, col: col }] + lex_spec(s, i + 1, line, col + 1)
        } else if c == '}' {
            seq![TokModel { kind: KindModel::RBrace, line: line, col: col }] + lex_spec(s, i + 1, line, col + 1)
        } else if c == '(' {
            seq![TokModel { kind: KindModel::LParen, line: line, col: col }] + lex_spec(s, i + 1, line, col + 1)
        } else if c == ')' {
            seq![TokModel { kind: KindModel::RParen, line: line, col: col }] + lex_spec(s, i + 1, line, col + 1)
        } else if c == '[' {
            seq![TokModel { kind: KindModel::LBracket, line: line, col: col }] + lex_spec(s, i + 1, line, col + 1)
        } else if c == ']' {
            seq![TokModel { kind: KindModel::RBracket, line: line, col: col }] + lex_spec(s, i + 1, line, col + 1)
        } else if c == ':' {
            seq![TokModel { kind: KindModel::Colon, line: line, col: col }] + lex_spec(s, i + 1, line, col + 1)
        } else if c == ';' {
            seq![TokModel { kind: KindModel::SemiColon, line: line, col: col }] + lex_spec(s, i + 1, line, col + 1)
        } else if c == ',' {
            seq![TokModel { kind: KindModel::Comma, line: line, col: col }] + lex_spec(s, i + 1, line, col + 1)
        } else if c == '.' {
            seq![TokModel { kind: KindModel::Dot, line: line, col: col }] + lex_spec(s, i + 1, line, col + 1)
        } else if c == '=' {
            if i + 1 < s.len() && s[i + 1] == '=' {
                seq![TokModel { kind: KindModel::DoubleEqual, line: line, col: col }] + lex_spec(
                    s,
                    i + 2,
                    line,
                    col + 2,
                )
            } else {
                seq![TokModel { kind: KindModel::Equal, line: line, col: col }] + lex_spec(s, i + 1, line, col + 1)
            }
        } else if c == '+' {
            seq![TokModel { kind: KindModel::Plus, line: line, col: col }] + lex_spec(s, i + 1, line, col + 1)
        } else if c == '-' {
            seq![TokModel { kind: KindModel::Minus, line: line, col: col }] + lex_spec(s, i + 1, line, col + 1)
        } else if c == '*' {
            seq![TokModel { kind: KindModel::Star, line: line, col: col }] + lex_spec(s, i + 1, line, col + 1)
        } else if c == '/' {
            if i + 1 < s.len() && s[i + 1] == '/' {
                let e = scan_comment(s, i + 1);
                lex_spec(s, e, line, col + 1 + (e - (i + 1)))
            } else {
                seq![TokModel { kind: KindModel::Slash, line: line, col: col }] + lex_spec(s, i + 1, line, col + 1)
            }
        } else if c == '>' {
            if i + 1 < s.len() && s[i + 1] == '=' {
                seq![TokModel { kind: KindModel::GreaterEqual, line: line, col: col }] + lex_spec(
                    s,
                    i + 2,
                    line,
                    col + 2,
                )
            } else {
                seq![TokModel { kind: KindModel::Greater, line: line, col: col }] + lex_spec(s, i + 1, line, col + 1)
            }
        } else if c == '<' {
            if i + 1 < s.len() && s[i + 1] == '=' {
                seq![TokModel { kind: KindModel::LessEqual, line: line, col: col }] + lex_spec(
                    s,
                    i + 2,
                    line,
                    col + 2,
                )
            } else {
                seq![TokModel { kind: KindModel::Less, line: line, col: col }] + lex_spec(s, i + 1, line, col + 1)
            }
        } else if c == '%' {
            seq![TokModel { kind: KindModel::Percent, line: line, col: col }] + lex_spec(s, i + 1, line, col + 1)
        } else if c == '@' {
            seq![TokModel { kind: KindModel::At, line: line, col: col }] + lex_spec(s, i + 1, line, col + 1)
        } else if c == '|' {
            if i + 1 < s.len() && s[i + 1] == '|' {
                seq![TokModel { kind: KindModel::Or, line: line, col: col }] + lex_spec(s, i + 2, line, col + 2)
            } else {
                lex_spec(s, i + 1, line, col + 1)
            }
        } else if c == '&' {
            if i + 1 < s.len() && s[i + 1] == '&' {
                seq![TokModel { kind: KindModel::And, line: line, col: col }] + lex_spec(s, i + 2, line, col + 2)
            } else {
                lex_spec(s, i + 1, line, col + 1)
            }
        } else if is_digit_char(c) {
            let e = scan_digits(s, i);
            seq![TokModel { kind: KindModel::Number(sat_number(s.subrange(i, e))), line: line, col: col }]
                + lex_spec(s, e, line, col + (e - i))
        } else if is_ident_start(c) {
            let e = scan_ident(s, i);
            seq![TokModel { kind: spec_keyword(s.subrange(i, e)), line: line, col: col }]
                + lex_spec(s, e, line, col + (e - i))
        } else {
            lex_spec(s, i + 1, line, col + 1)
        }
    }
}

#[via_fn]
proof fn lex_spec_decreases(s: Seq<char>, i: int, line: int, col: int) {
    if 0 <= i < s.len() {
        lemma_scan_string_bounds(s, i + 1);
        lemma_scan_comment_bounds(s, i + 1);
        lemma_scan_digits_bounds(s, i + 1);
        lemma_scan_ident_bounds(s, i + 1);
        if is_digit_char(s[i]) {
            assert(scan_digits(s, i) > i);
        }
        if is_ident_char(s[i]) {
            assert(scan_ident(s, i) > i);
        }
    }
}


proof fn lemma_digits_val_nonneg(s: Seq<char>)
    requires
        crate::strings::all_digits(s),
    ensures
        digits_val(s) >= 0,
    decreases s.len(),
{
    if s.len() > 0 {
        assert(crate::strings::all_digits(s.drop_last()));
        lemma_digits_val_nonneg(s.drop_last());
    }
}

/// Whether the character at `e` is a digit.
fn digit_at(s: &str, e: usize) -> (r: bool)
    requires
        e < s@.len(),
    ensures
        r == is_digit_char(s@[e as int]),
{
    let d = s.get_char(e);
    '0' <= d && d <= '9'
}

/// Whether the character at `e` continues an identifier.
fn ident_at(s: &str, e: usize) -> (r: bool)
    requires
        e < s@.len(),
    ensures
        r == is_ident_char(s@[e as int]),
{
    let d = s.get_char(e);
    ('a' <= d && d <= 'z') || ('A' <= d && d <= 'Z') || ('0' <= d && d <= '9') || d == '_'
}

/// Folds one character to ASCII upper case.
fn upfold_char(c: char) -> (r: char)
    ensures
        r == upfold(c),
{
    if 'a' <= c && c <= 'z' {
        ((c as u8) - 32) as char
    } else {
        c
    }
}

/// Compares a word, folded to upper case, against an upper-case keyword.
fn eq_fold(s: &str, kw: &str) -> (r: bool)
    ensures
        r == (upfold_seq(s@) == kw@),
{
    let n = s.unicode_len();
    let m = kw.unicode_len();
    if n != m {
        proof {
            assert(upfold_seq(s@).len() == s@.len());
        }
        return false;
    }
    let mut i: usize = 0;
    while i < n
        invariant
            n == s@.len(),
            n == kw@.len(),
            i <= n,
            forall|j: int| 0 <= j < i ==> upfold(s@[j]) == kw@[j],
        decreases n - i,
    {
        let c = upfold_char(s.get_char(i));
        if c != kw.get_char(i) {
            proof {
                assert(upfold_seq(s@)[i as int] == upfold(s@[i as int]));
            }
            return false;
        }
        i += 1;
    }
    proof {
        assert(upfold_seq(s@) =~= kw@);
    }
    true
}

/// The token kind of a word: a keyword, matched case-insensitively, or an
/// identifier.
fn keyword_kind(word: String) -> (r: TokenKind)
    ensures
        r@ == spec_keyword(word@),
{
    if eq_fold(word.as_str(), "ENVIRONMENT") {
        TokenKind::Environment
    } else if eq_fold(word.as_str(), "SPECIES") {
        TokenKind::Species
    } else if eq_fold(word.as_str(), "EVOLVE") {
        TokenKind::Evolve
    } else if eq_fold(word.as_str(), "MUTATE") {
        TokenKind::Mutate
    } else if eq_fold(word.as_str(), "FITNESS") {
        TokenKind::Fitness
    } else if eq_fold(word.as_str(), "VISUALIZE") {
        TokenKind::Visualize
    } else if eq_fold(word.as_str(), "ROUTINE") {
        TokenKind::Routine
    } else if eq_fold(word.as_str(), "SPAWN") {
        TokenKind::Spawn
    } else if eq_fold(word.as_str(), "AT") {
        TokenKind::At
    } else if eq_fold(word.as_str(), "RANDOM") {
        TokenKind::Random
    } else if eq_fold(word.as_str(), "IF") {
        TokenKind::If
    } else if eq_fold(word.as_str(), "ELSE") {
        TokenKind::Else
    } else if eq_fold(word.as_str(), "WHILE") {
        TokenKind::While
    } else if eq_fold(word.as_str(), "FOR") {
        TokenKind::For
    } else if eq_fold(word.as_str(), "IN") {
        TokenKind::In
    } else if eq_fold(word.as_str(), "RETURN") {
        TokenKind::Return
    } else if eq_fold(word.as_str(), "PRINT") {
        TokenKind::Print
    } else if eq_fold(word.as_str(), "TRUE") {
        TokenKind::True
    } else if eq_fold(word.as_str(), "FALSE") {
        TokenKind::False
    } else {
        TokenKind::Identifier(word)
    }
}

/// Reads the saturated numeric value of the digit run `s[from..to]`.
fn digit_run_value(s: &str, from: usize, to: usize) -> (r: i32)
    requires
        from <= to <= s@.len(),
        crate::strings::all_digits(s@.subrange(from as int, to as int)),
    ensures
        r as int == sat_number(s@.subrange(from as int, to as int)),
{
    let ghost ds = s@.subrange(from as int, to as int);
    let mut acc: u64 = 0;
    let mut i: usize = from;
    proof {
        assert(ds.subrange(0, 0) =~= Seq::<char>::empty());
    }
    while i < to
        invariant
            from <= i <= to <= s@.len(),
            ds == s@.subrange(from as int, to as int),
            crate::strings::all_digits(ds),
            (acc <= i32::MAX && acc as int == digits_val(ds.subrange(0, i - from)))
                || (acc > i32::MAX && acc <= 0x5_0000_0000u64 && digits_val(
                ds.subrange(0, i - from),
            ) > i32::MAX),
        decreases to - i,
    {
        let c = s.get_char(i);
        proof {
            assert(ds[i - from] == s@[i as int]);
            assert(is_digit_char(ds[i - from]));
            let pre = ds.subrange(0, i - from);
            let post = ds.subrange(0, i + 1 - from);
            assert(post.drop_last() =~= pre);
            assert(post.last() == ds[i - from]);
            lemma_digits_val_nonneg(pre);
            assert(crate::strings::all_digits(pre));
        }
        let d = (c as u32) - 48;
        if acc <= (i32::MAX as u64) {
            acc = acc * 10 + (d as u64);
        }
        proof {
            let post = ds.subrange(0, i + 1 - from);
            assert(crate::strings::all_digits(post));
            lemma_digits_val_nonneg(post);
        }
        i += 1;
    }
    proof {
        assert(ds.subrange(0, to - from) =~= ds);
    }
    if acc > (i32::MAX as u64) {
        i32::MAX
    } else {
        acc as i32
    }
}

/// Lexes source text into tokens, ending with the `EOF` sentinel.
#[verifier::rlimit(100)]
#[verifier::spinoff_prover]
#[verifier::loop_isolation(false)]
pub fn lexer(input: &str) -> (r: Vec<Token>)
    requires
        input@.len() < usize::MAX,
    ensures
        toks_view(r@) == lex_spec(input@, 0, 1, 1),
{
    let n = input.unicode_len();
    let mut tokens: Vec<Token> = Vec::new();
    let mut i: usize = 0;
    let mut line: usize = 1;
    let mut col: usize = 1;
    proof {
        assert(toks_view(tokens@) =~= Seq::<TokModel>::empty());
    }
    while i < n
        invariant
            n == input@.len(),
            i <= n,
            1 <= line,
            1 <= col,
            line <= 1 + i,
            col <= 1 + i,
            lex_spec(input@, 0, 1, 1) == toks_view(tokens@) + lex_spec(
                input@,
                i as int,
                line as int,
                col as int,
            ),
        decreases n - i,
    {
        let ghost pre = toks_view(tokens@);
        let c = input.get_char(i);
        if c == ' ' || c == '\r' || c == '\t' {
            i += 1;
            col += 1;
        } else if c == '\n' {
            i += 1;
            line += 1;
            col = 1;
        } else if c == '!' {
            if i + 1 < n && input.get_char(i + 1) == '=' {
                tokens.push(Token { kind: TokenKind::NotEqual, line, col });
                proof {
                    push_tok(pre, tokens@);
                }
                i += 2;
                col += 2;
            } else {
                i += 1;
                col += 1;
            }
        } else if c == '"' {
            let mut e = i + 1;
            while e < n && input.get_char(e) != '"'
                invariant
                    i + 1 <= e <= n,
                    forall|j: int| i + 1 <= j < e ==> input@[j] != '"',
                decreases n - e,
            {
                e += 1;
            }
            proof {
                lemma_scan_fix(input@, i as int + 1, e as int);
            }
            let content = input.substring_char(i + 1, e).to_owned();
            tokens.push(Token { kind: TokenKind::StringLiteral(content), line, col });
            proof {
                push_tok(pre, tokens@);
            }
            let consumed_to = if e < n {
                e + 1
            } else {
                e
            };
            col = col + 1 + (consumed_to - (i + 1));
            i = consumed_to;
        } else if c == '{' {
            tokens.push(Token { kind: TokenKind::LBrace, line, col });
            proof { push_tok(pre, tokens@); }
            i += 1;
            col += 1;
        } else if c == '}' {
            tokens.push(Token { kind: TokenKind::RBrace, line, col });
            proof { push_tok(pre, tokens@); }
            i += 1;
            col += 1;
        } else if c == '(' {
            tokens.push(Token { kind: TokenKind::LParen, line, col });
            proof { push_tok(pre, tokens@); }
            i += 1;
            col += 1;
        } else if c == ')' {
            tokens.push(Token { kind: TokenKind::RParen, line, col });
            proof { push_tok(pre, tokens@); }
            i += 1;
            col += 1;
        } else if c == '[' {
            tokens.push(Token { kind: TokenKind::LBracket, line, col });
            proof { push_tok(pre, tokens@); }
            i += 1;
            col += 1;
        } else if c == ']' {
            tokens.push(Token { kind: TokenKind::RBracket, line, col });
            proof { push_tok(pre, tokens@); }
            i += 1;
            col += 1;
        } else if c == ':' {
            tokens.push(Token { kind: TokenKind::Colon, line, col });
            proof { push_tok(pre, tokens@); }
            i += 1;
            col += 1;
        } else if c == ';' {
            tokens.push(Token { kind: TokenKind::SemiColon, line, col });
            proof { push_tok(pre, tokens@); }
            i += 1;
            col += 1;
        } else if c == ',' {
            tokens.push(Token { kind: TokenKind::Comma, line, col });
            proof { push_tok(pre, tokens@); }
            i += 1;
            col += 1;
        } else if c == '.' {
            tokens.push(Token { kind: TokenKind::Dot, line, col });
            proof { push_tok(pre, tokens@); }
            i += 1;
            col += 1;
        } else if c == '=' {
            if i + 1 < n && input.get_char(i + 1) == '=' {
                tokens.push(Token { kind: TokenKind::DoubleEqual, line, col });
                proof { push_tok(pre, tokens@); }
                i += 2;
                col += 2;
            } else {
                tokens.push(Token { kind: TokenKind::Equal, line, col });
                proof { push_tok(pre, tokens@); }
                i += 1;
                col += 1;
            }
        } else if c == '+' {
            tokens.push(Token { kind: TokenKind::Plus, line, col });
            proof { push_tok(pre, tokens@); }
            i += 1;
            col += 1;
        } else if c == '-' {
            tokens.push(Token { kind: TokenKind::Minus, line, col });
            proof { push_tok(pre, tokens@); }
            i += 1;
            col += 1;
        } else if c == '*' {
            tokens.push(Token { kind: TokenKind::Star, line, col });
            proof { push_tok(pre, tokens@); }
            i += 1;
            col += 1;
        } else if c == '/' {
            if i + 1 < n && input.get_char(i + 1) == '/' {
                let mut e = i + 1;
                while e < n && input.get_char(e) != '\n'
                    invariant
                        i + 1 <= e <= n,
                        forall|j: int| i + 1 <= j < e ==> input@[j] != '\n',
                    decreases n - e,
                {
                    e += 1;
                }
                proof {
                    lemma_scan_comment_fix(input@, i as int + 1, e as int);
                }
                col = col + 1 + (e - (i + 1));
                i = e;
            } else {
                tokens.push(Token { kind: TokenKind::Slash, line, col });
                proof { push_tok(pre, tokens@); }
                i += 1;
                col += 1;
            }
        } else if c == '>' {
            if i + 1 < n && input.get_char(i + 1) == '=' {
                tokens.push(Token { kind: TokenKind::GreaterEqual, line, col });
                proof { push_tok(pre, tokens@); }
                i += 2;
                col += 2;
            } else {
                tokens.push(Token { kind: TokenKind::Greater, line, col });
                proof { push_tok(pre, tokens@); }
                i += 1;
                col += 1;
            }
        } else if c == '<' {
            if i + 1 < n && input.get_char(i + 1) == '=' {
                tokens.push(Token { kind: TokenKind::LessEqual, line, col });
                proof { push_tok(pre, tokens@); }
                i += 2;
                col += 2;
            } else {
                tokens.push(Token { kind: TokenKind::Less, line, col });
                proof { push_tok(pre, tokens@); }
                i += 1;
                col += 1;
            }
        } else if c == '%' {
            tokens.push(Token { kind: TokenKind::Percent, line, col });
            proof { push_tok(pre, tokens@); }
            i += 1;
            col += 1;
        } else if c == '@' {
            tokens.push(Token { kind: TokenKind::At, line, col });
            proof { push_tok(pre, tokens@); }
            i += 1;
            col += 1;
        } else if c == '|' {
            if i + 1 < n && input.get_char(i + 1) == '|' {
                tokens.push(Token { kind: TokenKind::Or, line, col });
                proof { push_tok(pre, tokens@); }
                i += 2;
                col += 2;
            } else {
                i += 1;
                col += 1;
            }
        } else if c == '&' {
            if i + 1 < n && input.get_char(i + 1) == '&' {
                tokens.push(Token { kind: TokenKind::And, line, col });
                proof { push_tok(pre, tokens@); }
                i += 2;
                col += 2;
            } else {
                i += 1;
                col += 1;
            }
        } else if '0' <= c && c <= '9' {
            let mut e = i + 1;
            while e < n && digit_at(input, e)
                invariant
                    i + 1 <= e <= n,
                    forall|j: int| i as int <= j < e ==> is_digit_char(input@[j]),
                decreases n - e,
            {
                e += 1;
            }
            proof {
                lemma_scan_digits_fix(input@, i as int, e as int);
                assert(crate::strings::all_digits(input@.subrange(i as int, e as int)));
            }
            let v = digit_run_value(input, i, e);
            tokens.push(Token { kind: TokenKind::Number(v), line, col });
            proof {
                push_tok(pre, tokens@);
            }
            col = col + (e - i);
            i = e;
        } else if ('a' <= c && c <= 'z') || ('A' <= c && c <= 'Z') || c == '_' {
            let mut e = i + 1;
            while e < n && ident_at(input, e)
                invariant
                    i + 1 <= e <= n,
                    forall|j: int| i as int <= j < e ==> is_ident_char(input@[j]),
                decreases n - e,
            {
                e += 1;
            }
            proof {
                lemma_scan_ident_fix(input@, i as int, e as int);
            }
            let word = input.substring_char(i, e).to_owned();
            let kind = keyword_kind(word);
            tokens.push(Token { kind, line, col });
            proof {
                push_tok(pre, tokens@);
            }
            col = col + (e - i);
            i = e;
        } else {
            i += 1;
            col += 1;
        }
    }
    tokens.push(Token { kind: TokenKind::Eof, line, col });
    proof {
        push_tok(toks_view(tokens@.drop_last()), tokens@);
        assert(toks_view(tokens@) =~= lex_spec(input@, 0, 1, 1));
    }
    tokens
}

proof fn push_tok(pre: Seq<TokModel>, toks: Seq<Token>)
    requires
        toks.len() >= 1,
        pre =~= toks_view(toks.drop_last()),
    ensures
        toks_view(toks) == pre.push(toks.last()@),
{
    assert(toks_view(toks) =~= pre.push(toks.last()@));
}

proof fn lemma_scan_fix(s: Seq<char>, start: int, e: int)
    requires
        0 <= start <= e <= s.len(),
        forall|j: int| start <= j < e ==> s[j] != '"',
        e < s.len() ==> s[e] == '"',
    ensures
        scan_string(s, start) == e,
    decreases e - start,
{
    if start < e {
        lemma_scan_fix(s, start + 1, e);
    }
}

proof fn lemma_scan_comment_fix(s: Seq<char>, start: int, e: int)
    requires
        0 <= start <= e <= s.len(),
        forall|j: int| start <= j < e ==> s[j] != '\n',
        e < s.len() ==> s[e] == '\n',
    ensures
        scan_comment(s, start) == e,
    decreases e - start,
{
    if start < e {
        lemma_scan_comment_fix(s, start + 1, e);
    }
}

proof fn lemma_scan_digits_fix(s: Seq<char>, start: int, e: int)
    requires
        0 <= start <= e <= s.len(),
        forall|j: int| start <= j < e ==> is_digit_char(#[trigger] s[j]),
        e < s.len() ==> !is_digit_char(s[e]),
    ensures
        scan_digits(s, start) == e,
    decreases e - start,
{
    if start < e {
        lemma_scan_digits_fix(s, start + 1, e);
    }
}

proof fn lemma_scan_ident_fix(s: Seq<char>, start: int, e: int)
    requires
        0 <= start <= e <= s.len(),
        forall|j: int| start <= j < e ==> is_ident_char(#[trigger] s[j]),
        e < s.len() ==> !is_ident_char(s[e]),
    ensures
        scan_ident(s, start) == e,
    decreases e - start,
{
    if start < e {
        lemma_scan_ident_fix(s, start + 1, e);
    }
}

} // verus!
