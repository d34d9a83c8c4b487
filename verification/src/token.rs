//! Tokens produced by the lexer and consumed by the parser.
use vstd::prelude::*;

use crate::text::{debug_quote, i64_to_string, int_decimal, quoted};

verus! {

/// The kind of a token, with its payload for literals and names.  A `Float`
/// carries the literal's source text; an `Error` carries the offending text.
#[derive(Debug, Clone, PartialEq)]
pub enum TokenKind {
    Identifier(String),
    Number(i64),
    Float(String),
    StringLit(String),
    StringInterp(Vec<(String, bool)>),
    Error(String),
    True,
    False,
    Nil,
    SelfKw,
    SuperKw,
    Def,
    Defp,
    Class,
    Module,
    Interface,
    Abstract,
    Attr,
    Include,
    If,
    Elsif,
    Else,
    While,
    Return,
    Break,
    Next,
    Raise,
    Begin,
    Rescue,
    End,
    Print,
    Type,
    Import,
    Yield,
    Match,
    Underscore,
    Plus,
    Minus,
    Star,
    Slash,
    Percent,
    Bang,
    Tilde,
    BangEq,
    Eq,
    EqEq,
    Less,
    LessEq,
    Greater,
    GreaterEq,
    LessLess,
    GreaterGreater,
    Amp,
    AmpAmp,
    AmpDot,
    Pipe,
    PipePipe,
    Caret,
    Dot,
    DotDot,
    Comma,
    Colon,
    Semicolon,
    Question,
    Arrow,
    FatArrow,
    LeftParen,
    RightParen,
    LeftBrace,
    RightBrace,
    LeftBracket,
    RightBracket,
    Newline,
    Eof,
}

/// A token and the position (1-based line and column) where it starts.
#[derive(Debug, Clone, PartialEq)]
pub struct Token {
    pub kind: TokenKind,
    pub line: usize,
    pub column: usize,
}

/// A number identifying the variant of a token kind.
pub open spec fn kind_tag(k: TokenKind) -> u8 {
    match k {
            TokenKind::Identifier(_) => 0,
            TokenKind::Number(_) => 1,
            TokenKind::Float(_) => 2,
            TokenKind::StringLit(_) => 3,
            TokenKind::StringInterp(_) => 4,
            TokenKind::Error(_) => 5,
            TokenKind::True => 6,
            TokenKind::False => 7,
            TokenKind::Nil => 8,
            TokenKind::SelfKw => 9,
            TokenKind::SuperKw => 10,
            TokenKind::Def => 11,
            TokenKind::Defp => 12,
            TokenKind::Class => 13,
            TokenKind::Module => 14,
            TokenKind::Interface => 15,
            TokenKind::Abstract => 16,
            TokenKind::Attr => 17,
            TokenKind::Include => 18,
            TokenKind::If => 19,
            TokenKind::Elsif => 20,
            TokenKind::Else => 21,
            TokenKind::While => 22,
            TokenKind::Return => 23,
            TokenKind::Break => 24,
            TokenKind::Next => 25,
            TokenKind::Raise => 26,
            TokenKind::Begin => 27,
            TokenKind::Rescue => 28,
            TokenKind::End => 29,
            TokenKind::Print => 30,
            TokenKind::Type => 31,
            TokenKind::Import => 32,
            TokenKind::Yield => 33,
            TokenKind::Match => 34,
            TokenKind::Underscore => 35,
            TokenKind::Plus => 36,
            TokenKind::Minus => 37,
            TokenKind::Star => 38,
            TokenKind::Slash => 39,
            TokenKind::Percent => 40,
            TokenKind::Bang => 41,
            TokenKind::Tilde => 42,
            TokenKind::BangEq => 43,
            TokenKind::Eq => 44,
            TokenKind::EqEq => 45,
            TokenKind::Less => 46,
            TokenKind::LessEq => 47,
            TokenKind::Greater => 48,
            TokenKind::GreaterEq => 49,
            TokenKind::LessLess => 50,
            TokenKind::GreaterGreater => 51,
            TokenKind::Amp => 52,
            TokenKind::AmpAmp => 53,
            TokenKind::AmpDot => 54,
            TokenKind::Pipe => 55,
            TokenKind::PipePipe => 56,
            TokenKind::Caret => 57,
            TokenKind::Dot => 58,
            TokenKind::DotDot => 59,
            TokenKind::Comma => 60,
            TokenKind::Colon => 61,
            TokenKind::Semicolon => 62,
            TokenKind::Question => 63,
            TokenKind::Arrow => 64,
            TokenKind::FatArrow => 65,
            TokenKind::LeftParen => 66,
            TokenKind::RightParen => 67,
            TokenKind::LeftBrace => 68,
            TokenKind::RightBrace => 69,
            TokenKind::LeftBracket => 70,
            TokenKind::RightBracket => 71,
            TokenKind::Newline => 72,
            TokenKind::Eof => 73,
    }
}

/// The name of a kind that carries no value, as `Debug` writes it.
pub open spec fn simple_name_spec(k: TokenKind) -> Seq<char> {
    match k {
        TokenKind::True => "True"@,
        TokenKind::False => "False"@,
        TokenKind::Nil => "Nil"@,
        TokenKind::SelfKw => "SelfKw"@,
        TokenKind::SuperKw => "SuperKw"@,
        TokenKind::Def => "Def"@,
        TokenKind::Defp => "Defp"@,
        TokenKind::Class => "Class"@,
        TokenKind::Module => "Module"@,
        TokenKind::Interface => "Interface"@,
        TokenKind::Abstract => "Abstract"@,
        TokenKind::Attr => "Attr"@,
        TokenKind::Include => "Include"@,
        TokenKind::If => "If"@,
        TokenKind::Elsif => "Elsif"@,
        TokenKind::Else => "Else"@,
        TokenKind::While => "While"@,
        TokenKind::Return => "Return"@,
        TokenKind::Break => "Break"@,
        TokenKind::Next => "Next"@,
        TokenKind::Raise => "Raise"@,
        TokenKind::Begin => "Begin"@,
        TokenKind::Rescue => "Rescue"@,
        TokenKind::End => "End"@,
        TokenKind::Print => "Print"@,
        TokenKind::Type => "Type"@,
        TokenKind::Import => "Import"@,
        TokenKind::Yield => "Yield"@,
        TokenKind::Match => "Match"@,
        TokenKind::Underscore => "Underscore"@,
        TokenKind::Plus => "Plus"@,
        TokenKind::Minus => "Minus"@,
        TokenKind::Star => "Star"@,
        TokenKind::Slash => "Slash"@,
        TokenKind::Percent => "Percent"@,
        TokenKind::Bang => "Bang"@,
        TokenKind::Tilde => "Tilde"@,
        TokenKind::BangEq => "BangEq"@,
        TokenKind::Eq => "Eq"@,
        TokenKind::EqEq => "EqEq"@,
        TokenKind::Less => "Less"@,
        TokenKind::LessEq => "LessEq"@,
        TokenKind::Greater => "Greater"@,
        TokenKind::GreaterEq => "GreaterEq"@,
        TokenKind::LessLess => "LessLess"@,
        TokenKind::GreaterGreater => "GreaterGreater"@,
        TokenKind::Amp => "Amp"@,
        TokenKind::AmpAmp => "AmpAmp"@,
        TokenKind::AmpDot => "AmpDot"@,
        TokenKind::Pipe => "Pipe"@,
        TokenKind::PipePipe => "PipePipe"@,
        TokenKind::Caret => "Caret"@,
        TokenKind::Dot => "Dot"@,
        TokenKind::DotDot => "DotDot"@,
        TokenKind::Comma => "Comma"@,
        TokenKind::Colon => "Colon"@,
        TokenKind::Semicolon => "Semicolon"@,
        TokenKind::Question => "Question"@,
        TokenKind::Arrow => "Arrow"@,
        TokenKind::FatArrow => "FatArrow"@,
        TokenKind::LeftParen => "LeftParen"@,
        TokenKind::RightParen => "RightParen"@,
        TokenKind::LeftBrace => "LeftBrace"@,
        TokenKind::RightBrace => "RightBrace"@,
        TokenKind::LeftBracket => "LeftBracket"@,
        TokenKind::RightBracket => "RightBracket"@,
        TokenKind::Newline => "Newline"@,
        TokenKind::Eof => "Eof"@,
        _ => Seq::empty(),
    }
}

/// The `(text, is_code)` parts of an interpolated string as `Debug` writes
/// them: `("text", true)`, separated by `, `.
pub open spec fn parts_debug(parts: Seq<(String, bool)>) -> Seq<char>
    decreases parts.len(),
{
    if parts.len() == 0 {
        Seq::empty()
    } else {
        let last = "("@ + quoted(parts.last().0@) + if parts.last().1 {
            ", true)"@
        } else {
            ", false)"@
        };
        if parts.len() == 1 {
            last
        } else {
            parts_debug(parts.drop_last()) + ", "@ + last
        }
    }
}

/// A token kind as `Debug` writes it: `Name(value)` for a kind with a value,
/// the bare name otherwise.
pub open spec fn kind_debug(k: TokenKind) -> Seq<char> {
    match k {
        TokenKind::Identifier(s) => "Identifier"@ + "("@ + quoted(s@) + ")"@,
        TokenKind::Number(n) => "Number"@ + "("@ + int_decimal(n as int) + ")"@,
        TokenKind::Float(s) => "Float"@ + "("@ + s@ + ")"@,
        TokenKind::StringLit(s) => "StringLit"@ + "("@ + quoted(s@) + ")"@,
        TokenKind::StringInterp(parts) => "StringInterp(["@ + parts_debug(parts@) + "])"@,
        TokenKind::Error(s) => "Error"@ + "("@ + quoted(s@) + ")"@,
        _ => simple_name_spec(k),
    }
}

impl TokenKind {
    /// The variant number of this kind.
    pub fn tag(&self) -> (t: u8)
        ensures
            t == kind_tag(*self),
    {
        match self {
            TokenKind::Identifier(_) => 0,
            TokenKind::Number(_) => 1,
            TokenKind::Float(_) => 2,
            TokenKind::StringLit(_) => 3,
            TokenKind::StringInterp(_) => 4,
            TokenKind::Error(_) => 5,
            TokenKind::True => 6,
            TokenKind::False => 7,
            TokenKind::Nil => 8,
            TokenKind::SelfKw => 9,
            TokenKind::SuperKw => 10,
            TokenKind::Def => 11,
            TokenKind::Defp => 12,
            TokenKind::Class => 13,
            TokenKind::Module => 14,
            TokenKind::Interface => 15,
            TokenKind::Abstract => 16,
            TokenKind::Attr => 17,
            TokenKind::Include => 18,
            TokenKind::If => 19,
            TokenKind::Elsif => 20,
            TokenKind::Else => 21,
            TokenKind::While => 22,
            TokenKind::Return => 23,
            TokenKind::Break => 24,
            TokenKind::Next => 25,
            TokenKind::Raise => 26,
            TokenKind::Begin => 27,
            TokenKind::Rescue => 28,
            TokenKind::End => 29,
            TokenKind::Print => 30,
            TokenKind::Type => 31,
            TokenKind::Import => 32,
            TokenKind::Yield => 33,
            TokenKind::Match => 34,
            TokenKind::Underscore => 35,
            TokenKind::Plus => 36,
            TokenKind::Minus => 37,
            TokenKind::Star => 38,
            TokenKind::Slash => 39,
            TokenKind::Percent => 40,
            TokenKind::Bang => 41,
            TokenKind::Tilde => 42,
            TokenKind::BangEq => 43,
            TokenKind::Eq => 44,
            TokenKind::EqEq => 45,
            TokenKind::Less => 46,
            TokenKind::LessEq => 47,
            TokenKind::Greater => 48,
            TokenKind::GreaterEq => 49,
            TokenKind::LessLess => 50,
            TokenKind::GreaterGreater => 51,
            TokenKind::Amp => 52,
            TokenKind::AmpAmp => 53,
            TokenKind::AmpDot => 54,
            TokenKind::Pipe => 55,
            TokenKind::PipePipe => 56,
            TokenKind::Caret => 57,
            TokenKind::Dot => 58,
            TokenKind::DotDot => 59,
            TokenKind::Comma => 60,
            TokenKind::Colon => 61,
            TokenKind::Semicolon => 62,
            TokenKind::Question => 63,
            TokenKind::Arrow => 64,
            TokenKind::FatArrow => 65,
            TokenKind::LeftParen => 66,
            TokenKind::RightParen => 67,
            TokenKind::LeftBrace => 68,
            TokenKind::RightBrace => 69,
            TokenKind::LeftBracket => 70,
            TokenKind::RightBracket => 71,
            TokenKind::Newline => 72,
            TokenKind::Eof => 73,
        }
    }

    /// Whether this kind is the same variant as `other`.
    pub fn same_variant(&self, other: &TokenKind) -> (r: bool)
        ensures
            r == (kind_tag(*self) == kind_tag(*other)),
    {
        self.tag() == other.tag()
    }

    /// A copy of this kind (an interpolated string's parts are copied
    /// element by element).
    pub fn copy(&self) -> (r: TokenKind)
        ensures
            !(self is StringInterp) ==> r == *self,
            self is StringInterp ==> r is StringInterp && r->StringInterp_0@
                == self->StringInterp_0@,
            kind_tag(r) == kind_tag(*self),
    {
        match self {
            TokenKind::Identifier(s) => TokenKind::Identifier(s.clone()),
            TokenKind::Number(n) => TokenKind::Number(*n),
            TokenKind::Float(s) => TokenKind::Float(s.clone()),
            TokenKind::StringLit(s) => TokenKind::StringLit(s.clone()),
            TokenKind::StringInterp(parts) => TokenKind::StringInterp(copy_parts(parts)),
            TokenKind::Error(s) => TokenKind::Error(s.clone()),
            TokenKind::True => TokenKind::True,
            TokenKind::False => TokenKind::False,
            TokenKind::Nil => TokenKind::Nil,
            TokenKind::SelfKw => TokenKind::SelfKw,
            TokenKind::SuperKw => TokenKind::SuperKw,
            TokenKind::Def => TokenKind::Def,
            TokenKind::Defp => TokenKind::Defp,
            TokenKind::Class => TokenKind::Class,
            TokenKind::Module => TokenKind::Module,
            TokenKind::Interface => TokenKind::Interface,
            TokenKind::Abstract => TokenKind::Abstract,
            TokenKind::Attr => TokenKind::Attr,
            TokenKind::Include => TokenKind::Include,
            TokenKind::If => TokenKind::If,
            TokenKind::Elsif => TokenKind::Elsif,
            TokenKind::Else => TokenKind::Else,
            TokenKind::While => TokenKind::While,
            TokenKind::Return => TokenKind::Return,
            TokenKind::Break => TokenKind::Break,
            TokenKind::Next => TokenKind::Next,
            TokenKind::Raise => TokenKind::Raise,
            TokenKind::Begin => TokenKind::Begin,
            TokenKind::Rescue => TokenKind::Rescue,
            TokenKind::End => TokenKind::End,
            TokenKind::Print => TokenKind::Print,
            TokenKind::Type => TokenKind::Type,
            TokenKind::Import => TokenKind::Import,
            TokenKind::Yield => TokenKind::Yield,
            TokenKind::Match => TokenKind::Match,
            TokenKind::Underscore => TokenKind::Underscore,
            TokenKind::Plus => TokenKind::Plus,
            TokenKind::Minus => TokenKind::Minus,
            TokenKind::Star => TokenKind::Star,
            TokenKind::Slash => TokenKind::Slash,
            TokenKind::Percent => TokenKind::Percent,
            TokenKind::Bang => TokenKind::Bang,
            TokenKind::Tilde => TokenKind::Tilde,
            TokenKind::BangEq => TokenKind::BangEq,
            TokenKind::Eq => TokenKind::Eq,
            TokenKind::EqEq => TokenKind::EqEq,
            TokenKind::Less => TokenKind::Less,
            TokenKind::LessEq => TokenKind::LessEq,
            TokenKind::Greater => TokenKind::Greater,
            TokenKind::GreaterEq => TokenKind::GreaterEq,
            TokenKind::LessLess => TokenKind::LessLess,
            TokenKind::GreaterGreater => TokenKind::GreaterGreater,
            TokenKind::Amp => TokenKind::Amp,
            TokenKind::AmpAmp => TokenKind::AmpAmp,
            TokenKind::AmpDot => TokenKind::AmpDot,
            TokenKind::Pipe => TokenKind::Pipe,
            TokenKind::PipePipe => TokenKind::PipePipe,
            TokenKind::Caret => TokenKind::Caret,
            TokenKind::Dot => TokenKind::Dot,
            TokenKind::DotDot => TokenKind::DotDot,
            TokenKind::Comma => TokenKind::Comma,
            TokenKind::Colon => TokenKind::Colon,
            TokenKind::Semicolon => TokenKind::Semicolon,
            TokenKind::Question => TokenKind::Question,
            TokenKind::Arrow => TokenKind::Arrow,
            TokenKind::FatArrow => TokenKind::FatArrow,
            TokenKind::LeftParen => TokenKind::LeftParen,
            TokenKind::RightParen => TokenKind::RightParen,
            TokenKind::LeftBrace => TokenKind::LeftBrace,
            TokenKind::RightBrace => TokenKind::RightBrace,
            TokenKind::LeftBracket => TokenKind::LeftBracket,
            TokenKind::RightBracket => TokenKind::RightBracket,
            TokenKind::Newline => TokenKind::Newline,
            TokenKind::Eof => TokenKind::Eof,
        }
    }

    /// The debug rendering of this kind, as error messages show it.
    pub fn debug_string(&self) -> (r: String)
        ensures
            r@ == kind_debug(*self),
    {
        match self {
            TokenKind::Identifier(s) => wrap_debug("Identifier", &debug_str(s.as_str())),
            TokenKind::Number(n) => wrap_debug("Number", &i64_to_string(*n)),
            TokenKind::Float(s) => wrap_debug("Float", s),
            TokenKind::StringLit(s) => wrap_debug("StringLit", &debug_str(s.as_str())),
            TokenKind::StringInterp(parts) => {
                let mut inner = String::new();
                let mut i: usize = 0;
                while i < parts.len()
                    invariant
                        i <= parts@.len(),
                        inner@ == parts_debug(parts@.take(i as int)),
                    decreases parts.len() - i,
                {
                    proof {
                        assert(parts@.take(i + 1).drop_last() =~= parts@.take(i as int));
                        assert(parts@.take(i + 1).last() == parts@[i as int]);
                    }
                    if i > 0 {
                        inner.append(", ");
                    }
                    inner.append("(");
                    let d = debug_str(parts[i].0.as_str());
                    inner.append(d.as_str());
                    inner.append(if parts[i].1 { ", true)" } else { ", false)" });
                    i += 1;
                }
                assert(parts@.take(parts@.len() as int) =~= parts@);
                let mut s = String::from_str("StringInterp([");
                s.append(inner.as_str());
                s.append("])");
                s
            },
            TokenKind::Error(s) => wrap_debug("Error", &debug_str(s.as_str())),
            _ => self.simple_name(),
        }
    }

    fn simple_name(&self) -> (r: String)
        ensures
            r@ == simple_name_spec(*self),
    {
        match self {
            TokenKind::True => String::from_str("True"),
            TokenKind::False => String::from_str("False"),
            TokenKind::Nil => String::from_str("Nil"),
            TokenKind::SelfKw => String::from_str("SelfKw"),
            TokenKind::SuperKw => String::from_str("SuperKw"),
            TokenKind::Def => String::from_str("Def"),
            TokenKind::Defp => String::from_str("Defp"),
            TokenKind::Class => String::from_str("Class"),
            TokenKind::Module => String::from_str("Module"),
            TokenKind::Interface => String::from_str("Interface"),
            TokenKind::Abstract => String::from_str("Abstract"),
            TokenKind::Attr => String::from_str("Attr"),
            TokenKind::Include => String::from_str("Include"),
            TokenKind::If => String::from_str("If"),
            TokenKind::Elsif => String::from_str("Elsif"),
            TokenKind::Else => String::from_str("Else"),
            TokenKind::While => String::from_str("While"),
            TokenKind::Return => String::from_str("Return"),
            TokenKind::Break => String::from_str("Break"),
            TokenKind::Next => String::from_str("Next"),
            TokenKind::Raise => String::from_str("Raise"),
            TokenKind::Begin => String::from_str("Begin"),
            TokenKind::Rescue => String::from_str("Rescue"),
            TokenKind::End => String::from_str("End"),
            TokenKind::Print => String::from_str("Print"),
            TokenKind::Type => String::from_str("Type"),
            TokenKind::Import => String::from_str("Import"),
            TokenKind::Yield => String::from_str("Yield"),
            TokenKind::Match => String::from_str("Match"),
            TokenKind::Underscore => String::from_str("Underscore"),
            TokenKind::Plus => String::from_str("Plus"),
            TokenKind::Minus => String::from_str("Minus"),
            TokenKind::Star => String::from_str("Star"),
            TokenKind::Slash => String::from_str("Slash"),
            TokenKind::Percent => String::from_str("Percent"),
            TokenKind::Bang => String::from_str("Bang"),
            TokenKind::Tilde => String::from_str("Tilde"),
            TokenKind::BangEq => String::from_str("BangEq"),
            TokenKind::Eq => String::from_str("Eq"),
            TokenKind::EqEq => String::from_str("EqEq"),
            TokenKind::Less => String::from_str("Less"),
            TokenKind::LessEq => String::from_str("LessEq"),
            TokenKind::Greater => String::from_str("Greater"),
            TokenKind::GreaterEq => String::from_str("GreaterEq"),
            TokenKind::LessLess => String::from_str("LessLess"),
            TokenKind::GreaterGreater => String::from_str("GreaterGreater"),
            TokenKind::Amp => String::from_str("Amp"),
            TokenKind::AmpAmp => String::from_str("AmpAmp"),
            TokenKind::AmpDot => String::from_str("AmpDot"),
            TokenKind::Pipe => String::from_str("Pipe"),
            TokenKind::PipePipe => String::from_str("PipePipe"),
            TokenKind::Caret => String::from_str("Caret"),
            TokenKind::Dot => String::from_str("Dot"),
            TokenKind::DotDot => String::from_str("DotDot"),
            TokenKind::Comma => String::from_str("Comma"),
            TokenKind::Colon => String::from_str("Colon"),
            TokenKind::Semicolon => String::from_str("Semicolon"),
            TokenKind::Question => String::from_str("Question"),
            TokenKind::Arrow => String::from_str("Arrow"),
            TokenKind::FatArrow => String::from_str("FatArrow"),
            TokenKind::LeftParen => String::from_str("LeftParen"),
            TokenKind::RightParen => String::from_str("RightParen"),
            TokenKind::LeftBrace => String::from_str("LeftBrace"),
            TokenKind::RightBrace => String::from_str("RightBrace"),
            TokenKind::LeftBracket => String::from_str("LeftBracket"),
            TokenKind::RightBracket => String::from_str("RightBracket"),
            TokenKind::Newline => String::from_str("Newline"),
            TokenKind::Eof => String::from_str("Eof"),
            _ => String::new(),
        }
    }
}

impl Token {
    /// A copy of this token.
    pub fn copy(&self) -> (r: Token)
        ensures
            !(self.kind is StringInterp) ==> r == *self,
            kind_tag(r.kind) == kind_tag(self.kind),
            r.line == self.line,
            r.column == self.column,
    {
        Token { kind: self.kind.copy(), line: self.line, column: self.column }
    }
}

fn copy_parts(parts: &Vec<(String, bool)>) -> (r: Vec<(String, bool)>)
    ensures
        r@ == parts@,
{
    let mut out: Vec<(String, bool)> = Vec::new();
    let mut i: usize = 0;
    while i < parts.len()
        invariant
            i <= parts@.len(),
            out@ == parts@.take(i as int),
        decreases parts@.len() - i,
    {
        out.push((parts[i].0.clone(), parts[i].1));
        i += 1;
        assert(out@ =~= parts@.take(i as int));
    }
    assert(parts@.take(parts@.len() as int) =~= parts@);
    out
}

fn wrap_debug(name: &str, inner: &String) -> (s: String)
    ensures
        s@ == name@ + "("@ + inner@ + ")"@,
{
    let mut s = String::from_str(name);
    s.append("(");
    s.append(inner.as_str());
    s.append(")");
    s
}

/// A string as `Debug` writes it: quoted, with Rust's escapes.
pub fn debug_str(s: &str) -> (r: String)
    ensures
        r@ == quoted(s@),
{
    debug_quote(s)
}

/// The longest interpolated-expression source carried by the parts, plus one
/// (zero for no parts).
pub open spec fn parts_bound(parts: Seq<(String, bool)>) -> nat
    decreases parts.len(),
{
    if parts.len() == 0 {
        0
    } else {
        let b = parts_bound(parts.drop_last());
        let l = parts.last().0@.len() + 1;
        if b > l { b } else { l }
    }
}

/// The bound of a single token.
pub open spec fn token_bound(t: Token) -> nat {
    match t.kind {
        TokenKind::StringInterp(parts) => parts_bound(parts@),
        _ => 0,
    }
}

/// The largest token bound in a token sequence.
pub open spec fn tokens_bound(ts: Seq<Token>) -> nat
    decreases ts.len(),
{
    if ts.len() == 0 {
        0
    } else {
        let b = tokens_bound(ts.drop_last());
        let l = token_bound(ts.last());
        if b > l { b } else { l }
    }
}

pub proof fn lemma_parts_bound(parts: Seq<(String, bool)>, i: int)
    requires
        0 <= i < parts.len(),
    ensures
        parts[i].0@.len() < parts_bound(parts),
    decreases parts.len(),
{
    if i < parts.len() - 1 {
        lemma_parts_bound(parts.drop_last(), i);
    }
}

pub proof fn lemma_tokens_bound(ts: Seq<Token>, i: int)
    requires
        0 <= i < ts.len(),
    ensures
        token_bound(ts[i]) <= tokens_bound(ts),
    decreases ts.len(),
{
    if i < ts.len() - 1 {
        lemma_tokens_bound(ts.drop_last(), i);
    }
}

} // verus!
