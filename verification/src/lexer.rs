//! The lexer: source text to tokens.
use vstd::prelude::*;

use crate::text::{chars_range_to_string, str_to_chars, string_push};
use crate::token::{parts_bound, token_bound, tokens_bound, Token, TokenKind};

verus! {

pub struct Lexer {
    chars: Vec<char>,
}

/// A token sequence the parser can walk: it is not empty, it ends with `Eof`,
/// and `Eof` occurs nowhere else.
pub open spec fn well_terminated(ts: Seq<Token>) -> bool {
    ts.len() > 0 && ts.last().kind is Eof && forall|i: int|
        0 <= i < ts.len() - 1 ==> !(#[trigger] ts[i].kind is Eof)
}

pub open spec fn is_digit(c: char) -> bool {
    '0' <= c <= '9'
}

/// Every character is an ASCII digit.
pub open spec fn all_decimal(d: Seq<char>) -> bool {
    forall|i: int| 0 <= i < d.len() ==> is_digit(#[trigger] d[i])
}

/// A single name: a name-starting character followed by name characters.
pub open spec fn lone_name(d: Seq<char>) -> bool {
    d.len() > 0 && is_name_start(d[0]) && forall|i: int| 1 <= i < d.len() ==> is_name_char(#[trigger] d[i])
}

/// The token of a lone name: its keyword, or an identifier holding it.
pub open spec fn name_token_ok(k: TokenKind, d: Seq<char>) -> bool {
    match keyword_kind(d) {
        Some(kw) => k == kw,
        None => k matches TokenKind::Identifier(t) && t@ == d,
    }
}

/// The operator or bracket token of the character at `i` in an arithmetic
/// source: `+`, `-` (not starting `->`), `*`, `/`, `%`, `,`, `[`, `]`, `{`
/// or `}`.
pub open spec fn arith_char_kind(cs: Seq<char>, i: int) -> Option<TokenKind> {
    let c = cs[i];
    if c == '+' {
        Some(TokenKind::Plus)
    } else if c == '-' && !(i + 1 < cs.len() && cs[i + 1] == '>') {
        Some(TokenKind::Minus)
    } else if c == '*' {
        Some(TokenKind::Star)
    } else if c == '/' {
        Some(TokenKind::Slash)
    } else if c == '%' {
        Some(TokenKind::Percent)
    } else if c == ',' {
        Some(TokenKind::Comma)
    } else if c == '[' {
        Some(TokenKind::LeftBracket)
    } else if c == ']' {
        Some(TokenKind::RightBracket)
    } else if c == '{' {
        Some(TokenKind::LeftBrace)
    } else if c == '}' {
        Some(TokenKind::RightBrace)
    } else {
        None
    }
}

/// The number token that a pending digit run ends in, if any.
pub open spec fn flush_number(acc: Option<int>) -> Seq<TokenKind> {
    match acc {
        Some(v) => seq![TokenKind::Number(v as i64)],
        None => Seq::empty(),
    }
}

/// The token kinds of an arithmetic source from `i` on, with the value of
/// the digits read so far in `acc`: runs of ASCII digits are numbers (each
/// fitting an `i64`), spaces separate, `+ - * / %` are operators and
/// `, [ ] { }` punctuation.  `None` for a source with anything else
/// (including a number followed by `.`).
pub open spec fn arith_lex(cs: Seq<char>, i: int, acc: Option<int>) -> Option<Seq<TokenKind>>
    decreases cs.len() - i,
{
    if i < 0 || i >= cs.len() {
        Some(flush_number(acc))
    } else if is_digit(cs[i]) {
        let v = match acc {
            Some(a) => a * 10 + (cs[i] as int - '0' as int),
            None => cs[i] as int - '0' as int,
        };
        if v > i64::MAX {
            None
        } else {
            arith_lex(cs, i + 1, Some(v))
        }
    } else if acc is Some && cs[i] == '.' {
        None
    } else if cs[i] == ' ' {
        match arith_lex(cs, i + 1, None) {
            Some(r) => Some(flush_number(acc) + r),
            None => None,
        }
    } else {
        match arith_char_kind(cs, i) {
            Some(k) => match arith_lex(cs, i + 1, None) {
                Some(r) => Some(flush_number(acc) + seq![k] + r),
                None => None,
            },
            None => None,
        }
    }
}

/// The kinds of a token sequence.
pub open spec fn token_kinds(ts: Seq<Token>) -> Seq<TokenKind> {
    ts.map_values(|t: Token| t.kind)
}

/// At the end of a digit run the pending number is emitted before what
/// follows.
proof fn lemma_flush(cs: Seq<char>, e: int, v: int)
    requires
        0 <= e <= cs.len(),
        e < cs.len() ==> !is_digit(cs[e]),
        0 <= v <= i64::MAX,
        arith_lex(cs, e, Some(v)) is Some,
    ensures
        arith_lex(cs, e, None) is Some,
        arith_lex(cs, e, Some(v)) == Some(seq![TokenKind::Number(v as i64)] + arith_lex(cs, e, None)->Some_0),
        e < cs.len() ==> cs[e] != '.',
{
    if e < cs.len() {
        if cs[e] == ' ' {
            assert(seq![TokenKind::Number(v as i64)] + arith_lex(cs, e + 1, None)->Some_0 =~= flush_number(Some(v))
                + arith_lex(cs, e + 1, None)->Some_0);
            assert(Seq::<TokenKind>::empty() + arith_lex(cs, e + 1, None)->Some_0 =~= arith_lex(cs, e + 1, None)->Some_0);
        } else {
            let k = arith_char_kind(cs, e)->Some_0;
            let r = arith_lex(cs, e + 1, None)->Some_0;
            assert(flush_number(Some(v)) + seq![k] + r =~= seq![TokenKind::Number(v as i64)] + (Seq::<TokenKind>::empty()
                + seq![k] + r));
        }
    } else {
        assert(seq![TokenKind::Number(v as i64)] + Seq::<TokenKind>::empty() =~= seq![TokenKind::Number(v as i64)]);
    }
}

/// The value of a run of ASCII digits.
pub open spec fn decimal_value(d: Seq<char>) -> int
    decreases d.len(),
{
    if d.len() == 0 {
        0
    } else {
        decimal_value(d.drop_last()) * 10 + (d.last() as int - '0' as int)
    }
}

proof fn lemma_decimal_prefix(d: Seq<char>, k: int)
    requires
        all_decimal(d),
        0 <= k <= d.len(),
    ensures
        0 <= decimal_value(d.take(k)) <= decimal_value(d),
    decreases d.len(),
{
    if d.len() > 0 {
        assert(all_decimal(d.drop_last()));
        if k == d.len() {
            assert(d.take(k) =~= d);
            lemma_decimal_prefix(d.drop_last(), k - 1);
            assert(d.drop_last().take(k - 1) =~= d.drop_last());
        } else {
            lemma_decimal_prefix(d.drop_last(), k);
            assert(d.drop_last().take(k) =~= d.take(k));
            lemma_decimal_prefix(d.drop_last(), d.len() - 1);
            assert(d.drop_last().take(d.len() - 1) =~= d.drop_last());
            assert(is_digit(d[d.len() - 1]));
        }
    } else {
        assert(d.take(k) =~= d);
    }
}

/// Characters that start a name: ASCII letters, `_`, and any non-ASCII
/// character.
pub open spec fn is_name_start(c: char) -> bool {
    ('a' <= c <= 'z') || ('A' <= c <= 'Z') || c == '_' || (c as int) > 127
}

pub open spec fn is_name_char(c: char) -> bool {
    is_name_start(c) || is_digit(c)
}

fn digit(c: char) -> (r: bool)
    ensures
        r == is_digit(c),
{
    '0' <= c && c <= '9'
}

fn name_start(c: char) -> (r: bool)
    ensures
        r == is_name_start(c),
{
    ('a' <= c && c <= 'z') || ('A' <= c && c <= 'Z') || c == '_' || c > '\u{7f}'
}

fn name_char(c: char) -> (r: bool)
    ensures
        r == is_name_char(c),
{
    name_start(c) || digit(c)
}

/// The keyword that the characters `s` spell, if they spell one.
pub open spec fn keyword_kind(s: Seq<char>) -> Option<TokenKind> {
    if s == "true"@ {
        Some(TokenKind::True)
    } else if s == "false"@ {
        Some(TokenKind::False)
    } else if s == "nil"@ {
        Some(TokenKind::Nil)
    } else if s == "self"@ {
        Some(TokenKind::SelfKw)
    } else if s == "super"@ {
        Some(TokenKind::SuperKw)
    } else if s == "def"@ {
        Some(TokenKind::Def)
    } else if s == "defp"@ {
        Some(TokenKind::Defp)
    } else if s == "class"@ {
        Some(TokenKind::Class)
    } else if s == "module"@ {
        Some(TokenKind::Module)
    } else if s == "interface"@ {
        Some(TokenKind::Interface)
    } else if s == "abstract"@ {
        Some(TokenKind::Abstract)
    } else if s == "attr"@ {
        Some(TokenKind::Attr)
    } else if s == "include"@ {
        Some(TokenKind::Include)
    } else if s == "if"@ {
        Some(TokenKind::If)
    } else if s == "elsif"@ {
        Some(TokenKind::Elsif)
    } else if s == "else"@ {
        Some(TokenKind::Else)
    } else if s == "while"@ {
        Some(TokenKind::While)
    } else if s == "return"@ {
        Some(TokenKind::Return)
    } else if s == "break"@ {
        Some(TokenKind::Break)
    } else if s == "next"@ {
        Some(TokenKind::Next)
    } else if s == "raise"@ {
        Some(TokenKind::Raise)
    } else if s == "begin"@ {
        Some(TokenKind::Begin)
    } else if s == "rescue"@ {
        Some(TokenKind::Rescue)
    } else if s == "end"@ {
        Some(TokenKind::End)
    } else if s == "print"@ {
        Some(TokenKind::Print)
    } else if s == "type"@ {
        Some(TokenKind::Type)
    } else if s == "import"@ {
        Some(TokenKind::Import)
    } else if s == "yield"@ {
        Some(TokenKind::Yield)
    } else if s == "match"@ {
        Some(TokenKind::Match)
    } else if s == "_"@ {
        Some(TokenKind::Underscore)
    } else {
        None
    }
}

/// The keyword spelled by `s`, if it is one.
fn keyword(s: &str) -> (r: Option<TokenKind>)
    ensures
        r == keyword_kind(s@),
        r matches Some(k) ==> !(k is StringInterp) && !(k is Eof) && !(k is Number),
{
    let cs = str_to_chars(s);
    if eq_lit(&cs, "true") {
        Some(TokenKind::True)
    } else if eq_lit(&cs, "false") {
        Some(TokenKind::False)
    } else if eq_lit(&cs, "nil") {
        Some(TokenKind::Nil)
    } else if eq_lit(&cs, "self") {
        Some(TokenKind::SelfKw)
    } else if eq_lit(&cs, "super") {
        Some(TokenKind::SuperKw)
    } else if eq_lit(&cs, "def") {
        Some(TokenKind::Def)
    } else if eq_lit(&cs, "defp") {
        Some(TokenKind::Defp)
    } else if eq_lit(&cs, "class") {
        Some(TokenKind::Class)
    } else if eq_lit(&cs, "module") {
        Some(TokenKind::Module)
    } else if eq_lit(&cs, "interface") {
        Some(TokenKind::Interface)
    } else if eq_lit(&cs, "abstract") {
        Some(TokenKind::Abstract)
    } else if eq_lit(&cs, "attr") {
        Some(TokenKind::Attr)
    } else if eq_lit(&cs, "include") {
        Some(TokenKind::Include)
    } else if eq_lit(&cs, "if") {
        Some(TokenKind::If)
    } else if eq_lit(&cs, "elsif") {
        Some(TokenKind::Elsif)
    } else if eq_lit(&cs, "else") {
        Some(TokenKind::Else)
    } else if eq_lit(&cs, "while") {
        Some(TokenKind::While)
    } else if eq_lit(&cs, "return") {
        Some(TokenKind::Return)
    } else if eq_lit(&cs, "break") {
        Some(TokenKind::Break)
    } else if eq_lit(&cs, "next") {
        Some(TokenKind::Next)
    } else if eq_lit(&cs, "raise") {
        Some(TokenKind::Raise)
    } else if eq_lit(&cs, "begin") {
        Some(TokenKind::Begin)
    } else if eq_lit(&cs, "rescue") {
        Some(TokenKind::Rescue)
    } else if eq_lit(&cs, "end") {
        Some(TokenKind::End)
    } else if eq_lit(&cs, "print") {
        Some(TokenKind::Print)
    } else if eq_lit(&cs, "type") {
        Some(TokenKind::Type)
    } else if eq_lit(&cs, "import") {
        Some(TokenKind::Import)
    } else if eq_lit(&cs, "yield") {
        Some(TokenKind::Yield)
    } else if eq_lit(&cs, "match") {
        Some(TokenKind::Match)
    } else if eq_lit(&cs, "_") {
        Some(TokenKind::Underscore)
    } else {
        None
    }
}

/// Whether the characters `cs` spell `lit`.
fn eq_lit(cs: &Vec<char>, lit: &str) -> (r: bool)
    ensures
        r == (cs@ == lit@),
{
    let l = str_to_chars(lit);
    if cs.len() != l.len() {
        return false;
    }
    let mut i: usize = 0;
    while i < cs.len()
        invariant
            i <= cs@.len(),
            cs@.len() == l@.len(),
            l@ == lit@,
            forall|k: int| 0 <= k < i ==> cs@[k] == l@[k],
        decreases cs@.len() - i,
    {
        if cs[i] != l[i] {
            return false;
        }
        i += 1;
    }
    assert(cs@ =~= l@);
    true
}

proof fn lemma_push_bound(ts: Seq<Token>, t: Token)
    ensures
        tokens_bound(ts.push(t)) == if tokens_bound(ts) > token_bound(t) {
            tokens_bound(ts)
        } else {
            token_bound(t)
        },
{
    assert(ts.push(t).drop_last() =~= ts);
}

proof fn lemma_parts_push_bound(ps: Seq<(String, bool)>, p: (String, bool))
    ensures
        parts_bound(ps.push(p)) == if parts_bound(ps) > p.0@.len() + 1 {
            parts_bound(ps)
        } else {
            p.0@.len() + 1
        },
{
    assert(ps.push(p).drop_last() =~= ps);
}

impl Lexer {
    /// The number of characters of the source.
    pub closed spec fn source_len(&self) -> nat {
        self.chars@.len()
    }

    /// The characters of the source.
    pub closed spec fn source(&self) -> Seq<char> {
        self.chars@
    }

    pub fn new(source: &str) -> (l: Lexer)
        ensures
            l.source_len() == source@.len(),
            l.source() == source@,
    {
        Lexer { chars: str_to_chars(source) }
    }

    fn at(&self, i: usize) -> (c: Option<char>)
        ensures
            i < self.chars@.len() ==> c == Some(self.chars@[i as int]),
            i >= self.chars@.len() ==> c is None,
    {
        if i < self.chars.len() {
            Some(self.chars[i])
        } else {
            None
        }
    }

    fn is_at(&self, i: usize, c: char) -> (r: bool)
        ensures
            r == (i < self.chars@.len() && self.chars@[i as int] == c),
    {
        i < self.chars.len() && self.chars[i] == c
    }

    /// Scan the whole source.  The result ends with `Eof`, and every source
    /// text carried by an interpolated string is shorter than the source.
    pub fn scan_tokens(&mut self) -> (ts: Vec<Token>)
        ensures
            well_terminated(ts@),
            forall|k: int| 0 <= k < ts@.len() ==> (#[trigger] ts@[k].kind matches TokenKind::Number(
                v,
            ) ==> v >= 0),
            tokens_bound(ts@) <= old(self).source_len(),
            final(self).source_len() == old(self).source_len(),
            old(self).source().len() > 0 && all_decimal(old(self).source()) && decimal_value(old(self).source()) <= i64::MAX
                ==> ts@.len() == 2 && ts@[0].kind == TokenKind::Number(decimal_value(old(self).source()) as i64),
            lone_name(old(self).source()) ==> ts@.len() == 2 && name_token_ok(ts@[0].kind, old(self).source()),
            arith_lex(old(self).source(), 0, None) matches Some(ks) ==> token_kinds(ts@) == ks.push(TokenKind::Eof),
    {
        let n = self.chars.len();
        let mut tokens: Vec<Token> = Vec::new();
        let mut i: usize = 0;
        let mut line: usize = 1;
        let mut col: usize = 1;
        while i < n
            invariant
                n == self.chars@.len(),
                n == old(self).chars@.len(),
                self.chars@ == old(self).chars@,
                i <= n,
                tokens_bound(tokens@) <= n,
                all_decimal(self.chars@) && decimal_value(self.chars@) <= i64::MAX ==> (i == 0 && tokens@.len() == 0) || (i
                    == n && tokens@.len() == 1 && tokens@[0].kind == TokenKind::Number(decimal_value(self.chars@) as i64)),
                lone_name(self.chars@) ==> (i == 0 && tokens@.len() == 0) || (i == n && tokens@.len() == 1 && name_token_ok(
                    tokens@[0].kind,
                    self.chars@,
                )),
                arith_lex(self.chars@, 0, None) is Some ==> arith_lex(self.chars@, i as int, None) is Some && token_kinds(tokens@) + arith_lex(self.chars@, i as int, None)->Some_0
                    == arith_lex(self.chars@, 0, None)->Some_0,
                forall|k: int| 0 <= k < tokens@.len() ==> !(#[trigger] tokens@[k].kind is Eof),
                forall|k: int| 0 <= k < tokens@.len() ==> (#[trigger] tokens@[k].kind matches TokenKind::Number(
                    v,
                ) ==> v >= 0),
            decreases n - i,
        {
            let c = self.chars[i];
            let start_col = col;
            let start_line = line;
            if c == '\n' {
                self.push_token(&mut tokens, TokenKind::Newline, start_line, start_col);
                i += 1;
                line = if line < usize::MAX { line + 1 } else { line };
                col = 1;
            } else if c == ' ' || c == '\t' || c == '\r' {
                proof {
                    if arith_lex(self.chars@, 0, None) is Some {
                        let r = arith_lex(self.chars@, i + 1, None)->Some_0;
                        assert(flush_number(None) + r =~= r);
                    }
                }
                i += 1;
                col = if col < usize::MAX { col + 1 } else { col };
            } else if c == '#' {
                let start = i;
                i += 1;
                while i < n && self.chars[i] != '\n'
                    invariant
                        start < i <= n,
                        n == self.chars@.len(),
                    decreases n - i,
                {
                    i += 1;
                }
            } else if digit(c) {
                let start = i;
                let mut value: i64 = 0;
                let mut overflow = false;
                while i < n && digit(self.chars[i])
                    invariant
                        start <= i <= n,
                        n == self.chars@.len(),
                        i == start ==> (i < n && is_digit(self.chars@[i as int])),
                        value >= 0,
                        all_decimal(self.chars@) && decimal_value(self.chars@) <= i64::MAX && start == 0 ==> !overflow
                            && value == decimal_value(self.chars@.take(i as int)),
                        arith_lex(self.chars@, 0, None) is Some ==> arith_lex(self.chars@, start as int, None) is Some && !overflow && value == decimal_value(
                            self.chars@.subrange(start as int, i as int),
                        ) && (i > start ==> arith_lex(self.chars@, start as int, None) == arith_lex(self.chars@, i as int, Some(value as int))),
                    decreases n - i,
                {
                    proof {
                        if arith_lex(self.chars@, 0, None) is Some {
                            assert(self.chars@.subrange(start as int, i + 1).drop_last() =~= self.chars@.subrange(start as int, i as int));
                            assert(self.chars@.subrange(start as int, i + 1).last() == self.chars@[i as int]);
                        }
                    }
                    proof {
                        if all_decimal(self.chars@) && decimal_value(self.chars@) <= i64::MAX && start == 0 {
                            lemma_decimal_prefix(self.chars@, i + 1);
                            assert(self.chars@.take(i + 1).drop_last() =~= self.chars@.take(i as int));
                            assert(self.chars@.take(i + 1).last() == self.chars@[i as int]);
                        }
                    }
                    let d = digit_value(self.chars[i]);
                    if !overflow {
                        match value.checked_mul(10) {
                            Some(v) => match v.checked_add(d) {
                                Some(w) => value = w,
                                None => overflow = true,
                            },
                            None => overflow = true,
                        }
                    }
                    i += 1;
                }
                proof {
                    if all_decimal(self.chars@) && decimal_value(self.chars@) <= i64::MAX && start == 0 {
                        assert(i == n);
                        assert(self.chars@.take(n as int) =~= self.chars@);
                    }
                    if arith_lex(self.chars@, 0, None) is Some {
                        lemma_flush(self.chars@, i as int, value as int);
                    }
                }
                let mut is_float = false;
                if self.is_at(i, '.') {
                    match self.at(i + 1) {
                        Some(d) => {
                            if digit(d) {
                                is_float = true;
                            }
                        },
                        None => {},
                    }
                }
                if is_float {
                    i += 1;
                    while i < n && digit(self.chars[i])
                        invariant
                            start <= i <= n,
                            n == self.chars@.len(),
                        decreases n - i,
                    {
                        i += 1;
                    }
                    let text = chars_range_to_string(&self.chars, start, i);
                    self.push_token(&mut tokens, TokenKind::Float(text), start_line, start_col);
                } else if overflow {
                    let text = chars_range_to_string(&self.chars, start, i);
                    self.push_token(&mut tokens, TokenKind::Error(text), start_line, start_col);
                } else {
                    let ghost k0 = tokens@;
                    self.push_token(&mut tokens, TokenKind::Number(value), start_line, start_col);
                    proof {
                        if arith_lex(self.chars@, 0, None) is Some {
                            assert(token_kinds(tokens@) =~= token_kinds(k0).push(TokenKind::Number(value)));
                            let r = arith_lex(self.chars@, i as int, None)->Some_0;
                            assert(token_kinds(k0) + (seq![TokenKind::Number(value)] + r) =~= token_kinds(k0).push(
                                TokenKind::Number(value),
                            ) + r);
                        }
                    }
                }
                col = advance_col(col, i - start);
            } else if name_start(c) {
                let start = i;
                i += 1;
                while i < n && name_char(self.chars[i])
                    invariant
                        start < i <= n,
                        n == self.chars@.len(),
                        lone_name(self.chars@) && start == 0 ==> forall|k: int| 0 <= k < i ==> k == 0 || is_name_char(
                            #[trigger] self.chars@[k],
                        ),
                    decreases n - i,
                {
                    i += 1;
                }
                // a trailing `?` or `!` belongs to the name unless it starts `!=` / `?=`
                if i < n && (self.chars[i] == '?' || self.chars[i] == '!') && !self.is_at(
                    i + 1,
                    '=',
                ) {
                    i += 1;
                }
                proof {
                    if lone_name(self.chars@) && start == 0 {
                        assert(i == n);
                        assert(self.chars@.subrange(0, n as int) =~= self.chars@);
                    }
                }
                let text = chars_range_to_string(&self.chars, start, i);
                let kind = match keyword(text.as_str()) {
                    Some(k) => k,
                    None => TokenKind::Identifier(text),
                };
                self.push_token(&mut tokens, kind, start_line, start_col);
                col = advance_col(col, i - start);
            } else if c == '"' {
                let start = i;
                let (kind, end, newlines, last_col) = self.scan_string(i);
                i = end;
                if newlines > 0 {
                    line = if line <= usize::MAX - newlines { line + newlines } else { usize::MAX };
                    col = last_col;
                } else {
                    col = advance_col(col, i - start);
                }
                self.push_token(&mut tokens, kind, start_line, start_col);
            } else {
                let (kind, len) = self.scan_operator(i);
                let ghost i0 = i as int;
                i += len;
                col = advance_col(col, len);
                let ghost k0 = tokens@;
                self.push_token(&mut tokens, kind, start_line, start_col);
                proof {
                    if arith_lex(self.chars@, 0, None) is Some {
                        assert(token_kinds(tokens@) =~= token_kinds(k0).push(kind));
                        let r = arith_lex(self.chars@, i0 + 1, None)->Some_0;
                        assert(token_kinds(k0) + (flush_number(None) + seq![kind] + r) =~= token_kinds(k0).push(kind) + r);
                    }
                }
            }
        }
        let ghost before = tokens@;
        proof {
            if arith_lex(self.chars@, 0, None) is Some {
                assert(token_kinds(before) + Seq::<TokenKind>::empty() =~= token_kinds(before));
            }
        }
        tokens.push(Token { kind: TokenKind::Eof, line, column: col });
        proof {
            assert(token_kinds(tokens@) =~= token_kinds(before).push(TokenKind::Eof));
        }
        proof {
            lemma_push_bound(before, tokens@.last());
            assert(tokens@.drop_last() =~= before);
        }
        tokens
    }

    fn push_token(&self, tokens: &mut Vec<Token>, kind: TokenKind, line: usize, column: usize)
        requires
            tokens_bound(old(tokens)@) <= self.chars@.len(),
            token_bound(Token { kind, line, column }) <= self.chars@.len(),
            !(kind is Eof),
            kind matches TokenKind::Number(v) ==> v >= 0,
            forall|k: int| 0 <= k < old(tokens)@.len() ==> !(#[trigger] old(tokens)@[k].kind is Eof),
            forall|k: int| 0 <= k < old(tokens)@.len() ==> (#[trigger] old(tokens)@[k].kind matches TokenKind::Number(
                v,
            ) ==> v >= 0),
        ensures
            final(tokens)@ == old(tokens)@.push(Token { kind, line, column }),
            tokens_bound(final(tokens)@) <= self.chars@.len(),
            forall|k: int| 0 <= k < final(tokens)@.len() ==> !(#[trigger] final(tokens)@[k].kind is Eof),
            forall|k: int| 0 <= k < final(tokens)@.len() ==> (#[trigger] final(tokens)@[k].kind matches TokenKind::Number(
                v,
            ) ==> v >= 0),
    {
        let ghost before = tokens@;
        let t = Token { kind, line, column };
        proof {
            lemma_push_bound(before, t);
        }
        tokens.push(t);
    }

    /// Scan one operator or punctuation token starting at `i`; answers the
    /// kind and the number of characters it spans.
    fn scan_operator(&self, i: usize) -> (r: (TokenKind, usize))
        requires
            i < self.chars@.len(),
        ensures
            1 <= r.1,
            i + r.1 <= self.chars@.len(),
            !(r.0 is Eof),
            !(r.0 is Number),
            !(r.0 is StringInterp),
            arith_char_kind(self.chars@, i as int) matches Some(k) ==> r == (k, 1usize),
    {
        let c = self.chars[i];
        let next = if i < self.chars.len() - 1 {
            Some(self.chars[i + 1])
        } else {
            None
        };
        if c == '+' {
            (TokenKind::Plus, 1)
        } else if c == '-' {
            if next == Some('>') {
                (TokenKind::Arrow, 2)
            } else {
                (TokenKind::Minus, 1)
            }
        } else if c == '*' {
            (TokenKind::Star, 1)
        } else if c == '/' {
            (TokenKind::Slash, 1)
        } else if c == '%' {
            (TokenKind::Percent, 1)
        } else if c == '!' {
            if next == Some('=') {
                (TokenKind::BangEq, 2)
            } else {
                (TokenKind::Bang, 1)
            }
        } else if c == '~' {
            (TokenKind::Tilde, 1)
        } else if c == '^' {
            (TokenKind::Caret, 1)
        } else if c == '=' {
            if next == Some('=') {
                (TokenKind::EqEq, 2)
            } else if next == Some('>') {
                (TokenKind::FatArrow, 2)
            } else {
                (TokenKind::Eq, 1)
            }
        } else if c == '<' {
            if next == Some('=') {
                (TokenKind::LessEq, 2)
            } else if next == Some('<') {
                (TokenKind::LessLess, 2)
            } else {
                (TokenKind::Less, 1)
            }
        } else if c == '>' {
            if next == Some('=') {
                (TokenKind::GreaterEq, 2)
            } else if next == Some('>') {
                (TokenKind::GreaterGreater, 2)
            } else {
                (TokenKind::Greater, 1)
            }
        } else if c == '&' {
            if next == Some('&') {
                (TokenKind::AmpAmp, 2)
            } else if next == Some('.') {
                (TokenKind::AmpDot, 2)
            } else {
                (TokenKind::Amp, 1)
            }
        } else if c == '|' {
            if next == Some('|') {
                (TokenKind::PipePipe, 2)
            } else {
                (TokenKind::Pipe, 1)
            }
        } else if c == '.' {
            if next == Some('.') {
                (TokenKind::DotDot, 2)
            } else {
                (TokenKind::Dot, 1)
            }
        } else if c == ',' {
            (TokenKind::Comma, 1)
        } else if c == ':' {
            (TokenKind::Colon, 1)
        } else if c == ';' {
            (TokenKind::Semicolon, 1)
        } else if c == '?' {
            (TokenKind::Question, 1)
        } else if c == '(' {
            (TokenKind::LeftParen, 1)
        } else if c == ')' {
            (TokenKind::RightParen, 1)
        } else if c == '{' {
            (TokenKind::LeftBrace, 1)
        } else if c == '}' {
            (TokenKind::RightBrace, 1)
        } else if c == '[' {
            (TokenKind::LeftBracket, 1)
        } else if c == ']' {
            (TokenKind::RightBracket, 1)
        } else {
            let text = chars_range_to_string(&self.chars, i, i + 1);
            (TokenKind::Error(text), 1)
        }
    }

    /// Scan a string literal whose opening quote is at `q`.  Answers the
    /// token kind, the index just past the literal, and the number of
    /// newlines in it with the column after its last one.
    fn scan_string(&self, q: usize) -> (r: (TokenKind, usize, usize, usize))
        requires
            q < self.chars@.len(),
            self.chars@[q as int] == '"',
        ensures
            q < r.1 <= self.chars@.len(),
            token_bound(Token { kind: r.0, line: 0, column: 0 }) <= self.chars@.len(),
            !(r.0 is Eof),
            !(r.0 is Number),
    {
        let n = self.chars.len();
        let mut parts: Vec<(String, bool)> = Vec::new();
        let mut lit = String::new();
        let mut has_expr = false;
        let mut i = q + 1;
        let mut seg_start = i;
        let mut newlines: usize = 0;
        let mut last_col: usize = 1;
        let mut closed = false;
        while i < n && !closed
            invariant
                n == self.chars@.len(),
                q < seg_start <= i <= n,
                lit@.len() <= i - seg_start,
                parts_bound(parts@) <= n,
                closed ==> i <= n,
            decreases n - i, if closed { 0int } else { 1int },
        {
            let c = self.chars[i];
            if c == '"' {
                i += 1;
                closed = true;
            } else if c == '\\' && i + 1 < n {
                let e = self.chars[i + 1];
                let decoded = if e == 'n' {
                    '\n'
                } else if e == 't' {
                    '\t'
                } else if e == 'r' {
                    '\r'
                } else if e == '0' {
                    '\0'
                } else {
                    e
                };
                string_push(&mut lit, decoded);
                i += 2;
            } else if c == '#' && self.is_at(i + 1, '{') {
                // interpolation: find the matching close brace
                let mut depth: usize = 1;
                let a = i + 2;
                let mut j = a;
                while j < n && depth > 0
                    invariant
                        n == self.chars@.len(),
                        a <= j <= n,
                        depth == 0 ==> j < n,
                    decreases n - j, depth,
                {
                    if self.chars[j] == '{' {
                        depth = if depth < usize::MAX { depth + 1 } else { depth };
                        j += 1;
                    } else if self.chars[j] == '}' {
                        depth -= 1;
                        if depth > 0 {
                            j += 1;
                        }
                    } else {
                        j += 1;
                    }
                }
                if depth > 0 {
                    // unterminated interpolation: the rest is literal text
                    let ghost pb = parts@;
                    let mut k = i;
                    while k < n
                        invariant
                            n == self.chars@.len(),
                            seg_start <= i <= k <= n,
                            lit@.len() <= k - seg_start,
                        decreases n - k,
                    {
                        string_push(&mut lit, self.chars[k]);
                        k += 1;
                    }
                    i = n;
                } else {
                    let ghost pb = parts@;
                    let mut prev = String::new();
                    std::mem::swap(&mut prev, &mut lit);
                    let lp = (prev, false);
                    proof {
                        lemma_parts_push_bound(pb, lp);
                    }
                    parts.push(lp);
                    let content = chars_range_to_string(&self.chars, a, j);
                    let ep = (content, true);
                    proof {
                        lemma_parts_push_bound(parts@, ep);
                    }
                    parts.push(ep);
                    has_expr = true;
                    i = j + 1;
                    seg_start = i;
                }
            } else {
                if c == '\n' {
                    newlines = if newlines < usize::MAX { newlines + 1 } else { newlines };
                    last_col = 1;
                } else {
                    last_col = if last_col < usize::MAX { last_col + 1 } else { last_col };
                }
                string_push(&mut lit, c);
                i += 1;
            }
        }
        if !closed {
            let text = chars_range_to_string(&self.chars, q, i);
            return (TokenKind::Error(text), i, newlines, last_col);
        }
        if has_expr {
            let ghost pb = parts@;
            let lp = (lit, false);
            proof {
                lemma_parts_push_bound(pb, lp);
            }
            parts.push(lp);
            (TokenKind::StringInterp(parts), i, newlines, if newlines > 0 {
                advance_col(last_col, 1)
            } else {
                last_col
            })
        } else {
            (TokenKind::StringLit(lit), i, newlines, if newlines > 0 {
                advance_col(last_col, 1)
            } else {
                last_col
            })
        }
    }
}

fn digit_value(c: char) -> (d: i64)
    ensures
        0 <= d <= 9,
        d == if '0' <= c <= '9' {
            c as int - '0' as int
        } else {
            0
        },
{
    if c == '1' {
        1
    } else if c == '2' {
        2
    } else if c == '3' {
        3
    } else if c == '4' {
        4
    } else if c == '5' {
        5
    } else if c == '6' {
        6
    } else if c == '7' {
        7
    } else if c == '8' {
        8
    } else if c == '9' {
        9
    } else {
        0
    }
}

fn advance_col(col: usize, by: usize) -> (r: usize) {
    if col <= usize::MAX - by {
        col + by
    } else {
        usize::MAX
    }
}

} // verus!
