//! The recursive-descent parser: tokens to syntax trees.
use vstd::prelude::*;

use crate::ast::{
    Block, CallArg, Expr, FieldDef, MatchArm, MethodDef, ParamDef, Pattern, RescueClause,
    StringPart, TypeExpr,
};
use crate::error::SapphireError;
use crate::lexer::{is_digit, Lexer};
use crate::text::{i64_to_string, str_to_chars, string_push};
use crate::token::{
    debug_str, kind_tag, lemma_parts_bound, lemma_tokens_bound, token_bound, tokens_bound, Token,
    TokenKind,
};
use crate::typechecker::{join_names, lemma_elems_decrease, lemma_tys, ty, ty_name, tys};
use crate::value::Value;

verus! {

/// `char::is_uppercase`: whether `c` has the Unicode `Uppercase` property.
pub uninterp spec fn is_uppercase_char(c: char) -> bool;

/// `char::is_uppercase`.
#[verifier::external_body]
pub(crate) fn char_is_uppercase(c: char) -> (r: bool)
    ensures
        r == is_uppercase_char(c),
{
    c.is_uppercase()
}

/// Each part of an interpolated string's parse corresponds to its raw part:
/// literal text stays as it is, an embedded expression becomes an
/// expression part.
pub open spec fn interp_parts_match(parts: Seq<StringPart>, raw: Seq<(String, bool)>) -> bool {
    &&& parts.len() == raw.len()
    &&& forall|i: int| 0 <= i < raw.len() ==> if (#[trigger] raw[i]).1 {
        parts[i] is Expr
    } else {
        parts[i] matches StringPart::Lit(c) && c@ == raw[i].0@
    }
}

/// Where a statement list stops: at `Eof`, or at a token of the variant of
/// either stop token (never at a newline or `;`, which are skipped).
pub open spec fn stops_at(k: TokenKind, stop1: TokenKind, stop2: TokenKind) -> bool {
    &&& !terminator(k)
    &&& k is Eof || kind_tag(k) == kind_tag(stop1) || kind_tag(k) == kind_tag(stop2)
}

/// The literal value a token stands for, when it is a literal token.
pub open spec fn token_literal(k: TokenKind) -> Option<Value> {
    match k {
        TokenKind::Number(n) => Some(Value::Int(n)),
        TokenKind::Float(f) => Some(Value::Float(f)),
        TokenKind::StringLit(s) => Some(Value::Str(s)),
        TokenKind::True => Some(Value::Bool(true)),
        TokenKind::False => Some(Value::Bool(false)),
        TokenKind::Nil => Some(Value::Nil),
        _ => None,
    }
}

/// A token that `primary` turns into an expression by itself: a literal,
/// `self`, or an identifier.
pub open spec fn primary_direct(k: TokenKind) -> bool {
    token_literal(k) is Some || k is SelfKw || k is Identifier
}

/// A token after `break` or `next` that leaves it without a value: the end
/// of the statement, a trailing `if`, a closing brace or the end of input.
pub open spec fn bare_jump_end(k: TokenKind) -> bool {
    k is Newline || k is Semicolon || k is If || k is RightBrace || k is Eof
}

/// A literal token followed by the end of input, `)` or `,`: where an
/// expression made of that literal alone stops.
pub open spec fn lit_then_stop(ts: Seq<Token>, i: int) -> bool {
    0 <= i && i + 1 < ts.len() && token_literal(ts[i].kind) is Some && (ts[i + 1].kind is Eof || ts[i + 1].kind is RightParen
        || ts[i + 1].kind is Comma)
}

/// `*`, `/` and `%`.
pub open spec fn mul_tok(k: TokenKind) -> bool {
    k is Star || k is Slash || k is Percent
}

/// `+` and `-`.
pub open spec fn add_tok(k: TokenKind) -> bool {
    k is Plus || k is Minus
}

/// Where an arithmetic expression stops: end of input, `)`, `,`, `]`, `{` or `}`.
pub open spec fn stop_tok(k: TokenKind) -> bool {
    k is Eof || k is RightParen || k is Comma || k is RightBracket || k is LeftBrace || k is RightBrace
}

/// A literal token at `i`.
pub open spec fn lit_tok(ts: Seq<Token>, i: int) -> bool {
    0 <= i < ts.len() && token_literal(ts[i].kind) is Some
}

/// The expression of the literal token at `i`.
pub open spec fn lit_expr(ts: Seq<Token>, i: int) -> Expr {
    Expr::Literal(token_literal(ts[i].kind)->Some_0)
}

/// A literal token followed by an arithmetic operator or a stop token.
pub open spec fn lit_then_follow(ts: Seq<Token>, i: int) -> bool {
    lit_tok(ts, i) && i + 1 < ts.len() && (mul_tok(ts[i + 1].kind) || add_tok(ts[i + 1].kind) || stop_tok(ts[i + 1].kind)
        || rel_tok(ts[i + 1].kind) || eql_tok(ts[i + 1].kind))
}

/// `==` and `!=`.
pub open spec fn eql_tok(k: TokenKind) -> bool {
    k is EqEq || k is BangEq
}

/// A literal token followed by `==`, `!=` or a stop token.
pub open spec fn lit_then_eql(ts: Seq<Token>, i: int) -> bool {
    lit_tok(ts, i) && i + 1 < ts.len() && (eql_tok(ts[i + 1].kind) || stop_tok(ts[i + 1].kind))
}

/// From `c` on, the tokens continue a chain of equality tests of literals:
/// operator and literal pairs, then a stop token.
pub open spec fn eql_ok(ts: Seq<Token>, c: int) -> bool
    decreases ts.len() - c,
{
    if 0 <= c < ts.len() {
        if eql_tok(ts[c].kind) {
            lit_then_eql(ts, c + 1) && eql_ok(ts, c + 2)
        } else {
            stop_tok(ts[c].kind)
        }
    } else {
        false
    }
}

/// The tree of such a chain after `left`, from `c` on.
pub open spec fn eql_from(ts: Seq<Token>, left: Expr, c: int) -> Expr
    decreases ts.len() - c,
{
    if 0 <= c && c + 1 < ts.len() && eql_tok(ts[c].kind) {
        eql_from(ts, Expr::Binary { left: Box::new(left), op: ts[c], right: Box::new(lit_expr(ts, c + 1)) }, c + 2)
    } else {
        left
    }
}

/// Where such a chain stops.
pub open spec fn eql_end(ts: Seq<Token>, c: int) -> int
    decreases ts.len() - c,
{
    if 0 <= c && c + 1 < ts.len() && eql_tok(ts[c].kind) {
        eql_end(ts, c + 2)
    } else {
        c
    }
}

/// An equality test of literals (one or more operators) starts at `i`.
pub open spec fn eql_at(ts: Seq<Token>, i: int) -> bool {
    lit_tok(ts, i) && i + 1 < ts.len() && eql_tok(ts[i + 1].kind) && eql_ok(ts, i + 1)
}

/// `<`, `<=`, `>` and `>=`.
pub open spec fn rel_tok(k: TokenKind) -> bool {
    k is Less || k is LessEq || k is Greater || k is GreaterEq
}

/// A literal token followed by a comparison or equality operator or a stop
/// token.
pub open spec fn lit_then_rel(ts: Seq<Token>, i: int) -> bool {
    lit_tok(ts, i) && i + 1 < ts.len() && (rel_tok(ts[i + 1].kind) || stop_tok(ts[i + 1].kind) || eql_tok(ts[i + 1].kind))
}

/// From `c` on, the tokens continue a chain of comparisons of literals:
/// operator and literal pairs, then a stop token.
pub open spec fn rel_ok(ts: Seq<Token>, c: int) -> bool
    decreases ts.len() - c,
{
    if 0 <= c < ts.len() {
        if rel_tok(ts[c].kind) {
            lit_then_rel(ts, c + 1) && rel_ok(ts, c + 2)
        } else {
            stop_tok(ts[c].kind)
        }
    } else {
        false
    }
}

/// The tree of such a chain after `left`, from `c` on.
pub open spec fn rel_from(ts: Seq<Token>, left: Expr, c: int) -> Expr
    decreases ts.len() - c,
{
    if 0 <= c && c + 1 < ts.len() && rel_tok(ts[c].kind) {
        rel_from(ts, Expr::Binary { left: Box::new(left), op: ts[c], right: Box::new(lit_expr(ts, c + 1)) }, c + 2)
    } else {
        left
    }
}

/// Where such a chain stops.
pub open spec fn rel_end(ts: Seq<Token>, c: int) -> int
    decreases ts.len() - c,
{
    if 0 <= c && c + 1 < ts.len() && rel_tok(ts[c].kind) {
        rel_end(ts, c + 2)
    } else {
        c
    }
}

/// A comparison of literals (one or more operators) starts at `i`.
pub open spec fn rel_at(ts: Seq<Token>, i: int) -> bool {
    lit_tok(ts, i) && i + 1 < ts.len() && rel_tok(ts[i + 1].kind) && rel_ok(ts, i + 1)
}

/// From `c` on, the tokens continue an arithmetic expression of literals:
/// operator and literal pairs, then a stop token.
pub open spec fn run_ok(ts: Seq<Token>, c: int) -> bool
    decreases ts.len() - c,
{
    if 0 <= c < ts.len() {
        if mul_tok(ts[c].kind) || add_tok(ts[c].kind) {
            c + 2 < ts.len() && lit_tok(ts, c + 1) && run_ok(ts, c + 2)
        } else {
            stop_tok(ts[c].kind)
        }
    } else {
        false
    }
}

/// Where such a run stops.
pub open spec fn run_end(ts: Seq<Token>, c: int) -> int
    decreases ts.len() - c,
{
    if 0 <= c && c + 2 < ts.len() && (mul_tok(ts[c].kind) || add_tok(ts[c].kind)) {
        run_end(ts, c + 2)
    } else {
        c
    }
}

/// Where the multiplicative part from `c` stops.
pub open spec fn mul_end(ts: Seq<Token>, c: int) -> int
    decreases ts.len() - c,
{
    if 0 <= c && c + 2 < ts.len() && mul_tok(ts[c].kind) {
        mul_end(ts, c + 2)
    } else {
        c
    }
}

/// The product `p` extended, left to right, by the multiplicative operator
/// and literal pairs from `c`.
pub open spec fn product_from(ts: Seq<Token>, p: Expr, c: int) -> Expr
    decreases ts.len() - c,
{
    if 0 <= c && c + 2 < ts.len() && mul_tok(ts[c].kind) {
        product_from(ts, Expr::Binary { left: Box::new(p), op: ts[c], right: Box::new(lit_expr(ts, c + 1)) }, c + 2)
    } else {
        p
    }
}

/// A pending sum and its operator, combined with the product `p`.
pub open spec fn combine(sa: Option<(Expr, Token)>, p: Expr) -> Expr {
    match sa {
        Some((s, op)) => Expr::Binary { left: Box::new(s), op, right: Box::new(p) },
        None => p,
    }
}

/// The tree of an arithmetic run from `c`, with the pending sum `sa` and the
/// current product `p`: `*`, `/` and `%` bind tighter than `+` and `-`, and
/// both associate to the left.
pub open spec fn sum_from(ts: Seq<Token>, sa: Option<(Expr, Token)>, p: Expr, c: int) -> Expr
    decreases ts.len() - c,
{
    if 0 <= c && c + 2 < ts.len() && mul_tok(ts[c].kind) {
        sum_from(ts, sa, Expr::Binary { left: Box::new(p), op: ts[c], right: Box::new(lit_expr(ts, c + 1)) }, c + 2)
    } else if 0 <= c && c + 2 < ts.len() && add_tok(ts[c].kind) {
        sum_from(ts, Some((combine(sa, p), ts[c])), lit_expr(ts, c + 1), c + 2)
    } else {
        combine(sa, p)
    }
}

/// The tree of the arithmetic expression of literals starting at `i`.
pub open spec fn arith_tree(ts: Seq<Token>, i: int) -> Expr {
    sum_from(ts, None, lit_expr(ts, i), i + 1)
}

/// A block `{ e }` whose one statement is an arithmetic expression of
/// literals starts at `i`.
pub open spec fn arith_block_at(ts: Seq<Token>, i: int) -> bool {
    0 <= i && ts[i].kind is LeftBrace && arith_at(ts, i + 1) && run_end(ts, i + 2) < ts.len() && ts[run_end(
        ts,
        i + 2,
    )].kind is RightBrace
}

/// The position just past such a block.
pub open spec fn arith_block_end(ts: Seq<Token>, i: int) -> int {
    run_end(ts, i + 2) + 1
}

/// `if c { a } else { b }` with `c`, `a` and `b` arithmetic expressions of
/// literals starts at `i`.
pub open spec fn if_else_at(ts: Seq<Token>, i: int) -> bool {
    let t = run_end(ts, i + 2);
    let e = arith_block_end(ts, t);
    &&& 0 <= i && ts[i].kind is If && arith_at(ts, i + 1)
    &&& arith_block_at(ts, t)
    &&& e + 1 < ts.len() && ts[e].kind is Else
    &&& arith_block_at(ts, e + 1)
}

/// The tree of such an `if` at `i`: its condition, then its two one-statement
/// branches, in source order.
pub open spec fn if_else_tree(ts: Seq<Token>, i: int, x: Expr) -> bool {
    let t = run_end(ts, i + 2);
    let e = arith_block_end(ts, t);
    &&& x matches Expr::If { condition, then_branch, else_branch: Some(es) }
    &&& *x->If_condition == arith_tree(ts, i + 1)
    &&& x->If_then_branch@ == seq![arith_tree(ts, t + 1)]
    &&& x->If_else_branch->Some_0@ == seq![arith_tree(ts, e + 2)]
}

/// The position just past such an `if`.
pub open spec fn if_else_end(ts: Seq<Token>, i: int) -> int {
    arith_block_end(ts, arith_block_end(ts, run_end(ts, i + 2)) + 1)
}

/// An assignment of an arithmetic expression of literals to a name starts at `i`.
pub open spec fn assign_at(ts: Seq<Token>, i: int) -> bool {
    0 <= i && i + 1 < ts.len() && ts[i].kind is Identifier && ts[i + 1].kind is Eq && arith_at(ts, i + 2)
}

/// The tree of such an assignment.
pub open spec fn assign_tree(ts: Seq<Token>, i: int) -> Expr {
    Expr::Assign { name: ts[i].kind->Identifier_0, value: Box::new(arith_tree(ts, i + 2)) }
}

/// From `c` on, the tokens are the elements of a list literal, each an
/// arithmetic expression of literals, separated by `,` and closed by `]`.
pub open spec fn list_run(ts: Seq<Token>, c: int) -> bool
    decreases ts.len() - c,
{
    let e = run_end(ts, c + 1);
    arith_at(ts, c) && c <= e < ts.len() && (ts[e].kind is RightBracket || (ts[e].kind is Comma && list_run(ts, e + 1)))
}

/// The trees of those elements, in source order.
pub open spec fn list_items(ts: Seq<Token>, c: int) -> Seq<Expr>
    decreases ts.len() - c,
{
    let e = run_end(ts, c + 1);
    if c <= e < ts.len() && ts[e].kind is Comma {
        seq![arith_tree(ts, c)] + list_items(ts, e + 1)
    } else {
        seq![arith_tree(ts, c)]
    }
}

/// The position just past the closing `]`.
pub open spec fn list_close(ts: Seq<Token>, c: int) -> int
    decreases ts.len() - c,
{
    let e = run_end(ts, c + 1);
    if c <= e < ts.len() && ts[e].kind is Comma {
        list_close(ts, e + 1)
    } else {
        e + 1
    }
}

/// An arithmetic expression of literals starts at `i`.
pub open spec fn arith_at(ts: Seq<Token>, i: int) -> bool {
    lit_tok(ts, i) && run_ok(ts, i + 1)
}

/// Passing over the multiplicative part does not change the tree.
pub proof fn lemma_skip_product(ts: Seq<Token>, sa: Option<(Expr, Token)>, p: Expr, c: int)
    ensures
        sum_from(ts, sa, p, c) == sum_from(ts, sa, product_from(ts, p, c), mul_end(ts, c)),
    decreases ts.len() - c,
{
    if 0 <= c && c + 2 < ts.len() && mul_tok(ts[c].kind) {
        lemma_skip_product(
            ts,
            sa,
            Expr::Binary { left: Box::new(p), op: ts[c], right: Box::new(lit_expr(ts, c + 1)) },
            c + 2,
        );
    }
}

/// After the multiplicative part, the run goes on from where it stops.
pub proof fn lemma_mul_end(ts: Seq<Token>, c: int)
    requires
        run_ok(ts, c),
    ensures
        run_ok(ts, mul_end(ts, c)),
        !mul_tok(ts[mul_end(ts, c)].kind),
        run_end(ts, mul_end(ts, c)) == run_end(ts, c),
        c <= mul_end(ts, c),
    decreases ts.len() - c,
{
    if mul_tok(ts[c].kind) {
        lemma_mul_end(ts, c + 2);
    }
}

/// A pending sum meets the next product where no `*` follows.
pub proof fn lemma_fold_sum(ts: Seq<Token>, l: Expr, o: Token, r: Expr, c: int)
    requires
        0 <= c < ts.len(),
        !mul_tok(ts[c].kind),
    ensures
        sum_from(ts, Some((l, o)), r, c) == sum_from(ts, None, Expr::Binary { left: Box::new(l), op: o, right: Box::new(r) }, c),
{
}

/// A literal token followed by the end of input.
pub open spec fn lit_at_end(ts: Seq<Token>, i: int) -> bool {
    0 <= i && i + 1 < ts.len() && token_literal(ts[i].kind) is Some && ts[i + 1].kind is Eof
}

/// `{` directly followed by `}` at `i`.
pub open spec fn empty_braces_at(ts: Seq<Token>, i: int) -> bool {
    0 <= i && i + 1 < ts.len() && ts[i].kind is LeftBrace && ts[i + 1].kind is RightBrace
}

/// A class with nothing but its name, type parameters and superclass:
/// no includes, fields, methods, nested classes or constants.
pub open spec fn bare_class(e: Expr, n: String, sup: Option<Seq<char>>, is_module: bool, is_abstract: bool) -> bool {
    match e {
        Expr::Class {
            name,
            type_params,
            superclass,
            is_abstract: a,
            is_module: m,
            includes,
            fields,
            methods,
            nested,
            constants,
        } => {
            &&& name == n
            &&& type_params@.len() == 0
            &&& match sup {
                None => superclass is None,
                Some(sn) => superclass matches Some(b) && (*b matches Expr::Variable(v) && v@ == sn),
            }
            &&& a == is_abstract
            &&& m == is_module
            &&& includes@.len() == 0 && fields@.len() == 0 && methods@.len() == 0 && nested@.len() == 0
                && constants@.len() == 0
        },
        _ => false,
    }
}

/// A token that ends a statement without closing anything: a newline or `;`.
pub open spec fn terminator(k: TokenKind) -> bool {
    k is Newline || k is Semicolon
}

pub struct Parser {
    tokens: Vec<Token>,
    current: usize,
    allow_trailing_block: bool,
}

/// The parser's state after a parse step that consumed no token: same tokens,
/// same position.
pub open spec fn parse_error_at(e: SapphireError, t: Token) -> bool {
    e matches SapphireError::ParseError { line, column, .. } && line == t.line && column == t.column
}

/// No integer token holds `i64::MIN` (whose negation overflows).
pub open spec fn no_min_number(ts: Seq<Token>) -> bool {
    forall|i: int| 0 <= i < ts.len() ==> (#[trigger] ts[i].kind matches TokenKind::Number(n) ==> n
        > i64::MIN)
}

impl Parser {
    /// The token sequence is walkable: it is not empty and ends with `Eof`,
    /// and the position is inside it.
    pub closed spec fn wf(&self) -> bool {
        self.tokens@.len() > 0 && self.tokens@.last().kind is Eof && self.current
            < self.tokens@.len() && no_min_number(self.tokens@)
    }

    /// The tokens being parsed.
    pub closed spec fn toks(&self) -> Seq<Token> {
        self.tokens@
    }

    /// The index of the next token.
    pub closed spec fn pos(&self) -> int {
        self.current as int
    }

    closed spec fn rank(&self) -> nat {
        tokens_bound(self.tokens@)
    }

    closed spec fn remaining(&self) -> nat {
        if self.current <= self.tokens@.len() {
            (self.tokens@.len() - self.current) as nat
        } else {
            0
        }
    }

    /// The next token is `Eof`.
    pub closed spec fn at_eof(&self) -> bool {
        self.tokens@[self.current as int].kind is Eof
    }

    /// `self` is a later state of a parse that started from `start`.
    pub open spec fn follows(&self, start: &Parser) -> bool {
        self.wf() && self.toks() == start.toks() && start.pos() <= self.pos()
    }

    pub fn new(tokens: Vec<Token>) -> (p: Self)
        ensures
            p.toks() == tokens@,
            p.pos() == 0,
    {
        Self { tokens, current: 0, allow_trailing_block: true }
    }

    fn peek(&self) -> (t: &Token)
        requires
            self.wf(),
        ensures
            *t == self.tokens@[self.current as int],
    {
        &self.tokens[self.current]
    }

    fn is_at_end(&self) -> (r: bool)
        requires
            self.wf(),
        ensures
            r == (self.tokens@[self.current as int].kind is Eof),
    {
        match self.tokens[self.current].kind {
            TokenKind::Eof => true,
            _ => false,
        }
    }

    fn check(&self, kind: &TokenKind) -> (r: bool)
        requires
            self.wf(),
        ensures
            r == (!(self.tokens@[self.current as int].kind is Eof) && kind_tag(
                self.tokens@[self.current as int].kind,
            ) == kind_tag(*kind)),
    {
        !self.is_at_end() && self.tokens[self.current].kind.same_variant(kind)
    }

    /// Whether the token `k` positions ahead has the variant of `kind`.
    fn check_ahead(&self, k: usize, kind: &TokenKind) -> (r: bool)
        requires
            self.wf(),
        ensures
            r == (self.current + k < self.tokens@.len() && kind_tag(self.tokens@[self.current + k].kind)
                == kind_tag(*kind)),
    {
        if k < self.tokens.len() - self.current {
            self.tokens[self.current + k].kind.same_variant(kind)
        } else {
            false
        }
    }

    fn advance(&mut self)
        requires
            old(self).wf(),
        ensures
            final(self).follows(old(self)),
            final(self).allow_trailing_block == old(self).allow_trailing_block,
            !(old(self).tokens@[old(self).current as int].kind is Eof) ==> final(self).current
                == old(self).current + 1,
            (old(self).tokens@[old(self).current as int].kind is Eof) ==> final(self).current
                == old(self).current,
    {
        if !self.is_at_end() {
            assert(self.tokens@.last() == self.tokens@[self.tokens@.len() - 1]);
            assert(self.current < self.tokens.len() - 1);
            self.current += 1;
        }
    }

    /// Consume the current token and answer a copy of it.
    fn advance_token(&mut self) -> (t: Token)
        requires
            old(self).wf(),
            !(old(self).tokens@[old(self).current as int].kind is Eof),
        ensures
            final(self).follows(old(self)),
            final(self).current == old(self).current + 1,
            final(self).allow_trailing_block == old(self).allow_trailing_block,
            !(old(self).tokens@[old(self).current as int].kind is StringInterp) ==> t == old(self).tokens@[old(self).current as int],
    {
        let t = self.tokens[self.current].copy();
        assert(self.tokens@.last() == self.tokens@[self.tokens@.len() - 1]);
        assert(self.current < self.tokens.len() - 1);
        self.current += 1;
        t
    }

    fn skip_terminators(&mut self)
        requires
            old(self).wf(),
        ensures
            final(self).follows(old(self)),
            final(self).allow_trailing_block == old(self).allow_trailing_block,
            forall|m: int| old(self).current <= m < final(self).current ==> terminator(#[trigger] final(self).tokens@[m].kind),
            !terminator(final(self).tokens@[final(self).current as int].kind),
    {
        while self.check(&TokenKind::Newline) || self.check(&TokenKind::Semicolon)
            invariant
                self.follows(old(self)),
                self.allow_trailing_block == old(self).allow_trailing_block,
                forall|m: int| old(self).current <= m < self.current ==> terminator(#[trigger] self.tokens@[m].kind),
            decreases self.tokens@.len() - self.current,
        {
            self.advance();
        }
    }

    /// A parse error at the current token.
    fn error_here(&self, message: &str) -> (e: SapphireError)
        requires
            self.wf(),
        ensures
            parse_error_at(e, self.tokens@[self.current as int]),
            e->ParseError_message@ == message@,
    {
        let t = self.peek();
        SapphireError::ParseError { message: String::from_str(message), line: t.line, column: t.column }
    }

    fn error_here_owned(&self, message: String) -> (e: SapphireError)
        requires
            self.wf(),
        ensures
            parse_error_at(e, self.tokens@[self.current as int]),
    {
        let t = self.peek();
        SapphireError::ParseError { message, line: t.line, column: t.column }
    }

    /// The name carried by the current token, when it is an identifier.
    fn peek_identifier(&self) -> (r: Option<String>)
        requires
            self.wf(),
        ensures
            r is Some <==> self.tokens@[self.current as int].kind is Identifier,
            r matches Some(n) ==> self.tokens@[self.current as int].kind == TokenKind::Identifier(n),
    {
        match &self.tokens[self.current].kind {
            TokenKind::Identifier(n) => Some(n.clone()),
            _ => None,
        }
    }
}


/// The display name of each type in `items`, joined by `sep`.
fn join_display(items: &Vec<TypeExpr>, sep: &str, Ghost(parent): Ghost<TypeExpr>) -> (r: String)
    requires
        forall|i: int| 0 <= i < items@.len() ==> decreases_to!(parent => #[trigger] items@[i]),
    ensures
        r@ == join_names(tys(items@), sep@),
    decreases parent, 0nat,
{
    proof {
        lemma_tys(items@);
    }
    let mut s = String::new();
    let mut i: usize = 0;
    proof {
        assert(tys(items@).take(0) =~= Seq::<crate::typechecker::TyView>::empty());
    }
    while i < items.len()
        invariant
            i <= items@.len(),
            tys(items@).len() == items@.len(),
            forall|k: int| 0 <= k < items@.len() ==> #[trigger] tys(items@)[k] == ty(items@[k]),
            forall|k: int| 0 <= k < items@.len() ==> decreases_to!(parent => #[trigger] items@[k]),
            s@ == join_names(tys(items@).take(i as int), sep@),
        decreases items@.len() - i,
    {
        let ghost pre = tys(items@).take(i as int);
        let ghost nxt = tys(items@).take(i + 1);
        assert(nxt.drop_last() =~= pre);
        assert(nxt.last() == ty(items@[i as int]));
        if i > 0 {
            s.append(sep);
        }
        assert(decreases_to!(parent => items@[i as int]));
        let d = type_expr_display_name(&items[i]);
        s.append(d.as_str());
        proof {
            if i == 0 {
                assert(nxt.len() == 1);
                assert(s@ =~= join_names(nxt, sep@));
            } else {
                assert(s@ =~= join_names(nxt, sep@));
            }
        }
        i += 1;
    }
    assert(tys(items@).take(items@.len() as int) =~= tys(items@));
    s
}

/// Return the display name for a type expression (used in error messages).
fn type_expr_display_name(te: &TypeExpr) -> (r: String)
    ensures
        r@ == ty_name(ty(*te)),
    decreases *te, 1nat,
{
    match te {
        TypeExpr::Named(n) => n.clone(),
        TypeExpr::Apply(n, args) => {
            proof {
                lemma_elems_decrease(*te, *args);
            }
            let mut s = n.clone();
            s.append("[");
            let inner = join_display(args, ", ", Ghost(*te));
            s.append(inner.as_str());
            s.append("]");
            s
        },
        TypeExpr::Literal(Value::Int(n)) => i64_to_string(*n),
        TypeExpr::Literal(Value::Float(t)) => t.clone(),
        TypeExpr::Literal(Value::Str(t)) => debug_str(t.as_str()),
        TypeExpr::Literal(Value::Bool(b)) => String::from_str(if *b { "true" } else { "false" }),
        TypeExpr::Literal(Value::Nil) => String::from_str("Nil"),
        TypeExpr::Union(arms) => {
            proof {
                lemma_elems_decrease(*te, *arms);
            }
            join_display(arms, " | ", Ghost(*te))
        },
        TypeExpr::Any => String::from_str("Any"),
    }
}

fn is_named_nil(t: &TypeExpr) -> (r: bool)
    ensures
        r == (match *t {
            TypeExpr::Named(n) => n@ == seq!['N', 'i', 'l'],
            _ => false,
        }),
{
    match t {
        TypeExpr::Named(n) => {
            let cs = str_to_chars(n.as_str());
            let r = cs.len() == 3 && cs[0] == 'N' && cs[1] == 'i' && cs[2] == 'l';
            proof {
                if r {
                    assert(n@ =~= seq!['N', 'i', 'l']);
                }
            }
            r
        },
        _ => false,
    }
}

/// A type named `Nil`.
fn nil_type() -> TypeExpr {
    TypeExpr::Named(String::from_str("Nil"))
}

/// Whether `s` ends with `?`.
fn ends_with_question(s: &String) -> (r: bool)
    ensures
        r == (s@.len() > 0 && s@.last() == '?'),
{
    let cs = str_to_chars(s.as_str());
    cs.len() > 0 && cs[cs.len() - 1] == '?'
}

/// `s` without its last character.
fn drop_last_char(s: &String) -> (r: String)
    requires
        s@.len() > 0,
    ensures
        r@ == s@.drop_last(),
{
    let cs = str_to_chars(s.as_str());
    let r = crate::text::chars_range_to_string(&cs, 0, cs.len() - 1);
    assert(cs@.subrange(0, cs@.len() - 1) =~= s@.drop_last());
    r
}

/// Whether `s` starts with `prefix`.
fn starts_with_str(s: &String, prefix: &str) -> (r: bool)
    ensures
        r == (prefix@.len() <= s@.len() && s@.subrange(0, prefix@.len() as int) == prefix@),
{
    let cs = str_to_chars(s.as_str());
    let ps = str_to_chars(prefix);
    if ps.len() > cs.len() {
        return false;
    }
    let mut i: usize = 0;
    while i < ps.len()
        invariant
            i <= ps@.len() <= cs@.len(),
            cs@ == s@,
            ps@ == prefix@,
            forall|k: int| 0 <= k < i ==> cs@[k] == ps@[k],
        decreases ps@.len() - i,
    {
        if cs[i] != ps[i] {
            assert(s@.subrange(0, prefix@.len() as int)[i as int] != prefix@[i as int]);
            return false;
        }
        i += 1;
    }
    assert(s@.subrange(0, prefix@.len() as int) =~= prefix@);
    true
}

/// The character is uppercase, `_` or an ASCII digit.
pub open spec fn constant_name_char(c: char) -> bool {
    is_uppercase_char(c) || c == '_' || ('0' <= c && c <= '9')
}

/// Whether every character of `n` is uppercase, `_` or an ASCII digit.
fn is_constant_name(n: &String) -> (r: bool)
    ensures
        r == forall|i: int| 0 <= i < n@.len() ==> constant_name_char(#[trigger] n@[i]),
{
    let cs = str_to_chars(n.as_str());
    let mut i: usize = 0;
    while i < cs.len()
        invariant
            i <= cs@.len(),
            cs@ == n@,
            forall|k: int| 0 <= k < i ==> constant_name_char(#[trigger] n@[k]),
        decreases cs.len() - i,
    {
        let c = cs[i];
        if !(char_is_uppercase(c) || c == '_' || ('0' <= c && c <= '9')) {
            return false;
        }
        i += 1;
    }
    true
}

impl Parser {
    fn parse_type_ann(&mut self) -> (res: Result<Option<TypeExpr>, SapphireError>)
        requires
            old(self).wf(),
        ensures
            res matches Err(e) ==> e is ParseError,
            final(self).follows(old(self)),
        decreases old(self).rank(), old(self).remaining(), 5nat,
    {
        if !self.check(&TokenKind::Colon) {
            return Ok(None);
        }
        self.advance(); // consume ':'
        Ok(Some(self.parse_type_expr()?))
    }

    fn parse_return_type(&mut self) -> (res: Result<Option<TypeExpr>, SapphireError>)
        requires
            old(self).wf(),
        ensures
            res matches Err(e) ==> e is ParseError,
            final(self).follows(old(self)),
        decreases old(self).rank(), old(self).remaining(), 5nat,
    {
        if !self.check(&TokenKind::Arrow) {
            return Ok(None);
        }
        self.advance(); // consume '->'
        Ok(Some(self.parse_type_expr()?))
    }

    /// Parse a type expression, including unions (`Int | String`) and multiline forms.
    /// Optional leading `|` is allowed for alignment style.
    #[verifier::loop_isolation(false)]
    fn parse_type_expr(&mut self) -> (res: Result<TypeExpr, SapphireError>)
        requires
            old(self).wf(),
        ensures
            res matches Err(e) ==> e is ParseError,
            final(self).follows(old(self)),
            res is Ok ==> final(self).pos() > old(self).pos(),
        decreases old(self).rank(), old(self).remaining(), 4nat,
    {
        self.skip_terminators(); // allow newline before first arm
        // Optional leading '|' for multiline alignment style: `| Int | String`
        if self.check(&TokenKind::Pipe) {
            self.advance();
            self.skip_terminators();
        }
        let first = self.parse_single_type()?;
        // Check for additional union arms (may span newlines)
        self.skip_terminators();
        if !self.check(&TokenKind::Pipe) {
            return Ok(first);
        }
        let mut arms: Vec<TypeExpr> = Vec::new();
        arms.push(first);
        while self.check(&TokenKind::Pipe)
            invariant
                self.follows(old(self)),
                self.pos() > old(self).pos(),
            decreases self.remaining(),
        {
            self.advance();
            self.skip_terminators();
            arms.push(self.parse_single_type()?);
            self.skip_terminators();
        }
        // Flatten nested unions from T? arms (T? desugars to Union([T, Nil]))
        let mut flat: Vec<TypeExpr> = Vec::new();
        let mut arms = arms;
        while arms.len() > 0
            decreases arms@.len(),
        {
            let arm = arms.remove(0);
            match arm {
                TypeExpr::Union(inner) => {
                    let mut inner = inner;
                    flat.append(&mut inner);
                },
                other => flat.push(other),
            }
        }
        // Any absorbs everything
        let mut i: usize = 0;
        while i < flat.len()
            decreases flat.len() - i,
        {
            if matches!(flat[i], TypeExpr::Any) {
                return Ok(TypeExpr::Any);
            }
            i += 1;
        }
        // Nil is not allowed as an explicit union arm — force ? syntax
        let mut has_nil = false;
        let mut non_nil: Vec<String> = Vec::new();
        let mut i: usize = 0;
        while i < flat.len()
            decreases flat.len() - i,
        {
            if is_named_nil(&flat[i]) {
                has_nil = true;
            } else {
                non_nil.push(type_expr_display_name(&flat[i]));
            }
            i += 1;
        }
        if has_nil {
            let mut message = String::from_str("Nil is not allowed as a union arm; use ");
            if non_nil.len() == 1 {
                message.append(non_nil[0].as_str());
                message.append("?");
            } else {
                message.append("(");
                let mut k: usize = 0;
                while k < non_nil.len()
                    decreases non_nil.len() - k,
                {
                    if k > 0 {
                        message.append(" | ");
                    }
                    message.append(non_nil[k].as_str());
                    k += 1;
                }
                message.append(")?");
            }
            message.append(" instead");
            return Err(self.error_here_owned(message));
        }
        Ok(TypeExpr::Union(flat))
    }

    /// Parse a single type: a named type (with optional `?` suffix), or a parenthesized group.
    fn parse_single_type(&mut self) -> (res: Result<TypeExpr, SapphireError>)
        requires
            old(self).wf(),
        ensures
            res matches Err(e) ==> e is ParseError,
            final(self).follows(old(self)),
            res is Ok ==> final(self).pos() > old(self).pos(),
        decreases old(self).rank(), old(self).remaining(), 3nat,
    {
        // Parenthesized group: (Int | String)?
        if self.check(&TokenKind::LeftParen) {
            self.advance();
            let inner = self.parse_type_expr()?;
            if !self.check(&TokenKind::RightParen) {
                return Err(self.error_here("expected ')' after type group"));
            }
            self.advance(); // consume ')'
            if self.check(&TokenKind::Question) {
                self.advance(); // consume '?'
                return Ok(match inner {
                    TypeExpr::Union(arms) => {
                        let mut arms = arms;
                        arms.push(nil_type());
                        TypeExpr::Union(arms)
                    },
                    other => {
                        let mut v = Vec::new();
                        v.push(other);
                        v.push(nil_type());
                        TypeExpr::Union(v)
                    },
                });
            }
            return Ok(inner);
        }
        match &self.tokens[self.current].kind {
            TokenKind::Identifier(t) => {
                let t = t.clone();
                self.advance();
                // T? is sugar for T | Nil
                if ends_with_question(&t) {
                    let base = drop_last_char(&t);
                    let mut v = Vec::new();
                    v.push(TypeExpr::Named(base));
                    v.push(nil_type());
                    return Ok(TypeExpr::Union(v));
                }
                // Generic type args: List[Int], Map[String, Bool], Box[T]
                if self.check(&TokenKind::LeftBracket) {
                    let args = self.parse_type_args()?;
                    return Ok(TypeExpr::Apply(t, args));
                }
                Ok(TypeExpr::Named(t))
            },
            TokenKind::Number(n) => {
                let n = *n;
                self.advance();
                Ok(TypeExpr::Literal(Value::Int(n)))
            },
            TokenKind::Float(f) => {
                let f = f.clone();
                self.advance();
                Ok(TypeExpr::Literal(Value::Float(f)))
            },
            TokenKind::StringLit(s) => {
                let s = s.clone();
                self.advance();
                Ok(TypeExpr::Literal(Value::Str(s)))
            },
            TokenKind::True => {
                self.advance();
                Ok(TypeExpr::Literal(Value::Bool(true)))
            },
            TokenKind::False => {
                self.advance();
                Ok(TypeExpr::Literal(Value::Bool(false)))
            },
            TokenKind::Nil => {
                self.advance();
                Ok(nil_type())
            },
            _ => Err(self.error_here("expected type")),
        }
    }

    /// Parse `[TypeExpr, ...]` — the argument list of a parameterized type.
    /// Assumes the opening `[` has NOT yet been consumed.
    fn parse_type_args(&mut self) -> (res: Result<Vec<TypeExpr>, SapphireError>)
        requires
            old(self).wf(),
            !(old(self).tokens@[old(self).current as int].kind is Eof),
        ensures
            res matches Err(e) ==> e is ParseError,
            final(self).follows(old(self)),
            final(self).pos() > old(self).pos(),
        decreases old(self).rank(), old(self).remaining(), 2nat,
    {
        self.advance(); // consume '['
        let mut args = Vec::new();
        self.skip_terminators();
        args.push(self.parse_type_expr()?);
        while self.check(&TokenKind::Comma)
            invariant
                self.follows(old(self)),
                self.pos() > old(self).pos(),
            decreases self.remaining(),
        {
            self.advance();
            self.skip_terminators();
            args.push(self.parse_type_expr()?);
        }
        if !self.check(&TokenKind::RightBracket) {
            return Err(self.error_here("expected ']' after type arguments"));
        }
        self.advance(); // consume ']'
        Ok(args)
    }

    /// Parse `[T, U, ...]` — the type parameter list of a generic class or function.
    /// Returns an empty vec if no `[` is present (not a generic definition).
    fn parse_type_param_names(&mut self) -> (res: Result<Vec<String>, SapphireError>)
        requires
            old(self).wf(),
        ensures
            res matches Err(e) ==> e is ParseError,
            final(self).follows(old(self)),
            !(old(self).tokens@[old(self).current as int].kind is LeftBracket) ==> (res matches Ok(v) && v@.len() == 0) && *final(self) == *old(self),
            old(self).tokens@[old(self).current as int].kind is LeftBracket ==> (res matches Ok(v) ==> v@.len() >= 1 && final(self).pos() > old(self).pos()
                && final(self).tokens@[final(self).current - 1].kind is RightBracket),
    {
        if !self.check(&TokenKind::LeftBracket) {
            return Ok(Vec::new());
        }
        assert(old(self).tokens@[old(self).current as int].kind is LeftBracket);
        self.advance(); // consume '['
        let mut params = Vec::new();
        loop
            invariant
                self.follows(old(self)),
                old(self).tokens@[old(self).current as int].kind is LeftBracket,
                self.pos() > old(self).pos(),
            ensures
                self.follows(old(self)),
                old(self).tokens@[old(self).current as int].kind is LeftBracket,
                self.pos() > old(self).pos(),
                params@.len() >= 1,
            decreases self.remaining(),
        {
            match self.peek_identifier() {
                Some(n) => {
                    self.advance();
                    params.push(n);
                },
                None => {
                    return Err(self.error_here("expected type parameter name"));
                },
            }
            if !self.check(&TokenKind::Comma) {
                break;
            }
            self.advance();
        }
        if !self.check(&TokenKind::RightBracket) {
            return Err(self.error_here("expected ']' after type parameters"));
        }
        assert(self.tokens@[self.current as int].kind is RightBracket);
        self.advance(); // consume ']'
        Ok(params)
    }
}

impl Parser {
    // Returns true if the current '{' starts a block rather than a map literal.
    // { |   → block with params
    // { }   → empty map
    // { id: → map entry
    // other → block without params
    fn is_block_start(&self) -> (r: bool)
        requires
            self.wf(),
        ensures
            r == ({
                let ts = self.tokens@;
                let c = self.current as int;
                &&& ts[c].kind is LeftBrace
                &&& (c + 1 < ts.len() && ts[c + 1].kind is Pipe) || (!(c + 1 < ts.len() && ts[c + 1].kind is RightBrace)
                    && !(c + 1 < ts.len() && ts[c + 1].kind is Identifier && c + 2 < ts.len() && ts[c + 2].kind is Colon))
            }),
    {
        if !self.check(&TokenKind::LeftBrace) {
            return false;
        }
        if self.check_ahead(1, &TokenKind::Pipe) {
            return true;
        }
        if self.check_ahead(1, &TokenKind::RightBrace) {
            return false;
        }
        if self.check_ahead(1, &TokenKind::Identifier(String::new())) {
            return !self.check_ahead(2, &TokenKind::Colon);
        }
        // past the end of the tokens the brace starts a block
        true
    }

    // Returns true if the next non-newline token is a '.', used to allow method
    // chaining across lines after a block: `.map { |n| n * 2 }\n  .each { ... }`.
    fn next_non_newline_is_dot(&self) -> (r: bool)
        requires
            self.wf(),
        ensures
            r == exists|j: int|
                self.current <= j < self.tokens@.len() && (#[trigger] self.tokens@[j]).kind is Dot && forall|m: int|
                    self.current <= m < j ==> terminator(#[trigger] self.tokens@[m].kind),
    {
        let mut i = self.current;
        while i < self.tokens.len()
            invariant
                self.current <= i <= self.tokens@.len(),
                forall|m: int| self.current <= m < i ==> terminator(#[trigger] self.tokens@[m].kind),
            decreases self.tokens.len() - i,
        {
            match &self.tokens[i].kind {
                TokenKind::Newline | TokenKind::Semicolon => i += 1,
                TokenKind::Dot => return true,
                _ => return false,
            }
        }
        false
    }

    /// Parse the whole token sequence into a list of top-level expressions.
    pub fn parse(&mut self) -> (res: Result<Vec<Expr>, SapphireError>)
        requires
            old(self).wf(),
        ensures
            final(self).follows(old(self)),
            res is Ok ==> final(self).at_eof(),
            res matches Err(e) ==> e is ParseError,
            lit_at_end(old(self).toks(), old(self).pos()) ==> (res matches Ok(v) && v@ == seq![Expr::Literal(token_literal(old(self).toks()[old(self).pos()].kind)->Some_0)]),
            arith_at(old(self).toks(), old(self).pos()) && old(self).toks()[run_end(old(self).toks(), old(self).pos() + 1)].kind is Eof
                ==> (res matches Ok(v) && v@ == seq![arith_tree(old(self).toks(), old(self).pos())]),
            assign_at(old(self).toks(), old(self).pos()) && old(self).toks()[run_end(old(self).toks(), old(self).pos() + 3)].kind is Eof
                ==> (res matches Ok(v) && v@ == seq![assign_tree(old(self).toks(), old(self).pos())]),
            if_else_at(old(self).toks(), old(self).pos()) && old(self).toks()[if_else_end(old(self).toks(), old(self).pos())].kind is Eof
                ==> (res matches Ok(v) && v@.len() == 1 && if_else_tree(old(self).toks(), old(self).pos(), v@[0])),
    {
        let mut exprs = Vec::new();
        loop
            invariant
                self.follows(old(self)),
                arith_at(old(self).tokens@, old(self).current as int) && old(self).tokens@[run_end(old(self).tokens@, old(self).current + 1)].kind is Eof ==> (exprs@.len() == 0 && self.current == old(self).current) || (exprs@ == seq![arith_tree(old(self).tokens@, old(self).current as int)] && self.current == run_end(old(self).tokens@, old(self).current + 1)),
                assign_at(old(self).tokens@, old(self).current as int) && old(self).tokens@[run_end(old(self).tokens@, old(self).current + 3)].kind is Eof ==> (exprs@.len() == 0 && self.current == old(self).current) || (exprs@ == seq![assign_tree(old(self).tokens@, old(self).current as int)] && self.current == run_end(old(self).tokens@, old(self).current + 3)),
                if_else_at(old(self).tokens@, old(self).current as int) && old(self).tokens@[if_else_end(old(self).tokens@, old(self).current as int)].kind is Eof ==> (exprs@.len() == 0 && self.current == old(self).current) || (exprs@.len() == 1 && if_else_tree(old(self).tokens@, old(self).current as int, exprs@[0]) && self.current == if_else_end(old(self).tokens@, old(self).current as int)),
                lit_at_end(old(self).tokens@, old(self).current as int) ==> (exprs@.len() == 0 && self.current
                    == old(self).current) || (exprs@ == seq![Expr::Literal(token_literal(old(self).tokens@[old(self).current as int].kind)->Some_0)] && self.current == old(self).current + 1),
            ensures
                self.follows(old(self)),
                self.at_eof(),
            decreases self.remaining(),
        {
            self.skip_terminators();
            if self.is_at_end() {
                break;
            }
            exprs.push(self.statement()?);
        }
        Ok(exprs)
    }

    fn statement(&mut self) -> (res: Result<Expr, SapphireError>)
        requires
            old(self).wf(),
        ensures
            final(self).follows(old(self)),
            res is Ok ==> final(self).pos() > old(self).pos(),
            res matches Err(e) ==> e is ParseError,
            lit_then_stop(old(self).tokens@, old(self).current as int) ==> res == Ok::<Expr, SapphireError>(Expr::Literal(token_literal(old(self).tokens@[old(self).current as int].kind)->Some_0))
                && final(self).current == old(self).current + 1,
            arith_at(old(self).tokens@, old(self).current as int) ==> res == Ok::<Expr, SapphireError>(arith_tree(old(self).tokens@, old(self).current as int))
                && final(self).current == run_end(old(self).tokens@, old(self).current as int + 1) && stop_tok(final(self).tokens@[final(self).current as int].kind),
            assign_at(old(self).tokens@, old(self).current as int) ==> res == Ok::<Expr, SapphireError>(assign_tree(old(self).tokens@, old(self).current as int))
                && final(self).current == run_end(old(self).tokens@, old(self).current as int + 3) && stop_tok(final(self).tokens@[final(self).current as int].kind),
            (if_else_at(old(self).tokens@, old(self).current as int) && !(old(self).tokens@[arith_block_end(
                old(self).tokens@,
                arith_block_end(old(self).tokens@, run_end(old(self).tokens@, old(self).current + 2)) + 1,
            )].kind is If)) ==> ({
                let ts = old(self).tokens@;
                let t = run_end(ts, old(self).current + 2);
                let e = arith_block_end(ts, t);
                &&& res matches Ok(Expr::If { condition, then_branch, else_branch: Some(es) })
                &&& *condition == arith_tree(ts, old(self).current + 1)
                &&& then_branch@ == seq![arith_tree(ts, t + 1)]
                &&& es@ == seq![arith_tree(ts, e + 2)]
                &&& final(self).current == arith_block_end(ts, e + 1)
            }),
        decreases old(self).rank(), old(self).remaining(), 60nat,
    {
        let stmt = self.statement_inner()?;
        // Trailing conditional: `expr if condition`
        if self.check(&TokenKind::If) {
            self.advance();
            self.allow_trailing_block = false;
            let condition = self.logical()?;
            self.allow_trailing_block = true;
            let mut then_branch = Vec::new();
            then_branch.push(stmt);
            return Ok(Expr::If { condition: Box::new(condition), then_branch, else_branch: None });
        }
        Ok(stmt)
    }

    /// Whether the current token ends a bare `break` / `next`.
    fn at_statement_end(&self) -> (r: bool)
        requires
            self.wf(),
        ensures
            r == ({
                let k = self.tokens@[self.current as int].kind;
                k is Newline || k is Semicolon || k is If || k is RightBrace || k is Eof
            }),
    {
        self.check(&TokenKind::Newline) || self.check(&TokenKind::Semicolon) || self.check(
            &TokenKind::If,
        ) || self.check(&TokenKind::RightBrace) || self.is_at_end()
    }

    fn statement_inner(&mut self) -> (res: Result<Expr, SapphireError>)
        requires
            old(self).wf(),
        ensures
            final(self).follows(old(self)),
            res is Ok ==> final(self).pos() > old(self).pos(),
            res matches Err(e) ==> e is ParseError,
            ({
                let k = old(self).tokens@[old(self).current as int].kind;
                &&& k is Return ==> (res is Ok ==> res matches Ok(Expr::Return(_)))
                &&& k is Print && lit_at_end(old(self).tokens@, old(self).current + 1) ==> (res matches Ok(Expr::Print(v)) && *v
                    == Expr::Literal(token_literal(old(self).tokens@[old(self).current + 1].kind)->Some_0) && final(self).current
                    == old(self).current + 2)
                &&& k is Raise ==> (res is Ok ==> res matches Ok(Expr::Raise(_)))
                &&& k is Return && arith_at(old(self).tokens@, old(self).current + 1) ==> res == Ok::<Expr, SapphireError>(
                    Expr::Return(Box::new(arith_tree(old(self).tokens@, old(self).current + 1))),
                )
                &&& k is Raise && arith_at(old(self).tokens@, old(self).current + 1) ==> res == Ok::<Expr, SapphireError>(
                    Expr::Raise(Box::new(arith_tree(old(self).tokens@, old(self).current + 1))),
                )
                &&& k is Print && arith_at(old(self).tokens@, old(self).current + 1) ==> res == Ok::<Expr, SapphireError>(
                    Expr::Print(Box::new(arith_tree(old(self).tokens@, old(self).current + 1))),
                )
                &&& (k is Break || k is Next) && bare_jump_end(old(self).tokens@[old(self).current + 1].kind) ==> {
                    &&& final(self).current == old(self).current + 1
                    &&& k is Break ==> (res matches Ok(Expr::Break(v)) && *v == Expr::Literal(Value::Nil))
                    &&& k is Next ==> (res matches Ok(Expr::Next(v)) && *v == Expr::Literal(Value::Nil))
                }
                &&& (k is Break || k is Next) ==> (res is Ok ==> (res matches Ok(Expr::Break(_)) <==> k is Break) && (res matches Ok(
                    Expr::Next(_),
                ) <==> k is Next))
            }),
            lit_then_stop(old(self).tokens@, old(self).current as int) ==> res == Ok::<Expr, SapphireError>(Expr::Literal(token_literal(old(self).tokens@[old(self).current as int].kind)->Some_0))
                && final(self).current == old(self).current + 1,
            arith_at(old(self).tokens@, old(self).current as int) ==> res == Ok::<Expr, SapphireError>(arith_tree(old(self).tokens@, old(self).current as int))
                && final(self).current == run_end(old(self).tokens@, old(self).current as int + 1) && stop_tok(final(self).tokens@[final(self).current as int].kind),
            assign_at(old(self).tokens@, old(self).current as int) ==> res == Ok::<Expr, SapphireError>(assign_tree(old(self).tokens@, old(self).current as int))
                && final(self).current == run_end(old(self).tokens@, old(self).current as int + 3) && stop_tok(final(self).tokens@[final(self).current as int].kind),
            if_else_at(old(self).tokens@, old(self).current as int) ==> ({
                let ts = old(self).tokens@;
                let t = run_end(ts, old(self).current + 2);
                let e = arith_block_end(ts, t);
                &&& res matches Ok(Expr::If { condition, then_branch, else_branch: Some(es) })
                &&& *condition == arith_tree(ts, old(self).current + 1)
                &&& then_branch@ == seq![arith_tree(ts, t + 1)]
                &&& es@ == seq![arith_tree(ts, e + 2)]
                &&& final(self).current == arith_block_end(ts, e + 1)
            }),
        decreases old(self).rank(), old(self).remaining(), 59nat,
    {
        if self.check(&TokenKind::Return) {
            self.advance();
            return Ok(Expr::Return(Box::new(self.logical()?)));
        }
        if self.check(&TokenKind::Break) {
            self.advance();
            let val = if self.at_statement_end() {
                Expr::Literal(Value::Nil)
            } else {
                self.logical()?
            };
            return Ok(Expr::Break(Box::new(val)));
        }
        if self.check(&TokenKind::Next) {
            self.advance();
            let val = if self.at_statement_end() {
                Expr::Literal(Value::Nil)
            } else {
                self.logical()?
            };
            return Ok(Expr::Next(Box::new(val)));
        }
        if self.check(&TokenKind::Abstract) {
            return self.abstract_decl();
        }
        if self.check(&TokenKind::Class) {
            return self.class_def();
        }
        if self.check(&TokenKind::Module) {
            return self.module_def();
        }
        if self.check(&TokenKind::Interface) {
            return self.interface_def();
        }
        if self.check(&TokenKind::Def) {
            return self.function_def();
        }
        if self.check(&TokenKind::If) {
            return self.if_expr();
        }
        if self.check(&TokenKind::While) {
            return self.while_statement();
        }
        // Multi-assignment: ident, ident, ... = expr, expr, ...
        if self.peek_identifier().is_some() && self.check_ahead(1, &TokenKind::Comma) {
            return self.multi_assign();
        }
        if self.check(&TokenKind::Raise) {
            self.advance();
            return Ok(Expr::Raise(Box::new(self.logical()?)));
        }
        if self.check(&TokenKind::Begin) {
            return self.begin_expr();
        }
        if self.check(&TokenKind::Print) {
            self.advance();
            return Ok(Expr::Print(Box::new(self.logical()?)));
        }
        if self.check(&TokenKind::Type) {
            self.advance(); // consume 'type'
            let name = match self.peek_identifier() {
                Some(n) => {
                    self.advance();
                    n
                },
                None => {
                    return Err(self.error_here("expected type alias name after 'type'"));
                },
            };
            if !self.check(&TokenKind::Eq) {
                return Err(self.error_here("expected '=' after type alias name"));
            }
            self.advance(); // consume '='
            let type_expr = self.parse_type_expr()?;
            return Ok(Expr::TypeAlias { name, type_expr });
        }
        if self.check(&TokenKind::Import) {
            self.advance();
            match &self.tokens[self.current].kind {
                TokenKind::StringLit(path) => {
                    let path = path.clone();
                    if !starts_with_str(&path, "./") && !starts_with_str(&path, "../") {
                        let mut message = String::from_str(
                            "import path must be relative (start with ./ or ../): ",
                        );
                        let d = debug_str(path.as_str());
                        message.append(d.as_str());
                        return Err(self.error_here_owned(message));
                    }
                    self.advance();
                    return Ok(Expr::Import { path });
                },
                _ => {
                    return Err(self.error_here("expected a string literal after 'import'"));
                },
            }
        }
        self.logical()
    }

    /// Parse `include(Foo)`, `include(Mod.Nested)`, … — dotted constant paths as strings.
    fn parse_include_statement(&mut self, includes: &mut Vec<String>) -> (res: Result<(), SapphireError>)
        requires
            old(self).wf(),
        ensures
            final(self).follows(old(self)),
            res is Ok ==> final(self).pos() > old(self).pos(),
            res matches Err(e) ==> e is ParseError,
    {
        if !self.check(&TokenKind::LeftParen) {
            return Err(self.error_here("expected '(' after 'include'"));
        }
        self.advance(); // '('
        self.skip_terminators();
        let first = match self.peek_identifier() {
            Some(n) => {
                self.advance();
                n
            },
            None => {
                return Err(self.error_here("expected mixin name in include(...)"));
            },
        };
        let mut path = first;
        self.skip_terminators();
        while self.check(&TokenKind::Dot)
            invariant
                self.follows(old(self)),
                self.pos() > old(self).pos(),
            decreases self.remaining(),
        {
            self.advance();
            self.skip_terminators();
            let segment = match self.peek_identifier() {
                Some(n) => {
                    self.advance();
                    n
                },
                None => {
                    return Err(self.error_here("expected identifier after '.' in include(...)"));
                },
            };
            string_push(&mut path, '.');
            path.append(segment.as_str());
            self.skip_terminators();
        }
        self.skip_terminators();
        if !self.check(&TokenKind::RightParen) {
            return Err(self.error_here("expected ')' after include(...) mixin name"));
        }
        self.advance();
        includes.push(path);
        Ok(())
    }

    /// The methods of a `self { ... }` block in a class or module body; the
    /// `self` keyword has been consumed.
    fn class_methods_block(&mut self, methods: &mut Vec<MethodDef>, where_: &str) -> (res: Result<(), SapphireError>)
        requires
            old(self).wf(),
        ensures
            final(self).follows(old(self)),
            res matches Err(e) ==> e is ParseError,
            !(old(self).tokens@[old(self).current as int].kind is LeftBrace) ==> res is Err && *final(self) == *old(self) && final(methods)@ == old(methods)@,
            res is Ok ==> final(self).pos() > old(self).pos() && final(self).tokens@[final(self).current - 1].kind is RightBrace,
            old(methods)@.len() <= final(methods)@.len(),
            final(methods)@.take(old(methods)@.len() as int) == old(methods)@,
            forall|i: int| old(methods)@.len() <= i < final(methods)@.len() ==> (#[trigger] final(methods)@[i]).class_method,
        decreases old(self).rank(), old(self).remaining(), 6nat,
    {
        if !self.check(&TokenKind::LeftBrace) {
            let mut message = String::from_str("expected '{' after 'self' in ");
            message.append(where_);
            return Err(self.error_here_owned(message));
        }
        assert(old(self).tokens@[old(self).current as int].kind is LeftBrace);
        self.advance();
        loop
            invariant
                self.follows(old(self)),
                old(self).tokens@[old(self).current as int].kind is LeftBrace,
                self.pos() > old(self).pos(),
                old(methods)@.len() <= methods@.len(),
                methods@.take(old(methods)@.len() as int) == old(methods)@,
                forall|i: int| old(methods)@.len() <= i < methods@.len() ==> (#[trigger] methods@[i]).class_method,
            decreases self.remaining(),
        {
            self.skip_terminators();
            if self.check(&TokenKind::RightBrace) || self.is_at_end() {
                break;
            }
            if self.check(&TokenKind::Def) || self.check(&TokenKind::Defp) {
                let private = self.check(&TokenKind::Defp);
                let mut m = self.method_def(private)?;
                m.class_method = true;
                methods.push(m);
            } else {
                return Err(self.error_here("expected 'def' or 'defp' inside 'self' block"));
            }
        }
        if !self.check(&TokenKind::RightBrace) {
            return Err(self.error_here("expected '}' to close 'self' block"));
        }
        assert(self.tokens@[self.current as int].kind is RightBrace);
        self.advance();
        Ok(())
    }

    /// A class constant `NAME = expr` when the current identifier is all
    /// capitals and followed by `=`.
    fn is_constant_start(&self) -> bool
        requires
            self.wf(),
    {
        match self.peek_identifier() {
            Some(n) => is_constant_name(&n) && self.check_ahead(1, &TokenKind::Eq),
            None => false,
        }
    }

    fn module_def(&mut self) -> (res: Result<Expr, SapphireError>)
        requires
            old(self).wf(),
            !old(self).at_eof(),
        ensures
            final(self).follows(old(self)),
            res is Ok ==> final(self).pos() > old(self).pos(),
            res matches Err(e) ==> e is ParseError,
            !(old(self).tokens@[old(self).current + 1].kind is Identifier) ==> res is Err,
            res matches Ok(e) ==> (e matches Expr::Class { name, is_module, is_abstract, .. } && is_module && !is_abstract
                && old(self).tokens@[old(self).current + 1].kind == TokenKind::Identifier(name)),
            (old(self).tokens@[old(self).current + 1].kind is Identifier && empty_braces_at(old(self).tokens@, old(self).current + 2))
                ==> (res matches Ok(e) && bare_class(e, old(self).tokens@[old(self).current + 1].kind->Identifier_0, None, true, false)
                && final(self).current == old(self).current + 4),
        decreases old(self).rank(), old(self).remaining(), 10nat,
    {
        self.advance(); // consume 'module'
        let name = match self.peek_identifier() {
            Some(n) => {
                self.advance();
                n
            },
            None => {
                return Err(self.error_here("expected module name"));
            },
        };
        let type_params = self.parse_type_param_names()?;
        if !self.check(&TokenKind::LeftBrace) {
            return Err(self.error_here("expected '{' after module name"));
        }
        self.advance(); // consume '{'
        let fields = Vec::new();
        let mut methods = Vec::new();
        let mut nested = Vec::new();
        let mut constants = Vec::new();
        let mut includes = Vec::new();
        loop
            invariant
                old(self).tokens@[old(self).current + 1].kind == TokenKind::Identifier(name),
                self.follows(old(self)),
                self.pos() > old(self).pos(),
                (old(self).tokens@[old(self).current + 1].kind is Identifier && empty_braces_at(old(self).tokens@, old(self).current + 2)) ==> self.current == old(self).current + 3 && type_params@.len() == 0 && fields@.len() == 0
                    && includes@.len() == 0 && methods@.len() == 0 && nested@.len() == 0 && constants@.len() == 0,
            decreases self.remaining(),
        {
            self.skip_terminators();
            if self.check(&TokenKind::RightBrace) || self.is_at_end() {
                break;
            }
            if self.check(&TokenKind::Include) {
                self.advance();
                self.parse_include_statement(&mut includes)?;
            } else if self.check(&TokenKind::Class) {
                nested.push(self.class_def()?);
            } else if self.check(&TokenKind::Module) {
                nested.push(self.module_def()?);
            } else if self.peek_identifier().is_some() {
                if self.is_constant_start() {
                    let n = self.peek_identifier().unwrap();
                    self.advance();
                    self.advance(); // '='
                    let val = self.logical()?;
                    constants.push((n, Box::new(val)));
                } else {
                    return Err(
                        self.error_here(
                            "expected 'class', 'def', 'defp', 'include', 'module', or constant in module body",
                        ),
                    );
                }
            } else if self.check(&TokenKind::Attr) {
                return Err(self.error_here("'attr' is not allowed in a module body"));
            } else if self.check(&TokenKind::Def) || self.check(&TokenKind::Defp) {
                let private = self.check(&TokenKind::Defp);
                methods.push(self.method_def(private)?);
            } else if self.check(&TokenKind::SelfKw) {
                self.advance();
                self.class_methods_block(&mut methods, "module body")?;
            } else {
                return Err(
                    self.error_here(
                        "expected 'class', 'def', 'defp', 'include', 'module', or 'self' in module body",
                    ),
                );
            }
        }
        if !self.check(&TokenKind::RightBrace) {
            return Err(self.error_here("expected '}'"));
        }
        self.advance();
        Ok(
            Expr::Class {
                name,
                type_params,
                superclass: None,
                is_abstract: false,
                is_module: true,
                includes,
                fields,
                methods,
                nested,
                constants,
            },
        )
    }

    fn abstract_decl(&mut self) -> (res: Result<Expr, SapphireError>)
        requires
            old(self).wf(),
            !old(self).at_eof(),
        ensures
            final(self).follows(old(self)),
            res is Ok ==> final(self).pos() > old(self).pos(),
            res matches Err(e) ==> e is ParseError,
        decreases old(self).rank(), old(self).remaining(), 10nat,
    {
        self.advance(); // consume 'abstract'
        if !self.check(&TokenKind::Class) {
            return Err(self.error_here("expected 'class' after 'abstract'"));
        }
        self.advance(); // consume 'class'
        self.parse_class_from_name(true)
    }

    fn class_def(&mut self) -> (res: Result<Expr, SapphireError>)
        requires
            old(self).wf(),
            !old(self).at_eof(),
        ensures
            final(self).follows(old(self)),
            res is Ok ==> final(self).pos() > old(self).pos(),
            res matches Err(e) ==> e is ParseError,
        decreases old(self).rank(), old(self).remaining(), 10nat,
    {
        self.advance(); // consume 'class'
        self.parse_class_from_name(false)
    }

    fn interface_def(&mut self) -> (res: Result<Expr, SapphireError>)
        requires
            old(self).wf(),
            !old(self).at_eof(),
        ensures
            final(self).follows(old(self)),
            res is Ok ==> final(self).pos() > old(self).pos(),
            res matches Err(e) ==> e is ParseError,
        decreases old(self).rank(), old(self).remaining(), 10nat,
    {
        self.advance(); // consume 'interface'
        let name = match self.peek_identifier() {
            Some(n) => {
                self.advance();
                n
            },
            None => {
                return Err(self.error_here("expected interface name"));
            },
        };
        let type_params = self.parse_type_param_names()?;
        if !self.check(&TokenKind::LeftBrace) {
            return Err(self.error_here("expected '{' after interface name"));
        }
        self.advance();
        let mut methods = Vec::new();
        loop
            invariant
                self.follows(old(self)),
                self.pos() > old(self).pos(),
            decreases self.remaining(),
        {
            self.skip_terminators();
            if self.check(&TokenKind::RightBrace) || self.is_at_end() {
                break;
            }
            if self.check(&TokenKind::Def) {
                methods.push(self.interface_method_def()?);
            } else {
                return Err(self.error_here("expected 'def' in interface body"));
            }
        }
        if !self.check(&TokenKind::RightBrace) {
            return Err(self.error_here("expected '}'"));
        }
        self.advance();
        Ok(Expr::Interface { name, type_params, methods })
    }

    fn parse_class_from_name(&mut self, class_is_abstract: bool) -> (res: Result<Expr, SapphireError>)
        requires
            old(self).wf(),
        ensures
            final(self).follows(old(self)),
            res is Ok ==> final(self).pos() > old(self).pos(),
            res matches Err(e) ==> e is ParseError,
            !(old(self).tokens@[old(self).current as int].kind is Identifier) ==> res is Err,
            res matches Ok(e) ==> (e matches Expr::Class { name, is_module, is_abstract, .. } && !is_module && is_abstract
                == class_is_abstract && old(self).tokens@[old(self).current as int].kind == TokenKind::Identifier(name)),
            (old(self).tokens@[old(self).current as int].kind is Identifier && empty_braces_at(old(self).tokens@, old(self).current + 1))
                ==> (res matches Ok(e) && bare_class(e, old(self).tokens@[old(self).current as int].kind->Identifier_0, None, false, class_is_abstract)
                && final(self).current == old(self).current + 3),
            (old(self).tokens@[old(self).current as int].kind is Identifier && old(self).tokens@[old(self).current + 1].kind is Less
                && old(self).tokens@[old(self).current + 2].kind is Identifier && empty_braces_at(old(self).tokens@, old(self).current + 3))
                ==> (res matches Ok(e) && bare_class(
                e,
                old(self).tokens@[old(self).current as int].kind->Identifier_0,
                Some(old(self).tokens@[old(self).current + 2].kind->Identifier_0@),
                false,
                class_is_abstract,
            ) && final(self).current == old(self).current + 5),
        decreases old(self).rank(), old(self).remaining(), 5nat,
    {
        let name = match self.peek_identifier() {
            Some(n) => {
                self.advance();
                n
            },
            None => {
                return Err(self.error_here("expected class name"));
            },
        };
        let type_params = self.parse_type_param_names()?;
        let superclass = if self.check(&TokenKind::Less) {
            self.advance(); // consume '<'
            let first = match self.peek_identifier() {
                Some(n) => {
                    self.advance();
                    n
                },
                None => {
                    return Err(self.error_here("expected superclass name after '<'"));
                },
            };
            let mut expr: Expr = Expr::Variable(first);
            while self.check(&TokenKind::Dot)
                invariant
                    old(self).tokens@[old(self).current as int].kind == TokenKind::Identifier(name),
                    self.follows(old(self)),
                    self.pos() > old(self).pos(),
                    (old(self).tokens@[old(self).current as int].kind is Identifier && old(self).tokens@[old(self).current + 1].kind is Less && old(self).tokens@[old(self).current + 2].kind is Identifier && empty_braces_at(old(self).tokens@, old(self).current + 3)) ==> self.current == old(self).current + 3 && expr == Expr::Variable(first)
                        && old(self).tokens@[old(self).current + 2].kind == TokenKind::Identifier(first),
                    !(old(self).tokens@[old(self).current + 1].kind is LeftBrace),
                decreases self.remaining(),
            {
                self.advance(); // consume '.'
                let dot_line = self.peek().line;
                let field = match self.peek_identifier() {
                    Some(n) => {
                        self.advance();
                        n
                    },
                    None => {
                        return Err(self.error_here("expected identifier after '.' in superclass"));
                    },
                };
                expr = Expr::Get { object: Box::new(expr), name: field, line: dot_line };
            }
            Some(Box::new(expr))
        } else {
            None
        };
        if !self.check(&TokenKind::LeftBrace) {
            return Err(self.error_here("expected '{' after class name"));
        }
        self.advance(); // consume '{'
        let mut fields = Vec::new();
        let mut methods = Vec::new();
        let mut nested = Vec::new();
        let mut constants = Vec::new();
        let mut includes = Vec::new();
        loop
            invariant
                old(self).tokens@[old(self).current as int].kind == TokenKind::Identifier(name),
                self.follows(old(self)),
                self.pos() > old(self).pos(),
                (old(self).tokens@[old(self).current as int].kind is Identifier && empty_braces_at(old(self).tokens@, old(self).current + 1)) ==> self.current == old(self).current + 2 && type_params@.len() == 0 && superclass is None
                    && includes@.len() == 0 && fields@.len() == 0 && methods@.len() == 0 && nested@.len() == 0
                    && constants@.len() == 0,
                (old(self).tokens@[old(self).current as int].kind is Identifier && old(self).tokens@[old(self).current + 1].kind is Less && old(self).tokens@[old(self).current + 2].kind is Identifier && empty_braces_at(old(self).tokens@, old(self).current + 3)) ==> self.current == old(self).current + 4 && type_params@.len() == 0 && (superclass matches Some(bx)
                    && (*bx matches Expr::Variable(v) && v@ == old(self).tokens@[old(self).current + 2].kind->Identifier_0@))
                    && includes@.len() == 0 && fields@.len() == 0 && methods@.len() == 0 && nested@.len() == 0
                    && constants@.len() == 0,
            decreases self.remaining(),
        {
            self.skip_terminators();
            if self.check(&TokenKind::RightBrace) || self.is_at_end() {
                break;
            }
            if self.check(&TokenKind::Include) {
                self.advance();
                self.parse_include_statement(&mut includes)?;
            } else if self.check(&TokenKind::Class) {
                nested.push(self.class_def()?);
            } else if self.check(&TokenKind::Module) {
                nested.push(self.module_def()?);
            } else if self.peek_identifier().is_some() {
                // ALL_CAPS identifier followed by `=` is a class constant: `PI = 3.14`
                if self.is_constant_start() {
                    let n = self.peek_identifier().unwrap();
                    self.advance(); // consume name
                    self.advance(); // consume '='
                    let val = self.logical()?;
                    constants.push((n, Box::new(val)));
                } else {
                    return Err(
                        self.error_here(
                            "expected 'attr', 'abstract', 'class', 'def', 'defp', 'include', 'module', or 'self' in class body",
                        ),
                    );
                }
            } else if self.check(&TokenKind::Attr) {
                self.advance(); // consume 'attr'
                let field_name = match self.peek_identifier() {
                    Some(n) => {
                        self.advance();
                        n
                    },
                    None => {
                        return Err(self.error_here("expected field name after 'attr'"));
                    },
                };
                let type_ann = self.parse_type_ann()?;
                let default = if self.check(&TokenKind::Eq) {
                    self.advance();
                    Some(self.logical()?)
                } else {
                    None
                };
                fields.push(FieldDef { name: field_name, type_ann, default });
            } else if self.check(&TokenKind::Abstract) {
                self.advance(); // consume 'abstract'
                if !self.check(&TokenKind::Def) && !self.check(&TokenKind::Defp) {
                    return Err(
                        self.error_here("expected 'def' or 'defp' after 'abstract' in class body"),
                    );
                }
                let private = self.check(&TokenKind::Defp);
                methods.push(self.abstract_method_def(private)?);
            } else if self.check(&TokenKind::Def) || self.check(&TokenKind::Defp) {
                let private = self.check(&TokenKind::Defp);
                methods.push(self.method_def(private)?);
            } else if self.check(&TokenKind::SelfKw) {
                self.advance(); // consume `self`
                self.class_methods_block(&mut methods, "class body")?;
            } else {
                return Err(
                    self.error_here(
                        "expected 'attr', 'abstract', 'class', 'def', 'defp', 'include', 'module', or 'self' in class body",
                    ),
                );
            }
        }
        if !self.check(&TokenKind::RightBrace) {
            return Err(self.error_here("expected '}'"));
        }
        self.advance(); // consume '}'
        Ok(
            Expr::Class {
                name,
                type_params,
                superclass,
                is_abstract: class_is_abstract,
                is_module: false,
                includes,
                fields,
                methods,
                nested,
                constants,
            },
        )
    }

    /// The `else` part after an `if` / `elsif` branch, if any.
    fn else_part(&mut self) -> (res: Result<Option<Vec<Expr>>, SapphireError>)
        requires
            old(self).wf(),
        ensures
            final(self).follows(old(self)),
            res matches Err(e) ==> e is ParseError,
            res matches Ok(None) ==> {
                &&& forall|m: int| old(self).current <= m < final(self).current ==> terminator(#[trigger] final(self).tokens@[m].kind)
                &&& !terminator(final(self).tokens@[final(self).current as int].kind)
                &&& !(final(self).tokens@[final(self).current as int].kind is Elsif)
                &&& !(final(self).tokens@[final(self).current as int].kind is Else)
            },
            res matches Ok(Some(_)) ==> final(self).pos() > old(self).pos(),
            (old(self).tokens@[old(self).current as int].kind is Else && arith_block_at(old(self).tokens@, old(self).current + 1))
                ==> (res matches Ok(Some(v)) && v@ == seq![arith_tree(old(self).tokens@, old(self).current + 2)]
                && final(self).current == arith_block_end(old(self).tokens@, old(self).current + 1)),
        decreases old(self).rank(), old(self).remaining(), 6nat,
    {
        let ghost here = self.current as int;
        self.skip_terminators(); // allow elsif/else on the next line
        proof {
            if self.current != here {
                assert(terminator(self.tokens@[here].kind));
            }
        }
        if self.check(&TokenKind::Elsif) {
            let mut v = Vec::new();
            v.push(self.elsif_chain()?);
            Ok(Some(v))
        } else if self.check(&TokenKind::Else) {
            self.advance();
            Ok(Some(self.block()?))
        } else {
            Ok(None)
        }
    }

    fn if_expr(&mut self) -> (res: Result<Expr, SapphireError>)
        requires
            old(self).wf(),
            !old(self).at_eof(),
        ensures
            final(self).follows(old(self)),
            res is Ok ==> final(self).pos() > old(self).pos(),
            res matches Err(e) ==> e is ParseError,
            if_else_at(old(self).tokens@, old(self).current as int) ==> ({
                let ts = old(self).tokens@;
                let t = run_end(ts, old(self).current + 2);
                let e = arith_block_end(ts, t);
                &&& res matches Ok(Expr::If { condition, then_branch, else_branch: Some(es) })
                &&& *condition == arith_tree(ts, old(self).current + 1)
                &&& then_branch@ == seq![arith_tree(ts, t + 1)]
                &&& es@ == seq![arith_tree(ts, e + 2)]
                &&& final(self).current == arith_block_end(ts, e + 1)
            }),
        decreases old(self).rank(), old(self).remaining(), 10nat,
    {
        self.advance(); // consume 'if'
        self.allow_trailing_block = false;
        let condition = self.logical()?;
        self.allow_trailing_block = true;
        let then_branch = self.block()?;
        let else_branch = self.else_part()?;
        Ok(Expr::If { condition: Box::new(condition), then_branch, else_branch })
    }

    fn elsif_chain(&mut self) -> (res: Result<Expr, SapphireError>)
        requires
            old(self).wf(),
            !old(self).at_eof(),
        ensures
            final(self).follows(old(self)),
            res is Ok ==> final(self).pos() > old(self).pos(),
            res matches Err(e) ==> e is ParseError,
        decreases old(self).rank(), old(self).remaining(), 5nat,
    {
        self.advance(); // consume 'elsif'
        self.allow_trailing_block = false;
        let condition = self.logical()?;
        self.allow_trailing_block = true;
        let then_branch = self.block()?;
        let else_branch = self.else_part()?;
        Ok(Expr::If { condition: Box::new(condition), then_branch, else_branch })
    }

    /// A parenthesized parameter list `(a: T, b)`, if present.
    fn param_list(&mut self) -> (res: Result<Vec<ParamDef>, SapphireError>)
        requires
            old(self).wf(),
        ensures
            final(self).follows(old(self)),
            res matches Err(e) ==> e is ParseError,
            !(old(self).tokens@[old(self).current as int].kind is LeftParen) ==> (res matches Ok(v) && v@.len() == 0) && *final(self) == *old(self),
            old(self).tokens@[old(self).current as int].kind is LeftParen && res is Ok ==> final(self).pos() > old(self).pos() && final(self).tokens@[final(self).current - 1].kind is RightParen,
        decreases old(self).rank(), old(self).remaining(), 6nat,
    {
        let mut params = Vec::new();
        if self.check(&TokenKind::LeftParen) {
            assert(old(self).tokens@[old(self).current as int].kind is LeftParen);
            self.advance(); // consume '('
            if !self.check(&TokenKind::RightParen) {
                loop
                    invariant
                        self.follows(old(self)),
                old(self).tokens@[old(self).current as int].kind is LeftParen,
                        self.pos() > old(self).pos(),
                    decreases self.remaining(),
                {
                    match self.peek_identifier() {
                        Some(p) => {
                            self.advance();
                            let type_ann = self.parse_type_ann()?;
                            params.push(ParamDef { name: p, type_ann });
                        },
                        None => {
                            return Err(self.error_here("expected parameter name"));
                        },
                    }
                    if !self.check(&TokenKind::Comma) {
                        break;
                    }
                    self.advance();
                }
            }
            if !self.check(&TokenKind::RightParen) {
                return Err(self.error_here("expected ')' after parameters"));
            }
            assert(self.tokens@[self.current as int].kind is RightParen);
            self.advance(); // consume ')'
        }
        Ok(params)
    }

    fn function_def(&mut self) -> (res: Result<Expr, SapphireError>)
        requires
            old(self).wf(),
            !old(self).at_eof(),
        ensures
            final(self).follows(old(self)),
            res is Ok ==> final(self).pos() > old(self).pos(),
            res matches Err(e) ==> e is ParseError,
        decreases old(self).rank(), old(self).remaining(), 10nat,
    {
        self.advance(); // consume 'def'
        // Anonymous lambda: `def(params) { body }`
        if self.check(&TokenKind::LeftParen) {
            return self.lambda_def();
        }
        let name = match self.peek_identifier() {
            Some(n) => {
                self.advance();
                n
            },
            None => {
                return Err(self.error_here("expected function name or '(' after 'def'"));
            },
        };
        let type_params = self.parse_type_param_names()?;
        let params = self.param_list()?;
        let return_type = self.parse_return_type()?;
        let body = self.block_with_rescue()?;
        Ok(Expr::Function { name, type_params, params, return_type, body })
    }

    fn lambda_def(&mut self) -> (res: Result<Expr, SapphireError>)
        requires
            old(self).wf(),
            !old(self).at_eof(),
        ensures
            final(self).follows(old(self)),
            res is Ok ==> final(self).pos() > old(self).pos(),
            res matches Err(e) ==> e is ParseError,
        decreases old(self).rank(), old(self).remaining(), 5nat,
    {
        // `(` already peeked; `def` already consumed.
        self.advance(); // consume '('
        let mut params = Vec::new();
        if !self.check(&TokenKind::RightParen) {
            loop
                invariant
                    self.follows(old(self)),
                decreases self.remaining(),
            {
                match self.peek_identifier() {
                    Some(p) => {
                        self.advance();
                        params.push(p);
                    },
                    None => {
                        return Err(self.error_here("expected parameter name in lambda"));
                    },
                }
                if !self.check(&TokenKind::Comma) {
                    break;
                }
                self.advance();
            }
        }
        if !self.check(&TokenKind::RightParen) {
            return Err(self.error_here("expected ')' after lambda parameters"));
        }
        self.advance(); // consume ')'
        let body = self.block()?;
        Ok(Expr::Lambda { params, body })
    }

    fn method_def(&mut self, private: bool) -> (res: Result<MethodDef, SapphireError>)
        requires
            old(self).wf(),
            !old(self).at_eof(),
        ensures
            final(self).follows(old(self)),
            res is Ok ==> final(self).pos() > old(self).pos(),
            res matches Err(e) ==> e is ParseError,
        decreases old(self).rank(), old(self).remaining(), 5nat,
    {
        self.advance(); // consume 'def' or 'defp'
        let name = match self.peek_identifier() {
            Some(n) => {
                self.advance();
                n
            },
            None => {
                return Err(self.error_here("expected method name"));
            },
        };
        let type_params = self.parse_type_param_names()?;
        let params = self.param_list()?;
        let return_type = self.parse_return_type()?;
        let body = self.block_with_rescue()?;
        Ok(
            MethodDef {
                name,
                type_params,
                params,
                return_type,
                body,
                private,
                class_method: false,
                is_abstract: false,
            },
        )
    }

    fn abstract_method_def(&mut self, private: bool) -> (res: Result<MethodDef, SapphireError>)
        requires
            old(self).wf(),
            !old(self).at_eof(),
        ensures
            final(self).follows(old(self)),
            res is Ok ==> final(self).pos() > old(self).pos(),
            res matches Err(e) ==> e is ParseError,
        decreases old(self).rank(), old(self).remaining(), 5nat,
    {
        self.advance(); // consume 'def' or 'defp'
        let name = match self.peek_identifier() {
            Some(n) => {
                self.advance();
                n
            },
            None => {
                return Err(self.error_here("expected method name"));
            },
        };
        let type_params = self.parse_type_param_names()?;
        let params = self.param_list()?;
        let return_type = self.parse_return_type()?;
        Ok(
            MethodDef {
                name,
                type_params,
                params,
                return_type,
                body: Vec::new(),
                private,
                class_method: false,
                is_abstract: true,
            },
        )
    }

    fn interface_method_def(&mut self) -> (res: Result<MethodDef, SapphireError>)
        requires
            old(self).wf(),
            !old(self).at_eof(),
        ensures
            final(self).follows(old(self)),
            res is Ok ==> final(self).pos() > old(self).pos(),
            res matches Err(e) ==> e is ParseError,
        decreases old(self).rank(), old(self).remaining(), 5nat,
    {
        self.advance(); // consume 'def'
        let name = match self.peek_identifier() {
            Some(n) => {
                self.advance();
                n
            },
            None => {
                return Err(self.error_here("expected method name"));
            },
        };
        let type_params = self.parse_type_param_names()?;
        let params = self.param_list()?;
        let return_type = self.parse_return_type()?;
        Ok(
            MethodDef {
                name,
                type_params,
                params,
                return_type,
                body: Vec::new(),
                private: false,
                class_method: false,
                is_abstract: true,
            },
        )
    }

    fn while_statement(&mut self) -> (res: Result<Expr, SapphireError>)
        requires
            old(self).wf(),
            !old(self).at_eof(),
        ensures
            final(self).follows(old(self)),
            res is Ok ==> final(self).pos() > old(self).pos(),
            res matches Err(e) ==> e is ParseError,
        decreases old(self).rank(), old(self).remaining(), 10nat,
    {
        self.advance(); // consume 'while'
        self.allow_trailing_block = false;
        let condition = self.logical()?;
        self.allow_trailing_block = true;
        let body = self.block()?;
        Ok(Expr::While { condition: Box::new(condition), body })
    }

    fn multi_assign(&mut self) -> (res: Result<Expr, SapphireError>)
        requires
            old(self).wf(),
        ensures
            final(self).follows(old(self)),
            res is Ok ==> final(self).pos() > old(self).pos(),
            res matches Err(e) ==> e is ParseError,
        decreases old(self).rank(), old(self).remaining(), 10nat,
    {
        let mut names = Vec::new();
        loop
            invariant
                self.follows(old(self)),
                names@.len() > 0 ==> self.pos() > old(self).pos(),
            decreases self.remaining(),
        {
            match self.peek_identifier() {
                Some(n) => {
                    self.advance();
                    names.push(n);
                },
                None => {
                    return Err(self.error_here("expected identifier in multiple assignment"));
                },
            }
            if self.check(&TokenKind::Comma) {
                self.advance();
            } else {
                break;
            }
        }
        if !self.check(&TokenKind::Eq) {
            return Err(self.error_here("expected '=' in multiple assignment"));
        }
        self.advance(); // consume '='
        let mut values = Vec::new();
        loop
            invariant
                self.follows(old(self)),
                self.pos() > old(self).pos(),
            decreases self.remaining(),
        {
            values.push(self.logical()?);
            if self.check(&TokenKind::Comma) {
                self.advance();
            } else {
                break;
            }
        }
        Ok(Expr::MultiAssign { names, values })
    }

    /// Statements up to (not including) a token of one of the given variants
    /// or the end.
    fn statements_until(&mut self, stop1: &TokenKind, stop2: &TokenKind) -> (res: Result<Vec<Expr>, SapphireError>)
        requires
            old(self).wf(),
        ensures
            final(self).follows(old(self)),
            res matches Err(e) ==> e is ParseError,
            res is Ok ==> stops_at(final(self).tokens@[final(self).current as int].kind, *stop1, *stop2),
            (*stop1 is RightBrace && *stop2 is RightBrace && arith_at(old(self).tokens@, old(self).current as int) && run_end(
                old(self).tokens@,
                old(self).current + 1,
            ) < old(self).tokens@.len() && old(self).tokens@[run_end(old(self).tokens@, old(self).current + 1)].kind is RightBrace)
                ==> (res matches Ok(v) && v@ == seq![arith_tree(old(self).tokens@, old(self).current as int)]
                && final(self).current == run_end(old(self).tokens@, old(self).current + 1)),
        decreases old(self).rank(), old(self).remaining(), 61nat,
    {
        let ghost ts = self.tokens@;
        let ghost c0 = self.current as int;
        let ghost one = *stop1 is RightBrace && *stop2 is RightBrace && arith_at(ts, c0) && run_end(ts, c0 + 1) < ts.len()
            && ts[run_end(ts, c0 + 1)].kind is RightBrace;
        let mut body = Vec::new();
        loop
            invariant
                self.follows(old(self)),
                ts == old(self).tokens@,
                c0 == old(self).current,
                one == (*stop1 is RightBrace && *stop2 is RightBrace && arith_at(ts, c0) && run_end(ts, c0 + 1) < ts.len()
                    && ts[run_end(ts, c0 + 1)].kind is RightBrace),
                one ==> (body@.len() == 0 && self.current == c0) || (body@ == seq![arith_tree(ts, c0)] && self.current == run_end(
                    ts,
                    c0 + 1,
                )),
            ensures
                self.follows(old(self)),
                stops_at(self.tokens@[self.current as int].kind, *stop1, *stop2),
                one ==> body@ == seq![arith_tree(ts, c0)] && self.current == run_end(ts, c0 + 1),
            decreases self.remaining(),
        {
            let ghost here = self.current as int;
            self.skip_terminators();
            proof {
                if one && self.current != here {
                    assert(terminator(self.tokens@[here].kind));
                }
            }
            if self.check(stop1) || self.check(stop2) || self.is_at_end() {
                break;
            }
            body.push(self.statement()?);
        }
        Ok(body)
    }

    fn begin_expr(&mut self) -> (res: Result<Expr, SapphireError>)
        requires
            old(self).wf(),
            !old(self).at_eof(),
        ensures
            final(self).follows(old(self)),
            res is Ok ==> final(self).pos() > old(self).pos(),
            res matches Err(e) ==> e is ParseError,
        decreases old(self).rank(), old(self).remaining(), 10nat,
    {
        self.advance(); // consume 'begin'
        let body = self.statements_until(&TokenKind::Rescue, &TokenKind::End)?;
        let mut rescue_clauses = Vec::new();
        if self.check(&TokenKind::Rescue) {
            self.advance(); // consume 'rescue'
            let var = match self.peek_identifier() {
                Some(n) => {
                    self.advance();
                    Some(n)
                },
                None => None,
            };
            let rescue_body = self.statements_until(&TokenKind::Else, &TokenKind::End)?;
            rescue_clauses.push(RescueClause { var, type_ann: None, body: rescue_body });
        }
        let else_body = if self.check(&TokenKind::Else) {
            self.advance(); // consume 'else'
            self.statements_until(&TokenKind::End, &TokenKind::End)?
        } else {
            Vec::new()
        };
        if !self.check(&TokenKind::End) {
            return Err(self.error_here("expected 'end' to close 'begin'"));
        }
        self.advance(); // consume 'end'
        Ok(Expr::Begin { body, rescue_clauses, else_body, ensure_body: Vec::new() })
    }

    // Like block(), but wraps the body in Expr::Begin if a rescue clause is present.
    // Used by function and method definitions.
    fn block_with_rescue(&mut self) -> (res: Result<Vec<Expr>, SapphireError>)
        requires
            old(self).wf(),
        ensures
            final(self).follows(old(self)),
            res is Ok ==> final(self).pos() > old(self).pos(),
            res matches Err(e) ==> e is ParseError,
        decreases old(self).rank(), old(self).remaining(), 5nat,
    {
        if !self.check(&TokenKind::LeftBrace) {
            return Err(self.error_here("expected '{'"));
        }
        self.advance(); // consume '{'
        let body = self.statements_until(&TokenKind::Rescue, &TokenKind::RightBrace)?;
        if self.check(&TokenKind::Rescue) {
            self.advance(); // consume 'rescue'
            let rescue_var = match self.peek_identifier() {
                Some(n) => {
                    self.advance();
                    Some(n)
                },
                None => None,
            };
            let rescue_body = self.statements_until(&TokenKind::RightBrace, &TokenKind::RightBrace)?;
            if !self.check(&TokenKind::RightBrace) {
                return Err(self.error_here("expected '}'"));
            }
            self.advance(); // consume '}'
            let mut rescue_clauses = Vec::new();
            rescue_clauses.push(RescueClause { var: rescue_var, type_ann: None, body: rescue_body });
            let mut out = Vec::new();
            out.push(Expr::Begin { body, rescue_clauses, else_body: Vec::new(), ensure_body: Vec::new() });
            Ok(out)
        } else {
            if !self.check(&TokenKind::RightBrace) {
                return Err(self.error_here("expected '}'"));
            }
            self.advance(); // consume '}'
            Ok(body)
        }
    }

    fn block(&mut self) -> (res: Result<Vec<Expr>, SapphireError>)
        requires
            old(self).wf(),
        ensures
            final(self).follows(old(self)),
            res is Ok ==> final(self).pos() > old(self).pos(),
            res matches Err(e) ==> e is ParseError,
            arith_block_at(old(self).tokens@, old(self).current as int) ==> (res matches Ok(v) && v@ == seq![
                arith_tree(old(self).tokens@, old(self).current + 1),
            ] && final(self).current == arith_block_end(old(self).tokens@, old(self).current as int)),
        decreases old(self).rank(), old(self).remaining(), 5nat,
    {
        if !self.check(&TokenKind::LeftBrace) {
            return Err(self.error_here("expected '{'"));
        }
        self.advance(); // consume '{'
        let stmts = self.statements_until(&TokenKind::RightBrace, &TokenKind::RightBrace)?;
        if !self.check(&TokenKind::RightBrace) {
            return Err(self.error_here("expected '}'"));
        }
        self.advance(); // consume '}'
        Ok(stmts)
    }

    // logical: range (('&&' | '||') range)*
    fn logical(&mut self) -> (res: Result<Expr, SapphireError>)
        requires
            old(self).wf(),
        ensures
            final(self).follows(old(self)),
            res is Ok ==> final(self).pos() > old(self).pos(),
            res matches Err(e) ==> e is ParseError,
            lit_then_stop(old(self).tokens@, old(self).current as int) ==> res == Ok::<Expr, SapphireError>(Expr::Literal(token_literal(old(self).tokens@[old(self).current as int].kind)->Some_0))
                && final(self).current == old(self).current + 1,
            arith_at(old(self).tokens@, old(self).current as int) ==> res == Ok::<Expr, SapphireError>(arith_tree(old(self).tokens@, old(self).current as int))
                && final(self).current == run_end(old(self).tokens@, old(self).current as int + 1) && stop_tok(final(self).tokens@[final(self).current as int].kind),
            assign_at(old(self).tokens@, old(self).current as int) ==> res == Ok::<Expr, SapphireError>(assign_tree(old(self).tokens@, old(self).current as int))
                && final(self).current == run_end(old(self).tokens@, old(self).current as int + 3) && stop_tok(final(self).tokens@[final(self).current as int].kind),
        decreases old(self).rank(), old(self).remaining(), 40nat,
    {
        if self.check(&TokenKind::If) {
            return self.if_expr();
        }
        if self.check(&TokenKind::Begin) {
            return self.begin_expr();
        }
        if self.check(&TokenKind::While) {
            return self.while_statement();
        }
        let mut left = self.range()?;
        while self.check(&TokenKind::AmpAmp) || self.check(&TokenKind::PipePipe)
            invariant
                self.follows(old(self)),
                assign_at(old(self).tokens@, old(self).current as int) ==> left == assign_tree(old(self).tokens@, old(self).current as int) && self.current == run_end(old(self).tokens@, old(self).current as int + 3) && stop_tok(self.tokens@[self.current as int].kind),
                arith_at(old(self).tokens@, old(self).current as int) ==> left == arith_tree(old(self).tokens@, old(self).current as int) && self.current == run_end(old(self).tokens@, old(self).current as int + 1) && stop_tok(self.tokens@[self.current as int].kind),
                lit_then_stop(old(self).tokens@, old(self).current as int) ==> left == Expr::Literal(token_literal(old(self).tokens@[old(self).current as int].kind)->Some_0) && self.current == old(self).current + 1,
                self.pos() > old(self).pos(),
            decreases self.remaining(),
        {
            let op = self.advance_token();
            let right = self.range()?;
            left = Expr::Binary { left: Box::new(left), op, right: Box::new(right) };
        }
        Ok(left)
    }

    // range: bitwise_or ('..' bitwise_or)?
    fn range(&mut self) -> (res: Result<Expr, SapphireError>)
        requires
            old(self).wf(),
        ensures
            final(self).follows(old(self)),
            res is Ok ==> final(self).pos() > old(self).pos(),
            res matches Err(e) ==> e is ParseError,
            lit_then_stop(old(self).tokens@, old(self).current as int) ==> res == Ok::<Expr, SapphireError>(Expr::Literal(token_literal(old(self).tokens@[old(self).current as int].kind)->Some_0))
                && final(self).current == old(self).current + 1,
            arith_at(old(self).tokens@, old(self).current as int) ==> res == Ok::<Expr, SapphireError>(arith_tree(old(self).tokens@, old(self).current as int))
                && final(self).current == run_end(old(self).tokens@, old(self).current as int + 1) && stop_tok(final(self).tokens@[final(self).current as int].kind),
            assign_at(old(self).tokens@, old(self).current as int) ==> res == Ok::<Expr, SapphireError>(assign_tree(old(self).tokens@, old(self).current as int))
                && final(self).current == run_end(old(self).tokens@, old(self).current as int + 3) && stop_tok(final(self).tokens@[final(self).current as int].kind),
        decreases old(self).rank(), old(self).remaining(), 39nat,
    {
        let left = self.bitwise_or()?;
        if self.check(&TokenKind::DotDot) {
            self.advance();
            let right = self.bitwise_or()?;
            return Ok(Expr::Range { from: Box::new(left), to: Box::new(right) });
        }
        Ok(left)
    }

    // bitwise_or: bitwise_xor ('|' bitwise_xor)*
    fn bitwise_or(&mut self) -> (res: Result<Expr, SapphireError>)
        requires
            old(self).wf(),
        ensures
            final(self).follows(old(self)),
            res is Ok ==> final(self).pos() > old(self).pos(),
            res matches Err(e) ==> e is ParseError,
            lit_then_stop(old(self).tokens@, old(self).current as int) ==> res == Ok::<Expr, SapphireError>(Expr::Literal(token_literal(old(self).tokens@[old(self).current as int].kind)->Some_0))
                && final(self).current == old(self).current + 1,
            arith_at(old(self).tokens@, old(self).current as int) ==> res == Ok::<Expr, SapphireError>(arith_tree(old(self).tokens@, old(self).current as int))
                && final(self).current == run_end(old(self).tokens@, old(self).current as int + 1) && stop_tok(final(self).tokens@[final(self).current as int].kind),
            assign_at(old(self).tokens@, old(self).current as int) ==> res == Ok::<Expr, SapphireError>(assign_tree(old(self).tokens@, old(self).current as int))
                && final(self).current == run_end(old(self).tokens@, old(self).current as int + 3) && stop_tok(final(self).tokens@[final(self).current as int].kind),
        decreases old(self).rank(), old(self).remaining(), 38nat,
    {
        let mut left = self.bitwise_xor()?;
        while self.check(&TokenKind::Pipe)
            invariant
                self.follows(old(self)),
                assign_at(old(self).tokens@, old(self).current as int) ==> left == assign_tree(old(self).tokens@, old(self).current as int) && self.current == run_end(old(self).tokens@, old(self).current as int + 3) && stop_tok(self.tokens@[self.current as int].kind),
                arith_at(old(self).tokens@, old(self).current as int) ==> left == arith_tree(old(self).tokens@, old(self).current as int) && self.current == run_end(old(self).tokens@, old(self).current as int + 1) && stop_tok(self.tokens@[self.current as int].kind),
                lit_then_stop(old(self).tokens@, old(self).current as int) ==> left == Expr::Literal(token_literal(old(self).tokens@[old(self).current as int].kind)->Some_0) && self.current == old(self).current + 1,
                self.pos() > old(self).pos(),
            decreases self.remaining(),
        {
            let op = self.advance_token();
            let right = self.bitwise_xor()?;
            left = Expr::Binary { left: Box::new(left), op, right: Box::new(right) };
        }
        Ok(left)
    }

    // bitwise_xor: bitwise_and ('^' bitwise_and)*
    fn bitwise_xor(&mut self) -> (res: Result<Expr, SapphireError>)
        requires
            old(self).wf(),
        ensures
            final(self).follows(old(self)),
            res is Ok ==> final(self).pos() > old(self).pos(),
            res matches Err(e) ==> e is ParseError,
            lit_then_stop(old(self).tokens@, old(self).current as int) ==> res == Ok::<Expr, SapphireError>(Expr::Literal(token_literal(old(self).tokens@[old(self).current as int].kind)->Some_0))
                && final(self).current == old(self).current + 1,
            arith_at(old(self).tokens@, old(self).current as int) ==> res == Ok::<Expr, SapphireError>(arith_tree(old(self).tokens@, old(self).current as int))
                && final(self).current == run_end(old(self).tokens@, old(self).current as int + 1) && stop_tok(final(self).tokens@[final(self).current as int].kind),
            assign_at(old(self).tokens@, old(self).current as int) ==> res == Ok::<Expr, SapphireError>(assign_tree(old(self).tokens@, old(self).current as int))
                && final(self).current == run_end(old(self).tokens@, old(self).current as int + 3) && stop_tok(final(self).tokens@[final(self).current as int].kind),
        decreases old(self).rank(), old(self).remaining(), 37nat,
    {
        let mut left = self.bitwise_and()?;
        while self.check(&TokenKind::Caret)
            invariant
                self.follows(old(self)),
                assign_at(old(self).tokens@, old(self).current as int) ==> left == assign_tree(old(self).tokens@, old(self).current as int) && self.current == run_end(old(self).tokens@, old(self).current as int + 3) && stop_tok(self.tokens@[self.current as int].kind),
                arith_at(old(self).tokens@, old(self).current as int) ==> left == arith_tree(old(self).tokens@, old(self).current as int) && self.current == run_end(old(self).tokens@, old(self).current as int + 1) && stop_tok(self.tokens@[self.current as int].kind),
                lit_then_stop(old(self).tokens@, old(self).current as int) ==> left == Expr::Literal(token_literal(old(self).tokens@[old(self).current as int].kind)->Some_0) && self.current == old(self).current + 1,
                self.pos() > old(self).pos(),
            decreases self.remaining(),
        {
            let op = self.advance_token();
            let right = self.bitwise_and()?;
            left = Expr::Binary { left: Box::new(left), op, right: Box::new(right) };
        }
        Ok(left)
    }

    // bitwise_and: equality ('&' equality)*
    fn bitwise_and(&mut self) -> (res: Result<Expr, SapphireError>)
        requires
            old(self).wf(),
        ensures
            final(self).follows(old(self)),
            res is Ok ==> final(self).pos() > old(self).pos(),
            res matches Err(e) ==> e is ParseError,
            lit_then_stop(old(self).tokens@, old(self).current as int) ==> res == Ok::<Expr, SapphireError>(Expr::Literal(token_literal(old(self).tokens@[old(self).current as int].kind)->Some_0))
                && final(self).current == old(self).current + 1,
            arith_at(old(self).tokens@, old(self).current as int) ==> res == Ok::<Expr, SapphireError>(arith_tree(old(self).tokens@, old(self).current as int))
                && final(self).current == run_end(old(self).tokens@, old(self).current as int + 1) && stop_tok(final(self).tokens@[final(self).current as int].kind),
            assign_at(old(self).tokens@, old(self).current as int) ==> res == Ok::<Expr, SapphireError>(assign_tree(old(self).tokens@, old(self).current as int))
                && final(self).current == run_end(old(self).tokens@, old(self).current as int + 3) && stop_tok(final(self).tokens@[final(self).current as int].kind),
        decreases old(self).rank(), old(self).remaining(), 36nat,
    {
        let mut left = self.equality()?;
        while self.check(&TokenKind::Amp)
            invariant
                self.follows(old(self)),
                assign_at(old(self).tokens@, old(self).current as int) ==> left == assign_tree(old(self).tokens@, old(self).current as int) && self.current == run_end(old(self).tokens@, old(self).current as int + 3) && stop_tok(self.tokens@[self.current as int].kind),
                arith_at(old(self).tokens@, old(self).current as int) ==> left == arith_tree(old(self).tokens@, old(self).current as int) && self.current == run_end(old(self).tokens@, old(self).current as int + 1) && stop_tok(self.tokens@[self.current as int].kind),
                lit_then_stop(old(self).tokens@, old(self).current as int) ==> left == Expr::Literal(token_literal(old(self).tokens@[old(self).current as int].kind)->Some_0) && self.current == old(self).current + 1,
                self.pos() > old(self).pos(),
            decreases self.remaining(),
        {
            let op = self.advance_token();
            let right = self.equality()?;
            left = Expr::Binary { left: Box::new(left), op, right: Box::new(right) };
        }
        Ok(left)
    }

    // equality: comparison (('==' | '!=') comparison)*
    fn equality(&mut self) -> (res: Result<Expr, SapphireError>)
        requires
            old(self).wf(),
        ensures
            final(self).follows(old(self)),
            res is Ok ==> final(self).pos() > old(self).pos(),
            res matches Err(e) ==> e is ParseError,
            lit_then_stop(old(self).tokens@, old(self).current as int) ==> res == Ok::<Expr, SapphireError>(Expr::Literal(token_literal(old(self).tokens@[old(self).current as int].kind)->Some_0))
                && final(self).current == old(self).current + 1,
            arith_at(old(self).tokens@, old(self).current as int) ==> res == Ok::<Expr, SapphireError>(arith_tree(old(self).tokens@, old(self).current as int))
                && final(self).current == run_end(old(self).tokens@, old(self).current as int + 1) && stop_tok(final(self).tokens@[final(self).current as int].kind),
            assign_at(old(self).tokens@, old(self).current as int) ==> res == Ok::<Expr, SapphireError>(assign_tree(old(self).tokens@, old(self).current as int))
                && final(self).current == run_end(old(self).tokens@, old(self).current as int + 3) && stop_tok(final(self).tokens@[final(self).current as int].kind),
            eql_at(old(self).tokens@, old(self).current as int) ==> res == Ok::<Expr, SapphireError>(eql_from(
                old(self).tokens@,
                lit_expr(old(self).tokens@, old(self).current as int),
                old(self).current + 1,
            )) && final(self).current == eql_end(old(self).tokens@, old(self).current + 1),
        decreases old(self).rank(), old(self).remaining(), 35nat,
    {
        let mut left = self.comparison()?;
        while self.check(&TokenKind::EqEq) || self.check(&TokenKind::BangEq)
            invariant
                self.follows(old(self)),
                eql_at(old(self).tokens@, old(self).current as int) ==> eql_from(
                    old(self).tokens@,
                    lit_expr(old(self).tokens@, old(self).current as int),
                    old(self).current + 1,
                ) == eql_from(old(self).tokens@, left, self.current as int) && eql_ok(old(self).tokens@, self.current as int)
                    && eql_end(old(self).tokens@, old(self).current + 1) == eql_end(old(self).tokens@, self.current as int),
                assign_at(old(self).tokens@, old(self).current as int) ==> left == assign_tree(old(self).tokens@, old(self).current as int) && self.current == run_end(old(self).tokens@, old(self).current as int + 3) && stop_tok(self.tokens@[self.current as int].kind),
                arith_at(old(self).tokens@, old(self).current as int) ==> left == arith_tree(old(self).tokens@, old(self).current as int) && self.current == run_end(old(self).tokens@, old(self).current as int + 1) && stop_tok(self.tokens@[self.current as int].kind),
                lit_then_stop(old(self).tokens@, old(self).current as int) ==> left == Expr::Literal(token_literal(old(self).tokens@[old(self).current as int].kind)->Some_0) && self.current == old(self).current + 1,
                self.pos() > old(self).pos(),
            decreases self.remaining(),
        {
            let ghost c = self.current as int;
            proof {
                if eql_at(old(self).tokens@, old(self).current as int) {
                    assert(eql_tok(self.tokens@[c].kind));
                    assert(lit_then_eql(old(self).tokens@, c + 1));
                }
            }
            let op = self.advance_token();
            let right = self.comparison()?;
            left = Expr::Binary { left: Box::new(left), op, right: Box::new(right) };
        }
        Ok(left)
    }

    // comparison: shift (('<' | '<=' | '>' | '>=') shift)*
    fn comparison(&mut self) -> (res: Result<Expr, SapphireError>)
        requires
            old(self).wf(),
        ensures
            final(self).follows(old(self)),
            res is Ok ==> final(self).pos() > old(self).pos(),
            res matches Err(e) ==> e is ParseError,
            lit_then_stop(old(self).tokens@, old(self).current as int) ==> res == Ok::<Expr, SapphireError>(Expr::Literal(token_literal(old(self).tokens@[old(self).current as int].kind)->Some_0))
                && final(self).current == old(self).current + 1,
            arith_at(old(self).tokens@, old(self).current as int) ==> res == Ok::<Expr, SapphireError>(arith_tree(old(self).tokens@, old(self).current as int))
                && final(self).current == run_end(old(self).tokens@, old(self).current as int + 1) && stop_tok(final(self).tokens@[final(self).current as int].kind),
            assign_at(old(self).tokens@, old(self).current as int) ==> res == Ok::<Expr, SapphireError>(assign_tree(old(self).tokens@, old(self).current as int))
                && final(self).current == run_end(old(self).tokens@, old(self).current as int + 3) && stop_tok(final(self).tokens@[final(self).current as int].kind),
            rel_at(old(self).tokens@, old(self).current as int) ==> res == Ok::<Expr, SapphireError>(rel_from(
                old(self).tokens@,
                lit_expr(old(self).tokens@, old(self).current as int),
                old(self).current + 1,
            )) && final(self).current == rel_end(old(self).tokens@, old(self).current + 1),
            lit_then_eql(old(self).tokens@, old(self).current as int) ==> res == Ok::<Expr, SapphireError>(lit_expr(old(self).tokens@, old(self).current as int))
                && final(self).current == old(self).current + 1,
        decreases old(self).rank(), old(self).remaining(), 34nat,
    {
        let mut left = self.shift()?;
        while self.check(&TokenKind::Less) || self.check(&TokenKind::LessEq) || self.check(&TokenKind::Greater) || self.check(&TokenKind::GreaterEq)
            invariant
                self.follows(old(self)),
                lit_then_eql(old(self).tokens@, old(self).current as int) ==> left == lit_expr(old(self).tokens@, old(self).current as int) && self.current == old(self).current + 1,
                rel_at(old(self).tokens@, old(self).current as int) ==> rel_from(
                    old(self).tokens@,
                    lit_expr(old(self).tokens@, old(self).current as int),
                    old(self).current + 1,
                ) == rel_from(old(self).tokens@, left, self.current as int) && rel_ok(old(self).tokens@, self.current as int)
                    && rel_end(old(self).tokens@, old(self).current + 1) == rel_end(old(self).tokens@, self.current as int),
                assign_at(old(self).tokens@, old(self).current as int) ==> left == assign_tree(old(self).tokens@, old(self).current as int) && self.current == run_end(old(self).tokens@, old(self).current as int + 3) && stop_tok(self.tokens@[self.current as int].kind),
                arith_at(old(self).tokens@, old(self).current as int) ==> left == arith_tree(old(self).tokens@, old(self).current as int) && self.current == run_end(old(self).tokens@, old(self).current as int + 1) && stop_tok(self.tokens@[self.current as int].kind),
                lit_then_stop(old(self).tokens@, old(self).current as int) ==> left == Expr::Literal(token_literal(old(self).tokens@[old(self).current as int].kind)->Some_0) && self.current == old(self).current + 1,
                self.pos() > old(self).pos(),
            decreases self.remaining(),
        {
            let ghost c = self.current as int;
            proof {
                if rel_at(old(self).tokens@, old(self).current as int) {
                    assert(rel_tok(self.tokens@[c].kind));
                    assert(lit_then_rel(old(self).tokens@, c + 1));
                }
            }
            let op = self.advance_token();
            let right = self.shift()?;
            left = Expr::Binary { left: Box::new(left), op, right: Box::new(right) };
        }
        Ok(left)
    }

    // shift: term (('<<' | '>>') term)*
    fn shift(&mut self) -> (res: Result<Expr, SapphireError>)
        requires
            old(self).wf(),
        ensures
            final(self).follows(old(self)),
            res is Ok ==> final(self).pos() > old(self).pos(),
            res matches Err(e) ==> e is ParseError,
            lit_then_stop(old(self).tokens@, old(self).current as int) ==> res == Ok::<Expr, SapphireError>(Expr::Literal(token_literal(old(self).tokens@[old(self).current as int].kind)->Some_0))
                && final(self).current == old(self).current + 1,
            arith_at(old(self).tokens@, old(self).current as int) ==> res == Ok::<Expr, SapphireError>(arith_tree(old(self).tokens@, old(self).current as int))
                && final(self).current == run_end(old(self).tokens@, old(self).current as int + 1) && stop_tok(final(self).tokens@[final(self).current as int].kind),
            assign_at(old(self).tokens@, old(self).current as int) ==> res == Ok::<Expr, SapphireError>(assign_tree(old(self).tokens@, old(self).current as int))
                && final(self).current == run_end(old(self).tokens@, old(self).current as int + 3) && stop_tok(final(self).tokens@[final(self).current as int].kind),
            lit_then_rel(old(self).tokens@, old(self).current as int) ==> res == Ok::<Expr, SapphireError>(lit_expr(old(self).tokens@, old(self).current as int))
                && final(self).current == old(self).current + 1,
        decreases old(self).rank(), old(self).remaining(), 33nat,
    {
        let mut left = self.term()?;
        while self.check(&TokenKind::LessLess) || self.check(&TokenKind::GreaterGreater)
            invariant
                self.follows(old(self)),
                lit_then_rel(old(self).tokens@, old(self).current as int) ==> left == lit_expr(old(self).tokens@, old(self).current as int) && self.current == old(self).current + 1,
                assign_at(old(self).tokens@, old(self).current as int) ==> left == assign_tree(old(self).tokens@, old(self).current as int) && self.current == run_end(old(self).tokens@, old(self).current as int + 3) && stop_tok(self.tokens@[self.current as int].kind),
                arith_at(old(self).tokens@, old(self).current as int) ==> left == arith_tree(old(self).tokens@, old(self).current as int) && self.current == run_end(old(self).tokens@, old(self).current as int + 1) && stop_tok(self.tokens@[self.current as int].kind),
                lit_then_stop(old(self).tokens@, old(self).current as int) ==> left == Expr::Literal(token_literal(old(self).tokens@[old(self).current as int].kind)->Some_0) && self.current == old(self).current + 1,
                self.pos() > old(self).pos(),
            decreases self.remaining(),
        {
            let op = self.advance_token();
            let right = self.term()?;
            left = Expr::Binary { left: Box::new(left), op, right: Box::new(right) };
        }
        Ok(left)
    }

    // term: factor (('+' | '-') factor)*
    fn term(&mut self) -> (res: Result<Expr, SapphireError>)
        requires
            old(self).wf(),
        ensures
            final(self).follows(old(self)),
            res is Ok ==> final(self).pos() > old(self).pos(),
            res matches Err(e) ==> e is ParseError,
            lit_then_stop(old(self).tokens@, old(self).current as int) ==> res == Ok::<Expr, SapphireError>(Expr::Literal(token_literal(old(self).tokens@[old(self).current as int].kind)->Some_0))
                && final(self).current == old(self).current + 1,
            arith_at(old(self).tokens@, old(self).current as int) ==> res == Ok::<Expr, SapphireError>(arith_tree(old(self).tokens@, old(self).current as int))
                && final(self).current == run_end(old(self).tokens@, old(self).current as int + 1) && stop_tok(final(self).tokens@[final(self).current as int].kind),
            assign_at(old(self).tokens@, old(self).current as int) ==> res == Ok::<Expr, SapphireError>(assign_tree(old(self).tokens@, old(self).current as int))
                && final(self).current == run_end(old(self).tokens@, old(self).current as int + 3) && stop_tok(final(self).tokens@[final(self).current as int].kind),
            lit_then_rel(old(self).tokens@, old(self).current as int) ==> res == Ok::<Expr, SapphireError>(lit_expr(old(self).tokens@, old(self).current as int))
                && final(self).current == old(self).current + 1,
        decreases old(self).rank(), old(self).remaining(), 32nat,
    {
        let mut left = self.factor()?;
        proof {
            if arith_at(old(self).tokens@, old(self).current as int) {
                lemma_skip_product(old(self).tokens@, None, lit_expr(old(self).tokens@, old(self).current as int), old(self).current as int + 1);
                lemma_mul_end(old(self).tokens@, old(self).current as int + 1);
            }
        }
        while self.check(&TokenKind::Plus) || self.check(&TokenKind::Minus)
            invariant
                self.follows(old(self)),
                lit_then_rel(old(self).tokens@, old(self).current as int) ==> left == lit_expr(old(self).tokens@, old(self).current as int) && self.current == old(self).current + 1,
                assign_at(old(self).tokens@, old(self).current as int) ==> left == assign_tree(old(self).tokens@, old(self).current as int) && self.current == run_end(old(self).tokens@, old(self).current as int + 3) && stop_tok(self.tokens@[self.current as int].kind),
                arith_at(old(self).tokens@, old(self).current as int) ==> arith_tree(old(self).tokens@, old(self).current as int) == sum_from(old(self).tokens@, None, left, self.current as int)
                    && run_ok(old(self).tokens@, self.current as int) && !mul_tok(old(self).tokens@[self.current as int].kind) && run_end(
                    old(self).tokens@,
                    old(self).current as int + 1,
                ) == run_end(old(self).tokens@, self.current as int),
                lit_then_stop(old(self).tokens@, old(self).current as int) ==> left == Expr::Literal(token_literal(old(self).tokens@[old(self).current as int].kind)->Some_0) && self.current == old(self).current + 1,
                self.pos() > old(self).pos(),
            decreases self.remaining(),
        {
            let ghost c = self.current as int;
            let ghost l0 = left;
            let op = self.advance_token();
            let right = self.factor()?;
            proof {
                if arith_at(old(self).tokens@, old(self).current as int) {
                    lemma_skip_product(old(self).tokens@, Some((l0, op)), lit_expr(old(self).tokens@, c + 1), c + 2);
                    lemma_mul_end(old(self).tokens@, c + 2);
                    lemma_fold_sum(old(self).tokens@, l0, op, right, self.current as int);
                }
            }
            left = Expr::Binary { left: Box::new(left), op, right: Box::new(right) };
        }
        Ok(left)
    }

    // factor: unary (('*' | '/' | '%') unary)*
    fn factor(&mut self) -> (res: Result<Expr, SapphireError>)
        requires
            old(self).wf(),
        ensures
            final(self).follows(old(self)),
            res is Ok ==> final(self).pos() > old(self).pos(),
            res matches Err(e) ==> e is ParseError,
            lit_then_stop(old(self).tokens@, old(self).current as int) ==> res == Ok::<Expr, SapphireError>(Expr::Literal(token_literal(old(self).tokens@[old(self).current as int].kind)->Some_0))
                && final(self).current == old(self).current + 1,
            arith_at(old(self).tokens@, old(self).current as int) ==> res == Ok::<Expr, SapphireError>(product_from(old(self).tokens@, lit_expr(old(self).tokens@, old(self).current as int), old(self).current as int + 1))
                && final(self).current == mul_end(old(self).tokens@, old(self).current as int + 1),
            assign_at(old(self).tokens@, old(self).current as int) ==> res == Ok::<Expr, SapphireError>(assign_tree(old(self).tokens@, old(self).current as int))
                && final(self).current == run_end(old(self).tokens@, old(self).current as int + 3) && stop_tok(final(self).tokens@[final(self).current as int].kind),
            lit_then_rel(old(self).tokens@, old(self).current as int) ==> res == Ok::<Expr, SapphireError>(lit_expr(old(self).tokens@, old(self).current as int))
                && final(self).current == old(self).current + 1,
        decreases old(self).rank(), old(self).remaining(), 31nat,
    {
        proof {
            if arith_at(old(self).tokens@, old(self).current as int) {
                assert(lit_then_follow(old(self).tokens@, old(self).current as int));
            }
        }
        let mut left = self.unary()?;
        while self.check(&TokenKind::Star) || self.check(&TokenKind::Slash) || self.check(&TokenKind::Percent)
            invariant
                self.follows(old(self)),
                lit_then_rel(old(self).tokens@, old(self).current as int) ==> left == lit_expr(old(self).tokens@, old(self).current as int) && self.current == old(self).current + 1,
                assign_at(old(self).tokens@, old(self).current as int) ==> left == assign_tree(old(self).tokens@, old(self).current as int) && self.current == run_end(old(self).tokens@, old(self).current as int + 3) && stop_tok(self.tokens@[self.current as int].kind),
                arith_at(old(self).tokens@, old(self).current as int) ==> product_from(old(self).tokens@, lit_expr(old(self).tokens@, old(self).current as int), old(self).current as int + 1) == product_from(
                    old(self).tokens@,
                    left,
                    self.current as int,
                ) && mul_end(old(self).tokens@, old(self).current as int + 1) == mul_end(old(self).tokens@, self.current as int) && run_ok(old(self).tokens@, self.current as int),
                lit_then_stop(old(self).tokens@, old(self).current as int) ==> left == Expr::Literal(token_literal(old(self).tokens@[old(self).current as int].kind)->Some_0) && self.current == old(self).current + 1,
                self.pos() > old(self).pos(),
            decreases self.remaining(),
        {
            let ghost c = self.current as int;
            proof {
                if arith_at(old(self).tokens@, old(self).current as int) {
                    assert(mul_tok(old(self).tokens@[c].kind));
                    assert(c + 2 < old(self).tokens@.len() && lit_tok(old(self).tokens@, c + 1) && run_ok(old(self).tokens@, c + 2));
                    assert(lit_then_follow(old(self).tokens@, c + 1));
                }
            }
            let op = self.advance_token();
            let right = self.unary()?;
            left = Expr::Binary { left: Box::new(left), op, right: Box::new(right) };
        }
        Ok(left)
    }


    // unary: ('!' | '-' | '~') unary | call
    fn unary(&mut self) -> (res: Result<Expr, SapphireError>)
        requires
            old(self).wf(),
        ensures
            final(self).follows(old(self)),
            res is Ok ==> final(self).pos() > old(self).pos(),
            res matches Err(e) ==> e is ParseError,
            lit_then_follow(old(self).tokens@, old(self).current as int) ==> res == Ok::<Expr, SapphireError>(Expr::Literal(token_literal(old(self).tokens@[old(self).current as int].kind)->Some_0))
                && final(self).current == old(self).current + 1,
            assign_at(old(self).tokens@, old(self).current as int) ==> res == Ok::<Expr, SapphireError>(assign_tree(old(self).tokens@, old(self).current as int))
                && final(self).current == run_end(old(self).tokens@, old(self).current as int + 3) && stop_tok(final(self).tokens@[final(self).current as int].kind),
        decreases old(self).rank(), old(self).remaining(), 30nat,
    {
        if self.check(&TokenKind::Bang) || self.check(&TokenKind::Minus) || self.check(
            &TokenKind::Tilde,
        ) {
            let op = self.advance_token();
            let right = self.unary()?;
            return Ok(Expr::Unary { op, right: Box::new(right) });
        }
        self.call()
    }

    /// The name after `.`: an identifier, or the keyword `class`.
    fn member_name(&mut self) -> (r: Option<String>)
        requires
            old(self).wf(),
        ensures
            final(self).follows(old(self)),
            r is Some ==> final(self).pos() > old(self).pos(),
            match r {
                Some(n) => {
                    &&& final(self).current == old(self).current + 1
                    &&& match old(self).tokens@[old(self).current as int].kind {
                        TokenKind::Identifier(x) => n@ == x@,
                        TokenKind::Class => n@ == "class"@,
                        _ => false,
                    }
                },
                None => {
                    &&& *final(self) == *old(self)
                    &&& !(old(self).tokens@[old(self).current as int].kind is Identifier)
                    &&& !(old(self).tokens@[old(self).current as int].kind is Class)
                },
            },
            final(self).allow_trailing_block == old(self).allow_trailing_block,
    {
        match self.peek_identifier() {
            Some(n) => {
                self.advance();
                Some(n)
            },
            None => {
                if self.check(&TokenKind::Class) {
                    self.advance();
                    Some(String::from_str("class"))
                } else {
                    None
                }
            },
        }
    }

    // call: primary ('(' args ')' | '.' IDENTIFIER)*
    fn call(&mut self) -> (res: Result<Expr, SapphireError>)
        requires
            old(self).wf(),
        ensures
            final(self).follows(old(self)),
            res is Ok ==> final(self).pos() > old(self).pos(),
            res matches Err(e) ==> e is ParseError,
            lit_then_follow(old(self).tokens@, old(self).current as int) ==> res == Ok::<Expr, SapphireError>(Expr::Literal(token_literal(old(self).tokens@[old(self).current as int].kind)->Some_0))
                && final(self).current == old(self).current + 1,
            assign_at(old(self).tokens@, old(self).current as int) ==> res == Ok::<Expr, SapphireError>(assign_tree(old(self).tokens@, old(self).current as int))
                && final(self).current == run_end(old(self).tokens@, old(self).current as int + 3) && stop_tok(final(self).tokens@[final(self).current as int].kind),
        decreases old(self).rank(), old(self).remaining(), 29nat,
    {
        let mut expr = self.primary()?;
        loop
            invariant
                self.follows(old(self)),
                assign_at(old(self).tokens@, old(self).current as int) ==> expr == assign_tree(old(self).tokens@, old(self).current as int) && self.current == run_end(old(self).tokens@, old(self).current as int + 3) && stop_tok(self.tokens@[self.current as int].kind),
                lit_then_follow(old(self).tokens@, old(self).current as int) ==> expr == Expr::Literal(token_literal(old(self).tokens@[old(self).current as int].kind)->Some_0) && self.current == old(self).current + 1,
                self.pos() > old(self).pos(),
            decreases self.remaining(),
        {
            // Allow method chaining across newlines: `.map { |n| n * 2 }\n  .each { ... }`
            if self.check(&TokenKind::Newline) && self.next_non_newline_is_dot() {
                self.skip_terminators();
            }
            if self.check(&TokenKind::LeftParen) {
                expr = self.finish_call(expr)?;
            } else if self.check(&TokenKind::Dot) {
                self.advance(); // consume '.'
                let dot_line = self.peek().line;
                let name = match self.member_name() {
                    Some(n) => n,
                    None => {
                        return Err(self.error_here("expected field or method name after '.'"));
                    },
                };
                if self.check(&TokenKind::Eq) {
                    self.advance(); // consume '='
                    let value = self.logical()?;
                    expr = Expr::SetAttr { object: Box::new(expr), name, value: Box::new(value) };
                    break;
                }
                if self.allow_trailing_block && self.is_block_start() {
                    let block = self.parse_block()?;
                    let get = Expr::Get { object: Box::new(expr), name, line: dot_line };
                    expr = Expr::Call { callee: Box::new(get), args: Vec::new(), block };
                    continue;
                }
                let get = Expr::Get { object: Box::new(expr), name, line: dot_line };
                if self.check(&TokenKind::LeftParen) {
                    expr = self.finish_call(get)?;
                } else {
                    expr = Expr::Call { callee: Box::new(get), args: Vec::new(), block: None };
                }
            } else if self.check(&TokenKind::AmpDot) {
                self.advance(); // consume '&.'
                let amp_line = self.peek().line;
                let name = match self.peek_identifier() {
                    Some(n) => {
                        self.advance();
                        n
                    },
                    None => {
                        return Err(self.error_here("expected method or field name after '&.'"));
                    },
                };
                if self.check(&TokenKind::LeftParen) {
                    let safe_get = Expr::SafeGet { object: Box::new(expr), name, line: amp_line };
                    let call = self.finish_call(safe_get)?;
                    expr = call;
                } else {
                    expr = Expr::SafeGet { object: Box::new(expr), name, line: amp_line };
                }
            } else if self.check(&TokenKind::LeftBracket) {
                self.advance(); // consume '['
                let index = self.logical()?;
                if !self.check(&TokenKind::RightBracket) {
                    return Err(self.error_here("expected ']' after index"));
                }
                self.advance(); // consume ']'
                if self.check(&TokenKind::Eq) {
                    self.advance(); // consume '='
                    let value = self.logical()?;
                    expr = Expr::IndexSet {
                        object: Box::new(expr),
                        index: Box::new(index),
                        value: Box::new(value),
                    };
                    break;
                }
                expr = Expr::Index { object: Box::new(expr), index: Box::new(index) };
            } else {
                break;
            }
        }
        // bare identifier followed by a block: `each { |x| ... }` → implicit-self call
        let is_var = matches!(expr, Expr::Variable(_));
        if self.allow_trailing_block && is_var && self.is_block_start() {
            let block = self.parse_block()?;
            expr = Expr::Call { callee: Box::new(expr), args: Vec::new(), block };
        }
        Ok(expr)
    }

    /// Arguments `arg, arg, ...` up to (not including) the closing `)`.
    fn arg_list(&mut self) -> (res: Result<Vec<CallArg>, SapphireError>)
        requires
            old(self).wf(),
        ensures
            final(self).follows(old(self)),
            res matches Err(e) ==> e is ParseError,
            old(self).tokens@[old(self).current as int].kind is RightParen ==> (res matches Ok(v) && v@.len() == 0) && *final(self) == *old(self),
            !(old(self).tokens@[old(self).current as int].kind is RightParen) ==> (res matches Ok(v) ==> v@.len() >= 1 && final(self).pos() > old(self).pos()),
            lit_then_stop(old(self).tokens@, old(self).current as int) && old(self).tokens@[old(self).current + 1].kind is RightParen
                ==> (res matches Ok(v) && v@ == seq![CallArg { name: None, value: Expr::Literal(token_literal(old(self).tokens@[old(self).current as int].kind)->Some_0) }] && final(self).current
                == old(self).current + 1),
        decreases old(self).rank(), old(self).remaining(), 42nat,
    {
        let mut args = Vec::new();
        if !self.check(&TokenKind::RightParen) {
            assert(!(old(self).tokens@[old(self).current as int].kind is RightParen));
            args.push(self.parse_arg()?);
            while self.check(&TokenKind::Comma)
                invariant
                    self.follows(old(self)),
                !(old(self).tokens@[old(self).current as int].kind is RightParen),
                    self.pos() > old(self).pos(),
                    args@.len() >= 1,
                    lit_then_stop(old(self).tokens@, old(self).current as int) && old(self).tokens@[old(self).current + 1].kind is RightParen
                        ==> args@ == seq![CallArg { name: None, value: Expr::Literal(token_literal(old(self).tokens@[old(self).current as int].kind)->Some_0) }] && self.current == old(self).current + 1,
                decreases self.remaining(),
            {
                self.advance();
                args.push(self.parse_arg()?);
            }
        }
        Ok(args)
    }

    fn finish_call(&mut self, callee: Expr) -> (res: Result<Expr, SapphireError>)
        requires
            old(self).wf(),
            !old(self).at_eof(),
        ensures
            final(self).follows(old(self)),
            res is Ok ==> final(self).pos() > old(self).pos(),
            res matches Err(e) ==> e is ParseError,
            res matches Ok(e) ==> (e matches Expr::Call { callee: c, args, .. } && *c == callee && (args@.len() == 0
                <==> old(self).tokens@[old(self).current + 1].kind is RightParen)),
            lit_then_stop(old(self).tokens@, old(self).current + 1) && old(self).tokens@[old(self).current + 2].kind is RightParen
                ==> (res matches Ok(Expr::Call { args, .. }) ==> args@ == seq![
                CallArg { name: None, value: Expr::Literal(token_literal(old(self).tokens@[old(self).current + 1].kind)->Some_0) },
            ]),
        decreases old(self).rank(), old(self).remaining(), 5nat,
    {
        self.advance(); // consume '('
        let args = self.arg_list()?;
        if !self.check(&TokenKind::RightParen) {
            return Err(self.error_here("expected ')' after arguments"));
        }
        self.advance(); // consume ')'
        let block = self.parse_block()?;
        Ok(Expr::Call { callee: Box::new(callee), args, block })
    }

    fn parse_block(&mut self) -> (res: Result<Option<Block>, SapphireError>)
        requires
            old(self).wf(),
        ensures
            final(self).follows(old(self)),
            res matches Err(e) ==> e is ParseError,
            !old(self).allow_trailing_block || !(old(self).tokens@[old(self).current as int].kind is LeftBrace) ==> (res matches Ok(None)) && *final(self)
                == *old(self),
            old(self).allow_trailing_block && old(self).tokens@[old(self).current as int].kind is LeftBrace ==> !(res matches Ok(None)),
            res matches Ok(Some(_)) ==> final(self).pos() > old(self).pos() && final(self).tokens@[final(self).current - 1].kind is RightBrace,
        decreases old(self).rank(), old(self).remaining(), 5nat,
    {
        if !self.allow_trailing_block || !self.check(&TokenKind::LeftBrace) {
            return Ok(None);
        }
        assert(old(self).tokens@[old(self).current as int].kind is LeftBrace);
        self.advance(); // consume '{'
        let params = if self.check(&TokenKind::Pipe) {
            self.advance(); // consume '|'
            let mut params = Vec::new();
            if !self.check(&TokenKind::Pipe) {
                loop
                    invariant
                        self.follows(old(self)),
                old(self).allow_trailing_block,
                old(self).tokens@[old(self).current as int].kind is LeftBrace,
                        self.pos() > old(self).pos(),
                    decreases self.remaining(),
                {
                    match self.peek_identifier() {
                        Some(n) => {
                            self.advance();
                            params.push(n);
                        },
                        None => {
                            return Err(self.error_here("expected parameter name in block"));
                        },
                    }
                    if !self.check(&TokenKind::Comma) {
                        break;
                    }
                    self.advance(); // consume ','
                }
            }
            if !self.check(&TokenKind::Pipe) {
                return Err(self.error_here("expected '|' after block parameters"));
            }
            self.advance(); // consume '|'
            params
        } else {
            Vec::new()
        };
        let body = self.statements_until(&TokenKind::RightBrace, &TokenKind::RightBrace)?;
        if !self.check(&TokenKind::RightBrace) {
            return Err(self.error_here("expected '}'"));
        }
        assert(self.tokens@[self.current as int].kind is RightBrace);
        self.advance(); // consume '}'
        Ok(Some(Block { params, body }))
    }

    fn parse_arg(&mut self) -> (res: Result<CallArg, SapphireError>)
        requires
            old(self).wf(),
        ensures
            lit_then_stop(old(self).tokens@, old(self).current as int) ==> res == Ok::<CallArg, SapphireError>(
                CallArg { name: None, value: Expr::Literal(token_literal(old(self).tokens@[old(self).current as int].kind)->Some_0) },
            ) && final(self).current == old(self).current + 1,
            final(self).follows(old(self)),
            res is Ok ==> final(self).pos() > old(self).pos(),
            res matches Err(e) ==> e is ParseError,
        decreases old(self).rank(), old(self).remaining(), 41nat,
    {
        // Named arg: identifier ':' expr
        match self.peek_identifier() {
            Some(name) => {
                if self.check_ahead(1, &TokenKind::Colon) {
                    self.advance(); // consume identifier
                    self.advance(); // consume ':'
                    return Ok(CallArg { name: Some(name), value: self.logical()? });
                }
            },
            None => {},
        }
        Ok(CallArg { name: None, value: self.logical()? })
    }

    /// The parts of the interpolated string token at `idx`: literal text, and
    /// embedded expressions parsed from their source.
    fn interp_parts(&self, idx: usize) -> (res: Result<Vec<StringPart>, SapphireError>)
        requires
            self.wf(),
            idx < self.tokens@.len(),
            self.tokens@[idx as int].kind is StringInterp,
        ensures
            res matches Err(e) ==> e is ParseError,
            (forall|i: int| 0 <= i < self.tokens@[idx as int].kind->StringInterp_0@.len()
                ==> !(#[trigger] self.tokens@[idx as int].kind->StringInterp_0@[i]).1) ==> res is Ok,
            res matches Ok(parts) ==> interp_parts_match(parts@, self.tokens@[idx as int].kind->StringInterp_0@),
        decreases self.rank(), 0nat, 0nat,
    {
        let n = match &self.tokens[idx].kind {
            TokenKind::StringInterp(rp) => rp.len(),
            _ => 0,
        };
        let mut parts = Vec::new();
        let mut i: usize = 0;
        while i < n
            invariant
                self.wf(),
                idx < self.tokens@.len(),
                self.tokens@[idx as int].kind is StringInterp,
                n == self.tokens@[idx as int].kind->StringInterp_0@.len(),
                i <= n,
                interp_parts_match(parts@, self.tokens@[idx as int].kind->StringInterp_0@.take(i as int)),
            decreases n - i,
        {
            let (content, is_expr) = match &self.tokens[idx].kind {
                TokenKind::StringInterp(rp) => (rp[i].0.clone(), rp[i].1),
                _ => vstd::pervasive::unreached(),
            };
            if is_expr {
                proof {
                    let rp = self.tokens@[idx as int].kind->StringInterp_0@;
                    lemma_parts_bound(rp, i as int);
                    lemma_tokens_bound(self.tokens@, idx as int);
                    assert(content@.len() < token_bound(self.tokens@[idx as int]));
                }
                let mut lexer = Lexer::new(content.as_str());
                let tokens = lexer.scan_tokens();
                let mut sub = Parser::new(tokens);
                proof {
                    assert(sub.tokens@.last() == sub.tokens@[sub.tokens@.len() - 1]);
                }
                let expr = sub.logical()?;
                parts.push(StringPart::Expr(Box::new(expr)));
            } else {
                parts.push(StringPart::Lit(content));
            }
            i += 1;
        }
        proof {
            let rp = self.tokens@[idx as int].kind->StringInterp_0@;
            assert(rp.take(n as int) =~= rp);
        }
        Ok(parts)
    }

    // primary: NUMBER | STRING | BOOL | IDENTIFIER ('=' equality)? | '(' equality ')'
    fn primary(&mut self) -> (res: Result<Expr, SapphireError>)
        requires
            old(self).wf(),
        ensures
            final(self).follows(old(self)),
            res is Ok ==> final(self).pos() > old(self).pos(),
            res matches Err(e) ==> e is ParseError,
            token_literal(old(self).tokens@[old(self).current as int].kind) matches Some(v) ==> res == Ok::<Expr, SapphireError>(
                Expr::Literal(v),
            ) && final(self).current == old(self).current + 1,
            old(self).tokens@[old(self).current as int].kind is SelfKw ==> res == Ok::<Expr, SapphireError>(Expr::SelfExpr)
                && final(self).current == old(self).current + 1,
            (old(self).tokens@[old(self).current as int].kind matches TokenKind::Identifier(n) && !(old(self).tokens@[old(self).current
                + 1].kind is Eq)) ==> res == Ok::<Expr, SapphireError>(Expr::Variable(old(self).tokens@[old(self).current as int].kind->Identifier_0))
                && final(self).current == old(self).current + 1,
            old(self).tokens@[old(self).current as int].kind is LeftBracket && old(self).tokens@[old(self).current + 1].kind is RightBracket
                ==> (res matches Ok(Expr::ListLit(es)) && es@.len() == 0) && final(self).current == old(self).current + 2,
            old(self).tokens@[old(self).current as int].kind is LeftBracket && list_run(old(self).tokens@, old(self).current + 1)
                ==> (res matches Ok(Expr::ListLit(es)) && es@ == list_items(old(self).tokens@, old(self).current + 1))
                && final(self).current == list_close(old(self).tokens@, old(self).current + 1),
            assign_at(old(self).tokens@, old(self).current as int) ==> res == Ok::<Expr, SapphireError>(assign_tree(old(self).tokens@, old(self).current as int))
                && final(self).current == run_end(old(self).tokens@, old(self).current as int + 3) && stop_tok(final(self).tokens@[final(self).current as int].kind),
        decreases old(self).rank(), old(self).remaining(), 28nat,
    {
        if self.check(&TokenKind::Match) {
            return self.parse_match();
        }
        match &self.tokens[self.current].kind {
            TokenKind::Number(n) => {
                let n = *n;
                self.advance();
                return Ok(Expr::Literal(Value::Int(n)));
            },
            TokenKind::Float(f) => {
                let f = f.clone();
                self.advance();
                return Ok(Expr::Literal(Value::Float(f)));
            },
            TokenKind::StringLit(s) => {
                let s = s.clone();
                self.advance();
                return Ok(Expr::Literal(Value::Str(s)));
            },
            TokenKind::StringInterp(_) => {
                let idx = self.current;
                self.advance();
                let parts = self.interp_parts(idx)?;
                return Ok(Expr::StringInterp(parts));
            },
            _ => {},
        }
        if self.check(&TokenKind::True) {
            self.advance();
            return Ok(Expr::Literal(Value::Bool(true)));
        }
        if self.check(&TokenKind::False) {
            self.advance();
            return Ok(Expr::Literal(Value::Bool(false)));
        }
        if self.check(&TokenKind::Nil) {
            self.advance();
            return Ok(Expr::Literal(Value::Nil));
        }
        if self.check(&TokenKind::SelfKw) {
            self.advance();
            return Ok(Expr::SelfExpr);
        }
        if self.check(&TokenKind::Def) {
            return self.function_def();
        }
        if self.check(&TokenKind::Yield) {
            self.advance();
            let args = if self.check(&TokenKind::LeftParen) {
                self.advance(); // consume '('
                let args = self.arg_list()?;
                if !self.check(&TokenKind::RightParen) {
                    return Err(self.error_here("expected ')' after yield arguments"));
                }
                self.advance(); // consume ')'
                args
            } else {
                Vec::new()
            };
            return Ok(Expr::Yield { args });
        }
        if self.check(&TokenKind::SuperKw) {
            self.advance();
            if self.check(&TokenKind::Dot) {
                return Err(
                    self.error_here("unexpected '.' after 'super'; use bare super or super(...)"),
                );
            }
            // Bare `super` (forwards current method's arguments) or `super(expr, ...)`.
            if self.check(&TokenKind::LeftParen) {
                self.advance(); // consume '('
                let args = self.arg_list()?;
                if !self.check(&TokenKind::RightParen) {
                    return Err(self.error_here("expected ')' after arguments"));
                }
                self.advance(); // consume ')'
                let block = self.parse_block()?;
                let forward_args = args.len() == 0;
                return Ok(Expr::Super { args, forward_args, block });
            } else {
                let block = self.parse_block()?;
                return Ok(Expr::Super { args: Vec::new(), forward_args: true, block });
            }
        }
        match self.peek_identifier() {
            Some(name) => {
                self.advance();
                if self.check(&TokenKind::Eq) {
                    self.advance(); // consume '='
                    let value = self.logical()?;
                    return Ok(Expr::Assign { name, value: Box::new(value) });
                }
                return Ok(Expr::Variable(name));
            },
            None => {},
        }
        if self.check(&TokenKind::LeftParen) {
            self.advance();
            let expr = self.logical()?;
            self.advance(); // consume ')'
            return Ok(Expr::Grouping(Box::new(expr)));
        }
        if self.check(&TokenKind::LeftBracket) {
            let ghost ts = self.tokens@;
            let ghost start = self.current + 1;
            let ghost listy = list_run(ts, start);
            self.advance(); // consume '['
            let mut elements = Vec::new();
            if !self.check(&TokenKind::RightBracket) {
                let ghost mut c: int = start;
                elements.push(self.logical()?);
                proof {
                    if listy {
                        assert(elements@ + list_items(ts, c).drop_first() =~= list_items(ts, start));
                    }
                }
                while self.check(&TokenKind::Comma)
                    invariant
                        !primary_direct(old(self).tokens@[old(self).current as int].kind),
                        self.follows(old(self)),
                        self.pos() > old(self).pos(),
                        ts == self.tokens@,
                        ts == old(self).tokens@,
                        start == old(self).current + 1,
                        old(self).tokens@[old(self).current as int].kind is LeftBracket,
                        !(old(self).tokens@[old(self).current + 1].kind is RightBracket),
                        listy == list_run(ts, start),
                        listy ==> list_run(ts, c) && self.current == run_end(ts, c + 1) && elements@ + list_items(
                            ts,
                            c,
                        ).drop_first() == list_items(ts, start) && list_close(ts, c) == list_close(ts, start),
                    decreases self.remaining(),
                {
                    let ghost e = self.current as int;
                    let ghost prev = elements@;
                    proof {
                        if listy {
                            assert(kind_tag(ts[e].kind) == kind_tag(TokenKind::Comma));
                            assert(ts[e].kind is Comma);
                            assert(list_run(ts, e + 1));
                            assert(list_items(ts, c) == seq![arith_tree(ts, c)] + list_items(ts, e + 1));
                            assert(list_close(ts, c) == list_close(ts, e + 1));
                        }
                    }
                    self.advance();
                    let ghost next = self.current as int;
                    elements.push(self.logical()?);
                    proof {
                        if listy {
                            assert(next == e + 1);
                            assert(elements@ == prev.push(arith_tree(ts, next)));
                            assert(list_items(ts, next)[0] == arith_tree(ts, next));
                            assert(list_items(ts, c).drop_first() =~= list_items(ts, next));
                            assert(elements@ + list_items(ts, next).drop_first() =~= prev + list_items(ts, next));
                            c = next;
                        }
                    }
                }
            }
            if !self.check(&TokenKind::RightBracket) {
                return Err(self.error_here("expected ']' after list elements"));
            }
            self.advance(); // consume ']'
            return Ok(Expr::ListLit(elements));
        }
        if self.check(&TokenKind::LeftBrace) {
            self.advance(); // consume '{'
            let mut pairs = Vec::new();
            if !self.check(&TokenKind::RightBrace) {
                loop
                    invariant
                        !primary_direct(old(self).tokens@[old(self).current as int].kind),
                        old(self).tokens@[old(self).current as int].kind is LeftBrace,
                        self.follows(old(self)),
                        self.pos() > old(self).pos(),
                    decreases self.remaining(),
                {
                    let key = match self.peek_identifier() {
                        Some(k) => {
                            self.advance();
                            k
                        },
                        None => {
                            return Err(self.error_here("expected key name in map literal"));
                        },
                    };
                    if !self.check(&TokenKind::Colon) {
                        return Err(self.error_here("expected ':' after map key"));
                    }
                    self.advance(); // consume ':'
                    let value = self.logical()?;
                    pairs.push((key, value));
                    if !self.check(&TokenKind::Comma) {
                        break;
                    }
                    self.advance(); // consume ','
                }
            }
            if !self.check(&TokenKind::RightBrace) {
                return Err(self.error_here("expected '}' after map literal"));
            }
            self.advance(); // consume '}'
            return Ok(Expr::MapLit(pairs));
        }
        let mut message = String::from_str("unexpected token '");
        let d = self.tokens[self.current].kind.debug_string();
        message.append(d.as_str());
        message.append("'");
        Err(self.error_here_owned(message))
    }

    // ── Match expression ──────────────────────────────────────────────────────

    fn parse_match(&mut self) -> (res: Result<Expr, SapphireError>)
        requires
            old(self).wf(),
            !old(self).at_eof(),
        ensures
            final(self).follows(old(self)),
            res is Ok ==> final(self).pos() > old(self).pos(),
            res matches Err(e) ==> e is ParseError,
        decreases old(self).rank(), old(self).remaining(), 10nat,
    {
        self.advance(); // consume 'match'
        self.allow_trailing_block = false;
        let scrutinee = self.logical()?;
        self.allow_trailing_block = true;
        if !self.check(&TokenKind::LeftBrace) {
            return Err(self.error_here("expected '{' after match scrutinee"));
        }
        self.advance(); // consume '{'
        let mut arms: Vec<MatchArm> = Vec::new();
        loop
            invariant
                self.follows(old(self)),
                self.pos() > old(self).pos(),
            decreases self.remaining(),
        {
            self.skip_terminators();
            if self.check(&TokenKind::RightBrace) || self.is_at_end() {
                break;
            }
            arms.push(self.parse_arm()?);
        }
        if !self.check(&TokenKind::RightBrace) {
            return Err(self.error_here("expected '}' to close match"));
        }
        self.advance(); // consume '}'
        if arms.len() == 0 {
            return Err(self.error_here("match expression has no arms"));
        }
        // Validate: last arm must be exhaustive (Wildcard or bare Binding without guard).
        let last = &arms[arms.len() - 1];
        let last_exhaustive = last.guard.is_none() && last.patterns.len() == 1 && matches!(
            last.patterns[0],
            Pattern::Wildcard | Pattern::Binding(_)
        );
        if !last_exhaustive {
            return Err(
                self.error_here(
                    "last match arm must be a wildcard '_' or bare binding (exhaustive fallback)",
                ),
            );
        }
        Ok(Expr::Match { scrutinee: Box::new(scrutinee), arms })
    }

    fn parse_arm(&mut self) -> (res: Result<MatchArm, SapphireError>)
        requires
            old(self).wf(),
        ensures
            final(self).follows(old(self)),
            res is Ok ==> final(self).pos() > old(self).pos(),
            res matches Err(e) ==> e is ParseError,
        decreases old(self).rank(), old(self).remaining(), 5nat,
    {
        let mut patterns = Vec::new();
        patterns.push(self.parse_pattern()?);
        while self.check(&TokenKind::Comma)
            invariant
                self.follows(old(self)),
                self.pos() > old(self).pos(),
            decreases self.remaining(),
        {
            self.advance(); // consume ','
            self.skip_terminators();
            patterns.push(self.parse_pattern()?);
        }
        // Optional guard: `if condition` — only valid on a single Binding pattern.
        let guard = if self.check(&TokenKind::If) {
            if patterns.len() != 1 || !matches!(patterns[0], Pattern::Binding(_)) {
                return Err(self.error_here("guard 'if' is only allowed on a single binding pattern"));
            }
            self.advance(); // consume 'if'
            self.allow_trailing_block = false;
            let g = self.logical()?;
            self.allow_trailing_block = true;
            Some(Box::new(g))
        } else {
            None
        };
        if !self.check(&TokenKind::FatArrow) {
            return Err(self.error_here("expected '=>' after match pattern"));
        }
        self.advance(); // consume '=>'
        let body = self.block()?;
        Ok(MatchArm { patterns, guard, body })
    }

    fn parse_pattern(&mut self) -> (res: Result<Pattern, SapphireError>)
        requires
            old(self).wf(),
        ensures
            final(self).follows(old(self)),
            res is Ok ==> final(self).pos() > old(self).pos(),
            res matches Err(e) ==> e is ParseError,
        decreases old(self).rank(), old(self).remaining(), 3nat,
    {
        // Wildcard: _
        if self.check(&TokenKind::Underscore) {
            self.advance();
            return Ok(Pattern::Wildcard);
        }
        // List destructuring: [p1, p2, ...]
        if self.check(&TokenKind::LeftBracket) {
            self.advance(); // consume '['
            let mut elements = Vec::new();
            self.skip_terminators();
            while !self.check(&TokenKind::RightBracket) && !self.is_at_end()
                invariant
                    self.follows(old(self)),
                    self.pos() > old(self).pos(),
                decreases self.remaining(),
            {
                elements.push(self.parse_pattern()?);
                self.skip_terminators();
                if self.check(&TokenKind::Comma) {
                    self.advance();
                    self.skip_terminators();
                }
            }
            if !self.check(&TokenKind::RightBracket) {
                return Err(self.error_here("expected ']' to close list pattern"));
            }
            self.advance(); // consume ']'
            return Ok(Pattern::List(elements));
        }
        // Nil literal
        if self.check(&TokenKind::Nil) {
            self.advance();
            return Ok(Pattern::Literal(Value::Nil));
        }
        // Bool literals
        if self.check(&TokenKind::True) {
            self.advance();
            return Ok(Pattern::Literal(Value::Bool(true)));
        }
        if self.check(&TokenKind::False) {
            self.advance();
            return Ok(Pattern::Literal(Value::Bool(false)));
        }
        match &self.tokens[self.current].kind {
            // String literal
            TokenKind::StringLit(s) => {
                let s = s.clone();
                self.advance();
                return Ok(Pattern::Literal(Value::Str(s)));
            },
            // Numeric literal — may be followed by '..' to form a range pattern.
            TokenKind::Number(n) => {
                let n = *n;
                self.advance();
                if self.check(&TokenKind::DotDot) {
                    self.advance(); // consume '..'
                    // high bound must also be a number
                    match &self.tokens[self.current].kind {
                        TokenKind::Number(hi) => {
                            let hi = *hi;
                            self.advance();
                            return Ok(Pattern::Range(Value::Int(n), Value::Int(hi)));
                        },
                        _ => {},
                    }
                    return Err(self.error_here("expected integer after '..' in range pattern"));
                }
                return Ok(Pattern::Literal(Value::Int(n)));
            },
            _ => {},
        }
        // Negative number literal (e.g. -5)
        if self.check(&TokenKind::Minus) && self.current < self.tokens.len() - 1 {
            match &self.tokens[self.current + 1].kind {
                TokenKind::Number(n) => {
                    let n = *n;
                    self.advance(); // consume '-'
                    self.advance(); // consume number
                    return Ok(Pattern::Literal(Value::Int(-n)));
                },
                _ => {},
            }
        }
        // Identifier: uppercase → Type, lowercase → Binding
        match self.peek_identifier() {
            Some(name) => {
                self.advance();
                let cs = str_to_chars(name.as_str());
                let first_char = if cs.len() > 0 {
                    cs[0]
                } else {
                    '_'
                };
                if char_is_uppercase(first_char) {
                    return Ok(Pattern::Type(name));
                } else {
                    return Ok(Pattern::Binding(name));
                }
            },
            None => {},
        }
        let mut message = String::from_str("expected pattern, got '");
        let d = self.tokens[self.current].kind.debug_string();
        message.append(d.as_str());
        message.append("'");
        Err(self.error_here_owned(message))
    }
}

} // verus!
