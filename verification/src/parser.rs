//! The parser: recursive descent over the token stream, building statements
//! and expressions, reporting faults, and recovering at statement boundaries.
//!
//! The grammar, with every binary level left-associative:
//!
//! ```text
//! program     -> statement* EOF
//! statement   -> printStmt | varDecl | exprStmt
//! printStmt   -> "print" expression ";"
//! varDecl     -> "var" IDENTIFIER ( "=" expression )? ";"
//! exprStmt    -> expression ";"
//! expression  -> equality
//! equality    -> comparison ( ( "!=" | "==" ) comparison )*
//! comparison  -> term       ( ( ">" | ">=" | "<" | "<=" ) term )*
//! term        -> factor     ( ( "-" | "+" ) factor )*
//! factor      -> unary      ( ( "/" | "*" ) unary )*
//! unary       -> ( "!" | "-" ) unary | primary
//! primary     -> "false" | "true" | "nil" | NUMBER | STRING
//!              | "(" expression ")" | IDENTIFIER
//! ```
//!
//! The whole descent is specified by the `spec_*` functions below, one per
//! grammar rule, and the parser's methods are proved to compute exactly
//! them. A fault is reported as a [`ParseDiag`] and parsing continues: an
//! unexpected token at `primary` yields a `FailScenario` expression, and a
//! missing expected token is reported without advancing. After a statement
//! with a fault the parser synchronizes: it discards tokens until just after
//! a `;` or before a keyword that starts a statement.

use vstd::prelude::*;
use vstd::string::StringExecFns;
use crate::expr::{expr_view, Expr, ExprV, LiteralRepresentations, LiteralV};
use crate::oracle::{lookup_parse, NumOracle};
use crate::scanner::eof_token;
use crate::stmt::{Expression, Print, Stmt, StmtV, Var};
use crate::token::{Token, TokenV};
use crate::token_type::TokenType;

verus! {

/// A parse fault: the token it was found at and what was expected.
pub struct ParseDiag {
    pub token: Token,
    pub message: String,
}

/// The mathematical image of a parse fault.
pub ghost struct PDiagV {
    pub token: TokenV,
    pub message: Seq<char>,
}

impl View for ParseDiag {
    type V = PDiagV;

    open spec fn view(&self) -> PDiagV {
        PDiagV { token: self.token@, message: self.message@ }
    }
}

impl DeepView for ParseDiag {
    type V = PDiagV;

    open spec fn deep_view(&self) -> PDiagV {
        self.view()
    }
}

/// A well-formed token stream: what the scanner emits. It is not empty, its
/// last token is `EOF`, and no other token is.
pub open spec fn wf_tokens(toks: Seq<TokenV>) -> bool {
    &&& toks.len() >= 1
    &&& toks.last().token_type == TokenType::EOF
    &&& forall|j: int| 0 <= j < toks.len() - 1 ==> toks[j].token_type != TokenType::EOF
}

/// Whether every number token's literal text has a recorded bit pattern in
/// the given parse table, so that the parser can build its literals.
pub open spec fn parse_covered(toks: Seq<TokenV>, po: Seq<(Seq<char>, u64)>) -> bool {
    forall|j: int|
        0 <= j < toks.len() && toks[j].token_type == TokenType::NUMBER ==> lookup_parse(
            po,
            toks[j].literal,
        ) is Some
}

/// The token at a cursor; out of range it reads as an end-of-input token.
pub open spec fn tok_at(toks: Seq<TokenV>, i: int) -> TokenV {
    if 0 <= i < toks.len() {
        toks[i]
    } else {
        eof_token(1)
    }
}

/// The token just before the cursor, or the first token at the start: what
/// `previous` returns.
pub open spec fn prev_at(toks: Seq<TokenV>, i: int) -> TokenV {
    if i == 0 {
        tok_at(toks, 0)
    } else {
        tok_at(toks, i - 1)
    }
}

/// The cursor moved past one token; at the end-of-input token it stays.
pub open spec fn adv(toks: Seq<TokenV>, i: int) -> int {
    if tok_at(toks, i).token_type == TokenType::EOF {
        i
    } else {
        i + 1
    }
}

/// A reported cursor held to the range `[i, toks.len()]`. The parse
/// functions use it on the positions their sub-results report before parsing
/// on from them; the bounds lemmas below show those positions are always in
/// range, so the guard changes nothing, but it keeps every specification
/// total and terminating.
pub open spec fn hold_pos(toks: Seq<TokenV>, i: int, j: int) -> int {
    if i <= j <= toks.len() {
        j
    } else {
        i
    }
}

/// A reported cursor held to the range `(i, toks.len()]`, for the places
/// that must move strictly forward.
pub open spec fn step_pos(toks: Seq<TokenV>, i: int, j: int) -> int {
    if i < j <= toks.len() {
        j
    } else {
        i + 1
    }
}

/// What consuming an expected token kind does: past it when it is next, and
/// otherwise a fault naming the token found, without advancing.
pub open spec fn spec_consume(toks: Seq<TokenV>, i: int, ty: TokenType, msg: Seq<char>) -> (
    int,
    Seq<PDiagV>,
) {
    if tok_at(toks, i).token_type != TokenType::EOF && tok_at(toks, i).token_type == ty {
        (adv(toks, i), Seq::empty())
    } else {
        (i, seq![PDiagV { token: tok_at(toks, i), message: msg }])
    }
}

/// The result of parsing one expression rule: the expression, the cursor
/// after it, and the faults found in it.
pub ghost struct PExprV {
    pub expr: ExprV,
    pub next: int,
    pub diags: Seq<PDiagV>,
}

/// `primary`: a literal, a parenthesized expression, or a variable; any
/// other token is reported and yields a `FailScenario` without advancing.
pub open spec fn spec_primary(toks: Seq<TokenV>, po: Seq<(Seq<char>, u64)>, i: int) -> PExprV
    decreases toks.len() - i, 0int,
    when 0 <= i < toks.len()
{
    let t = tok_at(toks, i);
    if t.token_type == TokenType::FALSE {
        PExprV {
            expr: ExprV::Literal { literal: LiteralV::Boolean(false) },
            next: adv(toks, i),
            diags: Seq::empty(),
        }
    } else if t.token_type == TokenType::TRUE {
        PExprV {
            expr: ExprV::Literal { literal: LiteralV::Boolean(true) },
            next: adv(toks, i),
            diags: Seq::empty(),
        }
    } else if t.token_type == TokenType::NIL {
        PExprV {
            expr: ExprV::Literal { literal: LiteralV::Nil },
            next: adv(toks, i),
            diags: Seq::empty(),
        }
    } else if t.token_type == TokenType::NUMBER {
        let bits = match lookup_parse(po, t.literal) {
            Some(b) => b,
            None => 0,
        };
        PExprV {
            expr: ExprV::Literal { literal: LiteralV::Number(bits) },
            next: adv(toks, i),
            diags: Seq::empty(),
        }
    } else if t.token_type == TokenType::STRING {
        PExprV {
            expr: ExprV::Literal { literal: LiteralV::Str(t.literal) },
            next: adv(toks, i),
            diags: Seq::empty(),
        }
    } else if t.token_type == TokenType::LEFTPAREN {
        let inner = spec_expression(toks, po, adv(toks, i));
        let cons = spec_consume(
            toks,
            inner.next,
            TokenType::RIGHTPAREN,
            "Expect ')' after expression."@,
        );
        PExprV {
            expr: ExprV::Grouping { sub: seq![inner.expr] },
            next: cons.0,
            diags: inner.diags + cons.1,
        }
    } else if t.token_type == TokenType::IDENTIFIER {
        PExprV { expr: ExprV::Variable { name: t }, next: adv(toks, i), diags: Seq::empty() }
    } else {
        PExprV {
            expr: ExprV::FailScenario { reason: "Reached end, expecting an expression"@ },
            next: i,
            diags: seq![
                PDiagV { token: t, message: "Reached end, expecting an expression"@ },
            ],
        }
    }
}

/// `unary`: a `!` or `-` applied to a unary, or a primary.
pub open spec fn spec_unary(toks: Seq<TokenV>, po: Seq<(Seq<char>, u64)>, i: int) -> PExprV
    decreases toks.len() - i, 1int,
    when 0 <= i < toks.len()
{
    let t = tok_at(toks, i);
    if t.token_type == TokenType::BANG || t.token_type == TokenType::MINUS {
        let r = spec_unary(toks, po, adv(toks, i));
        PExprV {
            expr: ExprV::Unary { operator: t, sub: seq![r.expr] },
            next: r.next,
            diags: r.diags,
        }
    } else {
        spec_primary(toks, po, i)
    }
}

/// The trailing operator loop of `factor`.
pub open spec fn spec_factor_more(
    toks: Seq<TokenV>,
    po: Seq<(Seq<char>, u64)>,
    i: int,
    acc: ExprV,
    diags: Seq<PDiagV>,
) -> PExprV
    decreases toks.len() - i, 2int,
    when 0 <= i < toks.len()
{
    let t = tok_at(toks, i);
    if t.token_type == TokenType::SLASH || t.token_type == TokenType::STAR {
        let r = spec_unary(toks, po, adv(toks, i));
        let j = step_pos(toks, i, r.next);
        spec_factor_more(
            toks,
            po,
            j,
            ExprV::Binary { operator: t, sub: seq![acc, r.expr] },
            diags + r.diags,
        )
    } else {
        PExprV { expr: acc, next: i, diags }
    }
}

/// `factor`: a unary followed by `/` or `*` operators, grouped to the left.
pub open spec fn spec_factor(toks: Seq<TokenV>, po: Seq<(Seq<char>, u64)>, i: int) -> PExprV
    decreases toks.len() - i, 3int,
    when 0 <= i < toks.len()
{
    let r = spec_unary(toks, po, i);
    spec_factor_more(toks, po, hold_pos(toks, i, r.next), r.expr, r.diags)
}

/// The trailing operator loop of `term`.
pub open spec fn spec_term_more(
    toks: Seq<TokenV>,
    po: Seq<(Seq<char>, u64)>,
    i: int,
    acc: ExprV,
    diags: Seq<PDiagV>,
) -> PExprV
    decreases toks.len() - i, 4int,
    when 0 <= i < toks.len()
{
    let t = tok_at(toks, i);
    if t.token_type == TokenType::MINUS || t.token_type == TokenType::PLUS {
        let r = spec_factor(toks, po, adv(toks, i));
        let j = step_pos(toks, i, r.next);
        spec_term_more(
            toks,
            po,
            j,
            ExprV::Binary { operator: t, sub: seq![acc, r.expr] },
            diags + r.diags,
        )
    } else {
        PExprV { expr: acc, next: i, diags }
    }
}

/// `term`: a factor followed by `-` or `+` operators, grouped to the left.
pub open spec fn spec_term(toks: Seq<TokenV>, po: Seq<(Seq<char>, u64)>, i: int) -> PExprV
    decreases toks.len() - i, 5int,
    when 0 <= i < toks.len()
{
    let r = spec_factor(toks, po, i);
    spec_term_more(toks, po, hold_pos(toks, i, r.next), r.expr, r.diags)
}

/// The trailing operator loop of `comparison`.
pub open spec fn spec_comparison_more(
    toks: Seq<TokenV>,
    po: Seq<(Seq<char>, u64)>,
    i: int,
    acc: ExprV,
    diags: Seq<PDiagV>,
) -> PExprV
    decreases toks.len() - i, 6int,
    when 0 <= i < toks.len()
{
    let t = tok_at(toks, i);
    if t.token_type == TokenType::GREATER || t.token_type == TokenType::GREATEREQUAL
        || t.token_type == TokenType::LESS || t.token_type == TokenType::LESSEQUAL {
        let r = spec_term(toks, po, adv(toks, i));
        let j = step_pos(toks, i, r.next);
        spec_comparison_more(
            toks,
            po,
            j,
            ExprV::Binary { operator: t, sub: seq![acc, r.expr] },
            diags + r.diags,
        )
    } else {
        PExprV { expr: acc, next: i, diags }
    }
}

/// `comparison`: a term followed by ordering operators, grouped to the left.
pub open spec fn spec_comparison(toks: Seq<TokenV>, po: Seq<(Seq<char>, u64)>, i: int) -> PExprV
    decreases toks.len() - i, 7int,
    when 0 <= i < toks.len()
{
    let r = spec_term(toks, po, i);
    spec_comparison_more(toks, po, hold_pos(toks, i, r.next), r.expr, r.diags)
}

/// The trailing operator loop of `equality`.
pub open spec fn spec_equality_more(
    toks: Seq<TokenV>,
    po: Seq<(Seq<char>, u64)>,
    i: int,
    acc: ExprV,
    diags: Seq<PDiagV>,
) -> PExprV
    decreases toks.len() - i, 8int,
    when 0 <= i < toks.len()
{
    let t = tok_at(toks, i);
    if t.token_type == TokenType::BANGEQUAL || t.token_type == TokenType::EQUALEQUAL {
        let r = spec_comparison(toks, po, adv(toks, i));
        let j = step_pos(toks, i, r.next);
        spec_equality_more(
            toks,
            po,
            j,
            ExprV::Binary { operator: t, sub: seq![acc, r.expr] },
            diags + r.diags,
        )
    } else {
        PExprV { expr: acc, next: i, diags }
    }
}

/// `equality`: a comparison followed by `!=` or `==` operators, grouped to
/// the left.
pub open spec fn spec_equality(toks: Seq<TokenV>, po: Seq<(Seq<char>, u64)>, i: int) -> PExprV
    decreases toks.len() - i, 9int,
    when 0 <= i < toks.len()
{
    let r = spec_comparison(toks, po, i);
    spec_equality_more(toks, po, hold_pos(toks, i, r.next), r.expr, r.diags)
}

/// `expression`: the lowest-precedence rule, `equality`.
pub open spec fn spec_expression(toks: Seq<TokenV>, po: Seq<(Seq<char>, u64)>, i: int) -> PExprV
    decreases toks.len() - i, 10int,
    when 0 <= i < toks.len()
{
    spec_equality(toks, po, i)
}

/// The result of parsing one statement.
pub ghost struct PStmtV {
    pub stmt: StmtV,
    pub next: int,
    pub diags: Seq<PDiagV>,
}

/// `statement`: a print statement, a variable declaration, or an expression
/// statement.
pub open spec fn spec_statement(toks: Seq<TokenV>, po: Seq<(Seq<char>, u64)>, i: int) -> PStmtV
    decreases toks.len() - i, 11int,
    when 0 <= i < toks.len()
{
    let t = tok_at(toks, i);
    if t.token_type == TokenType::PRINT {
        let r = spec_expression(toks, po, adv(toks, i));
        let cons = spec_consume(toks, r.next, TokenType::SEMICOLON, "Expect ';' after value."@);
        PStmtV {
            stmt: StmtV::Print { expression: r.expr },
            next: cons.0,
            diags: r.diags + cons.1,
        }
    } else if t.token_type == TokenType::VAR {
        let j0 = adv(toks, i);
        let name = tok_at(toks, j0);
        let cons1 = spec_consume(toks, j0, TokenType::IDENTIFIER, "Expect variable name."@);
        if tok_at(toks, cons1.0).token_type == TokenType::EQUAL {
            let r = spec_expression(toks, po, adv(toks, cons1.0));
            let cons2 = spec_consume(
                toks,
                r.next,
                TokenType::SEMICOLON,
                "Expect ';' after variable declaration."@,
            );
            PStmtV {
                stmt: StmtV::Var { name, initializer: Some(r.expr) },
                next: cons2.0,
                diags: cons1.1 + r.diags + cons2.1,
            }
        } else {
            let cons2 = spec_consume(
                toks,
                cons1.0,
                TokenType::SEMICOLON,
                "Expect ';' after variable declaration."@,
            );
            PStmtV {
                stmt: StmtV::Var { name, initializer: None },
                next: cons2.0,
                diags: cons1.1 + cons2.1,
            }
        }
    } else {
        let r = spec_expression(toks, po, i);
        let cons = spec_consume(
            toks,
            r.next,
            TokenType::SEMICOLON,
            "Expect ';' after expression."@,
        );
        PStmtV {
            stmt: StmtV::Expression { expression: r.expr },
            next: cons.0,
            diags: r.diags + cons.1,
        }
    }
}

/// Whether a token kind starts a statement, for recovery.
pub open spec fn is_sync_boundary(t: TokenType) -> bool {
    ||| t == TokenType::CLASS
    ||| t == TokenType::FUN
    ||| t == TokenType::VAR
    ||| t == TokenType::FOR
    ||| t == TokenType::IF
    ||| t == TokenType::WHILE
    ||| t == TokenType::PRINT
    ||| t == TokenType::RETURN
}

/// The recovery scan: from `j`, the first cursor that sits at the end of
/// input, just after a `;`, or at a keyword that starts a statement.
pub open spec fn sync_scan(toks: Seq<TokenV>, j: int) -> int
    decreases toks.len() - j,
{
    if !(0 <= j < toks.len()) {
        j
    } else if tok_at(toks, j).token_type == TokenType::EOF {
        j
    } else if prev_at(toks, j).token_type == TokenType::SEMICOLON {
        j
    } else if is_sync_boundary(tok_at(toks, j).token_type) {
        j
    } else {
        sync_scan(toks, j + 1)
    }
}

/// What synchronizing from `i` does: step past the current token, then scan
/// to the next statement boundary.
pub open spec fn spec_sync(toks: Seq<TokenV>, i: int) -> int {
    sync_scan(toks, adv(toks, i))
}

/// The recovery scan stays inside the tokens and never moves back.
proof fn lemma_sync_scan_bounds(toks: Seq<TokenV>, j: int)
    requires
        wf_tokens(toks),
        0 <= j <= toks.len() - 1,
    ensures
        j <= sync_scan(toks, j) <= toks.len() - 1,
    decreases toks.len() - j,
{
    if tok_at(toks, j).token_type != TokenType::EOF && prev_at(toks, j).token_type
        != TokenType::SEMICOLON && !is_sync_boundary(tok_at(toks, j).token_type) {
        assert(j < toks.len() - 1);
        lemma_sync_scan_bounds(toks, j + 1);
    }
}

/// `primary` stays inside the tokens, never moves back, and moves forward
/// whenever it reports no fault.
proof fn lemma_primary_bounds(toks: Seq<TokenV>, po: Seq<(Seq<char>, u64)>, i: int)
    requires
        wf_tokens(toks),
        0 <= i <= toks.len() - 1,
    ensures
        i <= spec_primary(toks, po, i).next <= toks.len() - 1,
        spec_primary(toks, po, i).diags.len() == 0 ==> spec_primary(toks, po, i).next > i,
    decreases toks.len() - i, 0int,
{
    let t = tok_at(toks, i);
    if t.token_type == TokenType::LEFTPAREN {
        assert(i < toks.len() - 1);
        lemma_expression_bounds(toks, po, i + 1);
    }
}

/// `unary` stays inside the tokens, never moves back, and moves forward
/// whenever it reports no fault.
proof fn lemma_unary_bounds(toks: Seq<TokenV>, po: Seq<(Seq<char>, u64)>, i: int)
    requires
        wf_tokens(toks),
        0 <= i <= toks.len() - 1,
    ensures
        i <= spec_unary(toks, po, i).next <= toks.len() - 1,
        spec_unary(toks, po, i).diags.len() == 0 ==> spec_unary(toks, po, i).next > i,
    decreases toks.len() - i, 1int,
{
    let t = tok_at(toks, i);
    if t.token_type == TokenType::BANG || t.token_type == TokenType::MINUS {
        assert(i < toks.len() - 1);
        lemma_unary_bounds(toks, po, i + 1);
    } else {
        lemma_primary_bounds(toks, po, i);
    }
}

/// The trailing loop of `factor` stays inside the tokens, never moves back,
/// and only adds to the faults.
proof fn lemma_factor_more_bounds(
    toks: Seq<TokenV>,
    po: Seq<(Seq<char>, u64)>,
    i: int,
    acc: ExprV,
    diags: Seq<PDiagV>,
)
    requires
        wf_tokens(toks),
        0 <= i <= toks.len() - 1,
    ensures
        i <= spec_factor_more(toks, po, i, acc, diags).next <= toks.len() - 1,
        diags.len() <= spec_factor_more(toks, po, i, acc, diags).diags.len(),
    decreases toks.len() - i, 2int,
{
    let t = tok_at(toks, i);
    if t.token_type == TokenType::SLASH || t.token_type == TokenType::STAR {
        assert(i < toks.len() - 1);
        lemma_unary_bounds(toks, po, i + 1);
        let r = spec_unary(toks, po, i + 1);
        lemma_factor_more_bounds(
            toks,
            po,
            r.next,
            ExprV::Binary { operator: t, sub: seq![acc, r.expr] },
            diags + r.diags,
        );
    }
}

/// `factor` stays inside the tokens, never moves back, and moves forward
/// whenever it reports no fault.
proof fn lemma_factor_bounds(toks: Seq<TokenV>, po: Seq<(Seq<char>, u64)>, i: int)
    requires
        wf_tokens(toks),
        0 <= i <= toks.len() - 1,
    ensures
        i <= spec_factor(toks, po, i).next <= toks.len() - 1,
        spec_factor(toks, po, i).diags.len() == 0 ==> spec_factor(toks, po, i).next > i,
    decreases toks.len() - i, 3int,
{
    lemma_unary_bounds(toks, po, i);
    let r = spec_unary(toks, po, i);
    lemma_factor_more_bounds(toks, po, r.next, r.expr, r.diags);
}

/// The trailing loop of `term` stays inside the tokens, never moves back,
/// and only adds to the faults.
proof fn lemma_term_more_bounds(
    toks: Seq<TokenV>,
    po: Seq<(Seq<char>, u64)>,
    i: int,
    acc: ExprV,
    diags: Seq<PDiagV>,
)
    requires
        wf_tokens(toks),
        0 <= i <= toks.len() - 1,
    ensures
        i <= spec_term_more(toks, po, i, acc, diags).next <= toks.len() - 1,
        diags.len() <= spec_term_more(toks, po, i, acc, diags).diags.len(),
    decreases toks.len() - i, 4int,
{
    let t = tok_at(toks, i);
    if t.token_type == TokenType::MINUS || t.token_type == TokenType::PLUS {
        assert(i < toks.len() - 1);
        lemma_factor_bounds(toks, po, i + 1);
        let r = spec_factor(toks, po, i + 1);
        lemma_term_more_bounds(
            toks,
            po,
            r.next,
            ExprV::Binary { operator: t, sub: seq![acc, r.expr] },
            diags + r.diags,
        );
    }
}

/// `term` stays inside the tokens, never moves back, and moves forward
/// whenever it reports no fault.
proof fn lemma_term_bounds(toks: Seq<TokenV>, po: Seq<(Seq<char>, u64)>, i: int)
    requires
        wf_tokens(toks),
        0 <= i <= toks.len() - 1,
    ensures
        i <= spec_term(toks, po, i).next <= toks.len() - 1,
        spec_term(toks, po, i).diags.len() == 0 ==> spec_term(toks, po, i).next > i,
    decreases toks.len() - i, 5int,
{
    lemma_factor_bounds(toks, po, i);
    let r = spec_factor(toks, po, i);
    lemma_term_more_bounds(toks, po, r.next, r.expr, r.diags);
}

/// The trailing loop of `comparison` stays inside the tokens, never moves
/// back, and only adds to the faults.
proof fn lemma_comparison_more_bounds(
    toks: Seq<TokenV>,
    po: Seq<(Seq<char>, u64)>,
    i: int,
    acc: ExprV,
    diags: Seq<PDiagV>,
)
    requires
        wf_tokens(toks),
        0 <= i <= toks.len() - 1,
    ensures
        i <= spec_comparison_more(toks, po, i, acc, diags).next <= toks.len() - 1,
        diags.len() <= spec_comparison_more(toks, po, i, acc, diags).diags.len(),
    decreases toks.len() - i, 6int,
{
    let t = tok_at(toks, i);
    if t.token_type == TokenType::GREATER || t.token_type == TokenType::GREATEREQUAL
        || t.token_type == TokenType::LESS || t.token_type == TokenType::LESSEQUAL {
        assert(i < toks.len() - 1);
        lemma_term_bounds(toks, po, i + 1);
        let r = spec_term(toks, po, i + 1);
        lemma_comparison_more_bounds(
            toks,
            po,
            r.next,
            ExprV::Binary { operator: t, sub: seq![acc, r.expr] },
            diags + r.diags,
        );
    }
}

/// `comparison` stays inside the tokens, never moves back, and moves forward
/// whenever it reports no fault.
proof fn lemma_comparison_bounds(toks: Seq<TokenV>, po: Seq<(Seq<char>, u64)>, i: int)
    requires
        wf_tokens(toks),
        0 <= i <= toks.len() - 1,
    ensures
        i <= spec_comparison(toks, po, i).next <= toks.len() - 1,
        spec_comparison(toks, po, i).diags.len() == 0 ==> spec_comparison(toks, po, i).next > i,
    decreases toks.len() - i, 7int,
{
    lemma_term_bounds(toks, po, i);
    let r = spec_term(toks, po, i);
    lemma_comparison_more_bounds(toks, po, r.next, r.expr, r.diags);
}

/// The trailing loop of `equality` stays inside the tokens, never moves
/// back, and only adds to the faults.
proof fn lemma_equality_more_bounds(
    toks: Seq<TokenV>,
    po: Seq<(Seq<char>, u64)>,
    i: int,
    acc: ExprV,
    diags: Seq<PDiagV>,
)
    requires
        wf_tokens(toks),
        0 <= i <= toks.len() - 1,
    ensures
        i <= spec_equality_more(toks, po, i, acc, diags).next <= toks.len() - 1,
        diags.len() <= spec_equality_more(toks, po, i, acc, diags).diags.len(),
    decreases toks.len() - i, 8int,
{
    let t = tok_at(toks, i);
    if t.token_type == TokenType::BANGEQUAL || t.token_type == TokenType::EQUALEQUAL {
        assert(i < toks.len() - 1);
        lemma_comparison_bounds(toks, po, i + 1);
        let r = spec_comparison(toks, po, i + 1);
        lemma_equality_more_bounds(
            toks,
            po,
            r.next,
            ExprV::Binary { operator: t, sub: seq![acc, r.expr] },
            diags + r.diags,
        );
    }
}

/// `equality` stays inside the tokens, never moves back, and moves forward
/// whenever it reports no fault.
proof fn lemma_equality_bounds(toks: Seq<TokenV>, po: Seq<(Seq<char>, u64)>, i: int)
    requires
        wf_tokens(toks),
        0 <= i <= toks.len() - 1,
    ensures
        i <= spec_equality(toks, po, i).next <= toks.len() - 1,
        spec_equality(toks, po, i).diags.len() == 0 ==> spec_equality(toks, po, i).next > i,
    decreases toks.len() - i, 9int,
{
    lemma_comparison_bounds(toks, po, i);
    let r = spec_comparison(toks, po, i);
    lemma_equality_more_bounds(toks, po, r.next, r.expr, r.diags);
}

/// `expression` stays inside the tokens, never moves back, and moves forward
/// whenever it reports no fault.
proof fn lemma_expression_bounds(toks: Seq<TokenV>, po: Seq<(Seq<char>, u64)>, i: int)
    requires
        wf_tokens(toks),
        0 <= i <= toks.len() - 1,
    ensures
        i <= spec_expression(toks, po, i).next <= toks.len() - 1,
        spec_expression(toks, po, i).diags.len() == 0 ==> spec_expression(toks, po, i).next > i,
    decreases toks.len() - i, 10int,
{
    lemma_equality_bounds(toks, po, i);
}

/// `statement` stays inside the tokens, never moves back, and moves forward
/// whenever it reports no fault.
#[verifier::rlimit(50)]
proof fn lemma_statement_bounds(toks: Seq<TokenV>, po: Seq<(Seq<char>, u64)>, i: int)
    requires
        wf_tokens(toks),
        0 <= i <= toks.len() - 1,
    ensures
        i <= spec_statement(toks, po, i).next <= toks.len() - 1,
        spec_statement(toks, po, i).diags.len() == 0 ==> spec_statement(toks, po, i).next > i,
    decreases toks.len() - i, 11int,
{
    let t = tok_at(toks, i);
    if t.token_type == TokenType::PRINT {
        assert(i < toks.len() - 1);
        lemma_expression_bounds(toks, po, i + 1);
    } else if t.token_type == TokenType::VAR {
        assert(i < toks.len() - 1);
        let j0 = i + 1;
        let cons1 = spec_consume(toks, j0, TokenType::IDENTIFIER, "Expect variable name."@);
        assert(j0 <= cons1.0 <= toks.len() - 1);
        if tok_at(toks, cons1.0).token_type == TokenType::EQUAL {
            assert(cons1.0 < toks.len() - 1);
            lemma_expression_bounds(toks, po, cons1.0 + 1);
        }
    } else {
        lemma_expression_bounds(toks, po, i);
    }
}

/// The result of parsing a whole program.
pub ghost struct PProgV {
    pub stmts: Seq<StmtV>,
    pub diags: Seq<PDiagV>,
}

/// `program`: statements until the end of input. After a statement that
/// reported a fault, the parser synchronizes before going on; in every case
/// the cursor moves forward, so the parse terminates.
pub open spec fn spec_program(toks: Seq<TokenV>, po: Seq<(Seq<char>, u64)>, i: int) -> PProgV
    decreases toks.len() - i, 12int,
    when 0 <= i < toks.len()
{
    if tok_at(toks, i).token_type == TokenType::EOF {
        PProgV { stmts: Seq::empty(), diags: Seq::empty() }
    } else {
        let r = spec_statement(toks, po, i);
        let j1 = if r.diags.len() > 0 {
            spec_sync(toks, hold_pos(toks, i, r.next))
        } else {
            r.next
        };
        let j = step_pos(toks, i, j1);
        let rest = spec_program(toks, po, j);
        PProgV { stmts: seq![r.stmt] + rest.stmts, diags: r.diags + rest.diags }
    }
}

/// The parser's abstract state.
pub ghost struct ParserV {
    pub tokens: Seq<TokenV>,
    pub current: int,
    pub diags: Seq<PDiagV>,
}

/// The recursive-descent parser: owns the token stream, a cursor into it,
/// and the parse faults found so far.
pub struct Parser {
    tokens: Vec<Token>,
    current: usize,
    diags: Vec<ParseDiag>,
}

impl View for Parser {
    type V = ParserV;

    closed spec fn view(&self) -> ParserV {
        ParserV {
            tokens: self.tokens.deep_view(),
            current: self.current as int,
            diags: self.diags.deep_view(),
        }
    }
}

impl Parser {
    /// The token stream is well formed and the cursor sits on a token.
    pub closed spec fn wf(&self) -> bool {
        &&& wf_tokens(self.tokens.deep_view())
        &&& self.current < self.tokens.len()
    }

    /// A parser at the start of a well-formed token stream.
    pub fn new(tokens: Vec<Token>) -> (r: Self)
        requires
            wf_tokens(tokens.deep_view()),
        ensures
            r.wf(),
            r@.tokens == tokens.deep_view(),
            r@.current == 0,
            r@.diags == Seq::<PDiagV>::empty(),
    {
        let r = Parser { tokens, current: 0, diags: Vec::new() };
        proof {
            assert(r@.diags =~= Seq::<PDiagV>::empty());
        }
        r
    }

    /// The parse faults found so far.
    pub fn diagnostics(&self) -> (r: &Vec<ParseDiag>)
        ensures
            r.deep_view() == self@.diags,
    {
        &self.diags
    }

    fn peek(&self) -> (r: &Token)
        requires
            self.wf(),
        ensures
            r@ == tok_at(self@.tokens, self@.current),
    {
        &self.tokens[self.current]
    }

    fn previous(&self) -> (r: &Token)
        requires
            self.wf(),
        ensures
            r@ == prev_at(self@.tokens, self@.current),
    {
        if self.current == 0 {
            return &self.tokens[0];
        }
        &self.tokens[self.current - 1]
    }

    fn is_at_end(&self) -> (r: bool)
        requires
            self.wf(),
        ensures
            r == (tok_at(self@.tokens, self@.current).token_type == TokenType::EOF),
    {
        let tt = self.peek();
        tt.token_type == TokenType::EOF
    }

    fn advance(&mut self) -> (r: Token)
        requires
            old(self).wf(),
        ensures
            final(self).wf(),
            final(self)@.tokens == old(self)@.tokens,
            final(self)@.diags == old(self)@.diags,
            final(self)@.current == adv(old(self)@.tokens, old(self)@.current),
            r@ == prev_at(final(self)@.tokens, final(self)@.current),
    {
        if !self.is_at_end() {
            proof {
                assert(self@.current < self@.tokens.len() - 1);
            }
            self.current = self.current + 1;
        }
        self.previous().clone()
    }

    fn check(&self, token_type: TokenType) -> (r: bool)
        requires
            self.wf(),
        ensures
            r == (tok_at(self@.tokens, self@.current).token_type != TokenType::EOF && tok_at(
                self@.tokens,
                self@.current,
            ).token_type == token_type),
    {
        if self.is_at_end() {
            return false;
        }
        let tt = self.peek();
        tt.token_type == token_type
    }

    fn matches(&mut self, token_type_vec: Vec<TokenType>) -> (r: bool)
        requires
            old(self).wf(),
        ensures
            final(self).wf(),
            final(self)@.tokens == old(self)@.tokens,
            final(self)@.diags == old(self)@.diags,
            r == (tok_at(old(self)@.tokens, old(self)@.current).token_type != TokenType::EOF
                && token_type_vec@.contains(
                tok_at(old(self)@.tokens, old(self)@.current).token_type,
            )),
            r ==> final(self)@.current == old(self)@.current + 1 && adv(
                old(self)@.tokens,
                old(self)@.current,
            ) == old(self)@.current + 1,
            !r ==> final(self)@.current == old(self)@.current,
    {
        let mut i: usize = 0;
        while i < token_type_vec.len()
            invariant
                self.wf(),
                self == old(self),
                0 <= i <= token_type_vec.len(),
                forall|j: int|
                    0 <= j < i ==> !(tok_at(self@.tokens, self@.current).token_type
                        != TokenType::EOF && token_type_vec@[j] == tok_at(
                        self@.tokens,
                        self@.current,
                    ).token_type),
            decreases token_type_vec.len() - i,
        {
            if self.check(token_type_vec[i]) {
                let _ = self.advance();
                return true;
            }
            i = i + 1;
        }
        false
    }

    /// Records a parse fault at a token.
    fn error(&mut self, token: Token, message: &str)
        requires
            old(self).wf(),
        ensures
            final(self).wf(),
            final(self)@.tokens == old(self)@.tokens,
            final(self)@.current == old(self)@.current,
            final(self)@.diags == old(self)@.diags.push(
                PDiagV { token: token@, message: message@ },
            ),
    {
        let message = message.to_owned();
        self.diags.push(ParseDiag { token, message });
        proof {
            assert(self@.diags =~= old(self)@.diags.push(
                PDiagV {
                    token: self.diags@.last()@.token,
                    message: self.diags@.last()@.message,
                },
            ));
        }
    }

    /// Consumes the expected token kind and returns it; when something else
    /// is next, reports the fault and returns that token without advancing.
    fn consume(&mut self, token_type: TokenType, msg: &str) -> (r: Token)
        requires
            old(self).wf(),
        ensures
            final(self).wf(),
            final(self)@.tokens == old(self)@.tokens,
            ({
                let cons = spec_consume(
                    old(self)@.tokens,
                    old(self)@.current,
                    token_type,
                    msg@,
                );
                &&& final(self)@.current == cons.0
                &&& final(self)@.diags == old(self)@.diags + cons.1
                &&& r@ == tok_at(old(self)@.tokens, old(self)@.current)
            }),
    {
        if self.check(token_type) {
            let r = self.advance();
            proof {
                assert(old(self)@.diags + Seq::<PDiagV>::empty() =~= old(self)@.diags);
            }
            return r;
        }
        let t = self.peek().clone();
        let r = t.clone();
        self.error(t, msg);
        proof {
            assert(old(self)@.diags.push(PDiagV { token: r@, message: msg@ }) =~= old(
                self,
            )@.diags + seq![PDiagV { token: r@, message: msg@ }]);
        }
        r
    }

    #[verifier::rlimit(100)]
    fn primary(&mut self, oracle: &NumOracle) -> (r: Expr)
        requires
            old(self).wf(),
            parse_covered(old(self)@.tokens, oracle@.parses),
        ensures
            final(self).wf(),
            final(self)@.tokens == old(self)@.tokens,
            ({
                let res = spec_primary(old(self)@.tokens, oracle@.parses, old(self)@.current);
                &&& expr_view(r) == res.expr
                &&& final(self)@.current == res.next
                &&& final(self)@.diags == old(self)@.diags + res.diags
            }),
        decreases self@.tokens.len() - self@.current, 0int,
    {
        let ghost toks = self@.tokens;
        let ghost po = oracle@.parses;
        let ghost i = self@.current;
        let ghost d0 = self@.diags;
        if self.matches(vec![TokenType::FALSE]) {
            proof {
                assert(d0 + Seq::<PDiagV>::empty() =~= d0);
            }
            return Expr::Literal { literal: LiteralRepresentations::CustomBoolean { val: false } };
        }
        if self.matches(vec![TokenType::TRUE]) {
            proof {
                assert(d0 + Seq::<PDiagV>::empty() =~= d0);
            }
            return Expr::Literal { literal: LiteralRepresentations::CustomBoolean { val: true } };
        }
        if self.matches(vec![TokenType::NIL]) {
            proof {
                assert(d0 + Seq::<PDiagV>::empty() =~= d0);
            }
            return Expr::Literal { literal: LiteralRepresentations::CustomNil };
        }
        if self.matches(vec![TokenType::NUMBER, TokenType::STRING]) {
            let tt = self.previous().clone();
            proof {
                assert(tt@ == tok_at(toks, i));
                assert(d0 + Seq::<PDiagV>::empty() =~= d0);
            }
            if tt.token_type == TokenType::NUMBER {
                let bits = oracle.parse_answer(&tt.literal);
                return Expr::Literal {
                    literal: LiteralRepresentations::CustomNumber { val: bits.unwrap() },
                };
            }
            return Expr::Literal {
                literal: LiteralRepresentations::CustomString { val: tt.literal },
            };
        }
        if self.matches(vec![TokenType::LEFTPAREN]) {
            let e = self.expression(oracle);
            let _ = self.consume(TokenType::RIGHTPAREN, "Expect ')' after expression.");
            proof {
                let inner = spec_expression(toks, po, i + 1);
                let cons = spec_consume(
                    toks,
                    inner.next,
                    TokenType::RIGHTPAREN,
                    "Expect ')' after expression."@,
                );
                assert((d0 + inner.diags) + cons.1 =~= d0 + (inner.diags + cons.1));
            }
            return Expr::Grouping { expr: Box::new(e) };
        }
        if self.matches(vec![TokenType::IDENTIFIER]) {
            let name = self.previous().clone();
            proof {
                assert(name@ == tok_at(toks, i));
                assert(d0 + Seq::<PDiagV>::empty() =~= d0);
            }
            return Expr::Variable { name };
        }
        let t = self.peek().clone();
        self.error(t, "Reached end, expecting an expression");
        proof {
            let res = spec_primary(toks, po, i);
            assert(d0.push(res.diags[0]) =~= d0 + res.diags);
        }
        Expr::FailScenario { reason: String::from_str("Reached end, expecting an expression") }
    }

    fn unary(&mut self, oracle: &NumOracle) -> (r: Expr)
        requires
            old(self).wf(),
            parse_covered(old(self)@.tokens, oracle@.parses),
        ensures
            final(self).wf(),
            final(self)@.tokens == old(self)@.tokens,
            ({
                let res = spec_unary(old(self)@.tokens, oracle@.parses, old(self)@.current);
                &&& expr_view(r) == res.expr
                &&& final(self)@.current == res.next
                &&& final(self)@.diags == old(self)@.diags + res.diags
            }),
        decreases self@.tokens.len() - self@.current, 1int,
    {
        if self.matches(vec![TokenType::BANG, TokenType::MINUS]) {
            let operator = self.previous().clone();
            let right = self.unary(oracle);
            return Expr::Unary { operator, right: Box::new(right) };
        }
        self.primary(oracle)
    }

    #[verifier::rlimit(80)]
    fn factor(&mut self, oracle: &NumOracle) -> (r: Expr)
        requires
            old(self).wf(),
            parse_covered(old(self)@.tokens, oracle@.parses),
        ensures
            final(self).wf(),
            final(self)@.tokens == old(self)@.tokens,
            ({
                let res = spec_factor(old(self)@.tokens, oracle@.parses, old(self)@.current);
                &&& expr_view(r) == res.expr
                &&& final(self)@.current == res.next
                &&& final(self)@.diags == old(self)@.diags + res.diags
            }),
        decreases self@.tokens.len() - self@.current, 3int,
    {
        let ghost toks = self@.tokens;
        let ghost po = oracle@.parses;
        let ghost i = self@.current;
        let ghost d0 = self@.diags;
        let ghost target = spec_factor(toks, po, i);
        let mut expr = self.unary(oracle);
        proof {
            lemma_unary_bounds(toks, po, i);
            let r1 = spec_unary(toks, po, i);
            assert((d0 + r1.diags).take(d0.len() as int) =~= d0);
            assert((d0 + r1.diags).skip(d0.len() as int) =~= r1.diags);
            assert(hold_pos(toks, i, r1.next) == r1.next);
        }
        #[verifier::loop_isolation(false)]
        while self.matches(vec![TokenType::SLASH, TokenType::STAR])
            invariant
                self.wf(),
                self@.tokens == toks,
                po == oracle@.parses,
                parse_covered(toks, po),
                target == spec_factor(toks, po, i),
                0 <= i <= self@.current <= toks.len() - 1,
                d0.len() <= self@.diags.len(),
                d0 =~= self@.diags.take(d0.len() as int),
                target == spec_factor_more(
                    toks,
                    po,
                    self@.current,
                    expr_view(expr),
                    self@.diags.skip(d0.len() as int),
                ),
            decreases toks.len() - self@.current,
        {
            let ghost p = self@.current - 1;
            let ghost dcur = self@.diags.skip(d0.len() as int);
            let ghost acc0 = expr_view(expr);
            let operator = self.previous().clone();
            proof {
                assert(tok_at(toks, p).token_type == TokenType::SLASH || tok_at(toks, p).token_type == TokenType::STAR);
                lemma_unary_bounds(toks, po, p + 1);
            }
            let right = self.unary(oracle);
            let ghost rr = spec_unary(toks, po, p + 1);
            expr = Expr::Binary { left: Box::new(expr), operator, right: Box::new(right) };
            proof {
                assert(expr_view(expr) == (ExprV::Binary {
                    operator: tok_at(toks, p),
                    sub: seq![acc0, rr.expr],
                }));
                assert(self@.diags.take(d0.len() as int) =~= d0);
                assert(self@.diags.skip(d0.len() as int) =~= dcur + rr.diags);
                assert(step_pos(toks, p, rr.next) == rr.next);
                assert(spec_factor_more(toks, po, p, acc0, dcur) == spec_factor_more(
                    toks,
                    po,
                    rr.next,
                    expr_view(expr),
                    dcur + rr.diags,
                ));
            }
        }
        proof {
            assert(self@.diags =~= d0 + self@.diags.skip(d0.len() as int));
        }
        expr
    }

    #[verifier::rlimit(80)]
    fn term(&mut self, oracle: &NumOracle) -> (r: Expr)
        requires
            old(self).wf(),
            parse_covered(old(self)@.tokens, oracle@.parses),
        ensures
            final(self).wf(),
            final(self)@.tokens == old(self)@.tokens,
            ({
                let res = spec_term(old(self)@.tokens, oracle@.parses, old(self)@.current);
                &&& expr_view(r) == res.expr
                &&& final(self)@.current == res.next
                &&& final(self)@.diags == old(self)@.diags + res.diags
            }),
        decreases self@.tokens.len() - self@.current, 5int,
    {
        let ghost toks = self@.tokens;
        let ghost po = oracle@.parses;
        let ghost i = self@.current;
        let ghost d0 = self@.diags;
        let ghost target = spec_term(toks, po, i);
        let mut expr = self.factor(oracle);
        proof {
            lemma_factor_bounds(toks, po, i);
            let r1 = spec_factor(toks, po, i);
            assert((d0 + r1.diags).take(d0.len() as int) =~= d0);
            assert((d0 + r1.diags).skip(d0.len() as int) =~= r1.diags);
            assert(hold_pos(toks, i, r1.next) == r1.next);
        }
        #[verifier::loop_isolation(false)]
        while self.matches(vec![TokenType::MINUS, TokenType::PLUS])
            invariant
                self.wf(),
                self@.tokens == toks,
                po == oracle@.parses,
                parse_covered(toks, po),
                target == spec_term(toks, po, i),
                0 <= i <= self@.current <= toks.len() - 1,
                d0.len() <= self@.diags.len(),
                d0 =~= self@.diags.take(d0.len() as int),
                target == spec_term_more(
                    toks,
                    po,
                    self@.current,
                    expr_view(expr),
                    self@.diags.skip(d0.len() as int),
                ),
            decreases toks.len() - self@.current,
        {
            let ghost p = self@.current - 1;
            let ghost dcur = self@.diags.skip(d0.len() as int);
            let ghost acc0 = expr_view(expr);
            let operator = self.previous().clone();
            proof {
                assert(tok_at(toks, p).token_type == TokenType::MINUS || tok_at(toks, p).token_type == TokenType::PLUS);
                lemma_factor_bounds(toks, po, p + 1);
            }
            let right = self.factor(oracle);
            let ghost rr = spec_factor(toks, po, p + 1);
            expr = Expr::Binary { left: Box::new(expr), operator, right: Box::new(right) };
            proof {
                assert(expr_view(expr) == (ExprV::Binary {
                    operator: tok_at(toks, p),
                    sub: seq![acc0, rr.expr],
                }));
                assert(self@.diags.take(d0.len() as int) =~= d0);
                assert(self@.diags.skip(d0.len() as int) =~= dcur + rr.diags);
                assert(step_pos(toks, p, rr.next) == rr.next);
                assert(spec_term_more(toks, po, p, acc0, dcur) == spec_term_more(
                    toks,
                    po,
                    rr.next,
                    expr_view(expr),
                    dcur + rr.diags,
                ));
            }
        }
        proof {
            assert(self@.diags =~= d0 + self@.diags.skip(d0.len() as int));
        }
        expr
    }

    #[verifier::rlimit(80)]
    fn comparison(&mut self, oracle: &NumOracle) -> (r: Expr)
        requires
            old(self).wf(),
            parse_covered(old(self)@.tokens, oracle@.parses),
        ensures
            final(self).wf(),
            final(self)@.tokens == old(self)@.tokens,
            ({
                let res = spec_comparison(old(self)@.tokens, oracle@.parses, old(self)@.current);
                &&& expr_view(r) == res.expr
                &&& final(self)@.current == res.next
                &&& final(self)@.diags == old(self)@.diags + res.diags
            }),
        decreases self@.tokens.len() - self@.current, 7int,
    {
        let ghost toks = self@.tokens;
        let ghost po = oracle@.parses;
        let ghost i = self@.current;
        let ghost d0 = self@.diags;
        let ghost target = spec_comparison(toks, po, i);
        let mut expr = self.term(oracle);
        proof {
            lemma_term_bounds(toks, po, i);
            let r1 = spec_term(toks, po, i);
            assert((d0 + r1.diags).take(d0.len() as int) =~= d0);
            assert((d0 + r1.diags).skip(d0.len() as int) =~= r1.diags);
            assert(hold_pos(toks, i, r1.next) == r1.next);
        }
        #[verifier::loop_isolation(false)]
        while self.matches(vec![TokenType::GREATER, TokenType::GREATEREQUAL, TokenType::LESS, TokenType::LESSEQUAL])
            invariant
                self.wf(),
                self@.tokens == toks,
                po == oracle@.parses,
                parse_covered(toks, po),
                target == spec_comparison(toks, po, i),
                0 <= i <= self@.current <= toks.len() - 1,
                d0.len() <= self@.diags.len(),
                d0 =~= self@.diags.take(d0.len() as int),
                target == spec_comparison_more(
                    toks,
                    po,
                    self@.current,
                    expr_view(expr),
                    self@.diags.skip(d0.len() as int),
                ),
            decreases toks.len() - self@.current,
        {
            let ghost p = self@.current - 1;
            let ghost dcur = self@.diags.skip(d0.len() as int);
            let ghost acc0 = expr_view(expr);
            let operator = self.previous().clone();
            proof {
                assert(tok_at(toks, p).token_type == TokenType::GREATER || tok_at(toks, p).token_type == TokenType::GREATEREQUAL || tok_at(toks, p).token_type == TokenType::LESS || tok_at(toks, p).token_type == TokenType::LESSEQUAL);
                lemma_term_bounds(toks, po, p + 1);
            }
            let right = self.term(oracle);
            let ghost rr = spec_term(toks, po, p + 1);
            expr = Expr::Binary { left: Box::new(expr), operator, right: Box::new(right) };
            proof {
                assert(expr_view(expr) == (ExprV::Binary {
                    operator: tok_at(toks, p),
                    sub: seq![acc0, rr.expr],
                }));
                assert(self@.diags.take(d0.len() as int) =~= d0);
                assert(self@.diags.skip(d0.len() as int) =~= dcur + rr.diags);
                assert(step_pos(toks, p, rr.next) == rr.next);
                assert(spec_comparison_more(toks, po, p, acc0, dcur) == spec_comparison_more(
                    toks,
                    po,
                    rr.next,
                    expr_view(expr),
                    dcur + rr.diags,
                ));
            }
        }
        proof {
            assert(self@.diags =~= d0 + self@.diags.skip(d0.len() as int));
        }
        expr
    }

    #[verifier::rlimit(80)]
    fn equality(&mut self, oracle: &NumOracle) -> (r: Expr)
        requires
            old(self).wf(),
            parse_covered(old(self)@.tokens, oracle@.parses),
        ensures
            final(self).wf(),
            final(self)@.tokens == old(self)@.tokens,
            ({
                let res = spec_equality(old(self)@.tokens, oracle@.parses, old(self)@.current);
                &&& expr_view(r) == res.expr
                &&& final(self)@.current == res.next
                &&& final(self)@.diags == old(self)@.diags + res.diags
            }),
        decreases self@.tokens.len() - self@.current, 9int,
    {
        let ghost toks = self@.tokens;
        let ghost po = oracle@.parses;
        let ghost i = self@.current;
        let ghost d0 = self@.diags;
        let ghost target = spec_equality(toks, po, i);
        let mut expr = self.comparison(oracle);
        proof {
            lemma_comparison_bounds(toks, po, i);
            let r1 = spec_comparison(toks, po, i);
            assert((d0 + r1.diags).take(d0.len() as int) =~= d0);
            assert((d0 + r1.diags).skip(d0.len() as int) =~= r1.diags);
            assert(hold_pos(toks, i, r1.next) == r1.next);
        }
        #[verifier::loop_isolation(false)]
        while self.matches(vec![TokenType::BANGEQUAL, TokenType::EQUALEQUAL])
            invariant
                self.wf(),
                self@.tokens == toks,
                po == oracle@.parses,
                parse_covered(toks, po),
                target == spec_equality(toks, po, i),
                0 <= i <= self@.current <= toks.len() - 1,
                d0.len() <= self@.diags.len(),
                d0 =~= self@.diags.take(d0.len() as int),
                target == spec_equality_more(
                    toks,
                    po,
                    self@.current,
                    expr_view(expr),
                    self@.diags.skip(d0.len() as int),
                ),
            decreases toks.len() - self@.current,
        {
            let ghost p = self@.current - 1;
            let ghost dcur = self@.diags.skip(d0.len() as int);
            let ghost acc0 = expr_view(expr);
            let operator = self.previous().clone();
            proof {
                assert(tok_at(toks, p).token_type == TokenType::BANGEQUAL || tok_at(toks, p).token_type == TokenType::EQUALEQUAL);
                lemma_comparison_bounds(toks, po, p + 1);
            }
            let right = self.comparison(oracle);
            let ghost rr = spec_comparison(toks, po, p + 1);
            expr = Expr::Binary { left: Box::new(expr), operator, right: Box::new(right) };
            proof {
                assert(expr_view(expr) == (ExprV::Binary {
                    operator: tok_at(toks, p),
                    sub: seq![acc0, rr.expr],
                }));
                assert(self@.diags.take(d0.len() as int) =~= d0);
                assert(self@.diags.skip(d0.len() as int) =~= dcur + rr.diags);
                assert(step_pos(toks, p, rr.next) == rr.next);
                assert(spec_equality_more(toks, po, p, acc0, dcur) == spec_equality_more(
                    toks,
                    po,
                    rr.next,
                    expr_view(expr),
                    dcur + rr.diags,
                ));
            }
        }
        proof {
            assert(self@.diags =~= d0 + self@.diags.skip(d0.len() as int));
        }
        expr
    }

    fn expression(&mut self, oracle: &NumOracle) -> (r: Expr)
        requires
            old(self).wf(),
            parse_covered(old(self)@.tokens, oracle@.parses),
        ensures
            final(self).wf(),
            final(self)@.tokens == old(self)@.tokens,
            ({
                let res = spec_expression(old(self)@.tokens, oracle@.parses, old(self)@.current);
                &&& expr_view(r) == res.expr
                &&& final(self)@.current == res.next
                &&& final(self)@.diags == old(self)@.diags + res.diags
            }),
        decreases self@.tokens.len() - self@.current, 10int,
    {
        self.equality(oracle)
    }

    fn print_statement(&mut self, oracle: &NumOracle) -> (s: Stmt)
        requires
            old(self).wf(),
            parse_covered(old(self)@.tokens, oracle@.parses),
        ensures
            final(self).wf(),
            final(self)@.tokens == old(self)@.tokens,
            ({
                let r = spec_expression(old(self)@.tokens, oracle@.parses, old(self)@.current);
                let cons = spec_consume(
                    old(self)@.tokens,
                    r.next,
                    TokenType::SEMICOLON,
                    "Expect ';' after value."@,
                );
                &&& s@ == (StmtV::Print { expression: r.expr })
                &&& final(self)@.current == cons.0
                &&& final(self)@.diags == old(self)@.diags + (r.diags + cons.1)
            }),
    {
        let ghost toks = self@.tokens;
        let ghost po = oracle@.parses;
        let ghost i = self@.current;
        let ghost d0 = self@.diags;
        let print_expr = self.expression(oracle);
        proof {
            lemma_expression_bounds(toks, po, i);
        }
        let _ = self.consume(TokenType::SEMICOLON, "Expect ';' after value.");
        proof {
            let r = spec_expression(toks, po, i);
            let cons = spec_consume(toks, r.next, TokenType::SEMICOLON, "Expect ';' after value."@);
            assert((d0 + r.diags) + cons.1 =~= d0 + (r.diags + cons.1));
        }
        Stmt::Print(Print { print_expression: print_expr })
    }

    fn expression_statement(&mut self, oracle: &NumOracle) -> (s: Stmt)
        requires
            old(self).wf(),
            parse_covered(old(self)@.tokens, oracle@.parses),
        ensures
            final(self).wf(),
            final(self)@.tokens == old(self)@.tokens,
            ({
                let r = spec_expression(old(self)@.tokens, oracle@.parses, old(self)@.current);
                let cons = spec_consume(
                    old(self)@.tokens,
                    r.next,
                    TokenType::SEMICOLON,
                    "Expect ';' after expression."@,
                );
                &&& s@ == (StmtV::Expression { expression: r.expr })
                &&& final(self)@.current == cons.0
                &&& final(self)@.diags == old(self)@.diags + (r.diags + cons.1)
            }),
    {
        let ghost toks = self@.tokens;
        let ghost po = oracle@.parses;
        let ghost i = self@.current;
        let ghost d0 = self@.diags;
        let expr = self.expression(oracle);
        proof {
            lemma_expression_bounds(toks, po, i);
        }
        let _ = self.consume(TokenType::SEMICOLON, "Expect ';' after expression.");
        proof {
            let r = spec_expression(toks, po, i);
            let cons = spec_consume(
                toks,
                r.next,
                TokenType::SEMICOLON,
                "Expect ';' after expression."@,
            );
            assert((d0 + r.diags) + cons.1 =~= d0 + (r.diags + cons.1));
        }
        Stmt::Expression(Expression { expression: expr })
    }

    #[verifier::rlimit(80)]
    fn var_declaration(&mut self, oracle: &NumOracle) -> (s: Stmt)
        requires
            old(self).wf(),
            parse_covered(old(self)@.tokens, oracle@.parses),
        ensures
            final(self).wf(),
            final(self)@.tokens == old(self)@.tokens,
            ({
                let toks = old(self)@.tokens;
                let po = oracle@.parses;
                let i = old(self)@.current;
                let name = tok_at(toks, i);
                let cons1 = spec_consume(toks, i, TokenType::IDENTIFIER, "Expect variable name."@);
                if tok_at(toks, cons1.0).token_type == TokenType::EQUAL {
                    let r = spec_expression(toks, po, adv(toks, cons1.0));
                    let cons2 = spec_consume(
                        toks,
                        r.next,
                        TokenType::SEMICOLON,
                        "Expect ';' after variable declaration."@,
                    );
                    &&& s@ == (StmtV::Var { name, initializer: Some(r.expr) })
                    &&& final(self)@.current == cons2.0
                    &&& final(self)@.diags == old(self)@.diags + (cons1.1 + r.diags + cons2.1)
                } else {
                    let cons2 = spec_consume(
                        toks,
                        cons1.0,
                        TokenType::SEMICOLON,
                        "Expect ';' after variable declaration."@,
                    );
                    &&& s@ == (StmtV::Var { name, initializer: None })
                    &&& final(self)@.current == cons2.0
                    &&& final(self)@.diags == old(self)@.diags + (cons1.1 + cons2.1)
                }
            }),
    {
        let ghost toks = self@.tokens;
        let ghost po = oracle@.parses;
        let ghost i = self@.current;
        let ghost d0 = self@.diags;
        let name = self.consume(TokenType::IDENTIFIER, "Expect variable name.");
        let ghost cons1 = spec_consume(toks, i, TokenType::IDENTIFIER, "Expect variable name."@);
        if self.matches(vec![TokenType::EQUAL]) {
            let ghost j = self@.current;
            let initializer = self.expression(oracle);
            proof {
                lemma_expression_bounds(toks, po, j);
            }
            let _ = self.consume(TokenType::SEMICOLON, "Expect ';' after variable declaration.");
            proof {
                let r = spec_expression(toks, po, j);
                let cons2 = spec_consume(
                    toks,
                    r.next,
                    TokenType::SEMICOLON,
                    "Expect ';' after variable declaration."@,
                );
                assert(((d0 + cons1.1) + r.diags) + cons2.1 =~= d0 + (cons1.1 + r.diags
                    + cons2.1));
            }
            return Stmt::Var(Var { name, initializer: Some(initializer) });
        }
        let _ = self.consume(TokenType::SEMICOLON, "Expect ';' after variable declaration.");
        proof {
            let cons2 = spec_consume(
                toks,
                cons1.0,
                TokenType::SEMICOLON,
                "Expect ';' after variable declaration."@,
            );
            assert((d0 + cons1.1) + cons2.1 =~= d0 + (cons1.1 + cons2.1));
        }
        Stmt::Var(Var { name, initializer: None })
    }

    fn statement(&mut self, oracle: &NumOracle) -> (s: Stmt)
        requires
            old(self).wf(),
            parse_covered(old(self)@.tokens, oracle@.parses),
        ensures
            final(self).wf(),
            final(self)@.tokens == old(self)@.tokens,
            ({
                let res = spec_statement(old(self)@.tokens, oracle@.parses, old(self)@.current);
                &&& s@ == res.stmt
                &&& final(self)@.current == res.next
                &&& final(self)@.diags == old(self)@.diags + res.diags
            }),
    {
        if self.matches(vec![TokenType::PRINT]) {
            return self.print_statement(oracle);
        }
        if self.matches(vec![TokenType::VAR]) {
            return self.var_declaration(oracle);
        }
        self.expression_statement(oracle)
    }

    fn synchronize(&mut self)
        requires
            old(self).wf(),
        ensures
            final(self).wf(),
            final(self)@.tokens == old(self)@.tokens,
            final(self)@.diags == old(self)@.diags,
            final(self)@.current == spec_sync(old(self)@.tokens, old(self)@.current),
    {
        let ghost toks = self@.tokens;
        let _ = self.advance();
        let ghost j0 = self@.current;
        #[verifier::loop_isolation(false)]
        while !self.is_at_end()
            invariant
                self.wf(),
                self@.tokens == toks,
                self@.diags == old(self)@.diags,
                0 <= self@.current <= toks.len() - 1,
                sync_scan(toks, j0) == sync_scan(toks, self@.current),
            decreases toks.len() - self@.current,
        {
            if self.previous().token_type == TokenType::SEMICOLON {
                return ;
            }
            let next_type = self.peek().token_type;
            match next_type {
                TokenType::CLASS => { return ; },
                TokenType::FUN => { return ; },
                TokenType::VAR => { return ; },
                TokenType::FOR => { return ; },
                TokenType::IF => { return ; },
                TokenType::WHILE => { return ; },
                TokenType::PRINT => { return ; },
                TokenType::RETURN => { return ; },
                _ => {},
            }
            let _ = self.advance();
        }
    }

    /// Parses the whole program: statements until the end of input, with
    /// recovery after each statement that reported a fault.
    #[verifier::rlimit(100)]
    pub fn parse_stmts(&mut self, oracle: &NumOracle) -> (r: Vec<Stmt>)
        requires
            old(self).wf(),
            parse_covered(old(self)@.tokens, oracle@.parses),
        ensures
            final(self).wf(),
            final(self)@.tokens == old(self)@.tokens,
            ({
                let res = spec_program(old(self)@.tokens, oracle@.parses, old(self)@.current);
                &&& r.deep_view() == res.stmts
                &&& final(self)@.diags == old(self)@.diags + res.diags
            }),
    {
        let ghost toks = self@.tokens;
        let ghost po = oracle@.parses;
        let ghost i0 = self@.current;
        let ghost d0 = self@.diags;
        let ghost target = spec_program(toks, po, i0);
        let mut statements: Vec<Stmt> = Vec::new();
        proof {
            assert(statements.deep_view() =~= Seq::<StmtV>::empty());
        }
        #[verifier::loop_isolation(false)]
        while !self.is_at_end()
            invariant
                self.wf(),
                self@.tokens == toks,
                parse_covered(toks, po),
                i0 <= self@.current <= toks.len() - 1,
                d0.len() <= self@.diags.len(),
                d0 =~= self@.diags.take(d0.len() as int),
                target.stmts == statements.deep_view() + spec_program(
                    toks,
                    po,
                    self@.current,
                ).stmts,
                target.diags == self@.diags.skip(d0.len() as int) + spec_program(
                    toks,
                    po,
                    self@.current,
                ).diags,
            decreases toks.len() - self@.current,
        {
            let ghost i = self@.current;
            let ghost dcur = self@.diags.skip(d0.len() as int);
            let ghost ss = spec_statement(toks, po, i);
            let before = self.diags.len();
            let s = self.statement(oracle);
            proof {
                lemma_statement_bounds(toks, po, i);
            }
            if self.diags.len() > before {
                proof {
                    assert(ss.diags.len() > 0);
                    assert(hold_pos(toks, i, ss.next) == ss.next);
                    lemma_sync_scan_bounds(toks, adv(toks, ss.next));
                }
                self.synchronize();
            }
            statements.push(s);
            proof {
                let j1 = if ss.diags.len() > 0 {
                    spec_sync(toks, hold_pos(toks, i, ss.next))
                } else {
                    ss.next
                };
                assert(j1 > i);
                assert(step_pos(toks, i, j1) == j1);
                assert(self@.current == j1);
                let rest = spec_program(toks, po, j1);
                assert(spec_program(toks, po, i).stmts == seq![ss.stmt] + rest.stmts);
                assert(spec_program(toks, po, i).diags == ss.diags + rest.diags);
                assert(statements.deep_view() =~= statements.deep_view().drop_last().push(s@));
                assert(statements.deep_view().drop_last() + (seq![ss.stmt] + rest.stmts)
                    =~= statements.deep_view() + rest.stmts);
                assert(self@.diags.skip(d0.len() as int) =~= dcur + ss.diags);
                assert((dcur + ss.diags) + rest.diags =~= dcur + (ss.diags + rest.diags));
                assert(self@.diags.take(d0.len() as int) =~= d0);
            }
        }
        proof {
            assert(spec_program(toks, po, self@.current).stmts =~= Seq::<StmtV>::empty());
            assert(spec_program(toks, po, self@.current).diags =~= Seq::<PDiagV>::empty());
            assert(statements.deep_view() + Seq::<StmtV>::empty() =~= statements.deep_view());
            assert(self@.diags.skip(d0.len() as int) + Seq::<PDiagV>::empty() =~= self@.diags.skip(
                d0.len() as int,
            ));
            assert(self@.diags =~= d0 + self@.diags.skip(d0.len() as int));
        }
        statements
    }

    /// Parses one expression: the entry point for a single expression.
    pub fn parse(&mut self, oracle: &NumOracle) -> (r: Expr)
        requires
            old(self).wf(),
            parse_covered(old(self)@.tokens, oracle@.parses),
        ensures
            final(self).wf(),
            final(self)@.tokens == old(self)@.tokens,
            ({
                let res = spec_expression(old(self)@.tokens, oracle@.parses, old(self)@.current);
                &&& expr_view(r) == res.expr
                &&& final(self)@.current == res.next
                &&& final(self)@.diags == old(self)@.diags + res.diags
            }),
    {
        self.expression(oracle)
    }
}

/// Left associativity of the binary levels: parsing `a - b - c` for any
/// identifier tokens `a`, `b`, `c` yields a tree whose root is the second
/// `-`, whose left child is the `a - b` subtree, and whose right child is
/// `c`.
pub proof fn lemma_term_left_assoc(
    a: TokenV,
    m1: TokenV,
    b: TokenV,
    m2: TokenV,
    c: TokenV,
    e: TokenV,
    po: Seq<(Seq<char>, u64)>,
)
    requires
        a.token_type == TokenType::IDENTIFIER,
        b.token_type == TokenType::IDENTIFIER,
        c.token_type == TokenType::IDENTIFIER,
        m1.token_type == TokenType::MINUS,
        m2.token_type == TokenType::MINUS,
        e.token_type == TokenType::EOF,
    ensures
        ({
            let toks = seq![a, m1, b, m2, c, e];
            let r = spec_expression(toks, po, 0);
            &&& r.expr == (ExprV::Binary {
                operator: m2,
                sub: seq![
                    ExprV::Binary {
                        operator: m1,
                        sub: seq![
                            ExprV::Variable { name: a },
                            ExprV::Variable { name: b },
                        ],
                    },
                    ExprV::Variable { name: c },
                ],
            })
            &&& r.next == 5
            &&& r.diags.len() == 0
        }),
{
    let toks = seq![a, m1, b, m2, c, e];
    let ea = ExprV::Variable { name: a };
    let eb = ExprV::Variable { name: b };
    let ec = ExprV::Variable { name: c };
    let eab = ExprV::Binary { operator: m1, sub: seq![ea, eb] };
    let eabc = ExprV::Binary { operator: m2, sub: seq![eab, ec] };
    let none: Seq<PDiagV> = Seq::empty();

    // The three identifiers parse as variables, one token each.
    assert(spec_primary(toks, po, 0) == (PExprV { expr: ea, next: 1, diags: none }));
    assert(spec_unary(toks, po, 0) == (PExprV { expr: ea, next: 1, diags: none }));
    assert(spec_factor_more(toks, po, 1, ea, none) == (PExprV { expr: ea, next: 1, diags: none }));
    assert(spec_factor(toks, po, 0) == (PExprV { expr: ea, next: 1, diags: none }));
    assert(spec_primary(toks, po, 2) == (PExprV { expr: eb, next: 3, diags: none }));
    assert(spec_unary(toks, po, 2) == (PExprV { expr: eb, next: 3, diags: none }));
    assert(spec_factor_more(toks, po, 3, eb, none) == (PExprV { expr: eb, next: 3, diags: none }));
    assert(spec_factor(toks, po, 2) == (PExprV { expr: eb, next: 3, diags: none }));
    assert(spec_primary(toks, po, 4) == (PExprV { expr: ec, next: 5, diags: none }));
    assert(spec_unary(toks, po, 4) == (PExprV { expr: ec, next: 5, diags: none }));
    assert(spec_factor_more(toks, po, 5, ec, none) == (PExprV { expr: ec, next: 5, diags: none }));
    assert(spec_factor(toks, po, 4) == (PExprV { expr: ec, next: 5, diags: none }));

    // The term loop folds to the left: first `a - b`, then `(a - b) - c`.
    assert(none + none =~= none);
    assert(spec_term_more(toks, po, 5, eabc, none) == (PExprV {
        expr: eabc,
        next: 5,
        diags: none,
    }));
    assert(spec_term_more(toks, po, 3, eab, none) == spec_term_more(toks, po, 5, eabc, none));
    assert(spec_term_more(toks, po, 1, ea, none) == spec_term_more(toks, po, 3, eab, none));
    assert(spec_term(toks, po, 0) == (PExprV { expr: eabc, next: 5, diags: none }));

    // No comparison or equality operator follows, so the tree rises intact.
    assert(spec_comparison_more(toks, po, 5, eabc, none) == (PExprV {
        expr: eabc,
        next: 5,
        diags: none,
    }));
    assert(spec_comparison(toks, po, 0) == (PExprV { expr: eabc, next: 5, diags: none }));
    assert(spec_equality_more(toks, po, 5, eabc, none) == (PExprV {
        expr: eabc,
        next: 5,
        diags: none,
    }));
    assert(spec_equality(toks, po, 0) == (PExprV { expr: eabc, next: 5, diags: none }));
}

} // verus!
