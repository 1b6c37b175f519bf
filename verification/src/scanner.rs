//! The scanner: one pass over the source characters that emits the token
//! stream and records lexical faults.
//!
//! The whole pass is specified by the function [`scan_rest`]: from a cursor
//! and a current line it gives the exact tokens and diagnostics of the rest
//! of the input, one dispatch step ([`step_of`]) at a time, and always ends
//! the token stream with an end-of-input token. [`Scanner::scan_tokens`] is
//! proved to return exactly `scan_rest` of its source.

use vstd::prelude::*;
use vstd::string::{StrSliceExecFns, StringExecFns};
use crate::token::{Token, TokenV};
use crate::token_type::TokenType;

verus! {

/// Whether the character is a decimal digit.
pub open spec fn is_digit_char(c: char) -> bool {
    '0' <= c && c <= '9'
}

/// Whether the character may start an identifier.
pub open spec fn is_alpha_char(c: char) -> bool {
    ('a' <= c && c <= 'z') || ('A' <= c && c <= 'Z') || c == '_'
}

/// Whether the character may continue an identifier.
pub open spec fn is_alnum_char(c: char) -> bool {
    is_alpha_char(c) || is_digit_char(c)
}

/// The token kind of an identifier lexeme: the matching reserved word, or
/// `IDENTIFIER` when the lexeme is none of them.
pub open spec fn keyword_type(lex: Seq<char>) -> TokenType {
    if lex == "and"@ {
        TokenType::AND
    } else if lex == "class"@ {
        TokenType::CLASS
    } else if lex == "else"@ {
        TokenType::ELSE
    } else if lex == "false"@ {
        TokenType::FALSE
    } else if lex == "for"@ {
        TokenType::FOR
    } else if lex == "fun"@ {
        TokenType::FUN
    } else if lex == "if"@ {
        TokenType::IF
    } else if lex == "nil"@ {
        TokenType::NIL
    } else if lex == "or"@ {
        TokenType::OR
    } else if lex == "print"@ {
        TokenType::PRINT
    } else if lex == "return"@ {
        TokenType::RETURN
    } else if lex == "super"@ {
        TokenType::SUPER
    } else if lex == "this"@ {
        TokenType::THIS
    } else if lex == "true"@ {
        TokenType::TRUE
    } else if lex == "var"@ {
        TokenType::VAR
    } else if lex == "while"@ {
        TokenType::WHILE
    } else {
        TokenType::IDENTIFIER
    }
}

/// The cursor after the run of digits that starts at `i`.
pub open spec fn digit_end(src: Seq<char>, i: int) -> int
    decreases src.len() - i,
{
    if 0 <= i < src.len() && is_digit_char(src[i]) {
        digit_end(src, i + 1)
    } else {
        i
    }
}

/// The cursor after the run of identifier characters that starts at `i`.
pub open spec fn ident_end(src: Seq<char>, i: int) -> int
    decreases src.len() - i,
{
    if 0 <= i < src.len() && is_alnum_char(src[i]) {
        ident_end(src, i + 1)
    } else {
        i
    }
}

/// The cursor of the first newline at or after `i`, or the end of input.
pub open spec fn comment_end(src: Seq<char>, i: int) -> int
    decreases src.len() - i,
{
    if 0 <= i < src.len() && src[i] != '\n' {
        comment_end(src, i + 1)
    } else if 0 <= i < src.len() {
        i
    } else {
        src.len() as int
    }
}

/// The cursor of the first `"` at or after `i`, or the end of input.
pub open spec fn quote_end(src: Seq<char>, i: int) -> int
    decreases src.len() - i,
{
    if 0 <= i < src.len() && src[i] != '"' {
        quote_end(src, i + 1)
    } else if 0 <= i < src.len() {
        i
    } else {
        src.len() as int
    }
}

/// How many newlines `src` holds in the range `[lo, hi)`.
pub open spec fn count_newlines(src: Seq<char>, lo: int, hi: int) -> nat
    decreases hi - lo,
{
    if 0 <= lo < hi <= src.len() {
        count_newlines(src, lo, hi - 1) + (if src[hi - 1] == '\n' {
            1nat
        } else {
            0nat
        })
    } else {
        0
    }
}

/// The line counter, one higher. It saturates at the largest `u32`, so a
/// source can never overflow it.
pub open spec fn bump_line(line: u32) -> u32 {
    if line < u32::MAX {
        (line + 1) as u32
    } else {
        line
    }
}

/// The line counter bumped `k` times.
pub open spec fn add_lines(line: u32, k: nat) -> u32
    decreases k,
{
    if k == 0 {
        line
    } else {
        bump_line(add_lines(line, (k - 1) as nat))
    }
}

proof fn lemma_add_lines_ge(line: u32, k: nat)
    ensures
        add_lines(line, k) >= line,
    decreases k,
{
    if k > 0 {
        lemma_add_lines_ge(line, (k - 1) as nat);
    }
}

proof fn lemma_digit_end_bounds(src: Seq<char>, i: int)
    requires
        0 <= i <= src.len(),
    ensures
        i <= digit_end(src, i) <= src.len(),
    decreases src.len() - i,
{
    if i < src.len() && is_digit_char(src[i]) {
        lemma_digit_end_bounds(src, i + 1);
    }
}

proof fn lemma_ident_end_bounds(src: Seq<char>, i: int)
    requires
        0 <= i <= src.len(),
    ensures
        i <= ident_end(src, i) <= src.len(),
    decreases src.len() - i,
{
    if i < src.len() && is_alnum_char(src[i]) {
        lemma_ident_end_bounds(src, i + 1);
    }
}

proof fn lemma_comment_end_bounds(src: Seq<char>, i: int)
    requires
        0 <= i <= src.len(),
    ensures
        i <= comment_end(src, i) <= src.len(),
    decreases src.len() - i,
{
    if i < src.len() && src[i] != '\n' {
        lemma_comment_end_bounds(src, i + 1);
    }
}

proof fn lemma_quote_end_bounds(src: Seq<char>, i: int)
    requires
        0 <= i <= src.len(),
    ensures
        i <= quote_end(src, i) <= src.len(),
        quote_end(src, i) < src.len() ==> src[quote_end(src, i)] == '"',
    decreases src.len() - i,
{
    if i < src.len() && src[i] != '"' {
        lemma_quote_end_bounds(src, i + 1);
    }
}

/// A lexical fault: the line it was found on and what was wrong.
pub struct ScanDiag {
    pub line: u32,
    pub message: String,
}

/// The mathematical image of a lexical fault.
pub ghost struct DiagV {
    pub line: u32,
    pub message: Seq<char>,
}

impl View for ScanDiag {
    type V = DiagV;

    open spec fn view(&self) -> DiagV {
        DiagV { line: self.line, message: self.message@ }
    }
}

impl DeepView for ScanDiag {
    type V = DiagV;

    open spec fn deep_view(&self) -> DiagV {
        self.view()
    }
}

/// What one dispatch step of the scanner does: where the cursor and the line
/// counter move, and which token or diagnostic (at most one of each) the step
/// emits.
pub ghost struct ScanStepV {
    pub next: int,
    pub line: u32,
    pub token: Option<TokenV>,
    pub diag: Option<DiagV>,
}

/// A step that emits one token and no diagnostic.
pub open spec fn token_step(
    src: Seq<char>,
    i: int,
    next: int,
    line: u32,
    token_type: TokenType,
    literal: Seq<char>,
) -> ScanStepV {
    ScanStepV {
        next,
        line,
        token: Some(
            TokenV { token_type, lexeme: src.subrange(i, next), literal, line },
        ),
        diag: None,
    }
}

/// A step for `!`, `=`, `<` or `>`: the two-character kind when `=` follows,
/// the one-character kind otherwise.
pub open spec fn pair_step(
    src: Seq<char>,
    i: int,
    line: u32,
    short: TokenType,
    long: TokenType,
) -> ScanStepV {
    if i + 1 < src.len() && src[i + 1] == '=' {
        token_step(src, i, i + 2, line, long, "Null"@)
    } else {
        token_step(src, i, i + 1, line, short, "Null"@)
    }
}

/// One dispatch step of the scanner at cursor `i` (with `i` in range): the
/// first character selects the rule, exactly as the language defines it.
pub open spec fn step_of(src: Seq<char>, i: int, line: u32) -> ScanStepV {
    let c = src[i];
    if c == '(' {
        token_step(src, i, i + 1, line, TokenType::LEFTPAREN, "Null"@)
    } else if c == ')' {
        token_step(src, i, i + 1, line, TokenType::RIGHTPAREN, "Null"@)
    } else if c == '{' {
        token_step(src, i, i + 1, line, TokenType::LEFTBRACE, "Null"@)
    } else if c == '}' {
        token_step(src, i, i + 1, line, TokenType::RIGHTBRACE, "Null"@)
    } else if c == ',' {
        token_step(src, i, i + 1, line, TokenType::COMMA, "Null"@)
    } else if c == '.' {
        token_step(src, i, i + 1, line, TokenType::DOT, "Null"@)
    } else if c == '-' {
        token_step(src, i, i + 1, line, TokenType::MINUS, "Null"@)
    } else if c == '+' {
        token_step(src, i, i + 1, line, TokenType::PLUS, "Null"@)
    } else if c == ';' {
        token_step(src, i, i + 1, line, TokenType::SEMICOLON, "Null"@)
    } else if c == '*' {
        token_step(src, i, i + 1, line, TokenType::STAR, "Null"@)
    } else if c == '!' {
        pair_step(src, i, line, TokenType::BANG, TokenType::BANGEQUAL)
    } else if c == '=' {
        pair_step(src, i, line, TokenType::EQUAL, TokenType::EQUALEQUAL)
    } else if c == '<' {
        pair_step(src, i, line, TokenType::LESS, TokenType::LESSEQUAL)
    } else if c == '>' {
        pair_step(src, i, line, TokenType::GREATER, TokenType::GREATEREQUAL)
    } else if c == '/' {
        if i + 1 < src.len() && src[i + 1] == '/' {
            // A line comment: consumed without a token, up to the newline.
            ScanStepV { next: comment_end(src, i + 2), line, token: None, diag: None }
        } else {
            token_step(src, i, i + 1, line, TokenType::SLASH, "Null"@)
        }
    } else if c == ' ' || c == '\r' || c == '\t' {
        ScanStepV { next: i + 1, line, token: None, diag: None }
    } else if c == '\n' {
        ScanStepV { next: i + 1, line: bump_line(line), token: None, diag: None }
    } else if c == '"' {
        let q = quote_end(src, i + 1);
        if q >= src.len() {
            let l2 = add_lines(line, count_newlines(src, i + 1, src.len() as int));
            ScanStepV {
                next: src.len() as int,
                line: l2,
                token: None,
                diag: Some(DiagV { line: l2, message: "Unterminated string"@ }),
            }
        } else {
            let l2 = add_lines(line, count_newlines(src, i + 1, q));
            ScanStepV {
                next: q + 1,
                line: l2,
                token: Some(
                    TokenV {
                        token_type: TokenType::STRING,
                        lexeme: src.subrange(i, q + 1),
                        literal: src.subrange(i + 1, q),
                        line: l2,
                    },
                ),
                diag: None,
            }
        }
    } else if is_digit_char(c) {
        let d1 = digit_end(src, i + 1);
        let end = if d1 < src.len() && src[d1] == '.' && d1 + 1 < src.len() && is_digit_char(
            src[d1 + 1],
        ) {
            digit_end(src, d1 + 1)
        } else {
            d1
        };
        token_step(src, i, end, line, TokenType::NUMBER, src.subrange(i, end))
    } else if is_alpha_char(c) {
        let e = ident_end(src, i + 1);
        token_step(src, i, e, line, keyword_type(src.subrange(i, e)), "Null"@)
    } else {
        ScanStepV {
            next: i + 1,
            line,
            token: None,
            diag: Some(DiagV { line, message: "Unexpected character"@ }),
        }
    }
}

/// Every step moves the cursor forward and keeps it inside the input.
pub proof fn lemma_step_in_range(src: Seq<char>, i: int, line: u32)
    requires
        0 <= i < src.len(),
    ensures
        i < step_of(src, i, line).next <= src.len(),
{
    let c = src[i];
    if c == '/' && i + 1 < src.len() && src[i + 1] == '/' {
        lemma_comment_end_bounds(src, i + 2);
    } else if c == '"' {
        lemma_quote_end_bounds(src, i + 1);
    } else if is_digit_char(c) && !(c == '(' || c == ')' || c == '{' || c == '}' || c == ','
        || c == '.' || c == '-' || c == '+' || c == ';' || c == '*' || c == '!' || c == '='
        || c == '<' || c == '>' || c == '/' || c == ' ' || c == '\r' || c == '\t' || c == '\n'
        || c == '"') {
        let d1 = digit_end(src, i + 1);
        lemma_digit_end_bounds(src, i + 1);
        if d1 < src.len() && src[d1] == '.' && d1 + 1 < src.len() && is_digit_char(src[d1 + 1]) {
            lemma_digit_end_bounds(src, d1 + 1);
        }
    } else if is_alpha_char(c) {
        lemma_ident_end_bounds(src, i + 1);
    }
}

/// Every token and diagnostic of a step carries a line of at least one, and
/// the line counter never goes below where it started.
pub proof fn lemma_step_line(src: Seq<char>, i: int, line: u32)
    requires
        0 <= i < src.len(),
        line >= 1,
    ensures
        step_of(src, i, line).line >= 1,
        step_of(src, i, line).token matches Some(t) ==> t.line >= 1,
        step_of(src, i, line).token matches Some(t) ==> t.token_type != TokenType::EOF,
        step_of(src, i, line).diag matches Some(d) ==> d.line >= 1,
{
    let c = src[i];
    if c == '"' {
        let q = quote_end(src, i + 1);
        if q >= src.len() {
            lemma_add_lines_ge(line, count_newlines(src, i + 1, src.len() as int));
        } else {
            lemma_add_lines_ge(line, count_newlines(src, i + 1, q));
        }
    }
}

/// The full output of a scan: the tokens and the lexical diagnostics.
pub ghost struct ScanOutV {
    pub tokens: Seq<TokenV>,
    pub diags: Seq<DiagV>,
}

/// The end-of-input token: kind `EOF`, empty lexeme, literal `"Null"`.
pub open spec fn eof_token(line: u32) -> TokenV {
    TokenV { token_type: TokenType::EOF, lexeme: ""@, literal: "Null"@, line }
}

pub open spec fn opt_token_seq(o: Option<TokenV>) -> Seq<TokenV> {
    match o {
        Some(t) => seq![t],
        None => Seq::empty(),
    }
}

pub open spec fn opt_diag_seq(o: Option<DiagV>) -> Seq<DiagV> {
    match o {
        Some(d) => seq![d],
        None => Seq::empty(),
    }
}

/// What scanning the rest of the input emits, from cursor `i` with the line
/// counter at `line`: each step's token and diagnostic in order, and then the
/// end-of-input token.
pub open spec fn scan_rest(src: Seq<char>, i: int, line: u32) -> ScanOutV
    decreases src.len() - i,
{
    if !(0 <= i < src.len()) {
        ScanOutV { tokens: seq![eof_token(line)], diags: Seq::empty() }
    } else {
        let st = step_of(src, i, line);
        if i < st.next <= src.len() {
            let rest = scan_rest(src, st.next, st.line);
            ScanOutV {
                tokens: opt_token_seq(st.token) + rest.tokens,
                diags: opt_diag_seq(st.diag) + rest.diags,
            }
        } else {
            // Unreachable: every step moves forward (`lemma_step_in_range`).
            ScanOutV { tokens: seq![eof_token(line)], diags: Seq::empty() }
        }
    }
}

/// A scan always emits at least one token; the last and only the last is the
/// end-of-input token; and, started on line one or later, every token and
/// every diagnostic carries a line of at least one.
pub proof fn lemma_scan_rest_ends_eof(src: Seq<char>, i: int, line: u32)
    requires
        line >= 1,
    ensures
        scan_rest(src, i, line).tokens.len() >= 1,
        scan_rest(src, i, line).tokens.last().token_type == TokenType::EOF,
        forall|j: int|
            0 <= j < scan_rest(src, i, line).tokens.len() - 1 ==> scan_rest(
                src,
                i,
                line,
            ).tokens[j].token_type != TokenType::EOF,
        forall|j: int|
            0 <= j < scan_rest(src, i, line).tokens.len() ==> scan_rest(
                src,
                i,
                line,
            ).tokens[j].line >= 1,
        forall|j: int|
            0 <= j < scan_rest(src, i, line).diags.len() ==> scan_rest(
                src,
                i,
                line,
            ).diags[j].line >= 1,
    decreases src.len() - i,
{
    if 0 <= i < src.len() {
        let st = step_of(src, i, line);
        lemma_step_in_range(src, i, line);
        lemma_step_line(src, i, line);
        lemma_scan_rest_ends_eof(src, st.next, st.line);
        let rest = scan_rest(src, st.next, st.line);
        assert(scan_rest(src, i, line).tokens.last() == rest.tokens.last());
    }
}

/// The kind of an identifier lexeme: the matching reserved word, if any.
fn keyword_or_identifier(lex: &String) -> (t: TokenType)
    ensures
        t == keyword_type(lex@),
{
    if *lex == String::from_str("and") {
        TokenType::AND
    } else if *lex == String::from_str("class") {
        TokenType::CLASS
    } else if *lex == String::from_str("else") {
        TokenType::ELSE
    } else if *lex == String::from_str("false") {
        TokenType::FALSE
    } else if *lex == String::from_str("for") {
        TokenType::FOR
    } else if *lex == String::from_str("fun") {
        TokenType::FUN
    } else if *lex == String::from_str("if") {
        TokenType::IF
    } else if *lex == String::from_str("nil") {
        TokenType::NIL
    } else if *lex == String::from_str("or") {
        TokenType::OR
    } else if *lex == String::from_str("print") {
        TokenType::PRINT
    } else if *lex == String::from_str("return") {
        TokenType::RETURN
    } else if *lex == String::from_str("super") {
        TokenType::SUPER
    } else if *lex == String::from_str("this") {
        TokenType::THIS
    } else if *lex == String::from_str("true") {
        TokenType::TRUE
    } else if *lex == String::from_str("var") {
        TokenType::VAR
    } else if *lex == String::from_str("while") {
        TokenType::WHILE
    } else {
        TokenType::IDENTIFIER
    }
}

/// The scanner's abstract state.
pub ghost struct ScannerV {
    pub source: Seq<char>,
    pub start: int,
    pub current: int,
    pub line: u32,
    pub tokens: Seq<TokenV>,
    pub diags: Seq<DiagV>,
}

/// The scanner: owns the source text and accumulates tokens and lexical
/// diagnostics while its cursor walks the characters.
pub struct Scanner {
    source: String,
    n: usize,
    tokens: Vec<Token>,
    diags: Vec<ScanDiag>,
    start: usize,
    current: usize,
    line: u32,
}

impl View for Scanner {
    type V = ScannerV;

    closed spec fn view(&self) -> ScannerV {
        ScannerV {
            source: self.source@,
            start: self.start as int,
            current: self.current as int,
            line: self.line,
            tokens: self.tokens.deep_view(),
            diags: self.diags.deep_view(),
        }
    }
}

impl Scanner {
    /// The cursor and the cached length stay inside the source.
    pub closed spec fn wf(&self) -> bool {
        &&& self.n == self.source@.len()
        &&& self.current <= self.n
        &&& self.start <= self.n
    }

    /// A scanner at the start of the given source, on line one, with nothing
    /// emitted yet.
    pub fn new(source: String) -> (r: Self)
        ensures
            r.wf(),
            r@.source == source@,
            r@.start == 0,
            r@.current == 0,
            r@.line == 1,
            r@.tokens == Seq::<TokenV>::empty(),
            r@.diags == Seq::<DiagV>::empty(),
    {
        let n = source.as_str().unicode_len();
        let r = Scanner { source, n, tokens: Vec::new(), diags: Vec::new(), start: 0, current: 0, line: 1 };
        proof {
            assert(r@.tokens =~= Seq::<TokenV>::empty());
            assert(r@.diags =~= Seq::<DiagV>::empty());
        }
        r
    }

    /// The lexical faults found so far.
    pub fn diagnostics(&self) -> (r: &Vec<ScanDiag>)
        ensures
            r.deep_view() == self@.diags,
    {
        &self.diags
    }

    fn is_at_end(&self) -> (r: bool)
        requires
            self.wf(),
        ensures
            r == (self@.current >= self@.source.len()),
    {
        self.current >= self.n
    }

    fn advance(&mut self) -> (c: char)
        requires
            old(self).wf(),
            old(self)@.current < old(self)@.source.len(),
        ensures
            final(self).wf(),
            c == old(self)@.source[old(self)@.current],
            final(self)@ == (ScannerV { current: old(self)@.current + 1, ..old(self)@ }),
    {
        let c = self.source.as_str().get_char(self.current);
        self.current = self.current + 1;
        c
    }

    fn peek(&self) -> (c: char)
        requires
            self.wf(),
        ensures
            c == if self@.current < self@.source.len() {
                self@.source[self@.current]
            } else {
                '\n'
            },
    {
        if self.is_at_end() {
            return '\n';
        }
        self.source.as_str().get_char(self.current)
    }

    fn peek_next(&self) -> (c: char)
        requires
            self.wf(),
        ensures
            c == if self@.current + 1 < self@.source.len() {
                self@.source[self@.current + 1]
            } else {
                '\0'
            },
    {
        if self.current < self.n {
            let j = self.current + 1;
            if j < self.n {
                return self.source.as_str().get_char(j);
            }
        }
        '\0'
    }

    fn matches(&mut self, expected: char) -> (r: bool)
        requires
            old(self).wf(),
        ensures
            final(self).wf(),
            r == (old(self)@.current < old(self)@.source.len() && old(self)@.source[old(
                self,
            )@.current] == expected),
            r ==> final(self)@ == (ScannerV { current: old(self)@.current + 1, ..old(self)@ }),
            !r ==> final(self)@ == old(self)@,
    {
        if self.is_at_end() {
            return false;
        }
        if self.source.as_str().get_char(self.current) != expected {
            return false;
        }
        self.current = self.current + 1;
        true
    }

    fn add_token(&mut self, token_type: TokenType, literal: String)
        requires
            old(self).wf(),
            old(self)@.start <= old(self)@.current,
        ensures
            final(self).wf(),
            final(self)@ == (ScannerV {
                tokens: old(self)@.tokens.push(
                    TokenV {
                        token_type,
                        lexeme: old(self)@.source.subrange(old(self)@.start, old(self)@.current),
                        literal: literal@,
                        line: old(self)@.line,
                    },
                ),
                ..old(self)@
            }),
    {
        let text = self.source.as_str().substring_char(self.start, self.current).to_owned();
        let line = self.line;
        self.tokens.push(Token::new(token_type, text, literal, line));
        proof {
            assert(self@.tokens =~= old(self)@.tokens.push(
                TokenV {
                    token_type,
                    lexeme: old(self)@.source.subrange(old(self)@.start, old(self)@.current),
                    literal: literal@,
                    line: old(self)@.line,
                },
            ));
        }
    }

    fn string(&mut self)
        requires
            old(self).wf(),
            0 <= old(self)@.start < old(self)@.source.len(),
            old(self)@.source[old(self)@.start] == '"',
            old(self)@.current == old(self)@.start + 1,
        ensures
            final(self).wf(),
            final(self)@.source == old(self)@.source,
            final(self)@.start == old(self)@.start,
            ({
                let src = old(self)@.source;
                let i = old(self)@.start;
                let q = quote_end(src, i + 1);
                if q >= src.len() {
                    &&& final(self)@.current == src.len()
                    &&& final(self)@.line == add_lines(
                        old(self)@.line,
                        count_newlines(src, i + 1, src.len() as int),
                    )
                    &&& final(self)@.tokens == old(self)@.tokens
                    &&& final(self)@.diags == old(self)@.diags.push(
                        DiagV { line: final(self)@.line, message: "Unterminated string"@ },
                    )
                } else {
                    &&& final(self)@.current == q + 1
                    &&& final(self)@.line == add_lines(
                        old(self)@.line,
                        count_newlines(src, i + 1, q),
                    )
                    &&& final(self)@.tokens == old(self)@.tokens.push(
                        TokenV {
                            token_type: TokenType::STRING,
                            lexeme: src.subrange(i, q + 1),
                            literal: src.subrange(i + 1, q),
                            line: final(self)@.line,
                        },
                    )
                    &&& final(self)@.diags == old(self)@.diags
                }
            }),
    {
        let ghost src = self@.source;
        let ghost i = self@.start as int;
        let ghost line0 = self@.line;
        while self.peek() != '"' && !self.is_at_end()
            invariant
                self.wf(),
                self@.source == src,
                self@.start == i,
                self@.tokens == old(self)@.tokens,
                self@.diags == old(self)@.diags,
                0 <= i < src.len(),
                i + 1 <= self@.current <= src.len(),
                quote_end(src, i + 1) == quote_end(src, self@.current),
                self@.line == add_lines(line0, count_newlines(src, i + 1, self@.current)),
            decreases src.len() - self@.current,
        {
            if self.peek() == '\n' {
                if self.line < u32::MAX {
                    self.line = self.line + 1;
                }
            }
            let _ = self.advance();
        }
        proof {
            lemma_quote_end_bounds(src, i + 1);
        }
        if self.is_at_end() {
            let message = String::from_str("Unterminated string");
            let line = self.line;
            self.diags.push(ScanDiag { line, message });
            proof {
                assert(quote_end(src, self@.current) == src.len());
                assert(self@.diags =~= old(self)@.diags.push(
                    DiagV { line: self@.line, message: "Unterminated string"@ },
                ));
            }
            return ;
        }
        proof {
            assert(self@.source[self@.current] == '"');
            assert(quote_end(src, self@.current) == self@.current);
        }
        let _ = self.advance();

        let start_inc = self.start + 1;
        let current_dec = self.current - 1;
        let value = self.source.as_str().substring_char(start_inc, current_dec).to_owned();
        self.add_token(TokenType::STRING, value);
    }

    fn number(&mut self)
        requires
            old(self).wf(),
            0 <= old(self)@.start < old(self)@.source.len(),
            is_digit_char(old(self)@.source[old(self)@.start]),
            old(self)@.current == old(self)@.start + 1,
        ensures
            final(self).wf(),
            final(self)@.source == old(self)@.source,
            final(self)@.start == old(self)@.start,
            final(self)@.line == old(self)@.line,
            final(self)@.diags == old(self)@.diags,
            ({
                let src = old(self)@.source;
                let i = old(self)@.start;
                let d1 = digit_end(src, i + 1);
                let end = if d1 < src.len() && src[d1] == '.' && d1 + 1 < src.len()
                    && is_digit_char(src[d1 + 1]) {
                    digit_end(src, d1 + 1)
                } else {
                    d1
                };
                &&& final(self)@.current == end
                &&& final(self)@.tokens == old(self)@.tokens.push(
                    TokenV {
                        token_type: TokenType::NUMBER,
                        lexeme: src.subrange(i, end),
                        literal: src.subrange(i, end),
                        line: old(self)@.line,
                    },
                )
            }),
    {
        let ghost src = self@.source;
        let ghost i = self@.start as int;
        while self.is_digit(self.peek())
            invariant
                self.wf(),
                self@ == (ScannerV { current: self@.current, ..old(self)@ }),
                0 <= i < src.len(),
                src == self@.source,
                i + 1 <= self@.current <= src.len(),
                digit_end(src, i + 1) == digit_end(src, self@.current),
            decreases src.len() - self@.current,
        {
            let _ = self.advance();
        }
        proof {
            assert(digit_end(src, self@.current) == self@.current);
        }
        let ghost d1 = self@.current;
        if self.peek() == '.' && self.is_digit(self.peek_next()) {
            let _ = self.advance();
            while self.is_digit(self.peek())
                invariant
                    self.wf(),
                    self@ == (ScannerV { current: self@.current, ..old(self)@ }),
                    0 <= i < src.len(),
                    src == self@.source,
                    d1 + 1 <= self@.current <= src.len(),
                    digit_end(src, d1 + 1) == digit_end(src, self@.current),
                decreases src.len() - self@.current,
            {
                let _ = self.advance();
            }
            proof {
                assert(digit_end(src, self@.current) == self@.current);
            }
        }
        let num_to_str = self.source.as_str().substring_char(self.start, self.current).to_owned();
        self.add_token(TokenType::NUMBER, num_to_str);
    }

    fn identifier(&mut self)
        requires
            old(self).wf(),
            0 <= old(self)@.start < old(self)@.source.len(),
            is_alpha_char(old(self)@.source[old(self)@.start]),
            old(self)@.current == old(self)@.start + 1,
        ensures
            final(self).wf(),
            final(self)@.source == old(self)@.source,
            final(self)@.start == old(self)@.start,
            final(self)@.line == old(self)@.line,
            final(self)@.diags == old(self)@.diags,
            ({
                let src = old(self)@.source;
                let i = old(self)@.start;
                let e = ident_end(src, i + 1);
                &&& final(self)@.current == e
                &&& final(self)@.tokens == old(self)@.tokens.push(
                    TokenV {
                        token_type: keyword_type(src.subrange(i, e)),
                        lexeme: src.subrange(i, e),
                        literal: "Null"@,
                        line: old(self)@.line,
                    },
                )
            }),
    {
        let ghost src = self@.source;
        let ghost i = self@.start as int;
        while self.is_alpha_numeric(self.peek())
            invariant
                self.wf(),
                self@ == (ScannerV { current: self@.current, ..old(self)@ }),
                0 <= i < src.len(),
                src == self@.source,
                i + 1 <= self@.current <= src.len(),
                ident_end(src, i + 1) == ident_end(src, self@.current),
            decreases src.len() - self@.current,
        {
            let _ = self.advance();
        }
        proof {
            assert(ident_end(src, self@.current) == self@.current);
        }
        let text = self.source.as_str().substring_char(self.start, self.current).to_owned();
        let token_type = keyword_or_identifier(&text);
        self.add_token(token_type, String::from_str("Null"));
    }

    fn scan_token(&mut self)
        requires
            old(self).wf(),
            old(self)@.start == old(self)@.current,
            0 <= old(self)@.current < old(self)@.source.len(),
        ensures
            final(self).wf(),
            final(self)@.source == old(self)@.source,
            ({
                let st = step_of(old(self)@.source, old(self)@.current, old(self)@.line);
                &&& final(self)@.current == st.next
                &&& final(self)@.line == st.line
                &&& final(self)@.tokens == old(self)@.tokens + opt_token_seq(st.token)
                &&& final(self)@.diags == old(self)@.diags + opt_diag_seq(st.diag)
            }),
    {
        let ghost src = self@.source;
        let ghost i = self@.current;
        let ghost line0 = self@.line;
        let ghost st = step_of(src, i, line0);
        let c: char = self.advance();
        match c {
            '(' => self.add_token(TokenType::LEFTPAREN, String::from_str("Null")),
            ')' => self.add_token(TokenType::RIGHTPAREN, String::from_str("Null")),
            '{' => self.add_token(TokenType::LEFTBRACE, String::from_str("Null")),
            '}' => self.add_token(TokenType::RIGHTBRACE, String::from_str("Null")),
            ',' => self.add_token(TokenType::COMMA, String::from_str("Null")),
            '.' => self.add_token(TokenType::DOT, String::from_str("Null")),
            '-' => self.add_token(TokenType::MINUS, String::from_str("Null")),
            '+' => self.add_token(TokenType::PLUS, String::from_str("Null")),
            ';' => self.add_token(TokenType::SEMICOLON, String::from_str("Null")),
            '*' => self.add_token(TokenType::STAR, String::from_str("Null")),
            '!' => {
                if self.matches('=') {
                    self.add_token(TokenType::BANGEQUAL, String::from_str("Null"))
                } else {
                    self.add_token(TokenType::BANG, String::from_str("Null"))
                }
            },
            '=' => {
                if self.matches('=') {
                    self.add_token(TokenType::EQUALEQUAL, String::from_str("Null"))
                } else {
                    self.add_token(TokenType::EQUAL, String::from_str("Null"))
                }
            },
            '<' => {
                if self.matches('=') {
                    self.add_token(TokenType::LESSEQUAL, String::from_str("Null"))
                } else {
                    self.add_token(TokenType::LESS, String::from_str("Null"))
                }
            },
            '>' => {
                if self.matches('=') {
                    self.add_token(TokenType::GREATEREQUAL, String::from_str("Null"))
                } else {
                    self.add_token(TokenType::GREATER, String::from_str("Null"))
                }
            },
            '/' => {
                if self.matches('/') {
                    // A comment runs to the end of the line and emits nothing.
                    while self.peek() != '\n' && !self.is_at_end()
                        invariant
                            self.wf(),
                            self@ == (ScannerV { current: self@.current, ..old(self)@ }),
                            src == self@.source,
                            i + 2 <= self@.current <= src.len(),
                            comment_end(src, i + 2) == comment_end(src, self@.current),
                        decreases src.len() - self@.current,
                    {
                        let _ = self.advance();
                    }
                    proof {
                        assert(comment_end(src, self@.current) == self@.current);
                        assert(self@.tokens =~= old(self)@.tokens + opt_token_seq(st.token));
                        assert(self@.diags =~= old(self)@.diags + opt_diag_seq(st.diag));
                    }
                } else {
                    self.add_token(TokenType::SLASH, String::from_str("Null"));
                }
            },
            ' ' | '\r' | '\t' => (),
            '\n' => {
                if self.line < u32::MAX {
                    self.line = self.line + 1;
                }
            },
            '"' => self.string(),
            _ => {
                if self.is_digit(c) {
                    self.number()
                } else if self.is_alpha(c) {
                    self.identifier()
                } else {
                    let message = String::from_str("Unexpected character");
                    let line = self.line;
                    self.diags.push(ScanDiag { line, message });
                    proof {
                        assert(self@.diags =~= old(self)@.diags.push(
                            DiagV { line: line0, message: "Unexpected character"@ },
                        ));
                    }
                }
            },
        }
        proof {
            if st.token is Some {
                assert(old(self)@.tokens + opt_token_seq(st.token) =~= old(self)@.tokens.push(
                    st.token.unwrap(),
                ));
            } else {
                assert(old(self)@.tokens + opt_token_seq(st.token) =~= old(self)@.tokens);
            }
            if st.diag is Some {
                assert(old(self)@.diags + opt_diag_seq(st.diag) =~= old(self)@.diags.push(
                    st.diag.unwrap(),
                ));
            } else {
                assert(old(self)@.diags + opt_diag_seq(st.diag) =~= old(self)@.diags);
            }
        }
    }

    /// Scans the whole source and returns the tokens: exactly the tokens of
    /// [`scan_rest`] from the start of the source, ending with the
    /// end-of-input token; the diagnostics of the scan are those of
    /// [`scan_rest`] as well. The last token is always `EOF`, and every token
    /// and diagnostic carries a line of at least one.
    pub fn scan_tokens(&mut self) -> (r: &Vec<Token>)
        requires
            old(self).wf(),
            old(self)@.current == 0,
            old(self)@.line == 1,
            old(self)@.tokens == Seq::<TokenV>::empty(),
            old(self)@.diags == Seq::<DiagV>::empty(),
        ensures
            final(self).wf(),
            final(self)@.source == old(self)@.source,
            final(self)@.tokens == scan_rest(old(self)@.source, 0, 1).tokens,
            final(self)@.diags == scan_rest(old(self)@.source, 0, 1).diags,
            r.deep_view() == final(self)@.tokens,
            r.deep_view().len() >= 1,
            r.deep_view().last().token_type == TokenType::EOF,
            forall|j: int|
                0 <= j < r.deep_view().len() - 1 ==> r.deep_view()[j].token_type
                    != TokenType::EOF,
            forall|j: int| 0 <= j < r.deep_view().len() ==> r.deep_view()[j].line >= 1,
            forall|j: int| 0 <= j < final(self)@.diags.len() ==> final(self)@.diags[j].line >= 1,
    {
        let ghost src = self@.source;
        proof {
            assert(Seq::<TokenV>::empty() + scan_rest(src, 0, 1).tokens =~= scan_rest(
                src,
                0,
                1,
            ).tokens);
            assert(Seq::<DiagV>::empty() + scan_rest(src, 0, 1).diags =~= scan_rest(
                src,
                0,
                1,
            ).diags);
        }
        while !self.is_at_end()
            invariant
                self.wf(),
                self@.source == src,
                self@.line >= 1,
                scan_rest(src, 0, 1).tokens == self@.tokens + scan_rest(
                    src,
                    self@.current,
                    self@.line,
                ).tokens,
                scan_rest(src, 0, 1).diags == self@.diags + scan_rest(
                    src,
                    self@.current,
                    self@.line,
                ).diags,
            decreases src.len() - self@.current,
        {
            let ghost cur0 = self@.current;
            let ghost line0 = self@.line;
            let ghost toks0 = self@.tokens;
            let ghost diags0 = self@.diags;
            proof {
                lemma_step_in_range(src, cur0, line0);
                lemma_step_line(src, cur0, line0);
            }
            self.start = self.current;
            self.scan_token();
            proof {
                let st = step_of(src, cur0, line0);
                let rest = scan_rest(src, st.next, st.line);
                assert(scan_rest(src, cur0, line0).tokens == opt_token_seq(st.token)
                    + rest.tokens);
                assert(scan_rest(src, cur0, line0).diags == opt_diag_seq(st.diag) + rest.diags);
                assert(toks0 + scan_rest(src, cur0, line0).tokens =~= (toks0 + opt_token_seq(
                    st.token,
                )) + rest.tokens);
                assert(diags0 + scan_rest(src, cur0, line0).diags =~= (diags0 + opt_diag_seq(
                    st.diag,
                )) + rest.diags);
            }
        }
        let line = self.line;
        self.tokens.push(
            Token::new(TokenType::EOF, String::from_str(""), String::from_str("Null"), line),
        );
        proof {
            assert(scan_rest(src, self@.current, self@.line).tokens =~= seq![
                eof_token(self@.line),
            ]);
            assert(scan_rest(src, self@.current, self@.line).diags =~= Seq::<DiagV>::empty());
            assert(self@.tokens =~= old(self)@.tokens + scan_rest(src, 0, 1).tokens);
            assert(old(self)@.tokens + scan_rest(src, 0, 1).tokens =~= scan_rest(src, 0, 1).tokens);
            assert(self@.diags + Seq::<DiagV>::empty() =~= self@.diags);
            lemma_scan_rest_ends_eof(src, 0, 1);
        }
        &self.tokens
    }

    fn is_digit(&self, c: char) -> (r: bool)
        ensures
            r == is_digit_char(c),
    {
        c >= '0' && c <= '9'
    }

    fn is_alpha(&self, c: char) -> (r: bool)
        ensures
            r == is_alpha_char(c),
    {
        (c >= 'a' && c <= 'z') || (c >= 'A' && c <= 'Z') || c == '_'
    }

    fn is_alpha_numeric(&self, c: char) -> (r: bool)
        ensures
            r == is_alnum_char(c),
    {
        self.is_alpha(c) || self.is_digit(c)
    }
}

} // verus!
