//! The driver core: the two sticky fault flags, the rendering of every
//! diagnostic line, and `run`, which drives source text through the scanner,
//! the parser and the interpreter and collects everything the run prints.
//!
//! `run` does no input or output itself: it returns once the pipeline is
//! finished (or stopped at a missing number answer), and the caller prints
//! the collected lines and decides exit codes from the flags.

use vstd::prelude::*;
use vstd::string::StringExecFns;
use crate::interpreter::{interp_stmts, InterpOutV, InterpStateV, Interpreter, InterpretOutcome, RtErrV, RuntimeError};
use crate::expr::LiteralV;
use crate::oracle::{lookup_parse, NumOracle, NumQuery, NumQueryV};
use crate::parser::{parse_covered, spec_program, wf_tokens, PDiagV, ParseDiag, Parser};
use crate::scanner::{scan_rest, DiagV, ScanDiag, Scanner};
use crate::token::{Token, TokenV};
use crate::token_type::TokenType;

verus! {

/// The digit character of one decimal digit.
pub open spec fn digit_char(d: nat) -> char {
    if d == 0 {
        '0'
    } else if d == 1 {
        '1'
    } else if d == 2 {
        '2'
    } else if d == 3 {
        '3'
    } else if d == 4 {
        '4'
    } else if d == 5 {
        '5'
    } else if d == 6 {
        '6'
    } else if d == 7 {
        '7'
    } else if d == 8 {
        '8'
    } else {
        '9'
    }
}

/// The decimal writing of a number, most significant digit first.
pub open spec fn dec_str(n: nat) -> Seq<char>
    decreases n,
{
    if n < 10 {
        seq![digit_char(n)]
    } else {
        dec_str(n / 10) + seq![digit_char(n % 10)]
    }
}

/// One decimal digit as text.
fn digit_str(d: u32) -> (r: &'static str)
    requires
        d < 10,
    ensures
        r@ == seq![digit_char(d as nat)],
{
    let r = if d == 0 {
        "0"
    } else if d == 1 {
        "1"
    } else if d == 2 {
        "2"
    } else if d == 3 {
        "3"
    } else if d == 4 {
        "4"
    } else if d == 5 {
        "5"
    } else if d == 6 {
        "6"
    } else if d == 7 {
        "7"
    } else if d == 8 {
        "8"
    } else {
        "9"
    };
    proof {
        reveal_strlit("0");
        reveal_strlit("1");
        reveal_strlit("2");
        reveal_strlit("3");
        reveal_strlit("4");
        reveal_strlit("5");
        reveal_strlit("6");
        reveal_strlit("7");
        reveal_strlit("8");
        reveal_strlit("9");
        assert(r@ =~= seq![digit_char(d as nat)]);
    }
    r
}

/// A number in decimal.
fn u32_to_string(n: u32) -> (s: String)
    ensures
        s@ == dec_str(n as nat),
    decreases n,
{
    if n < 10 {
        return digit_str(n).to_owned();
    }
    let mut s = u32_to_string(n / 10);
    s.append(digit_str(n % 10));
    s
}

/// How a lexical fault prints.
pub open spec fn render_scan_diag(d: DiagV) -> Seq<char> {
    "[line "@ + dec_str(d.line as nat) + "] Error"@ + ": "@ + d.message
}

/// How a parse fault prints: at the end of input, or at the offending
/// token's lexeme.
pub open spec fn render_parse_diag(d: PDiagV) -> Seq<char> {
    "[line "@ + dec_str(d.token.line as nat) + "] Error"@ + (if d.token.token_type
        == TokenType::EOF {
        " at end"@
    } else {
        " at '"@ + d.token.lexeme + "'"@
    }) + ": "@ + d.message
}

/// How a runtime fault prints: the reason, then the line on its own line.
pub open spec fn render_runtime_error(f: RtErrV) -> Seq<char> {
    f.reason + "\n[line "@ + dec_str(f.token.line as nat) + "]"@
}

/// How a list of lexical faults prints, in order.
pub open spec fn render_scan_diags(ds: Seq<DiagV>) -> Seq<Seq<char>> {
    ds.map_values(|d: DiagV| render_scan_diag(d))
}

/// How a list of parse faults prints, in order.
pub open spec fn render_parse_diags(ds: Seq<PDiagV>) -> Seq<Seq<char>> {
    ds.map_values(|d: PDiagV| render_parse_diag(d))
}

/// The first number token whose literal text has no recorded bit pattern.
pub open spec fn first_missing_parse(toks: Seq<TokenV>, po: Seq<(Seq<char>, u64)>) -> Option<
    Seq<char>,
>
    decreases toks.len(),
{
    if toks.len() == 0 {
        None
    } else if toks[0].token_type == TokenType::NUMBER && lookup_parse(po, toks[0].literal)
        is None {
        Some(toks[0].literal)
    } else {
        first_missing_parse(toks.drop_first(), po)
    }
}

/// The result of one `run`: either the pipeline went through, or it stopped
/// at a number operation the oracle has no answer for yet.
pub enum RunOutcome {
    Need(NumQuery),
    Finished,
}

/// What one `run` of a source does, given the oracle and the variables bound
/// before it: either it stops at a missing number answer with nothing
/// changed, or it finishes with the diagnostic and printed lines in order,
/// the flag values it sets, and the bindings it leaves behind. The scanner's
/// diagnostics come first, then the parser's; when either stage reported a
/// fault, or a fault was already flagged, nothing is interpreted.
pub open spec fn run_spec(
    source: Seq<char>,
    o: crate::oracle::NumOracleV,
    had_error0: bool,
    env0: Map<Seq<char>, LiteralV>,
) -> RunV {
    let sc = scan_rest(source, 0, 1);
    match first_missing_parse(sc.tokens, o.parses) {
        Some(text) => RunV::Need(NumQueryV::ParseNum { text }),
        None => {
            let pp = spec_program(sc.tokens, o.parses, 0);
            let msgs = render_scan_diags(sc.diags) + render_parse_diags(pp.diags);
            let new_error = sc.diags.len() > 0 || pp.diags.len() > 0;
            if had_error0 || new_error {
                RunV::Finished {
                    messages: msgs,
                    had_error: true,
                    had_runtime_error: false,
                    env: env0,
                }
            } else {
                match interp_stmts(pp.stmts, InterpStateV { env: env0, out: Seq::empty() }, o) {
                    InterpOutV::Need(q) => RunV::Need(q),
                    InterpOutV::Done(st, fault) => RunV::Finished {
                        messages: msgs + st.out + (match fault {
                            Some(f) => seq![render_runtime_error(f)],
                            None => Seq::empty(),
                        }),
                        had_error: false,
                        had_runtime_error: fault is Some,
                        env: st.env,
                    },
                }
            }
        },
    }
}

/// The image of a finished or suspended run.
pub ghost enum RunV {
    Need(NumQueryV),
    Finished {
        messages: Seq<Seq<char>>,
        had_error: bool,
        had_runtime_error: bool,
        env: Map<Seq<char>, LiteralV>,
    },
}

/// The driver state: the two sticky fault flags and the collected lines.
pub struct Lox {
    pub had_error: bool,
    pub had_runtime_error: bool,
    pub output: Vec<String>,
}

impl Lox {
    /// The lines collected so far: diagnostics and printed values in order.
    pub open spec fn out(&self) -> Seq<Seq<char>> {
        self.output.deep_view()
    }

    /// A driver with clear flags and no collected lines.
    pub fn new() -> (r: Self)
        ensures
            !r.had_error,
            !r.had_runtime_error,
            r.out() == Seq::<Seq<char>>::empty(),
    {
        let r = Lox { had_error: false, had_runtime_error: false, output: Vec::new() };
        proof {
            assert(r.out() =~= Seq::<Seq<char>>::empty());
        }
        r
    }

    /// Hands the collected lines out and clears the buffer.
    pub fn take_output(&mut self) -> (r: Vec<String>)
        ensures
            r.deep_view() == old(self).out(),
            final(self).out() == Seq::<Seq<char>>::empty(),
            final(self).had_error == old(self).had_error,
            final(self).had_runtime_error == old(self).had_runtime_error,
    {
        let mut taken: Vec<String> = Vec::new();
        core::mem::swap(&mut taken, &mut self.output);
        proof {
            assert(self.out() =~= Seq::<Seq<char>>::empty());
        }
        taken
    }

    fn report(&mut self, line: u32, loc: &str, message: &str)
        ensures
            final(self).had_error == old(self).had_error,
            final(self).had_runtime_error == old(self).had_runtime_error,
            final(self).out() == old(self).out().push(
                "[line "@ + dec_str(line as nat) + "] Error"@ + loc@ + ": "@ + message@,
            ),
    {
        let mut s = String::from_str("[line ");
        s.append(u32_to_string(line).as_str());
        s.append("] Error");
        s.append(loc);
        s.append(": ");
        s.append(message);
        let ghost v = s@;
        self.output.push(s);
        proof {
            assert(self.out() =~= old(self).out().push(v));
        }
    }

    /// Records a lexical fault: renders it and sets the fault flag.
    pub fn error(&mut self, line: u32, message: &str)
        ensures
            final(self).had_error,
            final(self).had_runtime_error == old(self).had_runtime_error,
            final(self).out() == old(self).out().push(
                render_scan_diag(DiagV { line, message: message@ }),
            ),
    {
        self.report(line, "", message);
        self.had_error = true;
        proof {
            reveal_strlit("");
            assert(""@ =~= Seq::<char>::empty());
            assert("[line "@ + dec_str(line as nat) + "] Error"@ + ""@ + ": "@ + message@
                =~= render_scan_diag(DiagV { line, message: message@ }));
        }
    }

    /// Records a parse fault: renders it at the offending token and sets the
    /// fault flag.
    pub fn parser_error(&mut self, token: Token, message: &str)
        ensures
            final(self).had_error,
            final(self).had_runtime_error == old(self).had_runtime_error,
            final(self).out() == old(self).out().push(
                render_parse_diag(PDiagV { token: token@, message: message@ }),
            ),
    {
        if token.token_type == TokenType::EOF {
            self.report(token.line, " at end", message);
        } else {
            let mut loc = String::from_str(" at '");
            loc.append(token.lexeme.as_str());
            loc.append("'");
            self.report(token.line, loc.as_str(), message);
        }
        self.had_error = true;
    }

    /// Records a runtime fault: renders it and sets the runtime fault flag.
    pub fn runtime_error(&mut self, err: RuntimeError)
        ensures
            final(self).had_runtime_error,
            final(self).had_error == old(self).had_error,
            final(self).out() == old(self).out().push(render_runtime_error(err@)),
    {
        let mut s = err.reason;
        s.append("\n[line ");
        s.append(u32_to_string(err.token.line).as_str());
        s.append("]");
        let ghost v = s@;
        self.output.push(s);
        self.had_runtime_error = true;
        proof {
            assert(self.out() =~= old(self).out().push(v));
        }
    }
}

/// A copy of a token stream.
fn clone_tokens(tokens: &Vec<Token>) -> (r: Vec<Token>)
    ensures
        r.deep_view() == tokens.deep_view(),
{
    let mut r: Vec<Token> = Vec::new();
    let mut i: usize = 0;
    while i < tokens.len()
        invariant
            0 <= i <= tokens.len(),
            r@.len() == i,
            forall|j: int| 0 <= j < i ==> r@[j] == tokens@[j],
        decreases tokens.len() - i,
    {
        r.push(tokens[i].clone());
        i = i + 1;
    }
    proof {
        assert(r.deep_view() =~= tokens.deep_view());
    }
    r
}

/// The first number token whose literal the oracle cannot parse yet, if any;
/// `None` says every number literal is covered.
fn first_missing(tokens: &Vec<Token>, oracle: &NumOracle) -> (r: Option<String>)
    ensures
        match r {
            Some(t) => first_missing_parse(tokens.deep_view(), oracle@.parses) == Some(t@),
            None => first_missing_parse(tokens.deep_view(), oracle@.parses) is None
                && parse_covered(tokens.deep_view(), oracle@.parses),
        },
{
    let ghost all = tokens.deep_view();
    let ghost po = oracle@.parses;
    proof {
        assert(all.skip(0) =~= all);
    }
    let mut i: usize = 0;
    while i < tokens.len()
        invariant
            0 <= i <= tokens.len(),
            all == tokens.deep_view(),
            po == oracle@.parses,
            all.len() == tokens.len(),
            first_missing_parse(all, po) == first_missing_parse(all.skip(i as int), po),
            forall|j: int|
                0 <= j < i && all[j].token_type == TokenType::NUMBER ==> lookup_parse(
                    po,
                    all[j].literal,
                ) is Some,
        decreases tokens.len() - i,
    {
        proof {
            assert(all.skip(i as int)[0] == all[i as int]);
            assert(tokens@[i as int].deep_view() == all[i as int]);
        }
        if tokens[i].token_type == TokenType::NUMBER {
            match oracle.parse_answer(&tokens[i].literal) {
                None => {
                    return Some(tokens[i].literal.clone());
                },
                Some(_) => {},
            }
        }
        proof {
            assert(all.skip(i as int).drop_first() =~= all.skip(i as int + 1));
        }
        i = i + 1;
    }
    proof {
        assert(all.skip(i as int).len() == 0);
    }
    None
}

impl Lox {
    /// Drives source text through the scanner, the parser and the
    /// interpreter: exactly [`run_spec`]. The collected lines grow by the
    /// run's diagnostics and printed values, the fault flags are set where
    /// the run faulted, and the interpreter keeps the bindings the run made.
    /// When a number answer is missing, nothing changes and the same call
    /// can be repeated once the answer is recorded.
    #[verifier::rlimit(100)]
    #[verifier::spinoff_prover]
    pub fn run(&mut self, interpreter: &mut Interpreter, source: &String, oracle: &NumOracle) -> (r:
        RunOutcome)
        requires
            old(interpreter).wf(),
        ensures
            final(interpreter).wf(),
            ({
                let res = run_spec(
                    source@,
                    oracle@,
                    old(self).had_error,
                    old(interpreter)@,
                );
                match r {
                    RunOutcome::Need(q) => ({
                        &&& res == RunV::Need(q@)
                        &&& final(self).out() == old(self).out()
                        &&& final(self).had_error == old(self).had_error
                        &&& final(self).had_runtime_error == old(self).had_runtime_error
                        &&& final(interpreter)@ == old(interpreter)@
                    }),
                    RunOutcome::Finished => (res matches RunV::Finished {
                        messages,
                        had_error,
                        had_runtime_error,
                        env,
                    } && final(self).out() == old(self).out() + messages && final(self).had_error
                        == (old(self).had_error || had_error) && final(self).had_runtime_error == (
                    old(self).had_runtime_error || had_runtime_error) && final(interpreter)@
                        == env),
                }
            }),
    {
        let ghost src = source@;
        let ghost sc = scan_rest(src, 0, 1);
        let ghost po = oracle@.parses;
        let mut scanner = Scanner::new(source.clone());
        let tokens = clone_tokens(scanner.scan_tokens());
        match first_missing(&tokens, oracle) {
            Some(text) => {
                return RunOutcome::Need(NumQuery::ParseNum { text });
            },
            None => {},
        }
        proof {
            assert(wf_tokens(tokens.deep_view()));
        }
        let mut parser = Parser::new(tokens);
        let statements = parser.parse_stmts(oracle);
        let ghost pp = spec_program(sc.tokens, po, 0);
        proof {
            assert(Seq::<PDiagV>::empty() + pp.diags =~= pp.diags);
        }
        let scan_diags = scanner.diagnostics();
        self.report_scan_diags(scan_diags);
        let parse_diags = parser.diagnostics();
        self.report_parse_diags(parse_diags);
        let ghost msgs = render_scan_diags(sc.diags) + render_parse_diags(pp.diags);
        proof {
            assert(self.out() =~= old(self).out() + msgs);
        }
        if self.had_error {
            return RunOutcome::Finished;
        }
        match interpreter.interpret_stmts(&statements, oracle) {
            InterpretOutcome::Need(q) => {
                proof {
                    assert(sc.diags.len() == 0 && pp.diags.len() == 0);
                    assert(render_scan_diags(sc.diags) =~= Seq::<Seq<char>>::empty());
                    assert(render_parse_diags(pp.diags) =~= Seq::<Seq<char>>::empty());
                    assert(self.out() =~= old(self).out());
                }
                RunOutcome::Need(q)
            },
            InterpretOutcome::Finished { output, fault } => {
                self.push_lines(output);
                match fault {
                    Some(f) => {
                        self.runtime_error(f);
                    },
                    None => {},
                }
                proof {
                    let res = run_spec(src, oracle@, old(self).had_error, old(interpreter)@);
                    match res {
                        RunV::Finished { messages, .. } => {
                            assert(self.out() =~= old(self).out() + messages);
                        },
                        _ => {},
                    }
                }
                RunOutcome::Finished
            },
        }
    }

    /// Renders and records each lexical fault in order.
    fn report_scan_diags(&mut self, diags: &Vec<ScanDiag>)
        ensures
            final(self).out() == old(self).out() + render_scan_diags(diags.deep_view()),
            final(self).had_error == (old(self).had_error || diags.deep_view().len() > 0),
            final(self).had_runtime_error == old(self).had_runtime_error,
    {
        let ghost ds = diags.deep_view();
        proof {
            assert(render_scan_diags(ds.take(0)) =~= Seq::<Seq<char>>::empty());
            assert(old(self).out() + render_scan_diags(ds.take(0)) =~= old(self).out());
        }
        let mut i: usize = 0;
        while i < diags.len()
            invariant
                0 <= i <= diags.len(),
                ds == diags.deep_view(),
                ds.len() == diags.len(),
                self.out() == old(self).out() + render_scan_diags(ds.take(i as int)),
                self.had_error == (old(self).had_error || i > 0),
                self.had_runtime_error == old(self).had_runtime_error,
            decreases diags.len() - i,
        {
            proof {
                assert(diags@[i as int].deep_view() == ds[i as int]);
            }
            self.error(diags[i].line, diags[i].message.as_str());
            proof {
                assert(render_scan_diags(ds.take(i as int + 1)) =~= render_scan_diags(
                    ds.take(i as int),
                ).push(render_scan_diag(ds[i as int])));
                assert(self.out() =~= old(self).out() + render_scan_diags(ds.take(i as int + 1)));
            }
            i = i + 1;
        }
        proof {
            assert(ds.take(ds.len() as int) =~= ds);
        }
    }

    /// Renders and records each parse fault in order.
    fn report_parse_diags(&mut self, diags: &Vec<ParseDiag>)
        ensures
            final(self).out() == old(self).out() + render_parse_diags(diags.deep_view()),
            final(self).had_error == (old(self).had_error || diags.deep_view().len() > 0),
            final(self).had_runtime_error == old(self).had_runtime_error,
    {
        let ghost ds = diags.deep_view();
        proof {
            assert(render_parse_diags(ds.take(0)) =~= Seq::<Seq<char>>::empty());
            assert(old(self).out() + render_parse_diags(ds.take(0)) =~= old(self).out());
        }
        let mut i: usize = 0;
        while i < diags.len()
            invariant
                0 <= i <= diags.len(),
                ds == diags.deep_view(),
                ds.len() == diags.len(),
                self.out() == old(self).out() + render_parse_diags(ds.take(i as int)),
                self.had_error == (old(self).had_error || i > 0),
                self.had_runtime_error == old(self).had_runtime_error,
            decreases diags.len() - i,
        {
            proof {
                assert(diags@[i as int].deep_view() == ds[i as int]);
            }
            let t = diags[i].token.clone();
            let m = diags[i].message.clone();
            self.parser_error(t, m.as_str());
            proof {
                assert(render_parse_diags(ds.take(i as int + 1)) =~= render_parse_diags(
                    ds.take(i as int),
                ).push(render_parse_diag(ds[i as int])));
                assert(self.out() =~= old(self).out() + render_parse_diags(ds.take(i as int + 1)));
            }
            i = i + 1;
        }
        proof {
            assert(ds.take(ds.len() as int) =~= ds);
        }
    }

    /// Appends ready lines to the collected output.
    fn push_lines(&mut self, lines: Vec<String>)
        ensures
            final(self).out() == old(self).out() + lines.deep_view(),
            final(self).had_error == old(self).had_error,
            final(self).had_runtime_error == old(self).had_runtime_error,
    {
        let ghost ls = lines.deep_view();
        proof {
            assert(old(self).out() + ls.take(0) =~= old(self).out());
        }
        let mut i: usize = 0;
        while i < lines.len()
            invariant
                0 <= i <= lines.len(),
                ls == lines.deep_view(),
                ls.len() == lines.len(),
                self.out() == old(self).out() + ls.take(i as int),
                self.had_error == old(self).had_error,
                self.had_runtime_error == old(self).had_runtime_error,
            decreases lines.len() - i,
        {
            let line = lines[i].clone();
            proof {
                assert(line@ == ls[i as int]);
            }
            let ghost pre = self.out();
            self.output.push(line);
            proof {
                assert(self.out() =~= pre.push(ls[i as int]));
                assert(ls.take(i as int + 1) =~= ls.take(i as int).push(ls[i as int]));
                assert(self.out() =~= old(self).out() + ls.take(i as int + 1));
            }
            i = i + 1;
        }
        proof {
            assert(ls.take(ls.len() as int) =~= ls);
        }
    }
}

} // verus!