//! The interpreter: evaluates expressions to values and runs statements
//! against a variable environment, collecting printed lines.
//!
//! Evaluation is specified by [`eval_expr`] and statement execution by
//! [`exec_stmt`] and [`interp_stmts`]; the interpreter's methods are proved
//! to compute exactly them. A runtime fault (a type mismatch, an undefined
//! variable, or a `FailScenario` reached) carries a message and the token
//! whose line is reported, and stops the remaining statements. Where an
//! arithmetic result or a number rendering is not recorded in the oracle,
//! evaluation stops with the missing [`NumQuery`] instead, and the caller
//! runs it again once the answer is recorded.

use vstd::prelude::*;
use vstd::string::StringExecFns;
use crate::environment::Environment;
use crate::expr::{expr_view, spec_equals, spec_truthy, Expr, ExprV, Literal, LiteralRepresentations, LiteralV};
use crate::numbits::{num_eq_bits, num_le_bits, num_lt_bits, num_neg_bits, spec_num_eq, spec_num_le, spec_num_lt, spec_num_neg};
use crate::oracle::{lookup_arith, lookup_format, ArithOp, NumOracle, NumQuery, NumQueryV};
use crate::stmt::{Stmt, StmtV};
use crate::token::{Token, TokenV};
use crate::token_type::TokenType;

verus! {

/// A runtime fault: what went wrong and the token whose line is reported.
pub struct RuntimeError {
    pub reason: String,
    pub token: Token,
}

/// The mathematical image of a runtime fault.
pub ghost struct RtErrV {
    pub reason: Seq<char>,
    pub token: TokenV,
}

impl View for RuntimeError {
    type V = RtErrV;

    open spec fn view(&self) -> RtErrV {
        RtErrV { reason: self.reason@, token: self.token@ }
    }
}

/// What stops an evaluation short of a value: a runtime fault, or a number
/// operation whose answer the oracle does not hold yet.
pub enum EvalStop {
    Fault(RuntimeError),
    Need(NumQuery),
}

/// The token a `FailScenario` fault carries: the parser made the expression
/// up, so no source token belongs to it.
pub open spec fn synthetic_token() -> TokenV {
    TokenV { token_type: TokenType::EOF, lexeme: ""@, literal: "Null"@, line: 0 }
}

/// The fault for an expression node no parse can produce (a binary node
/// without exactly two children, and the like). The evaluator is total, so
/// it must say something for them; no run of the pipeline reaches this.
pub open spec fn malformed_fault() -> RtErrV {
    RtErrV { reason: "Malformed expression."@, token: synthetic_token() }
}

/// The result of evaluating one expression: a value, a runtime fault, or a
/// missing number answer.
pub ghost enum EvalOutV {
    Val(LiteralV),
    Fault(RtErrV),
    Need(NumQueryV),
}

/// What a unary operator yields on an evaluated operand: `-` negates a
/// number and rejects everything else; `!` yields the negated truthiness of
/// any value.
pub open spec fn eval_unary_op(operator: TokenV, v: LiteralV) -> EvalOutV {
    if operator.token_type == TokenType::MINUS {
        match v {
            LiteralV::Number(b) => EvalOutV::Val(LiteralV::Number(spec_num_neg(b))),
            _ => EvalOutV::Fault(
                RtErrV { reason: "Operand must be a number."@, token: operator },
            ),
        }
    } else if operator.token_type == TokenType::BANG {
        EvalOutV::Val(LiteralV::Boolean(!spec_truthy(v)))
    } else {
        EvalOutV::Fault(RtErrV { reason: "Unsupported unary operator."@, token: operator })
    }
}

/// What a binary operator yields on two evaluated operands. Equality works
/// on any two values; the orderings and `-`, `/`, `*` demand two numbers;
/// `+` adds two numbers or concatenates two strings. Arithmetic results come
/// from the oracle's table, or stop with the missing query.
pub open spec fn eval_binary_op(
    operator: TokenV,
    l: LiteralV,
    r: LiteralV,
    ariths: Seq<(ArithOp, u64, u64, u64)>,
) -> EvalOutV {
    let ty = operator.token_type;
    if ty == TokenType::BANGEQUAL {
        EvalOutV::Val(LiteralV::Boolean(!spec_equals(l, r)))
    } else if ty == TokenType::EQUALEQUAL {
        EvalOutV::Val(LiteralV::Boolean(spec_equals(l, r)))
    } else if ty == TokenType::GREATER || ty == TokenType::GREATEREQUAL || ty == TokenType::LESS
        || ty == TokenType::LESSEQUAL {
        match (l, r) {
            (LiteralV::Number(a), LiteralV::Number(b)) => EvalOutV::Val(
                LiteralV::Boolean(
                    if ty == TokenType::GREATER {
                        spec_num_lt(b, a)
                    } else if ty == TokenType::GREATEREQUAL {
                        spec_num_le(b, a)
                    } else if ty == TokenType::LESS {
                        spec_num_lt(a, b)
                    } else {
                        spec_num_le(a, b)
                    },
                ),
            ),
            _ => EvalOutV::Fault(
                RtErrV { reason: "Operands must be numbers."@, token: operator },
            ),
        }
    } else if ty == TokenType::MINUS || ty == TokenType::SLASH || ty == TokenType::STAR {
        match (l, r) {
            (LiteralV::Number(a), LiteralV::Number(b)) => {
                let op = if ty == TokenType::MINUS {
                    ArithOp::Sub
                } else if ty == TokenType::SLASH {
                    ArithOp::Div
                } else {
                    ArithOp::Mul
                };
                match lookup_arith(ariths, op, a, b) {
                    Some(bits) => EvalOutV::Val(LiteralV::Number(bits)),
                    None => EvalOutV::Need(NumQueryV::Arith { op, left: a, right: b }),
                }
            },
            _ => EvalOutV::Fault(
                RtErrV { reason: "Operands must be numbers."@, token: operator },
            ),
        }
    } else if ty == TokenType::PLUS {
        match (l, r) {
            (LiteralV::Number(a), LiteralV::Number(b)) => {
                match lookup_arith(ariths, ArithOp::Add, a, b) {
                    Some(bits) => EvalOutV::Val(LiteralV::Number(bits)),
                    None => EvalOutV::Need(
                        NumQueryV::Arith { op: ArithOp::Add, left: a, right: b },
                    ),
                }
            },
            (LiteralV::Str(a), LiteralV::Str(b)) => EvalOutV::Val(LiteralV::Str(a + b)),
            _ => EvalOutV::Fault(
                RtErrV {
                    reason: "Operands must be two numbers or two strings."@,
                    token: operator,
                },
            ),
        }
    } else {
        EvalOutV::Fault(RtErrV { reason: "Unsupported binary operator."@, token: operator })
    }
}

/// What evaluating an expression yields under an environment and an oracle.
/// Operands evaluate left to right, and the first fault or missing answer
/// stops the evaluation.
pub open spec fn eval_expr(e: ExprV, env: Map<Seq<char>, LiteralV>, o: crate::oracle::NumOracleV) -> EvalOutV
    decreases e,
{
    match e {
        ExprV::Literal { literal } => EvalOutV::Val(literal),
        ExprV::Grouping { sub } => if sub.len() == 1 {
            eval_expr(sub[0], env, o)
        } else {
            EvalOutV::Fault(malformed_fault())
        },
        ExprV::Variable { name } => if env.contains_key(name.lexeme) {
            EvalOutV::Val(env[name.lexeme])
        } else {
            EvalOutV::Fault(
                RtErrV {
                    reason: "Undefined variable '"@ + name.lexeme + "'."@,
                    token: name,
                },
            )
        },
        ExprV::Unary { operator, sub } => if sub.len() == 1 {
            match eval_expr(sub[0], env, o) {
                EvalOutV::Val(v) => eval_unary_op(operator, v),
                other => other,
            }
        } else {
            EvalOutV::Fault(malformed_fault())
        },
        ExprV::Binary { operator, sub } => if sub.len() == 2 {
            match eval_expr(sub[0], env, o) {
                EvalOutV::Val(l) => match eval_expr(sub[1], env, o) {
                    EvalOutV::Val(r) => eval_binary_op(operator, l, r, o.ariths),
                    other => other,
                },
                other => other,
            }
        } else {
            EvalOutV::Fault(malformed_fault())
        },
        ExprV::FailScenario { reason } => EvalOutV::Fault(
            RtErrV { reason, token: synthetic_token() },
        ),
    }
}

/// How a value prints: `nil`, `true`, `false`, the string itself, or the
/// oracle's rendering of a number, which may be missing.
pub ghost enum StrOutV {
    Txt(Seq<char>),
    NeedFmt(u64),
}

/// The printed text of a value, or the bit pattern whose rendering the
/// oracle still lacks.
pub open spec fn spec_stringify(v: LiteralV, formats: Seq<(u64, Seq<char>)>) -> StrOutV {
    match v {
        LiteralV::Nil => StrOutV::Txt("nil"@),
        LiteralV::Boolean(b) => if b {
            StrOutV::Txt("true"@)
        } else {
            StrOutV::Txt("false"@)
        },
        LiteralV::Str(s) => StrOutV::Txt(s),
        LiteralV::Number(bits) => match lookup_format(formats, bits) {
            Some(t) => StrOutV::Txt(t),
            None => StrOutV::NeedFmt(bits),
        },
    }
}

/// The interpreter's running state: the variable bindings and the lines
/// printed so far.
pub ghost struct InterpStateV {
    pub env: Map<Seq<char>, LiteralV>,
    pub out: Seq<Seq<char>>,
}

/// What one statement does to the state: it goes through, stops at a runtime
/// fault (keeping the state reached so far), or stops at a missing number
/// answer.
pub ghost enum StepOutV {
    Ran(InterpStateV),
    Fault(InterpStateV, RtErrV),
    Need(NumQueryV),
}

/// What executing one statement does: an expression statement evaluates and
/// discards; a print statement evaluates, renders, and appends a line; a
/// declaration evaluates its initializer (nil when absent) and binds the
/// name.
pub open spec fn exec_stmt(s: StmtV, st: InterpStateV, o: crate::oracle::NumOracleV) -> StepOutV {
    match s {
        StmtV::Expression { expression } => match eval_expr(expression, st.env, o) {
            EvalOutV::Val(_) => StepOutV::Ran(st),
            EvalOutV::Fault(f) => StepOutV::Fault(st, f),
            EvalOutV::Need(q) => StepOutV::Need(q),
        },
        StmtV::Print { expression } => match eval_expr(expression, st.env, o) {
            EvalOutV::Val(v) => match spec_stringify(v, o.formats) {
                StrOutV::Txt(t) => StepOutV::Ran(
                    InterpStateV { env: st.env, out: st.out.push(t) },
                ),
                StrOutV::NeedFmt(bits) => StepOutV::Need(NumQueryV::FormatNum { bits }),
            },
            EvalOutV::Fault(f) => StepOutV::Fault(st, f),
            EvalOutV::Need(q) => StepOutV::Need(q),
        },
        StmtV::Var { name, initializer } => match initializer {
            Some(e) => match eval_expr(e, st.env, o) {
                EvalOutV::Val(v) => StepOutV::Ran(
                    InterpStateV { env: st.env.insert(name.lexeme, v), out: st.out },
                ),
                EvalOutV::Fault(f) => StepOutV::Fault(st, f),
                EvalOutV::Need(q) => StepOutV::Need(q),
            },
            None => StepOutV::Ran(
                InterpStateV { env: st.env.insert(name.lexeme, LiteralV::Nil), out: st.out },
            ),
        },
    }
}

/// The result of running a statement list: the final state and the fault
/// that stopped it, if one did; or the first missing number answer.
pub ghost enum InterpOutV {
    Done(InterpStateV, Option<RtErrV>),
    Need(NumQueryV),
}

/// What running the statements in order does. A fault stops the remaining
/// statements but keeps everything done before it; a missing number answer
/// stops the whole run.
pub open spec fn interp_stmts(
    ss: Seq<StmtV>,
    st: InterpStateV,
    o: crate::oracle::NumOracleV,
) -> InterpOutV
    decreases ss.len(),
{
    if ss.len() == 0 {
        InterpOutV::Done(st, None)
    } else {
        match exec_stmt(ss[0], st, o) {
            StepOutV::Ran(st2) => interp_stmts(ss.drop_first(), st2, o),
            StepOutV::Fault(st2, f) => InterpOutV::Done(st2, Some(f)),
            StepOutV::Need(q) => InterpOutV::Need(q),
        }
    }
}

/// Whether an expression is built from number literals and the arithmetic
/// operators alone: binary `+`, `-`, `*`, `/`, unary `-`, and grouping.
pub open spec fn arith_only(e: ExprV) -> bool
    decreases e,
{
    match e {
        ExprV::Literal { literal } => literal is Number,
        ExprV::Unary { operator, sub } => operator.token_type == TokenType::MINUS && sub.len()
            == 1 && arith_only(sub[0]),
        ExprV::Binary { operator, sub } => (operator.token_type == TokenType::PLUS
            || operator.token_type == TokenType::MINUS || operator.token_type == TokenType::SLASH
            || operator.token_type == TokenType::STAR) && sub.len() == 2 && arith_only(sub[0])
            && arith_only(sub[1]),
        ExprV::Grouping { sub } => sub.len() == 1 && arith_only(sub[0]),
        _ => false,
    }
}

/// What one run of the statements yields: the printed lines and the fault
/// that stopped the run, if one did; or the first missing number answer,
/// with nothing changed.
pub enum InterpretOutcome {
    Finished { output: Vec<String>, fault: Option<RuntimeError> },
    Need(NumQuery),
}

/// The interpreter: owns the variable environment.
pub struct Interpreter {
    environment: Environment,
}

impl View for Interpreter {
    type V = Map<Seq<char>, LiteralV>;

    closed spec fn view(&self) -> Map<Seq<char>, LiteralV> {
        self.environment@
    }
}

impl Interpreter {
    /// The environment binds each name at most once.
    pub closed spec fn wf(&self) -> bool {
        self.environment.wf()
    }

    /// An interpreter over an empty environment.
    pub fn new() -> (r: Self)
        ensures
            r.wf(),
            r@ == Map::<Seq<char>, LiteralV>::empty(),
    {
        Interpreter { environment: Environment::new() }
    }

    /// Whether a value counts as true: everything but nil and `false` does.
    pub fn is_truthy(&self, literal_expr: Literal) -> (r: bool)
        ensures
            r == spec_truthy(literal_expr.literal@),
    {
        match literal_expr.literal {
            LiteralRepresentations::CustomNil => false,
            LiteralRepresentations::CustomBoolean { val } => val,
            _ => true,
        }
    }

    /// Lox equality of two evaluated values.
    fn equals_values(&self, left: &LiteralRepresentations, right: &LiteralRepresentations) -> (r:
        bool)
        ensures
            r == spec_equals(left@, right@),
    {
        match (left, right) {
            (LiteralRepresentations::CustomNil, LiteralRepresentations::CustomNil) => true,
            (
                LiteralRepresentations::CustomBoolean { val: l },
                LiteralRepresentations::CustomBoolean { val: r },
            ) => *l == *r,
            (
                LiteralRepresentations::CustomNumber { val: l },
                LiteralRepresentations::CustomNumber { val: r },
            ) => num_eq_bits(*l, *r),
            (
                LiteralRepresentations::CustomString { val: l },
                LiteralRepresentations::CustomString { val: r },
            ) => *l == *r,
            _ => false,
        }
    }

    /// Lox equality of two literal expressions; anything else is unequal.
    pub fn is_equal(&self, left: Expr, right: Expr) -> (r: bool)
        ensures
            r == (match (expr_view(left), expr_view(right)) {
                (ExprV::Literal { literal: l }, ExprV::Literal { literal: r }) => spec_equals(l, r),
                _ => false,
            }),
    {
        match (left, right) {
            (Expr::Literal { literal: l }, Expr::Literal { literal: r }) => self.equals_values(
                &l,
                &r,
            ),
            _ => false,
        }
    }

    /// Demands that a unary operand is a number, and hands its pattern out.
    fn check_number_operand(&self, operator: &Token, operand: &LiteralRepresentations) -> (r:
        Result<u64, EvalStop>)
        ensures
            match r {
                Ok(a) => operand@ == LiteralV::Number(a),
                Err(s) => !(operand@ is Number) && (s matches EvalStop::Fault(f) && f@
                    == (RtErrV { reason: "Operand must be a number."@, token: operator@ })),
            },
    {
        match operand {
            LiteralRepresentations::CustomNumber { val } => Ok(*val),
            _ => Err(
                EvalStop::Fault(
                    RuntimeError {
                        reason: String::from_str("Operand must be a number."),
                        token: operator.clone(),
                    },
                ),
            ),
        }
    }

    /// Demands that both binary operands are numbers, and hands their
    /// patterns out.
    fn check_number_operands(
        &self,
        operator: &Token,
        left: &LiteralRepresentations,
        right: &LiteralRepresentations,
    ) -> (r: Result<(u64, u64), EvalStop>)
        ensures
            match r {
                Ok(p) => left@ == LiteralV::Number(p.0) && right@ == LiteralV::Number(p.1),
                Err(s) => !(left@ is Number && right@ is Number) && (s matches EvalStop::Fault(
                    f,
                ) && f@ == (RtErrV { reason: "Operands must be numbers."@, token: operator@ })),
            },
    {
        match (left, right) {
            (
                LiteralRepresentations::CustomNumber { val: l },
                LiteralRepresentations::CustomNumber { val: r },
            ) => Ok((*l, *r)),
            _ => Err(
                EvalStop::Fault(
                    RuntimeError {
                        reason: String::from_str("Operands must be numbers."),
                        token: operator.clone(),
                    },
                ),
            ),
        }
    }

    /// Applies a unary operator to an evaluated operand.
    fn eval_unary(&self, operator: &Token, value: LiteralRepresentations) -> (r: Result<
        LiteralRepresentations,
        EvalStop,
    >)
        ensures
            match r {
                Ok(v) => eval_unary_op(operator@, value@) == EvalOutV::Val(v@),
                Err(s) => match s {
                    EvalStop::Fault(f) => eval_unary_op(operator@, value@) == EvalOutV::Fault(f@),
                    EvalStop::Need(q) => eval_unary_op(operator@, value@) == EvalOutV::Need(q@),
                },
            },
    {
        if operator.token_type == TokenType::MINUS {
            match self.check_number_operand(operator, &value) {
                Ok(a) => Ok(LiteralRepresentations::CustomNumber { val: num_neg_bits(a) }),
                Err(s) => Err(s),
            }
        } else if operator.token_type == TokenType::BANG {
            let t = self.is_truthy(Literal { literal: value });
            Ok(LiteralRepresentations::CustomBoolean { val: !t })
        } else {
            Err(
                EvalStop::Fault(
                    RuntimeError {
                        reason: String::from_str("Unsupported unary operator."),
                        token: operator.clone(),
                    },
                ),
            )
        }
    }

    /// Applies a binary operator to two evaluated operands, asking the
    /// oracle for arithmetic results.
    #[verifier::rlimit(50)]
    fn eval_binary(
        &self,
        operator: &Token,
        left: LiteralRepresentations,
        right: LiteralRepresentations,
        oracle: &NumOracle,
    ) -> (r: Result<LiteralRepresentations, EvalStop>)
        ensures
            match r {
                Ok(v) => eval_binary_op(operator@, left@, right@, oracle@.ariths)
                    == EvalOutV::Val(v@),
                Err(s) => match s {
                    EvalStop::Fault(f) => eval_binary_op(operator@, left@, right@, oracle@.ariths)
                        == EvalOutV::Fault(f@),
                    EvalStop::Need(q) => eval_binary_op(operator@, left@, right@, oracle@.ariths)
                        == EvalOutV::Need(q@),
                },
            },
    {
        let ty = operator.token_type;
        if ty == TokenType::BANGEQUAL {
            let eq = self.equals_values(&left, &right);
            return Ok(LiteralRepresentations::CustomBoolean { val: !eq });
        }
        if ty == TokenType::EQUALEQUAL {
            let eq = self.equals_values(&left, &right);
            return Ok(LiteralRepresentations::CustomBoolean { val: eq });
        }
        if ty == TokenType::GREATER || ty == TokenType::GREATEREQUAL || ty == TokenType::LESS
            || ty == TokenType::LESSEQUAL {
            let nums = match self.check_number_operands(operator, &left, &right) {
                Ok(p) => p,
                Err(s) => {
                    return Err(s);
                },
            };
            let val = if ty == TokenType::GREATER {
                num_lt_bits(nums.1, nums.0)
            } else if ty == TokenType::GREATEREQUAL {
                num_le_bits(nums.1, nums.0)
            } else if ty == TokenType::LESS {
                num_lt_bits(nums.0, nums.1)
            } else {
                num_le_bits(nums.0, nums.1)
            };
            return Ok(LiteralRepresentations::CustomBoolean { val });
        }
        if ty == TokenType::MINUS || ty == TokenType::SLASH || ty == TokenType::STAR {
            let nums = match self.check_number_operands(operator, &left, &right) {
                Ok(p) => p,
                Err(s) => {
                    return Err(s);
                },
            };
            let op = if ty == TokenType::MINUS {
                ArithOp::Sub
            } else if ty == TokenType::SLASH {
                ArithOp::Div
            } else {
                ArithOp::Mul
            };
            return match oracle.arith_answer(op, nums.0, nums.1) {
                Some(bits) => Ok(LiteralRepresentations::CustomNumber { val: bits }),
                None => Err(
                    EvalStop::Need(NumQuery::Arith { op, left: nums.0, right: nums.1 }),
                ),
            };
        }
        if ty == TokenType::PLUS {
            return match (left, right) {
                (
                    LiteralRepresentations::CustomNumber { val: a },
                    LiteralRepresentations::CustomNumber { val: b },
                ) => match oracle.arith_answer(ArithOp::Add, a, b) {
                    Some(bits) => Ok(LiteralRepresentations::CustomNumber { val: bits }),
                    None => Err(
                        EvalStop::Need(NumQuery::Arith { op: ArithOp::Add, left: a, right: b }),
                    ),
                },
                (
                    LiteralRepresentations::CustomString { val: a },
                    LiteralRepresentations::CustomString { val: b },
                ) => Ok(
                    LiteralRepresentations::CustomString { val: a.concat(b.as_str()) },
                ),
                _ => Err(
                    EvalStop::Fault(
                        RuntimeError {
                            reason: String::from_str(
                                "Operands must be two numbers or two strings.",
                            ),
                            token: operator.clone(),
                        },
                    ),
                ),
            };
        }
        Err(
            EvalStop::Fault(
                RuntimeError {
                    reason: String::from_str("Unsupported binary operator."),
                    token: operator.clone(),
                },
            ),
        )
    }

    /// Evaluates an expression under an environment: exactly [`eval_expr`].
    fn eval(&self, expr: &Expr, env: &Environment, oracle: &NumOracle) -> (r: Result<
        LiteralRepresentations,
        EvalStop,
    >)
        requires
            env.wf(),
        ensures
            match r {
                Ok(v) => eval_expr(expr_view(*expr), env@, oracle@) == EvalOutV::Val(v@),
                Err(s) => match s {
                    EvalStop::Fault(f) => eval_expr(expr_view(*expr), env@, oracle@)
                        == EvalOutV::Fault(f@),
                    EvalStop::Need(q) => eval_expr(expr_view(*expr), env@, oracle@)
                        == EvalOutV::Need(q@),
                },
            },
        decreases expr,
    {
        match expr {
            Expr::Literal { literal } => Ok(literal.clone()),
            Expr::Grouping { expr: inner } => self.eval(&**inner, env, oracle),
            Expr::Variable { name } => match env.get(name.clone()) {
                Ok(v) => Ok(v),
                Err(e) => Err(
                    EvalStop::Fault(RuntimeError { reason: e.reason, token: name.clone() }),
                ),
            },
            Expr::Unary { operator, right } => {
                let value = match self.eval(&**right, env, oracle) {
                    Ok(v) => v,
                    Err(s) => {
                        return Err(s);
                    },
                };
                self.eval_unary(operator, value)
            },
            Expr::Binary { left, operator, right } => {
                let l = match self.eval(&**left, env, oracle) {
                    Ok(v) => v,
                    Err(s) => {
                        return Err(s);
                    },
                };
                let r = match self.eval(&**right, env, oracle) {
                    Ok(v) => v,
                    Err(s) => {
                        return Err(s);
                    },
                };
                self.eval_binary(operator, l, r, oracle)
            },
            Expr::FailScenario { reason } => Err(
                EvalStop::Fault(
                    RuntimeError {
                        reason: reason.clone(),
                        token: Token::new(
                            TokenType::EOF,
                            String::from_str(""),
                            String::from_str("Null"),
                            0,
                        ),
                    },
                ),
            ),
        }
    }

    /// Evaluates one expression under the interpreter's environment.
    pub fn interpret(&self, expr: &Expr, oracle: &NumOracle) -> (r: Result<
        LiteralRepresentations,
        EvalStop,
    >)
        requires
            self.wf(),
        ensures
            match r {
                Ok(v) => eval_expr(expr_view(*expr), self@, oracle@) == EvalOutV::Val(v@),
                Err(s) => match s {
                    EvalStop::Fault(f) => eval_expr(expr_view(*expr), self@, oracle@)
                        == EvalOutV::Fault(f@),
                    EvalStop::Need(q) => eval_expr(expr_view(*expr), self@, oracle@)
                        == EvalOutV::Need(q@),
                },
            },
    {
        self.eval(expr, &self.environment, oracle)
    }

    /// Renders a value as a printed line, asking the oracle for number
    /// renderings.
    fn stringify(&self, v: LiteralRepresentations, oracle: &NumOracle) -> (r: Result<
        String,
        EvalStop,
    >)
        ensures
            match r {
                Ok(s) => spec_stringify(v@, oracle@.formats) == StrOutV::Txt(s@),
                Err(s) => s matches EvalStop::Need(q) && v@ matches LiteralV::Number(b)
                    && spec_stringify(v@, oracle@.formats) == StrOutV::NeedFmt(b) && q@
                    == (NumQueryV::FormatNum { bits: b }),
            },
    {
        match v {
            LiteralRepresentations::CustomNil => Ok(String::from_str("nil")),
            LiteralRepresentations::CustomBoolean { val } => if val {
                Ok(String::from_str("true"))
            } else {
                Ok(String::from_str("false"))
            },
            LiteralRepresentations::CustomString { val } => Ok(val),
            LiteralRepresentations::CustomNumber { val } => match oracle.format_answer(val) {
                Some(s) => Ok(s),
                None => Err(EvalStop::Need(NumQuery::FormatNum { bits: val })),
            },
        }
    }

    /// Runs one statement against an environment and an output buffer:
    /// exactly [`exec_stmt`].
    fn eval_stmt(
        &self,
        stmt: &Stmt,
        env: &mut Environment,
        out: &mut Vec<String>,
        oracle: &NumOracle,
    ) -> (r: Result<(), EvalStop>)
        requires
            old(env).wf(),
        ensures
            final(env).wf(),
            ({
                let res = exec_stmt(
                    stmt@,
                    InterpStateV { env: old(env)@, out: old(out).deep_view() },
                    oracle@,
                );
                match r {
                    Ok(u) => res == StepOutV::Ran(
                        InterpStateV { env: final(env)@, out: final(out).deep_view() },
                    ),
                    Err(s) => match s {
                        EvalStop::Fault(f) => res == StepOutV::Fault(
                            InterpStateV { env: final(env)@, out: final(out).deep_view() },
                            f@,
                        ),
                        EvalStop::Need(q) => res == StepOutV::Need(q@) && final(env)@ == old(
                            env,
                        )@ && final(out).deep_view() == old(out).deep_view(),
                    },
                }
            }),
    {
        match stmt {
            Stmt::Expression(s) => match self.eval(&s.expression, env, oracle) {
                Ok(_) => Ok(()),
                Err(stop) => Err(stop),
            },
            Stmt::Print(s) => {
                let v = match self.eval(&s.print_expression, env, oracle) {
                    Ok(v) => v,
                    Err(stop) => {
                        return Err(stop);
                    },
                };
                let text = match self.stringify(v, oracle) {
                    Ok(t) => t,
                    Err(stop) => {
                        return Err(stop);
                    },
                };
                let ghost out0 = out.deep_view();
                out.push(text);
                proof {
                    assert(out.deep_view() =~= out0.push(out@.last()@));
                }
                Ok(())
            },
            Stmt::Var(s) => {
                let value = match &s.initializer {
                    Some(e) => match self.eval(e, env, oracle) {
                        Ok(v) => v,
                        Err(stop) => {
                            return Err(stop);
                        },
                    },
                    None => LiteralRepresentations::CustomNil,
                };
                env.define(s.name.lexeme.clone(), value);
                Ok(())
            },
        }
    }

    /// Runs the statements in order against the interpreter's environment:
    /// exactly [`interp_stmts`], starting from no output. A runtime fault
    /// stops the remaining statements but keeps the bindings and output made
    /// before it; a missing number answer leaves the interpreter unchanged,
    /// so the same run can be repeated once the answer is recorded.
    pub fn interpret_stmts(&mut self, statements: &Vec<Stmt>, oracle: &NumOracle) -> (r:
        InterpretOutcome)
        requires
            old(self).wf(),
        ensures
            final(self).wf(),
            ({
                let res = interp_stmts(
                    statements.deep_view(),
                    InterpStateV { env: old(self)@, out: Seq::empty() },
                    oracle@,
                );
                match r {
                    InterpretOutcome::Need(q) => res == InterpOutV::Need(q@) && final(self)@
                        == old(self)@,
                    InterpretOutcome::Finished { output, fault } => match fault {
                        Some(f) => res == InterpOutV::Done(
                            InterpStateV { env: final(self)@, out: output.deep_view() },
                            Some(f@),
                        ),
                        None => res == InterpOutV::Done(
                            InterpStateV { env: final(self)@, out: output.deep_view() },
                            None,
                        ),
                    },
                }
            }),
    {
        let ghost all = statements.deep_view();
        let ghost st0 = InterpStateV { env: self@, out: Seq::empty() };
        let mut env = self.environment.clone();
        let mut output: Vec<String> = Vec::new();
        proof {
            assert(output.deep_view() =~= Seq::<Seq<char>>::empty());
            assert(all.skip(0) =~= all);
        }
        let mut idx: usize = 0;
        #[verifier::loop_isolation(false)]
        while idx < statements.len()
            invariant
                env.wf(),
                *self == *old(self),
                0 <= idx <= statements.len(),
                interp_stmts(all, st0, oracle@) == interp_stmts(
                    all.skip(idx as int),
                    InterpStateV { env: env@, out: output.deep_view() },
                    oracle@,
                ),
            decreases statements.len() - idx,
        {
            proof {
                assert(all.skip(idx as int)[0] == all[idx as int]);
                assert(statements[idx as int].deep_view() == all[idx as int]);
            }
            match self.eval_stmt(&statements[idx], &mut env, &mut output, oracle) {
                Ok(_) => {
                    proof {
                        assert(all.skip(idx as int).drop_first() =~= all.skip(idx as int + 1));
                    }
                    idx = idx + 1;
                },
                Err(stop) => match stop {
                    EvalStop::Fault(f) => {
                        self.environment = env;
                        return InterpretOutcome::Finished { output, fault: Some(f) };
                    },
                    EvalStop::Need(q) => {
                        return InterpretOutcome::Need(q);
                    },
                },
            }
        }
        proof {
            assert(all.skip(statements.len() as int).len() == 0);
        }
        self.environment = env;
        InterpretOutcome::Finished { output, fault: None }
    }
}

/// An expression of number literals and arithmetic operators never faults:
/// it evaluates to a number under any environment, once the oracle holds the
/// arithmetic answers it needs.
pub proof fn lemma_arith_only_eval(
    e: ExprV,
    env: Map<Seq<char>, LiteralV>,
    o: crate::oracle::NumOracleV,
)
    requires
        arith_only(e),
    ensures
        !(eval_expr(e, env, o) is Fault),
        eval_expr(e, env, o) matches EvalOutV::Val(v) ==> v is Number,
    decreases e,
{
    match e {
        ExprV::Unary { operator, sub } => {
            lemma_arith_only_eval(sub[0], env, o);
        },
        ExprV::Binary { operator, sub } => {
            lemma_arith_only_eval(sub[0], env, o);
            lemma_arith_only_eval(sub[1], env, o);
        },
        ExprV::Grouping { sub } => {
            lemma_arith_only_eval(sub[0], env, o);
        },
        _ => {},
    }
}

} // verus!
