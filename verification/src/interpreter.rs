//! The interpreter: a tree-walking, strict, left-to-right evaluator.
//!
//! `spec_eval` is the reference semantics of expressions: what value an
//! expression has, how it changes the environment, and on which inputs it
//! raises which runtime error. `spec_interpret` runs statements in
//! sequence, each one isolated: a failing statement reports one runtime
//! diagnostic and the next statement still runs. `Interpreter::interpret`
//! is proved to produce exactly those events and that final environment.

use vstd::prelude::*;
use crate::ast::{Expr, ExprV, Stmt, StmtV};
use crate::diag::{Diagnostic, DiagnosticV, runtime_error};
use crate::environment::{Environment, RunTimeError};
use crate::num::{Num, spec_neg, spec_add, spec_sub, spec_mul, spec_div, spec_lt, spec_le};
use crate::token::{Token, TokenV, TokenType, TokenTypeV};
use crate::value::{Value, ValueV, spec_value_of_token_type, spec_truthy, spec_is_equal,
    spec_display_value, is_equal, is_truthy};

verus! {

/// A runtime failure: the token it arose at, and a message.
#[derive(Debug)]
pub struct InterpreterError {
    pub token: Token,
    pub message: String,
}

/// Spec-level image of `InterpreterError`.
pub struct InterpreterErrorV {
    pub token: TokenV,
    pub message: Seq<char>,
}

impl View for InterpreterError {
    type V = InterpreterErrorV;

    open spec fn view(&self) -> InterpreterErrorV {
        InterpreterErrorV { token: self.token@, message: self.message@ }
    }
}

impl From<RunTimeError> for InterpreterError {
    fn from(error: RunTimeError) -> (r: Self) {
        InterpreterError { token: error.name, message: error.message }
    }
}

impl vstd::std_specs::convert::FromSpecImpl<RunTimeError> for InterpreterError {
    open spec fn obeys_from_spec() -> bool {
        true
    }

    open spec fn from_spec(v: RunTimeError) -> Self {
        InterpreterError { token: v.name, message: v.message }
    }
}

/// What evaluating an expression yields: its value or a runtime error,
/// and the environment it leaves behind (assignments made before a later
/// error persist).
pub struct EvalR {
    pub result: Result<ValueV, InterpreterErrorV>,
    pub env: Map<Seq<char>, ValueV>,
}

/// The message a failed unary minus raises.
pub open spec fn msg_unary_number() -> Seq<char> {
    "operand must be a number"@
}

/// The message a bad operator on two numbers raises.
pub open spec fn msg_numbers() -> Seq<char> {
    "Operator not supported on type Numbers"@
}

/// The message a bad operator on two strings raises.
pub open spec fn msg_strings() -> Seq<char> {
    "Operator not supported on type Strings"@
}

/// The message a binary operator on any other pair of values raises.
pub open spec fn msg_invalid() -> Seq<char> {
    "Invalid operation"@
}

/// The message a unary operator other than `!` or `-` raises.
pub open spec fn msg_unary_op() -> Seq<char> {
    "Unary Operator must be MINUS/BANG."@
}

/// What a binary operator yields on two already-evaluated operands.
/// Equality is defined for every pair (with the number tolerance); `+`
/// adds numbers or concatenates strings; the other arithmetic and ordering
/// operators demand two numbers; anything else is a runtime type error at
/// the operator's token.
pub open spec fn spec_apply_binary(op: TokenV, a: ValueV, b: ValueV) -> Result<
    ValueV,
    InterpreterErrorV,
> {
    if op.token_type is BangEqual {
        Ok(ValueV::Bool(!spec_is_equal(a, b)))
    } else if op.token_type is EqualEqual {
        Ok(ValueV::Bool(spec_is_equal(a, b)))
    } else {
        match (a, b) {
            (ValueV::Num(x), ValueV::Num(y)) => match op.token_type {
                TokenTypeV::Minus => Ok(ValueV::Num(spec_sub(x, y))),
                TokenTypeV::Slash => Ok(ValueV::Num(spec_div(x, y))),
                TokenTypeV::Star => Ok(ValueV::Num(spec_mul(x, y))),
                TokenTypeV::Plus => Ok(ValueV::Num(spec_add(x, y))),
                TokenTypeV::Greater => Ok(ValueV::Bool(spec_lt(y, x))),
                TokenTypeV::GreaterEqual => Ok(ValueV::Bool(spec_le(y, x))),
                TokenTypeV::Less => Ok(ValueV::Bool(spec_lt(x, y))),
                TokenTypeV::LessEqual => Ok(ValueV::Bool(spec_le(x, y))),
                _ => Err(InterpreterErrorV { token: op, message: msg_numbers() }),
            },
            (ValueV::Str(x), ValueV::Str(y)) => match op.token_type {
                TokenTypeV::Plus => Ok(ValueV::Str(x + y)),
                _ => Err(InterpreterErrorV { token: op, message: msg_strings() }),
            },
            _ => Err(InterpreterErrorV { token: op, message: msg_invalid() }),
        }
    }
}

/// The value of an expression in an environment, and the environment it
/// leaves. Strict, left to right: the left operand is fully evaluated
/// (with its side effects on the environment) before the right one.
pub open spec fn spec_eval(e: ExprV, env: Map<Seq<char>, ValueV>) -> EvalR
    decreases e,
{
    match e {
        ExprV::Literal { value } => (EvalR {
            result: Ok(spec_value_of_token_type(value.token_type)),
            env,
        }),
        ExprV::Grouping { expression } => spec_eval(*expression, env),
        ExprV::Variable { name } => {
            if env.contains_key(name.lexeme) {
                EvalR { result: Ok(env[name.lexeme]), env }
            } else {
                EvalR {
                    result: Err(
                        InterpreterErrorV {
                            token: name,
                            message: crate::environment::spec_undefined_message(name.lexeme),
                        },
                    ),
                    env,
                }
            }
        },
        ExprV::Assign { name, value } => {
            let r = spec_eval(*value, env);
            match r.result {
                Ok(v) => {
                    if r.env.contains_key(name.lexeme) {
                        EvalR { result: Ok(v), env: r.env.insert(name.lexeme, v) }
                    } else {
                        EvalR {
                            result: Err(
                                InterpreterErrorV {
                                    token: name,
                                    message: crate::environment::spec_undefined_message(
                                        name.lexeme,
                                    ),
                                },
                            ),
                            env: r.env,
                        }
                    }
                },
                Err(_) => r,
            }
        },
        ExprV::Unary { operator, right } => {
            let r = spec_eval(*right, env);
            match r.result {
                Ok(v) => {
                    if operator.token_type is Minus {
                        match v {
                            ValueV::Num(n) => (EvalR {
                                result: Ok(ValueV::Num(spec_neg(n))),
                                env: r.env,
                            }),
                            _ => (EvalR {
                                result: Err(
                                    InterpreterErrorV {
                                        token: operator,
                                        message: msg_unary_number(),
                                    },
                                ),
                                env: r.env,
                            }),
                        }
                    } else if operator.token_type is Bang {
                        EvalR { result: Ok(ValueV::Bool(!spec_truthy(v))), env: r.env }
                    } else {
                        EvalR {
                            result: Err(
                                InterpreterErrorV { token: operator, message: msg_unary_op() },
                            ),
                            env: r.env,
                        }
                    }
                },
                Err(_) => r,
            }
        },
        ExprV::Binary { left, operator, right } => {
            let rl = spec_eval(*left, env);
            match rl.result {
                Ok(a) => {
                    let rr = spec_eval(*right, rl.env);
                    match rr.result {
                        Ok(b) => (EvalR {
                            result: spec_apply_binary(operator, a, b),
                            env: rr.env,
                        }),
                        Err(_) => rr,
                    }
                },
                Err(_) => rl,
            }
        },
    }
}

/// What executing one statement yields: the environment it leaves, and
/// either the line it printed (for a successful `print`) or the runtime
/// error it raised.
pub struct StepR {
    pub env: Map<Seq<char>, ValueV>,
    pub result: Result<Option<Seq<char>>, InterpreterErrorV>,
}

/// One statement: an expression statement discards its value, `print`
/// renders it, and `var` binds the name to the initializer's value (nil
/// when absent).
pub open spec fn spec_exec_stmt(s: StmtV, env: Map<Seq<char>, ValueV>) -> StepR {
    match s {
        StmtV::Expression { expression } => {
            let r = spec_eval(expression, env);
            match r.result {
                Ok(_) => (StepR { env: r.env, result: Ok(None) }),
                Err(e) => (StepR { env: r.env, result: Err(e) }),
            }
        },
        StmtV::Print { expression } => {
            let r = spec_eval(expression, env);
            match r.result {
                Ok(v) => (StepR { env: r.env, result: Ok(Some(spec_display_value(v))) }),
                Err(e) => (StepR { env: r.env, result: Err(e) }),
            }
        },
        StmtV::Var { name, initializer } => match initializer {
            None => (StepR { env: env.insert(name.lexeme, ValueV::Nil), result: Ok(None) }),
            Some(e) => {
                let r = spec_eval(e, env);
                match r.result {
                    Ok(v) => (StepR { env: r.env.insert(name.lexeme, v), result: Ok(None) }),
                    Err(er) => (StepR { env: r.env, result: Err(er) }),
                }
            },
        },
    }
}

/// What the caller observes of one run: printed lines and runtime-error
/// diagnostics, in order.
#[derive(Debug, PartialEq)]
pub enum RunEvent {
    Output(String),
    Error(Diagnostic),
}

/// Spec-level image of `RunEvent`.
pub enum EventV {
    Output(Seq<char>),
    Error(DiagnosticV),
}

impl View for RunEvent {
    type V = EventV;

    open spec fn view(&self) -> EventV {
        match self {
            RunEvent::Output(s) => EventV::Output(s@),
            RunEvent::Error(d) => EventV::Error(d@),
        }
    }
}

impl DeepView for RunEvent {
    type V = EventV;

    open spec fn deep_view(&self) -> EventV {
        self@
    }
}

/// The events one statement contributes: its printed line, or the
/// runtime diagnostic of its error.
pub open spec fn spec_stmt_events(r: Result<Option<Seq<char>>, InterpreterErrorV>) -> Seq<
    EventV,
> {
    match r {
        Ok(None) => seq![],
        Ok(Some(line)) => seq![EventV::Output(line)],
        Err(e) => seq![
            EventV::Error(DiagnosticV::Runtime { token: e.token, message: e.message }),
        ],
    }
}

/// Running a statement sequence: statements run in order; one statement's
/// runtime error is reported as an event and the following statements
/// still run, against the environment the failing one left behind.
pub open spec fn spec_interpret(stmts: Seq<StmtV>, env: Map<Seq<char>, ValueV>) -> (
    Map<Seq<char>, ValueV>,
    Seq<EventV>,
)
    decreases stmts.len(),
{
    if stmts.len() == 0 {
        (env, seq![])
    } else {
        let st = spec_exec_stmt(stmts[0], env);
        let rest = spec_interpret(stmts.subrange(1, stmts.len() as int), st.env);
        (rest.0, spec_stmt_events(st.result) + rest.1)
    }
}

/// The tree-walking evaluator, owning the variable environment. In a
/// session the same interpreter runs line after line, so bindings persist
/// across inputs.
pub struct Interpreter {
    pub environment: Environment,
}

impl Interpreter {
    /// An interpreter over the given environment.
    pub fn new(environment: Environment) -> (r: Interpreter)
        ensures
            r.environment == environment,
    {
        Interpreter { environment }
    }

    /// Evaluates one expression against the current environment.
    fn evaluate(&mut self, expr: &Expr) -> (r: Result<Value, InterpreterError>)
        ensures
            ({
                let er = spec_eval(expr.deep_view(), old(self).environment@);
                &&& final(self).environment@ == er.env
                &&& match r {
                    Ok(v) => er.result == Ok::<ValueV, InterpreterErrorV>(v@),
                    Err(e) => er.result == Err::<ValueV, InterpreterErrorV>(e@),
                }
            }),
        decreases expr,
    {
        match expr {
            Expr::Literal(l) => Ok(Value::from_token_type(&l.value.token_type)),
            Expr::Grouping(g) => self.evaluate(&g.expression),
            Expr::Variable(v) => match self.environment.get_var(&v.name) {
                Ok(value) => Ok(value),
                Err(e) => Err(InterpreterError::from(e)),
            },
            Expr::Assign(a) => {
                let value = match self.evaluate(&a.value) {
                    Ok(v) => v,
                    Err(e) => {
                        return Err(e);
                    },
                };
                match self.environment.assign(a.name.clone(), value.clone()) {
                    Ok(()) => Ok(value),
                    Err(e) => Err(InterpreterError::from(e)),
                }
            },
            Expr::Unary(u) => {
                let right = match self.evaluate(&u.right) {
                    Ok(v) => v,
                    Err(e) => {
                        return Err(e);
                    },
                };
                if matches!(u.operator.token_type, TokenType::Minus) {
                    match right {
                        Value::Num(n) => Ok(Value::Num(n.neg())),
                        _ => Err(
                            InterpreterError {
                                token: u.operator.clone(),
                                message: String::from_str("operand must be a number"),
                            },
                        ),
                    }
                } else if matches!(u.operator.token_type, TokenType::Bang) {
                    Ok(Value::Bool(!is_truthy(&right)))
                } else {
                    Err(
                        InterpreterError {
                            token: u.operator.clone(),
                            message: String::from_str("Unary Operator must be MINUS/BANG."),
                        },
                    )
                }
            },
            Expr::Binary(b) => {
                let left = match self.evaluate(&b.left) {
                    Ok(v) => v,
                    Err(e) => {
                        return Err(e);
                    },
                };
                let right = match self.evaluate(&b.right) {
                    Ok(v) => v,
                    Err(e) => {
                        return Err(e);
                    },
                };
                apply_binary(&b.operator, left, right)
            },
        }
    }

    /// Executes one statement: the printed line of a successful `print`,
    /// or the statement's runtime error.
    fn execute(&mut self, stmt: &Stmt) -> (r: Result<Option<String>, InterpreterError>)
        ensures
            ({
                let st = spec_exec_stmt(stmt@, old(self).environment@);
                &&& final(self).environment@ == st.env
                &&& match r {
                    Ok(None) => st.result == Ok::<Option<Seq<char>>, InterpreterErrorV>(None),
                    Ok(Some(line)) => st.result == Ok::<Option<Seq<char>>, InterpreterErrorV>(
                        Some(line@),
                    ),
                    Err(e) => st.result == Err::<Option<Seq<char>>, InterpreterErrorV>(e@),
                }
            }),
    {
        match stmt {
            Stmt::Expression(s) => match self.evaluate(&s.expression) {
                Ok(_) => Ok(None),
                Err(e) => Err(e),
            },
            Stmt::Print(p) => match self.evaluate(&p.expression) {
                Ok(v) => Ok(Some(v.to_display_string())),
                Err(e) => Err(e),
            },
            Stmt::Var(v) => {
                let value = match &v.initializer {
                    Some(e) => match self.evaluate(e) {
                        Ok(val) => val,
                        Err(err) => {
                            return Err(err);
                        },
                    },
                    None => Value::Nil,
                };
                self.environment.define_var(v.name.lexeme.clone(), value);
                Ok(None)
            },
        }
    }

    /// Runs the statements in order. Every printed line and every runtime
    /// diagnostic comes back as one event, in the order it arose; a
    /// failing statement does not stop the ones after it.
    pub fn interpret(&mut self, stmts: &[Stmt]) -> (events: Vec<RunEvent>)
        ensures
            ({
                let r = spec_interpret(stmts.deep_view(), old(self).environment@);
                &&& final(self).environment@ == r.0
                &&& events.deep_view() == r.1
            }),
    {
        let ghost sts = stmts.deep_view();
        let ghost env0 = self.environment@;
        let mut events: Vec<RunEvent> = Vec::new();
        proof {
            assert(sts.subrange(0, sts.len() as int) =~= sts);
            assert(events.deep_view() =~= Seq::<EventV>::empty());
            assert(events.deep_view() + spec_interpret(sts, env0).1 =~= spec_interpret(
                sts,
                env0,
            ).1);
        }
        let mut i: usize = 0;
        while i < stmts.len()
            invariant
                0 <= i <= sts.len(),
                sts == stmts.deep_view(),
                sts.len() == stmts@.len(),
                spec_interpret(sts, env0).0 == spec_interpret(
                    sts.subrange(i as int, sts.len() as int),
                    self.environment@,
                ).0,
                spec_interpret(sts, env0).1 == events.deep_view() + spec_interpret(
                    sts.subrange(i as int, sts.len() as int),
                    self.environment@,
                ).1,
            decreases sts.len() - i,
        {
            let ghost suffix = sts.subrange(i as int, sts.len() as int);
            let ghost envi = self.environment@;
            let ghost st = spec_exec_stmt(sts[i as int], envi);
            let ghost evs = events.deep_view();
            proof {
                assert(stmts@[i as int]@ == sts[i as int]);
                assert(suffix[0] == sts[i as int]);
                assert(suffix.subrange(1, suffix.len() as int) =~= sts.subrange(
                    i + 1,
                    sts.len() as int,
                ));
            }
            match self.execute(&stmts[i]) {
                Ok(None) => {
                    proof {
                        assert(spec_stmt_events(st.result) =~= Seq::<EventV>::empty());
                        assert(evs + (spec_stmt_events(st.result) + spec_interpret(
                            sts.subrange(i + 1, sts.len() as int),
                            self.environment@,
                        ).1) =~= evs + spec_interpret(
                            sts.subrange(i + 1, sts.len() as int),
                            self.environment@,
                        ).1);
                    }
                },
                Ok(Some(line)) => {
                    let ghost lv = line@;
                    events.push(RunEvent::Output(line));
                    proof {
                        assert(events.deep_view() =~= evs + seq![EventV::Output(lv)]);
                        assert(evs + (spec_stmt_events(st.result) + spec_interpret(
                            sts.subrange(i + 1, sts.len() as int),
                            self.environment@,
                        ).1) =~= (evs + spec_stmt_events(st.result)) + spec_interpret(
                            sts.subrange(i + 1, sts.len() as int),
                            self.environment@,
                        ).1);
                    }
                },
                Err(e) => {
                    let d = runtime_error(&e.token, e.message);
                    let ghost dv = d@;
                    events.push(RunEvent::Error(d));
                    proof {
                        assert(events.deep_view() =~= evs + seq![EventV::Error(dv)]);
                        assert(evs + (spec_stmt_events(st.result) + spec_interpret(
                            sts.subrange(i + 1, sts.len() as int),
                            self.environment@,
                        ).1) =~= (evs + spec_stmt_events(st.result)) + spec_interpret(
                            sts.subrange(i + 1, sts.len() as int),
                            self.environment@,
                        ).1);
                    }
                },
            }
            i += 1;
        }
        proof {
            assert(sts.subrange(sts.len() as int, sts.len() as int) =~= Seq::<StmtV>::empty());
            assert(events.deep_view() + Seq::<EventV>::empty() =~= events.deep_view());
        }
        events
    }
}

/// Law: the number equality tolerance. `==` on two finite numbers yields
/// true exactly when they differ by at most one millionth (1e-6) — a
/// deliberate policy of this language: approximate equality is its
/// equality.
pub proof fn lemma_number_equality_tolerance(op: TokenV, u: Num, v: Num)
    requires
        op.token_type is EqualEqual,
        u is Finite,
        v is Finite,
    ensures
        spec_apply_binary(op, ValueV::Num(u), ValueV::Num(v)) == Ok::<ValueV, InterpreterErrorV>(
            ValueV::Bool(-1 <= crate::num::spec_signed(u) - crate::num::spec_signed(v) <= 1),
        ),
{
}

/// Law: statements are isolated. In a three-statement program whose
/// second statement alone fails at runtime, the first and third still
/// execute (the third against the environment the failure left behind),
/// and exactly one runtime diagnostic is reported — by the second.
pub proof fn lemma_statement_isolation(
    s1: StmtV,
    s2: StmtV,
    s3: StmtV,
    env: Map<Seq<char>, ValueV>,
)
    requires
        spec_exec_stmt(s1, env).result is Ok,
        spec_exec_stmt(s2, spec_exec_stmt(s1, env).env).result is Err,
        spec_exec_stmt(
            s3,
            spec_exec_stmt(s2, spec_exec_stmt(s1, env).env).env,
        ).result is Ok,
    ensures
        ({
            let r1 = spec_exec_stmt(s1, env);
            let r2 = spec_exec_stmt(s2, r1.env);
            let r3 = spec_exec_stmt(s3, r2.env);
            let run = spec_interpret(seq![s1, s2, s3], env);
            &&& run.0 == r3.env
            &&& run.1 == spec_stmt_events(r1.result) + spec_stmt_events(r2.result)
                + spec_stmt_events(r3.result)
            &&& spec_stmt_events(r2.result).len() == 1
            &&& spec_stmt_events(r2.result)[0] is Error
            &&& forall|i: int|
                0 <= i < spec_stmt_events(r1.result).len() ==> !(#[trigger] spec_stmt_events(
                    r1.result,
                )[i] is Error)
            &&& forall|i: int|
                0 <= i < spec_stmt_events(r3.result).len() ==> !(#[trigger] spec_stmt_events(
                    r3.result,
                )[i] is Error)
        }),
{
    let prog = seq![s1, s2, s3];
    let r1 = spec_exec_stmt(s1, env);
    let r2 = spec_exec_stmt(s2, r1.env);
    let r3 = spec_exec_stmt(s3, r2.env);
    assert(prog[0] == s1);
    assert(prog.subrange(1, 3) =~= seq![s2, s3]);
    assert(seq![s2, s3][0] == s2);
    assert(seq![s2, s3].subrange(1, 2) =~= seq![s3]);
    assert(seq![s3][0] == s3);
    assert(seq![s3].subrange(1, 1) =~= Seq::<StmtV>::empty());
    assert(spec_interpret(Seq::<StmtV>::empty(), r3.env).1 =~= Seq::<EventV>::empty());
    assert(spec_interpret(seq![s3], r2.env).0 == r3.env);
    assert(spec_interpret(seq![s3], r2.env).1 =~= spec_stmt_events(r3.result));
    assert(spec_interpret(seq![s2, s3], r1.env).0 == r3.env);
    assert(spec_interpret(seq![s2, s3], r1.env).1 =~= spec_stmt_events(r2.result)
        + spec_stmt_events(r3.result));
    assert(spec_interpret(prog, env).0 == r3.env);
    assert(spec_interpret(prog, env).1 =~= spec_stmt_events(r1.result) + (spec_stmt_events(
        r2.result,
    ) + spec_stmt_events(r3.result)));
    assert(spec_stmt_events(r1.result) + (spec_stmt_events(r2.result) + spec_stmt_events(
        r3.result,
    )) =~= spec_stmt_events(r1.result) + spec_stmt_events(r2.result) + spec_stmt_events(
        r3.result,
    ));
}

/// Applies a binary operator to two evaluated operands.
fn apply_binary(operator: &Token, a: Value, b: Value) -> (r: Result<Value, InterpreterError>)
    ensures
        match r {
            Ok(v) => spec_apply_binary(operator@, a@, b@) == Ok::<ValueV, InterpreterErrorV>(
                v@,
            ),
            Err(e) => spec_apply_binary(operator@, a@, b@) == Err::<ValueV, InterpreterErrorV>(
                e@,
            ),
        },
{
    if matches!(operator.token_type, TokenType::BangEqual) {
        return Ok(Value::Bool(!is_equal(&a, &b)));
    }
    if matches!(operator.token_type, TokenType::EqualEqual) {
        return Ok(Value::Bool(is_equal(&a, &b)));
    }
    match (a, b) {
        (Value::Num(x), Value::Num(y)) => match &operator.token_type {
            TokenType::Minus => Ok(Value::Num(x.sub(y))),
            TokenType::Slash => Ok(Value::Num(x.div(y))),
            TokenType::Star => Ok(Value::Num(x.mul(y))),
            TokenType::Plus => Ok(Value::Num(x.add(y))),
            TokenType::Greater => Ok(Value::Bool(x.gt(y))),
            TokenType::GreaterEqual => Ok(Value::Bool(x.ge(y))),
            TokenType::Less => Ok(Value::Bool(x.lt(y))),
            TokenType::LessEqual => Ok(Value::Bool(x.le(y))),
            _ => Err(
                InterpreterError {
                    token: operator.clone(),
                    message: String::from_str("Operator not supported on type Numbers"),
                },
            ),
        },
        (Value::Str(x), Value::Str(y)) => match &operator.token_type {
            TokenType::Plus => Ok(Value::Str(x.concat(y.as_str()))),
            _ => Err(
                InterpreterError {
                    token: operator.clone(),
                    message: String::from_str("Operator not supported on type Strings"),
                },
            ),
        },
        _ => Err(
            InterpreterError {
                token: operator.clone(),
                message: String::from_str("Invalid operation"),
            },
        ),
    }
}

} // verus!
