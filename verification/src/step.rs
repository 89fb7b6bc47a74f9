//! The per-node-kind reduction rules: one small step of rewriting, specified
//! by `step_model` and implemented by the `reduce` methods.

use vstd::prelude::*;
use crate::environment::{entries_insert, EnvModel, Environment};
use crate::expression::{
    is_reducible_model, size, Add, Assign, ExprModel, Expression, LessThan, Multiply, Variable,
};

verus! {

/// The fatal failure conditions of a reduction.  Once one is raised the
/// machine no longer advances.
#[derive(Clone, Copy, Debug, PartialEq, Eq, Structural)]
pub enum EvalError {
    /// A variable name was absent from the environment at lookup time.
    UndefinedVariable,
    /// Arithmetic or comparison operands were terminal but not both numbers,
    /// or a stored value was neither a number nor a string literal.
    TypeMismatch,
}

/// What a successful reduction step hands back: either the rewritten
/// expression, or — when an assignment has fully evaluated its value — the
/// new environment to commit, the expression having become the no-op.
pub enum Reduction {
    Next(Expression),
    Commit(Environment),
}

/// The model of a reduction step's outcome.
pub enum StepModel {
    Next(ExprModel),
    Commit(EnvModel),
    Fail(EvalError),
}

/// One small step of rewriting, as a mathematical function: the rules of
/// the reduction relation.
///
/// Terminal kinds reduce to themselves.  The binary kinds reduce their left
/// operand to completion before touching the right one, then combine two
/// numbers; any other terminal operands are a type mismatch.  A variable
/// becomes a copy of its stored value.  An assignment reduces its value
/// expression, then commits the binding.  A statement that completes in
/// operand position leaves its no-op behind and its environment is
/// discarded: only the machine, at top level, commits.
pub open spec fn step_model(e: ExprModel, env: EnvModel) -> StepModel
    decreases e,
{
    match e {
        ExprModel::Number(_) => StepModel::Next(e),
        ExprModel::Boolean(_) => StepModel::Next(e),
        ExprModel::StringLiteral(_) => StepModel::Next(e),
        ExprModel::DoNothing => StepModel::Next(e),
        ExprModel::Variable(name) => {
            if env.dom().contains(name) {
                match env[name] {
                    ExprModel::Number(_) => StepModel::Next(env[name]),
                    ExprModel::StringLiteral(_) => StepModel::Next(env[name]),
                    _ => StepModel::Fail(EvalError::TypeMismatch),
                }
            } else {
                StepModel::Fail(EvalError::UndefinedVariable)
            }
        }
        ExprModel::Add(l, r) => {
            if is_reducible_model(*l) {
                match step_model(*l, env) {
                    StepModel::Next(l2) => StepModel::Next(ExprModel::Add(Box::new(l2), r)),
                    StepModel::Commit(_) => StepModel::Next(
                        ExprModel::Add(Box::new(ExprModel::DoNothing), r),
                    ),
                    StepModel::Fail(k) => StepModel::Fail(k),
                }
            } else if is_reducible_model(*r) {
                match step_model(*r, env) {
                    StepModel::Next(r2) => StepModel::Next(ExprModel::Add(l, Box::new(r2))),
                    StepModel::Commit(_) => StepModel::Next(
                        ExprModel::Add(l, Box::new(ExprModel::DoNothing)),
                    ),
                    StepModel::Fail(k) => StepModel::Fail(k),
                }
            } else {
                match (*l, *r) {
                    (ExprModel::Number(x), ExprModel::Number(y)) => StepModel::Next(
                        ExprModel::Number(x + y),
                    ),
                    _ => StepModel::Fail(EvalError::TypeMismatch),
                }
            }
        }
        ExprModel::Multiply(l, r) => {
            if is_reducible_model(*l) {
                match step_model(*l, env) {
                    StepModel::Next(l2) => StepModel::Next(ExprModel::Multiply(Box::new(l2), r)),
                    StepModel::Commit(_) => StepModel::Next(
                        ExprModel::Multiply(Box::new(ExprModel::DoNothing), r),
                    ),
                    StepModel::Fail(k) => StepModel::Fail(k),
                }
            } else if is_reducible_model(*r) {
                match step_model(*r, env) {
                    StepModel::Next(r2) => StepModel::Next(ExprModel::Multiply(l, Box::new(r2))),
                    StepModel::Commit(_) => StepModel::Next(
                        ExprModel::Multiply(l, Box::new(ExprModel::DoNothing)),
                    ),
                    StepModel::Fail(k) => StepModel::Fail(k),
                }
            } else {
                match (*l, *r) {
                    (ExprModel::Number(x), ExprModel::Number(y)) => StepModel::Next(
                        ExprModel::Number(x * y),
                    ),
                    _ => StepModel::Fail(EvalError::TypeMismatch),
                }
            }
        }
        ExprModel::LessThan(l, r) => {
            if is_reducible_model(*l) {
                match step_model(*l, env) {
                    StepModel::Next(l2) => StepModel::Next(ExprModel::LessThan(Box::new(l2), r)),
                    StepModel::Commit(_) => StepModel::Next(
                        ExprModel::LessThan(Box::new(ExprModel::DoNothing), r),
                    ),
                    StepModel::Fail(k) => StepModel::Fail(k),
                }
            } else if is_reducible_model(*r) {
                match step_model(*r, env) {
                    StepModel::Next(r2) => StepModel::Next(ExprModel::LessThan(l, Box::new(r2))),
                    StepModel::Commit(_) => StepModel::Next(
                        ExprModel::LessThan(l, Box::new(ExprModel::DoNothing)),
                    ),
                    StepModel::Fail(k) => StepModel::Fail(k),
                }
            } else {
                match (*l, *r) {
                    (ExprModel::Number(x), ExprModel::Number(y)) => StepModel::Next(
                        ExprModel::Boolean(x < y),
                    ),
                    _ => StepModel::Fail(EvalError::TypeMismatch),
                }
            }
        }
        ExprModel::Assign(name, rhs) => {
            if is_reducible_model(*rhs) {
                match step_model(*rhs, env) {
                    StepModel::Next(r2) => StepModel::Next(
                        ExprModel::Assign(name, Box::new(r2)),
                    ),
                    StepModel::Commit(_) => StepModel::Next(
                        ExprModel::Assign(name, Box::new(ExprModel::DoNothing)),
                    ),
                    StepModel::Fail(k) => StepModel::Fail(k),
                }
            } else {
                StepModel::Commit(env.insert(name, *rhs))
            }
        }
    }
}

/// Whether the one combination this step performs, if any, stays within the
/// machine's number range.  Reduction rules never read numbers from the
/// environment that were not stored as machine numbers, so this depends on
/// the expression alone.
pub open spec fn step_fits(e: ExprModel) -> bool
    decreases e,
{
    match e {
        ExprModel::Add(l, r) => {
            if is_reducible_model(*l) {
                step_fits(*l)
            } else if is_reducible_model(*r) {
                step_fits(*r)
            } else {
                match (*l, *r) {
                    (ExprModel::Number(x), ExprModel::Number(y)) =>
                        i32::MIN <= x + y <= i32::MAX,
                    _ => true,
                }
            }
        }
        ExprModel::Multiply(l, r) => {
            if is_reducible_model(*l) {
                step_fits(*l)
            } else if is_reducible_model(*r) {
                step_fits(*r)
            } else {
                match (*l, *r) {
                    (ExprModel::Number(x), ExprModel::Number(y)) =>
                        i32::MIN <= x * y <= i32::MAX,
                    _ => true,
                }
            }
        }
        ExprModel::LessThan(l, r) => {
            if is_reducible_model(*l) {
                step_fits(*l)
            } else {
                step_fits(*r)
            }
        }
        ExprModel::Assign(_, rhs) => step_fits(*rhs),
        _ => true,
    }
}

/// How an executed reduction relates to the model of the step.
pub open spec fn reduction_matches(r: Result<Reduction, EvalError>, m: StepModel) -> bool {
    match m {
        StepModel::Next(e2) => r matches Ok(Reduction::Next(e)) && e@ == e2,
        StepModel::Commit(env2) => r matches Ok(Reduction::Commit(en)) && en.wf() && en@ == env2,
        StepModel::Fail(k) => r matches Err(k2) && k2 == k,
    }
}

/// Every expression has positive size.
pub proof fn lemma_size_pos(e: ExprModel)
    ensures
        size(e) >= 1,
    decreases e,
{
    match e {
        ExprModel::Add(l, r) => { lemma_size_pos(*l); lemma_size_pos(*r); }
        ExprModel::Multiply(l, r) => { lemma_size_pos(*l); lemma_size_pos(*r); }
        ExprModel::LessThan(l, r) => { lemma_size_pos(*l); lemma_size_pos(*r); }
        ExprModel::Assign(_, rhs) => { lemma_size_pos(*rhs); }
        _ => {}
    }
}

/// Every reducible expression has size at least two: each rewrite has room
/// to shrink.
pub proof fn lemma_reducible_size(e: ExprModel)
    requires
        is_reducible_model(e),
    ensures
        size(e) >= 2,
{
    match e {
        ExprModel::Add(l, r) => { lemma_size_pos(*l); lemma_size_pos(*r); }
        ExprModel::Multiply(l, r) => { lemma_size_pos(*l); lemma_size_pos(*r); }
        ExprModel::LessThan(l, r) => { lemma_size_pos(*l); lemma_size_pos(*r); }
        ExprModel::Assign(_, rhs) => { lemma_size_pos(*rhs); }
        _ => {}
    }
}

/// A step that rewrites a reducible expression strictly shrinks it, so a
/// run reaches a fixed point.
pub proof fn lemma_step_size(e: ExprModel, env: EnvModel)
    requires
        is_reducible_model(e),
    ensures
        step_model(e, env) matches StepModel::Next(e2) ==> size(e2) < size(e),
    decreases e,
{
    match e {
        ExprModel::Add(l, r) => {
            assert(size(ExprModel::DoNothing) == 1);
            if is_reducible_model(*l) {
                lemma_step_size(*l, env);
                lemma_reducible_size(*l);
            } else if is_reducible_model(*r) {
                lemma_step_size(*r, env);
                lemma_reducible_size(*r);
            } else {
                lemma_size_pos(*l);
                lemma_size_pos(*r);
            }
        }
        ExprModel::Multiply(l, r) => {
            assert(size(ExprModel::DoNothing) == 1);
            if is_reducible_model(*l) {
                lemma_step_size(*l, env);
                lemma_reducible_size(*l);
            } else if is_reducible_model(*r) {
                lemma_step_size(*r, env);
                lemma_reducible_size(*r);
            } else {
                lemma_size_pos(*l);
                lemma_size_pos(*r);
            }
        }
        ExprModel::LessThan(l, r) => {
            assert(size(ExprModel::DoNothing) == 1);
            if is_reducible_model(*l) {
                lemma_step_size(*l, env);
                lemma_reducible_size(*l);
            } else if is_reducible_model(*r) {
                lemma_step_size(*r, env);
                lemma_reducible_size(*r);
            } else {
                lemma_size_pos(*l);
                lemma_size_pos(*r);
            }
        }
        ExprModel::Assign(_, rhs) => {
            assert(size(ExprModel::DoNothing) == 1);
            if is_reducible_model(*rhs) {
                lemma_step_size(*rhs, env);
                lemma_reducible_size(*rhs);
            }
        }
        _ => {}
    }
}

/// A step commits an environment only when the whole expression is an
/// assignment whose value is terminal, and then it commits exactly the
/// insertion of that binding.
pub proof fn lemma_step_commit_inversion(e: ExprModel, env: EnvModel)
    ensures
        step_model(e, env) matches StepModel::Commit(env2) ==> (
            e matches ExprModel::Assign(name, rhs)
            && !is_reducible_model(*rhs)
            && env2 == env.insert(name, *rhs)
        ),
{
}

impl Variable {
    /// Look the name up; a copy of the stored number or string literal
    /// replaces the variable.  An absent name or a stored value of any
    /// other kind is fatal.
    pub fn reduce(&self, environment: &Environment) -> (r: Result<Reduction, EvalError>)
        requires
            environment.wf(),
        ensures
            reduction_matches(r, step_model(self@, environment@)),
    {
        match environment.lookup(&self.name) {
            None => Err(EvalError::UndefinedVariable),
            Some(v) => match v {
                Expression::Number(n) => Ok(Reduction::Next(Expression::Number(*n))),
                Expression::StringLiteral(s) => Ok(
                    Reduction::Next(Expression::StringLiteral(s.clone())),
                ),
                _ => Err(EvalError::TypeMismatch),
            },
        }
    }
}

impl Expression {
    /// One reduction step of this expression under the given environment.
    /// Terminal expressions reduce to themselves.
    pub fn reduce(&self, environment: &Environment) -> (r: Result<Reduction, EvalError>)
        requires
            environment.wf(),
            step_fits(self@),
        ensures
            reduction_matches(r, step_model(self@, environment@)),
            (match self@ {
                ExprModel::Assign(name, rhs) => !is_reducible_model(*rhs) ==> (match r {
                    Ok(Reduction::Commit(en)) => en.entries() == entries_insert(
                        environment.entries(), name, *rhs,
                    ),
                    _ => false,
                }),
                _ => true,
            }),
        decreases self,
    {
        match self {
            Expression::Add(x) => x.reduce(environment),
            Expression::Multiply(x) => x.reduce(environment),
            Expression::LessThan(x) => x.reduce(environment),
            Expression::Variable(x) => x.reduce(environment),
            Expression::Assign(x) => x.reduce(environment),
            _ => Ok(Reduction::Next(self.deep_copy())),
        }
    }
}

impl Add {
    /// Left-to-right, call-by-value: reduce the left operand to a terminal,
    /// then the right one, then add two numbers.
    pub fn reduce(&self, environment: &Environment) -> (r: Result<Reduction, EvalError>)
        requires
            environment.wf(),
            step_fits(self@),
        ensures
            reduction_matches(r, step_model(self@, environment@)),
        decreases self,
    {
        if self.left.is_reducible() {
            match self.left.reduce(environment) {
                Ok(Reduction::Next(l2)) => Ok(Reduction::Next(Expression::Add(Add {
                    left: Box::new(l2),
                    right: Box::new(self.right.deep_copy()),
                }))),
                Ok(Reduction::Commit(_)) => {
                    proof {
                        assert(Expression::DoNothing@ == ExprModel::DoNothing);
                    }
                    Ok(Reduction::Next(Expression::Add(Add {
                        left: Box::new(Expression::DoNothing),
                        right: Box::new(self.right.deep_copy()),
                    })))
                }
                Err(k) => Err(k),
            }
        } else if self.right.is_reducible() {
            match self.right.reduce(environment) {
                Ok(Reduction::Next(r2)) => Ok(Reduction::Next(Expression::Add(Add {
                    left: Box::new(self.left.deep_copy()),
                    right: Box::new(r2),
                }))),
                Ok(Reduction::Commit(_)) => {
                    proof {
                        assert(Expression::DoNothing@ == ExprModel::DoNothing);
                    }
                    Ok(Reduction::Next(Expression::Add(Add {
                        left: Box::new(self.left.deep_copy()),
                        right: Box::new(Expression::DoNothing),
                    })))
                }
                Err(k) => Err(k),
            }
        } else {
            match (&*self.left, &*self.right) {
                (Expression::Number(x), Expression::Number(y)) => Ok(
                    Reduction::Next(Expression::Number(*x + *y)),
                ),
                _ => Err(EvalError::TypeMismatch),
            }
        }
    }
}

impl Multiply {
    /// Left-to-right, call-by-value: reduce the left operand to a terminal,
    /// then the right one, then multiply two numbers.
    pub fn reduce(&self, environment: &Environment) -> (r: Result<Reduction, EvalError>)
        requires
            environment.wf(),
            step_fits(self@),
        ensures
            reduction_matches(r, step_model(self@, environment@)),
        decreases self,
    {
        if self.left.is_reducible() {
            match self.left.reduce(environment) {
                Ok(Reduction::Next(l2)) => Ok(Reduction::Next(Expression::Multiply(Multiply {
                    left: Box::new(l2),
                    right: Box::new(self.right.deep_copy()),
                }))),
                Ok(Reduction::Commit(_)) => {
                    proof {
                        assert(Expression::DoNothing@ == ExprModel::DoNothing);
                    }
                    Ok(Reduction::Next(Expression::Multiply(Multiply {
                        left: Box::new(Expression::DoNothing),
                        right: Box::new(self.right.deep_copy()),
                    })))
                }
                Err(k) => Err(k),
            }
        } else if self.right.is_reducible() {
            match self.right.reduce(environment) {
                Ok(Reduction::Next(r2)) => Ok(Reduction::Next(Expression::Multiply(Multiply {
                    left: Box::new(self.left.deep_copy()),
                    right: Box::new(r2),
                }))),
                Ok(Reduction::Commit(_)) => {
                    proof {
                        assert(Expression::DoNothing@ == ExprModel::DoNothing);
                    }
                    Ok(Reduction::Next(Expression::Multiply(Multiply {
                        left: Box::new(self.left.deep_copy()),
                        right: Box::new(Expression::DoNothing),
                    })))
                }
                Err(k) => Err(k),
            }
        } else {
            match (&*self.left, &*self.right) {
                (Expression::Number(x), Expression::Number(y)) => Ok(
                    Reduction::Next(Expression::Number(*x * *y)),
                ),
                _ => Err(EvalError::TypeMismatch),
            }
        }
    }
}

impl LessThan {
    /// Left-to-right, call-by-value: reduce both operands to terminals,
    /// then compare two numbers, yielding a boolean.
    pub fn reduce(&self, environment: &Environment) -> (r: Result<Reduction, EvalError>)
        requires
            environment.wf(),
            step_fits(self@),
        ensures
            reduction_matches(r, step_model(self@, environment@)),
        decreases self,
    {
        if self.left.is_reducible() {
            match self.left.reduce(environment) {
                Ok(Reduction::Next(l2)) => Ok(Reduction::Next(Expression::LessThan(LessThan {
                    left: Box::new(l2),
                    right: Box::new(self.right.deep_copy()),
                }))),
                Ok(Reduction::Commit(_)) => {
                    proof {
                        assert(Expression::DoNothing@ == ExprModel::DoNothing);
                    }
                    Ok(Reduction::Next(Expression::LessThan(LessThan {
                        left: Box::new(Expression::DoNothing),
                        right: Box::new(self.right.deep_copy()),
                    })))
                }
                Err(k) => Err(k),
            }
        } else if self.right.is_reducible() {
            match self.right.reduce(environment) {
                Ok(Reduction::Next(r2)) => Ok(Reduction::Next(Expression::LessThan(LessThan {
                    left: Box::new(self.left.deep_copy()),
                    right: Box::new(r2),
                }))),
                Ok(Reduction::Commit(_)) => {
                    proof {
                        assert(Expression::DoNothing@ == ExprModel::DoNothing);
                    }
                    Ok(Reduction::Next(Expression::LessThan(LessThan {
                        left: Box::new(self.left.deep_copy()),
                        right: Box::new(Expression::DoNothing),
                    })))
                }
                Err(k) => Err(k),
            }
        } else {
            match (&*self.left, &*self.right) {
                (Expression::Number(x), Expression::Number(y)) => Ok(
                    Reduction::Next(Expression::Boolean(*x < *y)),
                ),
                _ => Err(EvalError::TypeMismatch),
            }
        }
    }
}

impl Assign {
    /// Reduce the value expression under the current environment; once it
    /// is terminal, hand back the environment with the binding committed.
    pub fn reduce(&self, environment: &Environment) -> (r: Result<Reduction, EvalError>)
        requires
            environment.wf(),
            step_fits(self@),
        ensures
            reduction_matches(r, step_model(self@, environment@)),
            !is_reducible_model(self.expression@) ==> (match r {
                Ok(Reduction::Commit(en)) => en.entries() == entries_insert(
                    environment.entries(), self.name@, self.expression@,
                ),
                _ => false,
            }),
        decreases self,
    {
        if self.expression.is_reducible() {
            match self.expression.reduce(environment) {
                Ok(Reduction::Next(e2)) => Ok(Reduction::Next(Expression::Assign(Assign {
                    name: self.name.clone(),
                    expression: Box::new(e2),
                }))),
                Ok(Reduction::Commit(_)) => {
                    proof {
                        assert(Expression::DoNothing@ == ExprModel::DoNothing);
                    }
                    Ok(Reduction::Next(Expression::Assign(Assign {
                        name: self.name.clone(),
                        expression: Box::new(Expression::DoNothing),
                    })))
                }
                Err(k) => Err(k),
            }
        } else {
            let mut committed = environment.duplicate();
            committed.insert(self.name.clone(), self.expression.deep_copy());
            Ok(Reduction::Commit(committed))
        }
    }
}

} // verus!
