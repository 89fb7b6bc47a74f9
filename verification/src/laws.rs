//! General laws of the reduction relation, proved once and for all
//! expressions and environments.

use vstd::prelude::*;
use crate::environment::EnvModel;
use crate::expression::{is_reducible_model, size, ExprModel};
use crate::machine::{run_model, RunModel};
use crate::step::{lemma_size_pos, step_model, StepModel};

verus! {

/// Determinism: a step is a function of the expression and the environment
/// alone, so equal inputs give exactly one, equal, outcome — and repeating
/// a step on the same input repeats its output.
pub proof fn lemma_step_deterministic(
    e1: ExprModel,
    env1: EnvModel,
    e2: ExprModel,
    env2: EnvModel,
)
    requires
        e1 == e2,
        env1 == env2,
    ensures
        step_model(e1, env1) == step_model(e2, env2),
{
}

/// A tree built only from numbers, additions and multiplications.
pub open spec fn arithmetic_only(e: ExprModel) -> bool
    decreases e,
{
    match e {
        ExprModel::Number(_) => true,
        ExprModel::Add(l, r) => arithmetic_only(*l) && arithmetic_only(*r),
        ExprModel::Multiply(l, r) => arithmetic_only(*l) && arithmetic_only(*r),
        _ => false,
    }
}

/// The standard integer evaluation of an arithmetic tree.
pub open spec fn eval_arithmetic(e: ExprModel) -> int
    decreases e,
{
    match e {
        ExprModel::Number(n) => n,
        ExprModel::Add(l, r) => eval_arithmetic(*l) + eval_arithmetic(*r),
        ExprModel::Multiply(l, r) => eval_arithmetic(*l) * eval_arithmetic(*r),
        _ => 0,
    }
}

/// A terminal arithmetic tree is a single number, of size one, evaluating
/// to that number.
proof fn lemma_arithmetic_operand(e: ExprModel)
    requires
        arithmetic_only(e),
        !is_reducible_model(e),
    ensures
        e matches ExprModel::Number(x) && eval_arithmetic(e) == x && size(e) == 1,
{
}

/// One step of a reducible arithmetic tree rewrites it to a smaller
/// arithmetic tree with the same integer value.
proof fn lemma_arithmetic_step(e: ExprModel, env: EnvModel)
    requires
        arithmetic_only(e),
        is_reducible_model(e),
    ensures
        step_model(e, env) matches StepModel::Next(e2)
            && arithmetic_only(e2)
            && eval_arithmetic(e2) == eval_arithmetic(e)
            && size(e2) < size(e),
    decreases e,
{
    match e {
        ExprModel::Add(l, r) => {
            if is_reducible_model(*l) {
                lemma_arithmetic_step(*l, env);
            } else if is_reducible_model(*r) {
                lemma_arithmetic_step(*r, env);
            } else {
                assert(arithmetic_only(*l) && arithmetic_only(*r));
                assert(eval_arithmetic(*l) + eval_arithmetic(*r) == eval_arithmetic(e));
                lemma_arithmetic_operand(*l);
                lemma_arithmetic_operand(*r);
            }
        }
        ExprModel::Multiply(l, r) => {
            if is_reducible_model(*l) {
                lemma_arithmetic_step(*l, env);
            } else if is_reducible_model(*r) {
                lemma_arithmetic_step(*r, env);
            } else {
                assert(arithmetic_only(*l) && arithmetic_only(*r));
                assert(eval_arithmetic(*l) * eval_arithmetic(*r) == eval_arithmetic(e));
                lemma_arithmetic_operand(*l);
                lemma_arithmetic_operand(*r);
            }
        }
        _ => {}
    }
}

/// Arithmetic correctness: iterating the reduction of a tree built only
/// from numbers, additions and multiplications reaches a fixed point, and
/// that fixed point is the single number the standard integer evaluation
/// of the tree gives, with the environment untouched.
pub proof fn lemma_arithmetic_reduction(e: ExprModel, env: EnvModel)
    requires
        arithmetic_only(e),
    ensures
        run_model(e, env) == RunModel::Finished(ExprModel::Number(eval_arithmetic(e)), env),
    decreases size(e),
{
    if is_reducible_model(e) {
        lemma_arithmetic_step(e, env);
        let e2 = choose|e2: ExprModel| step_model(e, env) == StepModel::Next(e2);
        lemma_arithmetic_reduction(e2, env);
    }
}

/// Left-to-right order: while the left operand of an addition is still
/// reducible, one step rewrites the left operand only, and the right
/// operand is carried over untouched, whatever it is.
pub proof fn lemma_left_to_right(l: ExprModel, r: ExprModel, env: EnvModel)
    requires
        is_reducible_model(l),
        is_reducible_model(r),
    ensures
        match step_model(l, env) {
            StepModel::Next(l2) => step_model(ExprModel::Add(Box::new(l), Box::new(r)), env)
                == StepModel::Next(ExprModel::Add(Box::new(l2), Box::new(r))),
            StepModel::Commit(_) => step_model(ExprModel::Add(Box::new(l), Box::new(r)), env)
                == StepModel::Next(
                    ExprModel::Add(Box::new(ExprModel::DoNothing), Box::new(r)),
                ),
            StepModel::Fail(k) => step_model(ExprModel::Add(Box::new(l), Box::new(r)), env)
                == StepModel::Fail(k),
        },
{
}

/// Assignment commit: once the value expression of an assignment is
/// terminal, the one step left commits exactly that binding.  The bound
/// name maps to the value, and every other binding is exactly as it was.
pub proof fn lemma_assign_commit(name: Seq<char>, value: ExprModel, env: EnvModel)
    requires
        !is_reducible_model(value),
    ensures
        step_model(ExprModel::Assign(name, Box::new(value)), env)
            == StepModel::Commit(env.insert(name, value)),
        env.insert(name, value)[name] == value,
        forall|k: Seq<char>| k != name ==> (
            env.insert(name, value).dom().contains(k) == env.dom().contains(k)
            && (env.dom().contains(k) ==> env.insert(name, value)[k] == env[k])
        ),
{
}

/// Idempotence at the terminal: a terminal expression reduces to itself,
/// and a run from it is already at its fixed point, so further reduction
/// changes nothing.
pub proof fn lemma_terminal_fixed_point(e: ExprModel, env: EnvModel)
    requires
        !is_reducible_model(e),
    ensures
        step_model(e, env) == StepModel::Next(e),
        run_model(e, env) == RunModel::Finished(e, env),
{
}

} // verus!
