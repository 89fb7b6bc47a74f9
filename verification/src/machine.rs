//! The driving state machine: it holds the current expression and the
//! current environment, performs one reduction per step, commits the
//! environment when an assignment completes, and runs to a fixed point
//! collecting the printed trace.

use vstd::prelude::*;
use vstd::string::StringExecFns;
use crate::display::{render, render_env};
use crate::environment::{entries_insert, env_map_of, EntriesModel, EnvModel, Environment};
use crate::expression::{is_reducible_model, size, ExprModel, Expression};
use crate::step::{
    lemma_step_commit_inversion, lemma_step_size, step_fits, step_model, EvalError, Reduction,
    StepModel,
};

verus! {

/// One trace line: the expression, a comma, and the environment.
pub open spec fn line_model(e: ExprModel, entries: EntriesModel) -> Seq<char> {
    render(e) + ", "@ + render_env(entries)
}

/// The entry list after the commit that reducing `e` performs, when `e` is
/// an assignment; any other expression commits nothing.
pub open spec fn committed_entries(e: ExprModel, entries: EntriesModel) -> EntriesModel {
    match e {
        ExprModel::Assign(name, rhs) => entries_insert(entries, name, *rhs),
        _ => entries,
    }
}

/// Whether every combination performed on the way to the fixed point stays
/// within the machine's number range.
pub open spec fn run_fits(e: ExprModel, env: EnvModel) -> bool
    decreases size(e),
{
    is_reducible_model(e) ==> {
        &&& step_fits(e)
        &&& match step_model(e, env) {
            StepModel::Next(e2) => size(e2) < size(e) ==> run_fits(e2, env),
            _ => true,
        }
    }
}

/// Where a run ends: the terminal expression and final environment, or the
/// expression it was stuck at and the error its reduction raised.
pub enum RunModel {
    Finished(ExprModel, EnvModel),
    Failed(ExprModel, EvalError),
}

/// Repeated reduction to a fixed point, as a mathematical function.  The
/// environment is unchanged until an assignment commits, which also halts
/// the run with the no-op expression.
pub open spec fn run_model(e: ExprModel, env: EnvModel) -> RunModel
    decreases size(e),
{
    if !is_reducible_model(e) {
        RunModel::Finished(e, env)
    } else {
        match step_model(e, env) {
            StepModel::Next(e2) => if size(e2) < size(e) {
                run_model(e2, env)
            } else {
                RunModel::Finished(e2, env)
            },
            StepModel::Commit(env2) => RunModel::Finished(ExprModel::DoNothing, env2),
            StepModel::Fail(k) => RunModel::Failed(e, k),
        }
    }
}

/// The trace a run prints: one line per state, ending with the terminal
/// state, or with the stuck state when the next step fails.
pub open spec fn trace_model(e: ExprModel, entries: EntriesModel) -> Seq<Seq<char>>
    decreases size(e),
{
    let line = line_model(e, entries);
    if !is_reducible_model(e) {
        seq![line]
    } else {
        match step_model(e, env_map_of(entries)) {
            StepModel::Next(e2) => if size(e2) < size(e) {
                seq![line] + trace_model(e2, entries)
            } else {
                seq![line]
            },
            StepModel::Commit(_) => seq![
                line,
                line_model(ExprModel::DoNothing, committed_entries(e, entries)),
            ],
            StepModel::Fail(_) => seq![line],
        }
    }
}

/// The views of a sequence of built strings.
pub open spec fn views_of_lines(lines: Seq<String>) -> Seq<Seq<char>> {
    lines.map_values(|s: String| s@)
}

/// The machine: a current expression and a current environment.
pub struct Machine {
    pub expression: Expression,
    pub environment: Environment,
}

impl Machine {
    /// Validity: the environment's names are unique.
    pub open spec fn wf(self) -> bool {
        self.environment.wf()
    }

    /// Exactly one transition: reduce the current expression one step.  A
    /// committed environment replaces the machine's own and leaves the
    /// no-op expression behind; otherwise only the expression changes.  On
    /// failure the machine is left exactly as it was.  Stepping a machine
    /// that has already halted changes nothing: a terminal expression
    /// reduces to itself.
    pub fn step(&mut self) -> (r: Result<(), EvalError>)
        requires
            old(self).wf(),
            step_fits(old(self).expression@),
        ensures
            final(self).wf(),
            match step_model(old(self).expression@, old(self).environment@) {
                StepModel::Next(e2) => r == Ok::<(), EvalError>(())
                    && final(self).expression@ == e2
                    && final(self).environment == old(self).environment,
                StepModel::Commit(m2) => r == Ok::<(), EvalError>(())
                    && final(self).expression@ == ExprModel::DoNothing
                    && final(self).environment@ == m2
                    && final(self).environment.entries() == committed_entries(
                        old(self).expression@,
                        old(self).environment.entries(),
                    ),
                StepModel::Fail(k) => r == Err::<(), EvalError>(k)
                    && *final(self) == *old(self),
            },
    {
        proof {
            lemma_step_commit_inversion(self.expression@, self.environment@);
        }
        match self.expression.reduce(&self.environment) {
            Ok(Reduction::Next(e)) => {
                self.expression = e;
                Ok(())
            }
            Ok(Reduction::Commit(en)) => {
                self.expression = Expression::DoNothing;
                self.environment = en;
                proof {
                    assert(Expression::DoNothing@ == ExprModel::DoNothing);
                }
                Ok(())
            }
            Err(k) => Err(k),
        }
    }

    /// The trace line for the current state.
    fn render_line(&self) -> (s: String)
        ensures
            s@ == line_model(self.expression@, self.environment.entries()),
    {
        let mut s = self.expression.to_display_string();
        s.append(", ");
        s.append(self.environment.render().as_str());
        s
    }

    /// Step to a fixed point, collecting one trace line per state and one
    /// for the final state.  A failed reduction aborts the run: the trace
    /// then ends with the stuck state, which the machine still holds.
    pub fn run(&mut self) -> (r: (Vec<String>, Result<(), EvalError>))
        requires
            old(self).wf(),
            run_fits(old(self).expression@, old(self).environment@),
        ensures
            final(self).wf(),
            views_of_lines(r.0@) == trace_model(
                old(self).expression@,
                old(self).environment.entries(),
            ),
            match run_model(old(self).expression@, old(self).environment@) {
                RunModel::Finished(e2, m2) => r.1 == Ok::<(), EvalError>(())
                    && final(self).expression@ == e2
                    && final(self).environment@ == m2,
                RunModel::Failed(es, k) => r.1 == Err::<(), EvalError>(k)
                    && final(self).expression@ == es
                    && final(self).environment == old(self).environment,
            },
    {
        let mut lines: Vec<String> = Vec::new();
        while self.expression.is_reducible()
            invariant
                self.wf(),
                run_fits(self.expression@, self.environment@),
                run_model(old(self).expression@, old(self).environment@)
                    == run_model(self.expression@, self.environment@),
                is_reducible_model(self.expression@)
                    ==> self.environment == old(self).environment,
                trace_model(old(self).expression@, old(self).environment.entries())
                    =~= views_of_lines(lines@) + trace_model(
                        self.expression@,
                        self.environment.entries(),
                    ),
            decreases size(self.expression@),
        {
            let line = self.render_line();
            lines.push(line);
            proof {
                lemma_step_size(self.expression@, self.environment@);
                lemma_step_commit_inversion(self.expression@, self.environment@);
                assert(views_of_lines(lines@)
                    =~= views_of_lines(lines@.drop_last()).push(lines@.last()@));
            }
            match self.step() {
                Ok(()) => {}
                Err(k) => {
                    return (lines, Err(k));
                }
            }
        }
        let line = self.render_line();
        lines.push(line);
        proof {
            assert(views_of_lines(lines@)
                =~= views_of_lines(lines@.drop_last()).push(lines@.last()@));
        }
        (lines, Ok(()))
    }
}

} // verus!
