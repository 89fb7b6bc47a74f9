use smallstep::environment::Environment;
use smallstep::expression::{Add, Assign, Expression, LessThan, Multiply, Variable};
use smallstep::machine::Machine;
use smallstep::step::EvalError;

fn num(n: i32) -> Expression {
    Expression::Number(n)
}

fn plus(l: Expression, r: Expression) -> Expression {
    Expression::Add(Add {
        left: Box::new(l),
        right: Box::new(r),
    })
}

fn times(l: Expression, r: Expression) -> Expression {
    Expression::Multiply(Multiply {
        left: Box::new(l),
        right: Box::new(r),
    })
}

fn less(l: Expression, r: Expression) -> Expression {
    Expression::LessThan(LessThan {
        left: Box::new(l),
        right: Box::new(r),
    })
}

fn var(name: &str) -> Expression {
    Expression::Variable(Variable {
        name: name.to_string(),
    })
}

fn assign(name: &str, value: Expression) -> Expression {
    Expression::Assign(Assign {
        name: name.to_string(),
        expression: Box::new(value),
    })
}

#[test]
fn step_reduces_sum_of_numbers() {
    let mut machine = Machine {
        expression: plus(num(1), num(2)),
        environment: Environment::new(),
    };
    assert_eq!(machine.step(), Ok(()));
    assert!(matches!(machine.expression, Expression::Number(3)));
}

#[test]
fn step_is_deterministic_on_equal_inputs() {
    let mut first = Machine {
        expression: plus(num(1), times(num(2), num(3))),
        environment: Environment::new(),
    };
    let mut second = Machine {
        expression: plus(num(1), times(num(2), num(3))),
        environment: Environment::new(),
    };
    assert_eq!(first.step(), second.step());
    assert_eq!(
        first.expression.to_display_string(),
        second.expression.to_display_string()
    );
}

#[test]
fn arithmetic_runs_to_standard_evaluation() {
    let mut machine = Machine {
        expression: plus(num(5), times(num(4), num(4))),
        environment: Environment::new(),
    };
    let (trace, result) = machine.run();
    assert_eq!(result, Ok(()));
    assert!(matches!(machine.expression, Expression::Number(21)));
    assert_eq!(trace.len(), 3);
}

#[test]
fn comparison_reduces_to_false() {
    let a = plus(num(5), times(num(4), num(4)));
    let c = plus(num(5), plus(num(5), num(6)));
    let mut machine = Machine {
        expression: less(a, c),
        environment: Environment::new(),
    };
    let (_, result) = machine.run();
    assert_eq!(result, Ok(()));
    assert!(matches!(machine.expression, Expression::Boolean(false)));
}

#[test]
fn comparison_reduces_to_true() {
    let mut machine = Machine {
        expression: less(num(5), num(9)),
        environment: Environment::new(),
    };
    let (_, result) = machine.run();
    assert_eq!(result, Ok(()));
    assert!(matches!(machine.expression, Expression::Boolean(true)));
}

#[test]
fn first_step_reduces_left_operand_only() {
    let mut machine = Machine {
        expression: plus(plus(num(1), num(2)), plus(num(3), num(4))),
        environment: Environment::new(),
    };
    assert_eq!(machine.step(), Ok(()));
    match &machine.expression {
        Expression::Add(node) => {
            assert!(matches!(*node.left, Expression::Number(3)));
            match &*node.right {
                Expression::Add(right) => {
                    assert!(matches!(*right.left, Expression::Number(3)));
                    assert!(matches!(*right.right, Expression::Number(4)));
                }
                other => panic!("right operand was rewritten: {}", other.to_display_string()),
            }
        }
        other => panic!("unexpected expression: {}", other.to_display_string()),
    }
}

#[test]
fn variable_reduces_to_stored_value_in_one_step() {
    let mut environment = Environment::new();
    environment.insert("x".to_string(), num(3));
    let mut machine = Machine {
        expression: var("x"),
        environment,
    };
    assert_eq!(machine.step(), Ok(()));
    assert!(matches!(machine.expression, Expression::Number(3)));
}

#[test]
fn undefined_variable_aborts() {
    let mut machine = Machine {
        expression: var("x"),
        environment: Environment::new(),
    };
    assert_eq!(machine.step(), Err(EvalError::UndefinedVariable));
    assert!(matches!(machine.expression, Expression::Variable(_)));
}

#[test]
fn assignment_commits_incremented_binding() {
    let mut environment = Environment::new();
    environment.insert("x".to_string(), num(2));
    environment.insert("y".to_string(), num(7));
    let mut machine = Machine {
        expression: assign("x", plus(var("x"), num(1))),
        environment,
    };
    let (_, result) = machine.run();
    assert_eq!(result, Ok(()));
    assert_eq!(machine.expression.to_display_string(), "do-nothing");
    match machine.environment.lookup(&"x".to_string()) {
        Some(Expression::Number(3)) => {}
        _ => panic!("x was not rebound to 3"),
    }
    match machine.environment.lookup(&"y".to_string()) {
        Some(Expression::Number(7)) => {}
        _ => panic!("unrelated binding y changed"),
    }
}

#[test]
fn terminal_expression_steps_to_itself() {
    let mut machine = Machine {
        expression: num(5),
        environment: Environment::new(),
    };
    assert_eq!(machine.step(), Ok(()));
    assert!(matches!(machine.expression, Expression::Number(5)));
    assert_eq!(machine.step(), Ok(()));
    assert!(matches!(machine.expression, Expression::Number(5)));
}

#[test]
fn terminal_run_prints_single_line() {
    let mut machine = Machine {
        expression: num(5),
        environment: Environment::new(),
    };
    let (trace, result) = machine.run();
    assert_eq!(result, Ok(()));
    assert_eq!(trace, vec!["5, {}".to_string()]);
}

#[test]
fn adding_a_boolean_is_a_type_mismatch() {
    let mut machine = Machine {
        expression: plus(num(1), Expression::Boolean(true)),
        environment: Environment::new(),
    };
    assert_eq!(machine.step(), Err(EvalError::TypeMismatch));
}

#[test]
fn stored_boolean_lookup_is_a_type_mismatch() {
    let mut environment = Environment::new();
    environment.insert("b".to_string(), Expression::Boolean(true));
    let mut machine = Machine {
        expression: var("b"),
        environment,
    };
    assert_eq!(machine.step(), Err(EvalError::TypeMismatch));
}

#[test]
fn failed_run_keeps_stuck_state() {
    let mut environment = Environment::new();
    environment.insert("x".to_string(), num(2));
    let mut machine = Machine {
        expression: plus(var("x"), var("missing")),
        environment,
    };
    let (trace, result) = machine.run();
    assert_eq!(result, Err(EvalError::UndefinedVariable));
    assert_eq!(trace.len(), 2);
    assert_eq!(machine.expression.to_display_string(), "2 + missing");
    match machine.environment.lookup(&"x".to_string()) {
        Some(Expression::Number(2)) => {}
        _ => panic!("environment changed on a failed run"),
    }
}

#[test]
fn assignment_completed_in_operand_position_is_discarded() {
    let mut machine = Machine {
        expression: plus(assign("x", num(1)), num(2)),
        environment: Environment::new(),
    };
    assert_eq!(machine.step(), Ok(()));
    match &machine.expression {
        Expression::Add(node) => {
            assert!(matches!(*node.left, Expression::DoNothing));
        }
        other => panic!("unexpected expression: {}", other.to_display_string()),
    }
    match machine.environment.lookup(&"x".to_string()) {
        None => {}
        Some(_) => panic!("nested statement commit leaked into the machine"),
    }
    assert_eq!(machine.step(), Err(EvalError::TypeMismatch));
}

#[test]
fn variable_copy_is_independent_of_later_mutation() {
    let mut environment = Environment::new();
    environment.insert("x".to_string(), num(3));
    let mut machine = Machine {
        expression: var("x"),
        environment,
    };
    assert_eq!(machine.step(), Ok(()));
    machine
        .environment
        .insert("x".to_string(), num(9));
    assert!(matches!(machine.expression, Expression::Number(3)));
}

#[test]
fn stored_string_literal_reduces_to_copy() {
    let mut environment = Environment::new();
    environment.insert(
        "s".to_string(),
        Expression::StringLiteral("hello".to_string()),
    );
    let mut machine = Machine {
        expression: var("s"),
        environment,
    };
    assert_eq!(machine.step(), Ok(()));
    match &machine.expression {
        Expression::StringLiteral(text) => assert_eq!(text, "hello"),
        _ => panic!("stored string literal did not come back"),
    }
}

#[test]
fn reducibility_of_each_kind() {
    assert!(!num(0).is_reducible());
    assert!(!Expression::Boolean(true).is_reducible());
    assert!(!Expression::StringLiteral("s".to_string()).is_reducible());
    assert!(!Expression::DoNothing.is_reducible());
    assert!(var("x").is_reducible());
    assert!(plus(num(1), num(2)).is_reducible());
    assert!(times(num(1), num(2)).is_reducible());
    assert!(less(num(1), num(2)).is_reducible());
    assert!(assign("x", num(1)).is_reducible());
}

#[test]
fn environment_insert_overwrites_existing_binding() {
    let mut environment = Environment::new();
    environment.insert("x".to_string(), num(1));
    environment.insert("x".to_string(), num(2));
    match environment.lookup(&"x".to_string()) {
        Some(Expression::Number(2)) => {}
        _ => panic!("second insert did not overwrite"),
    }
}

#[test]
fn environment_lookup_missing_name_is_none() {
    let environment = Environment::new();
    assert!(environment.lookup(&"x".to_string()).is_none());
}
