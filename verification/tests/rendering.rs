use smallstep::environment::Environment;
use smallstep::expression::{Add, Assign, Expression, LessThan, Multiply, Variable};
use smallstep::machine::Machine;

fn num(n: i32) -> Expression {
    Expression::Number(n)
}

fn plus(l: Expression, r: Expression) -> Expression {
    Expression::Add(Add {
        left: Box::new(l),
        right: Box::new(r),
    })
}

fn times(l: Expression, r: Expression) -> Expression {
    Expression::Multiply(Multiply {
        left: Box::new(l),
        right: Box::new(r),
    })
}

#[test]
fn numbers_render_in_decimal() {
    assert_eq!(num(0).to_display_string(), "0");
    assert_eq!(num(5).to_display_string(), "5");
    assert_eq!(num(4096).to_display_string(), "4096");
    assert_eq!(num(-17).to_display_string(), "-17");
    assert_eq!(num(i32::MAX).to_display_string(), "2147483647");
    assert_eq!(num(i32::MIN).to_display_string(), "-2147483648");
}

#[test]
fn booleans_render_as_words() {
    assert_eq!(Expression::Boolean(true).to_display_string(), "true");
    assert_eq!(Expression::Boolean(false).to_display_string(), "false");
}

#[test]
fn string_literal_renders_as_its_text() {
    let e = Expression::StringLiteral("hello world".to_string());
    assert_eq!(e.to_display_string(), "hello world");
}

#[test]
fn do_nothing_renders_with_hyphen() {
    assert_eq!(Expression::DoNothing.to_display_string(), "do-nothing");
}

#[test]
fn variable_renders_as_its_name() {
    let e = Expression::Variable(Variable {
        name: "counter".to_string(),
    });
    assert_eq!(e.to_display_string(), "counter");
}

#[test]
fn operators_render_infix() {
    let sum = plus(num(5), times(num(4), num(4)));
    assert_eq!(sum.to_display_string(), "5 + 4 * 4");
    let cmp = Expression::LessThan(LessThan {
        left: Box::new(num(1)),
        right: Box::new(num(2)),
    });
    assert_eq!(cmp.to_display_string(), "1 < 2");
}

#[test]
fn assignment_renders_name_equals_value() {
    let e = Expression::Assign(Assign {
        name: "x".to_string(),
        expression: Box::new(plus(
            Expression::Variable(Variable {
                name: "x".to_string(),
            }),
            num(1),
        )),
    });
    assert_eq!(e.to_display_string(), "x = x + 1");
}

#[test]
fn empty_environment_renders_as_braces() {
    let environment = Environment::new();
    assert_eq!(environment.render(), "{}");
}

#[test]
fn environment_renders_entries_in_insertion_order() {
    let mut environment = Environment::new();
    environment.insert("x".to_string(), num(2));
    environment.insert("y".to_string(), num(7));
    assert_eq!(environment.render(), "{x: 2, y: 7}");
}

#[test]
fn arithmetic_trace_lines() {
    let mut machine = Machine {
        expression: plus(num(5), times(num(4), num(4))),
        environment: Environment::new(),
    };
    let (trace, result) = machine.run();
    assert_eq!(result, Ok(()));
    assert_eq!(
        trace,
        vec![
            "5 + 4 * 4, {}".to_string(),
            "5 + 16, {}".to_string(),
            "21, {}".to_string(),
        ]
    );
}

#[test]
fn assignment_trace_shows_commit() {
    let mut environment = Environment::new();
    environment.insert("x".to_string(), num(2));
    let mut machine = Machine {
        expression: Expression::Assign(Assign {
            name: "x".to_string(),
            expression: Box::new(plus(
                Expression::Variable(Variable {
                    name: "x".to_string(),
                }),
                num(1),
            )),
        }),
        environment,
    };
    let (trace, result) = machine.run();
    assert_eq!(result, Ok(()));
    assert_eq!(
        trace,
        vec![
            "x = x + 1, {x: 2}".to_string(),
            "x = 2 + 1, {x: 2}".to_string(),
            "x = 3, {x: 2}".to_string(),
            "do-nothing, {x: 3}".to_string(),
        ]
    );
}
