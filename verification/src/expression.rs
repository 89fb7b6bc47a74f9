//! The expression data model: the exec expression tree, its mathematical
//! model, the reducibility predicate and the size measure that bounds a run.

use vstd::prelude::*;

verus! {

/// Mathematical model of an expression tree.  Numbers are unbounded
/// integers and names and string literals are sequences of characters.
#[verifier::ext_equal]
pub enum ExprModel {
    Number(int),
    Boolean(bool),
    StringLiteral(Seq<char>),
    DoNothing,
    Variable(Seq<char>),
    Add(Box<ExprModel>, Box<ExprModel>),
    Multiply(Box<ExprModel>, Box<ExprModel>),
    LessThan(Box<ExprModel>, Box<ExprModel>),
    Assign(Seq<char>, Box<ExprModel>),
}

/// An addition node: both operands are exclusively owned sub-expressions.
pub struct Add {
    pub left: Box<Expression>,
    pub right: Box<Expression>,
}

/// A multiplication node.
pub struct Multiply {
    pub left: Box<Expression>,
    pub right: Box<Expression>,
}

/// A numeric comparison node; it reduces to a boolean.
pub struct LessThan {
    pub left: Box<Expression>,
    pub right: Box<Expression>,
}

/// A variable occurrence, reduced by looking the name up in the environment.
pub struct Variable {
    pub name: String,
}

/// An assignment statement: once its value expression is terminal, the
/// binding is committed to the environment.
pub struct Assign {
    pub name: String,
    pub expression: Box<Expression>,
}

/// The closed union of all node kinds.
pub enum Expression {
    Number(i32),
    Boolean(bool),
    StringLiteral(String),
    DoNothing,
    Variable(Variable),
    Add(Add),
    Multiply(Multiply),
    LessThan(LessThan),
    Assign(Assign),
}

impl Expression {
    /// The mathematical value of this tree.
    pub open spec fn model(self) -> ExprModel
        decreases self,
    {
        match self {
            Expression::Number(n) => ExprModel::Number(n as int),
            Expression::Boolean(b) => ExprModel::Boolean(b),
            Expression::StringLiteral(s) => ExprModel::StringLiteral(s@),
            Expression::DoNothing => ExprModel::DoNothing,
            Expression::Variable(v) => ExprModel::Variable(v.name@),
            Expression::Add(a) => ExprModel::Add(
                Box::new(a.left.model()),
                Box::new(a.right.model()),
            ),
            Expression::Multiply(m) => ExprModel::Multiply(
                Box::new(m.left.model()),
                Box::new(m.right.model()),
            ),
            Expression::LessThan(c) => ExprModel::LessThan(
                Box::new(c.left.model()),
                Box::new(c.right.model()),
            ),
            Expression::Assign(a) => ExprModel::Assign(
                a.name@,
                Box::new(a.expression.model()),
            ),
        }
    }
}

impl View for Expression {
    type V = ExprModel;

    open spec fn view(&self) -> ExprModel {
        self.model()
    }
}

impl View for Add {
    type V = ExprModel;

    open spec fn view(&self) -> ExprModel {
        ExprModel::Add(Box::new(self.left.model()), Box::new(self.right.model()))
    }
}

impl View for Multiply {
    type V = ExprModel;

    open spec fn view(&self) -> ExprModel {
        ExprModel::Multiply(Box::new(self.left.model()), Box::new(self.right.model()))
    }
}

impl View for LessThan {
    type V = ExprModel;

    open spec fn view(&self) -> ExprModel {
        ExprModel::LessThan(Box::new(self.left.model()), Box::new(self.right.model()))
    }
}

impl View for Variable {
    type V = ExprModel;

    open spec fn view(&self) -> ExprModel {
        ExprModel::Variable(self.name@)
    }
}

impl View for Assign {
    type V = ExprModel;

    open spec fn view(&self) -> ExprModel {
        ExprModel::Assign(self.name@, Box::new(self.expression.model()))
    }
}

/// Whether a node has at least one pending rewrite.  The terminal kinds
/// (numbers, booleans, string literals and the no-op statement) are fully
/// reduced; every other kind still has work.
pub open spec fn is_reducible_model(e: ExprModel) -> bool {
    match e {
        ExprModel::Number(_) => false,
        ExprModel::Boolean(_) => false,
        ExprModel::StringLiteral(_) => false,
        ExprModel::DoNothing => false,
        ExprModel::Variable(_) => true,
        ExprModel::Add(_, _) => true,
        ExprModel::Multiply(_, _) => true,
        ExprModel::LessThan(_, _) => true,
        ExprModel::Assign(_, _) => true,
    }
}

/// A measure that every reduction step strictly decreases: a variable
/// occurrence and an assignment are charged for the terminal node each
/// leaves behind.
pub open spec fn size(e: ExprModel) -> nat
    decreases e,
{
    match e {
        ExprModel::Number(_) => 1,
        ExprModel::Boolean(_) => 1,
        ExprModel::StringLiteral(_) => 1,
        ExprModel::DoNothing => 1,
        ExprModel::Variable(_) => 2,
        ExprModel::Add(l, r) => 1 + size(*l) + size(*r),
        ExprModel::Multiply(l, r) => 1 + size(*l) + size(*r),
        ExprModel::LessThan(l, r) => 1 + size(*l) + size(*r),
        ExprModel::Assign(_, rhs) => 2 + size(*rhs),
    }
}

impl Expression {
    /// Reducibility check: true exactly when a reduction rule applies.
    pub fn is_reducible(&self) -> (r: bool)
        ensures
            r == is_reducible_model(self@),
    {
        match self {
            Expression::Number(_) => false,
            Expression::Boolean(_) => false,
            Expression::StringLiteral(_) => false,
            Expression::DoNothing => false,
            Expression::Variable(_) => true,
            Expression::Add(_) => true,
            Expression::Multiply(_) => true,
            Expression::LessThan(_) => true,
            Expression::Assign(_) => true,
        }
    }

    /// An independent copy of the tree, equal to the original under the
    /// model.  Later mutation of either copy cannot affect the other.
    pub fn deep_copy(&self) -> (r: Expression)
        ensures
            r@ == self@,
        decreases self,
    {
        match self {
            Expression::Number(n) => Expression::Number(*n),
            Expression::Boolean(b) => Expression::Boolean(*b),
            Expression::StringLiteral(s) => Expression::StringLiteral(s.clone()),
            Expression::DoNothing => Expression::DoNothing,
            Expression::Variable(v) => Expression::Variable(Variable { name: v.name.clone() }),
            Expression::Add(a) => Expression::Add(Add {
                left: Box::new(a.left.deep_copy()),
                right: Box::new(a.right.deep_copy()),
            }),
            Expression::Multiply(m) => Expression::Multiply(Multiply {
                left: Box::new(m.left.deep_copy()),
                right: Box::new(m.right.deep_copy()),
            }),
            Expression::LessThan(c) => Expression::LessThan(LessThan {
                left: Box::new(c.left.deep_copy()),
                right: Box::new(c.right.deep_copy()),
            }),
            Expression::Assign(a) => Expression::Assign(Assign {
                name: a.name.clone(),
                expression: Box::new(a.expression.deep_copy()),
            }),
        }
    }
}

} // verus!
