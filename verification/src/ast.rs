//! Statement and expression forms handed over by the parser.
//!
//! The evaluator trusts this tree to be syntactically well formed; every
//! remaining check (names, arities, operand types) happens at evaluation
//! time.

use std::rc::Rc;
use vstd::prelude::*;

verus! {

/// A literal as it appears in source text.
#[derive(Debug)]
pub enum Lit {
    Nil,
    Bool(bool),
    Num(i64),
    Str(String),
}

/// Unary operator.
#[derive(Clone, Copy, Debug)]
pub enum UnOp {
    Neg,
    Not,
}

/// Binary operator.
#[derive(Clone, Copy, Debug)]
pub enum BinOp {
    Add,
    Sub,
    Mul,
    Div,
    Eq,
    Ne,
    Lt,
    Le,
    Gt,
    Ge,
}

/// An expression; evaluating one yields a runtime value or an error.
#[derive(Debug)]
pub enum Expr {
    Literal(Lit),
    Variable(String),
    Assign(String, Box<Expr>),
    Binary(BinOp, Box<Expr>, Box<Expr>),
    Unary(UnOp, Box<Expr>),
    Call(Box<Expr>, Vec<Expr>),
    Grouping(Box<Expr>),
}

/// A statement; executing one changes the scope frames and the output.
///
/// A function declaration carries its parameter list and body behind `Rc`
/// so that the function value created at declaration time shares them
/// instead of copying the tree.
#[derive(Debug)]
pub enum Stmt {
    Expression(Expr),
    Print(Expr),
    Var(String, Option<Expr>),
    Block(Vec<Stmt>),
    If(Expr, Box<Stmt>, Option<Box<Stmt>>),
    While(Expr, Box<Stmt>),
    Function(String, Rc<Vec<String>>, Rc<Vec<Stmt>>),
    Return(Option<Expr>),
}

} // verus!
