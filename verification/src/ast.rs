use vstd::prelude::*;
use codespan::Span;

verus! {

/// The semantic types of the source language.
#[derive(Debug)]
pub enum Type {
    /// The 32-bit integer.
    I32,
    Bool,
    String,
    Void,
    /// A pointer to a value of the given type.
    Pointer(Box<Type>),
    /// A pointer to untyped memory.
    RawPtr,
    /// The type of what was not resolved.
    Unknown,
}

/// The binary operators.
#[derive(Clone, Copy, Debug)]
pub enum BinOp {
    Add,
    Sub,
    Mul,
    Div,
    Gt,
    Eq,
}

/// An expression. Every node carries its source span and its semantic type
/// (`Type::Unknown` where none was resolved).
#[derive(Debug)]
pub enum Expr {
    /// An integer literal.
    Int(i64, Span, Type),
    /// A string literal, without its quotes.
    Str(String, Span, Type),
    /// A reference to a variable by its name.
    Var(String, Span, Type),
    BinOp(Box<Expr>, BinOp, Box<Expr>, Span, Type),
    /// The assignment of the second expression to the first.
    Assign(Box<Expr>, Box<Expr>, Span, Type),
    /// A call of the function of the given name.
    Call(String, Vec<Expr>, Span, Type),
    /// A call of the built-in operation of the given reserved name.
    IntrinsicCall(String, Vec<Expr>, Span, Type),
    /// The request to print a value.
    Print(Box<Expr>, Span, Type),
    /// A scoped block: statements, among which deferred actions may stand.
    SafeBlock(Vec<Stmt>, Span, Type),
    /// What a pointer points to.
    Deref(Box<Expr>, Span, Type),
    /// The cast of a value to the given type.
    Cast(Box<Expr>, Type, Span, Type),
    /// A kind of expression that earlier stages accept and that has no
    /// lowering.
    Other(Span, Type),
}

/// A statement.
#[derive(Debug)]
pub enum Stmt {
    /// The declaration of a variable: name, declared type if any, and
    /// initializer.
    Let(String, Option<Type>, Expr, Span),
    Return(Expr, Span),
    /// An expression in the place of a statement.
    Expr(Expr, Span),
    /// A loop: condition and body.
    While(Expr, Vec<Stmt>, Span),
    /// A loop: initializer, condition and increment, each optional, and
    /// body.
    For(Option<Box<Stmt>>, Option<Expr>, Option<Expr>, Vec<Stmt>, Span),
    /// An action to run when the scoped block that holds it ends.
    Defer(Expr, Span),
}

/// A function definition.
#[derive(Debug)]
pub struct Function {
    pub name: String,
    pub params: Vec<(String, Type)>,
    pub return_type: Type,
    pub body: Vec<Stmt>,
}

/// A whole program: its top-level statements, in order, and its functions.
#[derive(Debug)]
pub struct Program {
    pub stmts: Vec<Stmt>,
    pub functions: Vec<Function>,
}

impl Type {
    /// Whether the type is a pointer, typed or raw.
    pub open spec fn spec_is_pointer(&self) -> bool {
        self is Pointer || self is RawPtr
    }

    #[verifier::when_used_as_spec(spec_is_pointer)]
    pub fn is_pointer(&self) -> (r: bool)
        ensures
            r == self.spec_is_pointer(),
    {
        match self {
            Type::Pointer(_) => true,
            Type::RawPtr => true,
            _ => false,
        }
    }
}

impl Expr {
    /// The source span of the node.
    pub open spec fn spec_span(&self) -> Span {
        match *self {
            Expr::Int(_, span, _) => span,
            Expr::Str(_, span, _) => span,
            Expr::Var(_, span, _) => span,
            Expr::BinOp(_, _, _, span, _) => span,
            Expr::Assign(_, _, span, _) => span,
            Expr::Call(_, _, span, _) => span,
            Expr::IntrinsicCall(_, _, span, _) => span,
            Expr::Print(_, span, _) => span,
            Expr::SafeBlock(_, span, _) => span,
            Expr::Deref(_, span, _) => span,
            Expr::Cast(_, _, span, _) => span,
            Expr::Other(span, _) => span,
        }
    }

    #[verifier::when_used_as_spec(spec_span)]
    pub fn span(&self) -> (r: Span)
        ensures
            r == self.spec_span(),
    {
        match self {
            Expr::Int(_, span, _) => *span,
            Expr::Str(_, span, _) => *span,
            Expr::Var(_, span, _) => *span,
            Expr::BinOp(_, _, _, span, _) => *span,
            Expr::Assign(_, _, span, _) => *span,
            Expr::Call(_, _, span, _) => *span,
            Expr::IntrinsicCall(_, _, span, _) => *span,
            Expr::Print(_, span, _) => *span,
            Expr::SafeBlock(_, span, _) => *span,
            Expr::Deref(_, span, _) => *span,
            Expr::Cast(_, _, span, _) => *span,
            Expr::Other(span, _) => *span,
        }
    }

    /// The semantic type attached to the node.
    pub open spec fn spec_get_type(&self) -> Type {
        match *self {
            Expr::Int(_, _, ty) => ty,
            Expr::Str(_, _, ty) => ty,
            Expr::Var(_, _, ty) => ty,
            Expr::BinOp(_, _, _, _, ty) => ty,
            Expr::Assign(_, _, _, ty) => ty,
            Expr::Call(_, _, _, ty) => ty,
            Expr::IntrinsicCall(_, _, _, ty) => ty,
            Expr::Print(_, _, ty) => ty,
            Expr::SafeBlock(_, _, ty) => ty,
            Expr::Deref(_, _, ty) => ty,
            Expr::Cast(_, _, _, ty) => ty,
            Expr::Other(_, ty) => ty,
        }
    }

    pub fn get_type(&self) -> (r: &Type)
        ensures
            *r == self.spec_get_type(),
    {
        match self {
            Expr::Int(_, _, ty) => ty,
            Expr::Str(_, _, ty) => ty,
            Expr::Var(_, _, ty) => ty,
            Expr::BinOp(_, _, _, _, ty) => ty,
            Expr::Assign(_, _, _, ty) => ty,
            Expr::Call(_, _, _, ty) => ty,
            Expr::IntrinsicCall(_, _, _, ty) => ty,
            Expr::Print(_, _, ty) => ty,
            Expr::SafeBlock(_, _, ty) => ty,
            Expr::Deref(_, _, ty) => ty,
            Expr::Cast(_, _, _, ty) => ty,
            Expr::Other(_, ty) => ty,
        }
    }
}

} // verus!
