use vstd::prelude::*;
use vstd::string::*;
use std::sync::Arc;
use crate::value::Value;

verus! {

/// A compile-wide toggle. The core carries flags and does not read them.
#[derive(Clone, Copy, Debug, PartialEq, Eq, Structural)]
pub enum Flag {
    DisablePtrs,
    EnableSizeWarn,
}

/// Reads the variable of the given name.
#[derive(Clone, Debug, PartialEq)]
pub struct Load(pub String);

impl Load {
    pub fn new(name: &str) -> (load: Load)
        ensures
            load.0@ == name@,
    {
        Load(String::from_str(name))
    }
}

/// A constant of the source text.
#[derive(Clone, Debug, PartialEq)]
pub enum Literal {
    String(String),
    Character(char),
    ByteInt(u8),
    Unsigned4ByteInt(u32),
}

impl Literal {
    pub fn string(s: &str) -> (literal: Literal)
        ensures
            literal matches Literal::String(t) && t@ == s@,
    {
        Literal::String(String::from_str(s))
    }

    pub fn character(ch: char) -> (literal: Literal)
        ensures
            literal == Literal::Character(ch),
    {
        Literal::Character(ch)
    }

    pub fn byte_int(b: u8) -> (literal: Literal)
        ensures
            literal == Literal::ByteInt(b),
    {
        Literal::ByteInt(b)
    }

    pub fn unsigned_4byte_int(ui: u32) -> (literal: Literal)
        ensures
            literal == Literal::Unsigned4ByteInt(ui),
    {
        Literal::Unsigned4ByteInt(ui)
    }
}

/// Calls the function of the given name on the given arguments.
#[derive(Debug, PartialEq)]
pub struct Call(pub String, pub Vec<Eval>);

impl Call {
    pub fn new(name: &str, args: Vec<Eval>) -> (call: Call)
        ensures
            call.0@ == name@,
            call.1 == args,
    {
        Call(String::from_str(name), args)
    }
}

/// Reads through the reference that the inner expression yields.
#[derive(Debug, PartialEq)]
pub struct Deref(pub Arc<Eval>);

impl Deref {
    pub fn new(refer: Eval) -> (deref: Deref)
        ensures
            *deref.0 == refer,
    {
        Deref(Arc::new(refer))
    }
}

/// Takes a reference to what the inner expression yields.
#[derive(Debug, PartialEq)]
pub struct Refer(pub Arc<Eval>);

impl Refer {
    pub fn new(var: Eval) -> (refer: Refer)
        ensures
            *refer.0 == var,
    {
        Refer(Arc::new(var))
    }
}

/// An expression: lowering it yields a value.
#[derive(Debug, PartialEq)]
pub enum Eval {
    Load(Load),
    Literal(Literal),
    Call(Call),
    Deref(Deref),
    Refer(Refer),
    Value(Value),
}

/// Hands the value of the expression to the caller.
#[derive(Debug, PartialEq)]
pub struct Return(pub Eval);

impl Return {
    pub fn new(val: Eval) -> (ret: Return)
        ensures
            ret.0 == val,
    {
        Return(val)
    }
}

/// Binds a name of the current scope to a copy of the expression's value.
#[derive(Debug, PartialEq)]
pub struct Define(pub String, pub Eval);

impl Define {
    pub fn new(var: &str, value: Eval) -> (define: Define)
        ensures
            define.0@ == var@,
            define.1 == value,
    {
        Define(String::from_str(var), value)
    }
}

/// Overwrites the storage that the first expression denotes from the second.
#[derive(Debug, PartialEq)]
pub struct Assign(pub Eval, pub Eval);

impl Assign {
    pub fn new(lhs: Eval, rhs: Eval) -> (assign: Assign)
        ensures
            assign.0 == lhs,
            assign.1 == rhs,
    {
        Assign(lhs, rhs)
    }
}

/// A conditional: a condition, the statements under it, and the statements
/// of an else branch, which is carried and never compiled.
#[derive(Debug, PartialEq)]
pub struct If(pub Eval, pub Vec<Expr>, pub Vec<Expr>);

impl If {
    pub fn new(condition: Eval, then: Vec<Expr>, otherwise: Vec<Expr>) -> (branch: If)
        ensures
            branch.0 == condition,
            branch.1 == then,
            branch.2 == otherwise,
    {
        If(condition, then, otherwise)
    }
}

/// A loop: a condition and the statements of its body.
#[derive(Debug, PartialEq)]
pub struct While(pub Eval, pub Vec<Expr>);

impl While {
    pub fn new(condition: Eval, then: Vec<Expr>) -> (repeat: While)
        ensures
            repeat.0 == condition,
            repeat.1 == then,
    {
        While(condition, then)
    }
}

/// A statement: compiling it acts on the current scope and the machine.
#[derive(Debug, PartialEq)]
pub enum Expr {
    If(If),
    While(While),
    Eval(Eval),
    Define(Define),
    Assign(Assign),
    Return(Return),
}

/// A function of the language: a name, parameter names and a body.
#[derive(Debug, PartialEq)]
pub struct UserFn {
    pub name: String,
    pub parameters: Vec<String>,
    pub body: Vec<Expr>,
}

impl UserFn {
    pub fn new(name: &str, parameters: Vec<String>, body: Vec<Expr>) -> (function: UserFn)
        ensures
            function.name@ == name@,
            function.parameters == parameters,
            function.body == body,
    {
        UserFn { name: String::from_str(name), parameters, body }
    }
}

/// A parsed program: its flags and its functions.
#[derive(Debug, PartialEq)]
pub struct Program(pub Vec<Flag>, pub Vec<UserFn>);

impl Program {
    pub fn new(flags: Vec<Flag>, funs: Vec<UserFn>) -> (program: Program)
        ensures
            program.0 == flags,
            program.1 == funs,
    {
        Program(flags, funs)
    }
}

} // verus!
