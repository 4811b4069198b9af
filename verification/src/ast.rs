//! The abstract syntax tree of the guest language.
//!
//! Number literals carry the IEEE-754 binary64 bit pattern of their value;
//! see [`crate::num`].

use vstd::prelude::*;

use crate::text::str_eq;

verus! {

#[derive(Debug, Clone, PartialEq, Eq, Structural)]
pub enum Operation {
    Add,
    Sub,
    Mul,
    Div,
    Mod,
    And,
    Or,
    Gt,
    Gte,
    Lt,
    Lte,
    Eq,
    Ne,
}

impl Operation {
    /// The operator written `s` in source text; anything unrecognized reads
    /// as addition.
    pub open spec fn spec_from(s: Seq<char>) -> Operation {
        if s == "+"@ {
            Operation::Add
        } else if s == "-"@ {
            Operation::Sub
        } else if s == "*"@ {
            Operation::Mul
        } else if s == "/"@ {
            Operation::Div
        } else if s == "%"@ {
            Operation::Mod
        } else if s == "&&"@ {
            Operation::And
        } else if s == "||"@ {
            Operation::Or
        } else if s == "<"@ {
            Operation::Lt
        } else if s == "<="@ {
            Operation::Lte
        } else if s == ">"@ {
            Operation::Gt
        } else if s == ">="@ {
            Operation::Gte
        } else if s == "=="@ || s == "==="@ {
            Operation::Eq
        } else if s == "!="@ || s == "!=="@ {
            Operation::Ne
        } else {
            Operation::Add
        }
    }

    pub fn from(ch: &str) -> (r: Operation)
        ensures
            r == Operation::spec_from(ch@),
    {
        if str_eq(ch, "+") {
            Operation::Add
        } else if str_eq(ch, "-") {
            Operation::Sub
        } else if str_eq(ch, "*") {
            Operation::Mul
        } else if str_eq(ch, "/") {
            Operation::Div
        } else if str_eq(ch, "%") {
            Operation::Mod
        } else if str_eq(ch, "&&") {
            Operation::And
        } else if str_eq(ch, "||") {
            Operation::Or
        } else if str_eq(ch, "<") {
            Operation::Lt
        } else if str_eq(ch, "<=") {
            Operation::Lte
        } else if str_eq(ch, ">") {
            Operation::Gt
        } else if str_eq(ch, ">=") {
            Operation::Gte
        } else if str_eq(ch, "==") || str_eq(ch, "===") {
            Operation::Eq
        } else if str_eq(ch, "!=") || str_eq(ch, "!==") {
            Operation::Ne
        } else {
            Operation::Add
        }
    }

    /// The operator a compound assignment applies before storing; a neutral
    /// assignment has none, and reads here as a placeholder.
    pub open spec fn spec_of_assign(op: AssignOperation) -> Operation {
        match op {
            AssignOperation::Add => Operation::Add,
            AssignOperation::Sub => Operation::Sub,
            AssignOperation::Mul => Operation::Mul,
            AssignOperation::Div => Operation::Div,
            AssignOperation::Mod => Operation::Mod,
            AssignOperation::Neutral => Operation::Or,
        }
    }

    pub fn of_assign(op: &AssignOperation) -> (r: Operation)
        ensures
            r == Operation::spec_of_assign(*op),
    {
        match op {
            AssignOperation::Add => Operation::Add,
            AssignOperation::Sub => Operation::Sub,
            AssignOperation::Mul => Operation::Mul,
            AssignOperation::Div => Operation::Div,
            AssignOperation::Mod => Operation::Mod,
            AssignOperation::Neutral => Operation::Or,
        }
    }
}

#[derive(Debug, Clone, PartialEq, Eq, Structural)]
pub enum AssignOperation {
    Neutral,
    Add,
    Sub,
    Mul,
    Div,
    Mod,
}

impl AssignOperation {
    /// The assignment operator written `s`; anything unrecognized reads as a
    /// neutral assignment.
    pub open spec fn spec_from(s: Seq<char>) -> AssignOperation {
        if s == "+="@ {
            AssignOperation::Add
        } else if s == "-="@ {
            AssignOperation::Sub
        } else if s == "*="@ {
            AssignOperation::Mul
        } else if s == "/="@ {
            AssignOperation::Div
        } else if s == "%="@ {
            AssignOperation::Mod
        } else {
            AssignOperation::Neutral
        }
    }

    pub fn from(ch: &str) -> (r: AssignOperation)
        ensures
            r == AssignOperation::spec_from(ch@),
    {
        if str_eq(ch, "+=") {
            AssignOperation::Add
        } else if str_eq(ch, "-=") {
            AssignOperation::Sub
        } else if str_eq(ch, "*=") {
            AssignOperation::Mul
        } else if str_eq(ch, "/=") {
            AssignOperation::Div
        } else if str_eq(ch, "%=") {
            AssignOperation::Mod
        } else {
            AssignOperation::Neutral
        }
    }
}

#[derive(Debug, Clone)]
pub enum TsType {
    Any,
    Number,
    String,
    Boolean,
    Null,
    Custom(String),
}

impl TsType {
    /// The type annotation written `s` reads as `r`; an unknown name is a
    /// custom type of that name.
    pub open spec fn spec_from(s: Seq<char>, r: TsType) -> bool {
        if s == "any"@ {
            r is Any
        } else if s == "number"@ {
            r is Number
        } else if s == "string"@ {
            r is String
        } else if s == "boolean"@ {
            r is Boolean
        } else if s == "null"@ {
            r is Null
        } else {
            r matches TsType::Custom(name) && name@ == s
        }
    }

    pub fn from(s: &str) -> (r: TsType)
        ensures
            TsType::spec_from(s@, r),
    {
        if str_eq(s, "any") {
            TsType::Any
        } else if str_eq(s, "number") {
            TsType::Number
        } else if str_eq(s, "string") {
            TsType::String
        } else if str_eq(s, "boolean") {
            TsType::Boolean
        } else if str_eq(s, "null") {
            TsType::Null
        } else {
            TsType::Custom(String::from_str(s))
        }
    }
}

#[derive(Debug, Clone)]
pub enum ImportAlias {
    Plain { name: String },
    Alias { name: String, alias: String },
}

#[derive(Debug, Clone)]
pub enum Import {
    Normal { path: String },
    From { names: Vec<ImportAlias>, path: String },
}

#[derive(Debug)]
pub enum Value {
    /// The IEEE-754 binary64 bit pattern of a number literal.
    Number(u64),
    String(String),
    Identifier(Vec<String>),
    Boolean(bool),
    Array(Vec<Value>),
    Call { identifier: Vec<String>, args: Vec<Value> },
    Null,
    Undefined,
    Expression { left: Box<Value>, op: Operation, right: Box<Value> },
    Assign { identifier: String, op: AssignOperation, value: Box<Value> },
}

#[derive(Debug)]
pub struct ElseIf {
    pub expr: Value,
    pub block: Vec<Statement>,
}

#[derive(Debug)]
pub struct IfElse {
    pub expr: Value,
    pub block: Vec<Statement>,
    pub elseifs: Vec<ElseIf>,
    pub els: Vec<Statement>,
}

#[derive(Debug)]
pub struct Case {
    pub expr: Value,
    pub block: Vec<Statement>,
}

#[derive(Debug)]
pub struct Switch {
    pub value: Value,
    pub branches: Vec<Case>,
    pub default: Option<Vec<Statement>>,
}

#[derive(Debug)]
pub enum Loop {
    While { cond: Value, block: Vec<Statement> },
    For { init: Vec<Statement>, cond: Value, after: Value, block: Vec<Statement> },
    ForOf { name: String, value: Value, block: Vec<Statement> },
    ForIn { name: String, value: Value, block: Vec<Statement> },
}

#[derive(Debug)]
pub struct Param {
    pub name: String,
    pub kinds: Vec<TsType>,
    pub default: Option<Value>,
}

#[derive(Debug)]
pub struct Function {
    pub name: Option<String>,
    pub template_args: Vec<(String, Vec<TsType>)>,
    pub is_async: bool,
    pub params: Vec<Param>,
    pub returns: Vec<TsType>,
    pub block: Vec<Statement>,
}

#[derive(Debug)]
pub struct TryCatch {
    pub try_block: Vec<Statement>,
    pub catch_name: String,
    pub catch_block: Vec<Statement>,
}

#[derive(Debug)]
pub struct Class {
    pub name: String,
    pub extends: Option<String>,
    pub implements: Vec<String>,
    pub attributes: Vec<Param>,
    pub methods: Vec<Function>,
    pub template_args: Vec<(String, Vec<TsType>)>,
}

#[derive(Debug)]
pub struct Interface {
    pub name: String,
    pub extends: Option<String>,
    pub attributes: Vec<Param>,
    pub methods: Vec<Function>,
}

#[derive(Debug)]
pub struct TypeBlock {
    pub attributes: Vec<Param>,
}

#[derive(Debug)]
pub struct TypeDefinition {
    pub name: String,
    pub blocks: Vec<TypeBlock>,
    pub aggregates: Vec<String>,
}

#[derive(Debug)]
pub enum Statement {
    Const { name: String, value: Value },
    Let { name: String, value: Value },
    Expression(Value),
    If(IfElse),
    Switch(Switch),
    Loop(Loop),
    Return(Value),
    Function(Function),
    TryCatch(TryCatch),
    Throw(Value),
    Class(Class),
    Interface(Interface),
    Type(TypeDefinition),
}

#[derive(Debug)]
pub struct Module {
    pub exports: Vec<(String, Value)>,
    pub imports: Vec<Import>,
    pub statements: Vec<Statement>,
}

impl Module {
    pub fn new() -> (r: Module)
        ensures
            r.exports@ =~= Seq::<(String, Value)>::empty(),
            r.imports@ =~= Seq::<Import>::empty(),
            r.statements@ =~= Seq::<Statement>::empty(),
    {
        Module { exports: Vec::new(), imports: Vec::new(), statements: Vec::new() }
    }
}

} // verus!
