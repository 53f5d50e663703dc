//! The intermediate representation of a program: its types, tools, prompts, agents and
//! pipelines.
use std::sync::Arc;
use vstd::prelude::*;
use crate::value::Float;

verus! {

/// A type.
#[derive(Debug)]
pub enum TypeIR {
    Bool,
    Int,
    Float,
    String,
    Any,
    Bytes,
    List { element: Box<TypeIR> },
    Dict { key: Box<TypeIR>, value: Box<TypeIR> },
    Option { inner: Box<TypeIR> },
    Result { ok: Box<TypeIR>, err: Box<TypeIR> },
    /// The fields, in the order in which arguments are matched to them.
    Struct { fields: Vec<(String, TypeIR)> },
    Named { name: String },
}

/// A named type and what it stands for.
#[derive(Debug)]
pub struct TypeDefIR {
    pub name: String,
    pub definition: TypeIR,
}

/// A literal.
#[derive(Debug)]
pub enum LiteralIR {
    Int { value: i64 },
    Float { value: Float },
    String { value: String },
    Bool { value: bool },
    Null,
}

/// An expression without effects of its own.
#[derive(Debug)]
pub enum ExprIR {
    Literal { value: LiteralIR },
    Ident { name: String },
    FieldAccess { base: Box<ExprIR>, field: String },
    Binary { left: Box<ExprIR>, op: String, right: Box<ExprIR> },
    Call { function: String, args: Vec<ExprIR> },
    ForeignCall { module: String, function: String, args: Vec<ExprIR> },
}

/// An expression in the body of a tool.
#[derive(Debug)]
pub enum ToolExprIR {
    Ident { name: String },
    FieldAccess { base: Box<ToolExprIR>, field: String },
    Literal { value: LiteralIR },
    Shell { command: String },
    ForeignCall { module: String, function: String, args: Vec<ToolExprIR> },
    ToolCall { tool: String, args: Vec<ToolExprIR> },
    Pipe { left: Box<ToolExprIR>, right: Box<ToolExprIR> },
    If {
        condition: ExprIR,
        then_branch: Box<ToolImplIR>,
        else_branch: Option<Box<ToolImplIR>>,
    },
    Match { scrutinee: Box<ToolExprIR>, arms: Vec<MatchArmIR> },
    For { variable: String, iterable: Box<ToolExprIR>, body: Box<ToolImplIR> },
    While { condition: ExprIR, body: Box<ToolImplIR> },
    Loop { body: Box<ToolImplIR> },
    Break,
    Continue,
    Expr { expr: ExprIR },
}

/// One arm of a match.
#[derive(Debug)]
pub struct MatchArmIR {
    pub pattern: ExprIR,
    pub body: ToolImplIR,
}

/// The body of a tool.
#[derive(Debug)]
pub enum ToolImplIR {
    Expr { expr: ToolExprIR },
    Sequence { statements: Vec<StatementIR> },
    Parallel { statements: Vec<StatementIR> },
}

/// One statement, with the name that its value is bound to.
#[derive(Debug)]
pub struct StatementIR {
    pub binding: Option<String>,
    pub expr: ToolExprIR,
}

/// What is to hold before and after a tool runs.
#[derive(Debug)]
pub struct ToolSpecIR {
    pub preconditions: Vec<Arc<ExprIR>>,
    pub postconditions: Vec<Arc<ExprIR>>,
}

/// A tool.
#[derive(Debug)]
pub struct ToolIR {
    pub name: String,
    pub input: TypeIR,
    pub output: TypeIR,
    pub conditions: Option<ToolSpecIR>,
    pub implementation: Option<ToolImplIR>,
}

/// A text given in place or in a file.
#[derive(Debug)]
pub enum StringOrFileIR {
    Literal { value: String },
    File { path: String },
}

/// A prompt.
#[derive(Debug)]
pub struct PromptIR {
    pub name: String,
    pub input: TypeIR,
    pub output: TypeIR,
    pub system: Option<StringOrFileIR>,
    pub template: StringOrFileIR,
}

/// An agent.
#[derive(Debug)]
pub struct AgentIR {
    pub name: String,
    pub output: TypeIR,
    pub system: StringOrFileIR,
    pub tools: Vec<String>,
    pub max_turns: Option<u64>,
}

/// What one step of a pipeline runs.
#[derive(Debug)]
pub enum PipelineCallIR {
    Prompt { name: String, args: Vec<ToolExprIR> },
    Tool { name: String, args: Vec<ToolExprIR> },
    Expr { expr: ToolExprIR },
}

/// One step of a pipeline, with the name that its value is bound to.
#[derive(Debug)]
pub struct PipelineStepIR {
    pub binding: Option<String>,
    pub call: PipelineCallIR,
}

/// A pipeline.
#[derive(Debug)]
pub struct PipelineIR {
    pub name: String,
    pub output: TypeIR,
    pub steps: Vec<PipelineStepIR>,
}

} // verus!
