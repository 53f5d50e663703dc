//! A verified interpreter for scaffold programs: tools, prompts, agents and pipelines.
//!
//! A run is a function of the program and of the replies that its host has given so far; see
//! [`session`] for how the two talk, and [`replay`] for why a run can be taken up again.
pub mod agent;
pub mod chat;
pub mod completions;
pub mod dict;
pub mod error;
pub mod executor;
pub mod expr;
pub mod fence;
pub mod fuel;
pub mod ir;
pub mod json;
pub mod jsonl;
pub mod laws;
pub mod llm;
pub mod number;
pub mod pipeline;
pub mod prompt;
pub mod replay;
pub mod run;
pub mod schema;
pub mod session;
pub mod shell;
pub mod text;
pub mod trace;
pub mod value;
