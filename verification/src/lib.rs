//! The verified core of agent-m, a coding agent for the terminal.
pub mod agent;
pub mod ai;
pub mod cli;
pub mod dup;
pub mod flow;
pub mod indexed;
pub mod json;
pub mod mcp;
pub mod paths;
pub mod sorted;
pub mod text;
pub mod texts;
