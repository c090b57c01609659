//! The agent loop: its conversation, its guards and its prompts.

pub mod aftermath;
pub mod calls;
pub mod contract;
pub mod driver;
pub mod evaluator;
pub mod gate;
pub mod history;
pub mod launch;
pub mod mcp;
pub mod prompts;
pub mod reply;
pub mod server;
pub mod tally;
pub mod tools;
pub mod turn;
