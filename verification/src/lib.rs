//! The verified core of itsy, a coding agent for small language models.

pub mod acp;
pub mod agent;
pub mod api;
pub mod bench;
pub mod bonescript;
pub mod code_graph;
pub mod cognition;
pub mod commands;
pub mod config;
pub mod edit;
pub mod escalation;
pub mod evals;
pub mod executor;
pub mod features;
pub mod fullscreen;
pub mod guard;
pub mod json;
pub mod outside;
pub mod text;
