//! Dependency-aware security descriptions of on-chain bytecode modules.
//!
//! The library holds the decisions of the description pipeline: reading the
//! model's replies, resolving which modules must be described first, walking
//! the dependency graph, assembling the conversations sent to the model, and
//! keeping described modules in a store whose aggregate writes are atomic.
//! Talking to the chain, the disassembler, the model service and the database
//! is left to the program around it.
pub mod commands;
pub mod conversation;
pub mod deps;
pub mod error;
pub mod ids;
pub mod laws;
pub mod metadata;
pub mod objects;
pub mod prompts;
pub mod records;
pub mod reply;
pub mod rounds;
pub mod rows;
pub mod store;
pub mod text;
pub mod walk;
