//! Named shell-command aliases: a store of single and parallel aliases, the
//! rules that turn an alias and its runtime arguments into shell command
//! lines, the aggregation of their outcomes, and the state machine of the
//! interactive alias selector.

pub mod alias;
pub mod order;
pub mod store;
pub mod config;
pub mod selector;
pub mod invocation;
pub mod notice;
