use vstd::prelude::*;

pub mod code_context;
pub mod codec;
pub mod config;
pub mod filesystem;
pub mod handlers;
pub mod host;
pub mod json;
pub mod protocol;
pub mod rag;
pub mod search_tool;
pub mod server;
pub mod sync;
pub mod types;

verus! {

} // verus!
