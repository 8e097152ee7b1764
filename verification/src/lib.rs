use vstd::prelude::*;

pub mod text;
pub mod models;
pub mod routing;
pub mod paths;
pub mod localsearch;
pub mod history;
pub mod sessions;
pub mod fallback;
pub mod markup;
pub mod turn;
pub mod args;
pub mod client;
pub mod commands;
pub mod prompt;
pub mod server;
pub mod summary;
pub mod tools;

verus! {

} // verus!
