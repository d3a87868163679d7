use vstd::prelude::*;

pub mod actions;
pub mod cookie;
pub mod endpoint;
pub mod flow;
pub mod frontend;
pub mod hex;
pub mod json;
pub mod response;
pub mod text;
pub mod ui;
pub mod upload;
pub mod views;
pub mod vmhost;

verus! {

} // verus!
