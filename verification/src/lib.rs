use vstd::prelude::*;

pub mod color;
pub mod editor;
pub mod import;
pub mod models;
pub mod scene;
pub mod sql;
pub mod text;
pub mod traffic;
pub mod vendor;

verus! {

} // verus!
