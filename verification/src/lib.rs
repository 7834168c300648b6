//! Scene data model and the compilation pipeline that turns a project of
//! animation scenes into a binary registry and per-race animation lists.

pub mod codec;
pub mod compile;
pub mod fnis;
pub mod legacy;
pub mod model;
pub mod output;
pub mod project;
pub mod race;
pub mod text;
pub mod token;
