//! Runtime reflection over dynamic values: a value model with a total order,
//! a cycle-safe type graph, and a key-path language with two resolvers.
pub mod order;
pub mod value;
pub mod compare;
pub mod copy;
pub mod convert;
pub mod graph;
pub mod key_path;
pub mod parse;
pub mod resolve;
pub mod patch;
pub mod tuple;
pub mod dict;
