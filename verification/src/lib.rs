//! An insertion-ordered map from values to values, where a value is a
//! dynamically typed tree of scalars, strings, byte strings, arrays and maps.
//!
//! [`ValueMap`] keeps its keys unique, iterates in insertion order, and finds
//! a key in constant time on average. [`Value`] is the type of its keys and of
//! its values, so a map may be keyed by numbers, by strings, and by arrays and
//! maps of these.
//!
//! Every function carries a contract that Verus proves. The contracts are
//! stated over the views defined in [`model`]: a value is seen as a tree, a map
//! as the sequence of its entries in iteration order. [`laws`] holds what
//! follows from the contracts for every map. [`text`] defines the text form.

pub mod laws;
pub mod model;
mod store;
pub mod text;
pub mod value;

pub use value::map::ValueMap;
pub use value::Value;
