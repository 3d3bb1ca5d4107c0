//! Code generation for forwarding a trait implementation from one field of a
//! struct or enum to the container itself.
//!
//! - `syntax`, `model`: types, patterns, names, generics and forwarding
//!   specifications as plain values; generated names keep their nonce as a
//!   value until they are written out.
//! - `predicate`: choosing the field whose implementation is forwarded.
//! - `params`: finding the self-shaped parameters of a method and renaming
//!   `_` patterns.
//! - `generics`: merging, renaming and binding generic parameters.
//! - `emit`: the forwarding body of one method.
//! - `leak`: the leak table of a registered trait and the repeater relation.
//! - `implement`: the whole implementation for one specification.
//! - `target`: registering a trait.
pub mod syntax;
pub mod model;
pub mod predicate;
pub mod params;
pub mod generics;
pub mod emit;
pub mod leak;
pub mod implement;
pub mod target;
