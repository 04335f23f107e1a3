//! Tagged values in a dynamically typed value model.
//!
//! A `Tag` is a type discriminator such as `!Thing`, whose leading `!` is
//! cosmetic. A `TaggedValue` pairs a tag with a `Value` of any shape, other
//! tagged values included. The library says how tags compare, how a chain of
//! tags is taken off a value, what a tagged value hands to a consumer that
//! decodes it as an enum variant, and how it is written as a single mapping
//! entry and read back.

pub mod entry;
pub mod order;
pub mod tag;
pub mod untag;
pub mod value;
pub mod variant;
