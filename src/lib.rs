//! Azalea turns a scene graph into a compact binary payload, generates a
//! matching Luau decoder for exactly the kinds of data that payload holds, and
//! packs arbitrary bytes into text that may sit inside a quoted string literal.

pub mod base122;
pub mod spec;
pub mod model;
pub mod encoder;
pub mod emit;
pub mod script;
