//! An in-memory shopping cart with verified mutation semantics.
//!
//! The cart is an insertion-ordered sequence of lines, at most one line per
//! product id. `CartStore` exposes the four operations `list`, `add`, `edit`
//! and `delete`; their contracts pin down exactly how each call changes the
//! sequence. The HTTP layer around the store is ordinary plumbing and lives
//! outside this crate.

pub mod cart;
pub mod input;
pub mod laws;
pub mod models;
pub mod price;
