//! Rectangle layout by linear constraints.
//!
//! The library builds, extends and checks systems of linear constraints over
//! the widths and heights of on-screen shapes, and maps a solution of such a
//! system back onto rectangles. Solving the system is left to the caller.
pub mod expr;
pub mod solution;
pub mod layout;
pub mod demos;
pub mod growth;
pub mod events;
