//! Bounded intervals over a totally ordered point type, with independently
//! open or closed endpoints, and the set operations between them.
//!
//! `Bound` is one endpoint and `Interval` a pair of them, kept in order.
//! `Span` is the mathematical model of an interval, over which the contracts
//! of `Interval` are stated; `order` holds what is asked of the point type,
//! and `laws` what is proved of the operations.

pub mod bound;
pub mod interval;
pub mod laws;
pub mod order;
pub mod span;
pub mod text;

pub use bound::Bound;
pub use interval::Interval;
pub use span::Span;
