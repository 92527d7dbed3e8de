//! Numeric and windowing algorithms with 1-based semantics.
//!
//! The element-type-generic operations of the container live in the parent
//! module; the numeric algorithms here work on `VecIndexFromOne<i64>`, and
//! each states in its `requires` the bounds under which its arithmetic stays
//! within `i64`.
pub mod arithmetic;
pub mod capacity;
pub mod convolution;
pub mod difference;
pub mod extremes;
pub mod fill;
pub mod interpolate;
pub mod majority;
pub mod math;
pub mod median;
pub mod prefix_view;
pub mod sampling;
pub mod search;
pub mod statistics;
pub mod subarray;
pub mod window;

pub use self::prefix_view::PrefixSumView;
pub use self::window::{WindowMut, Windows, WindowsMut};
