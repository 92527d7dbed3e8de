//! A one-based (1-indexed) wrapper around `Vec<T>`, with numeric algorithms
//! whose positions follow the 1-based convention of mathematical notation.
pub mod vec_index_from_one;

pub use vec_index_from_one::index1::Index1;
pub use vec_index_from_one::ops;
pub use vec_index_from_one::ops::{PrefixSumView, WindowMut, Windows, WindowsMut};
pub use vec_index_from_one::VecIndexFromOne;
