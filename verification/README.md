# one-indexed-vec

A one-based wrapper around `Vec<T>`: position `1` is the first element and
position `len` the last, as in mathematical notation. `get(0)` and positions
past the end answer `None`; the subscript form `v[i]` requires a valid
position.

Layout:

- `src/vec_index_from_one/mod.rs` — the container `VecIndexFromOne<T>`
  (construction, 1-based access, insertion and removal, reversal, capacity).
- `src/vec_index_from_one/index1.rs` — the position type `Index1`.
- `src/vec_index_from_one/ops/` — algorithms on `VecIndexFromOne<i64>`:
  prefix sums and products, dot products, windows and sliding windows,
  finite differences, moving averages, sliding maximum / minimum / median,
  maximum-sum and maximum-product runs, majority votes, convolution,
  filling of zeros, reservoir sampling, mean and variance, and the choice
  of known neighbours for linear interpolation. `ops/math.rs`
  holds the definitions their contracts are written in.
- `src/vec_index_from_one/laws.rs` — proved properties relating the
  operations (undoing, involution, prefix sums versus differences, uniqueness
  of the majority, ...).
- `app/` — the Fourier-series demonstration, the floating-point algorithms,
  the `vec1!` literal and the serde forms of the types.

Every function under `src/` is verified with Verus except five small
trusted wrappers, whose contracts are believed as stated in their doc
comments: `Vec::capacity`, `Vec::shrink_to_fit` and `<[T]>::iter_mut`
(`vec_index_from_one/mod.rs`), and `rand::thread_rng` and
`Rng::gen_range` (`ops/sampling.rs`). Two outside types, `core::slice::IterMut` and
`rand::rngs::ThreadRng`, are declared opaque. Each numeric algorithm states
in its precondition the bounds that keep its `i64` arithmetic from
overflowing.
