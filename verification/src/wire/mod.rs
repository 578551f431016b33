//! Wire forms: integers in byte strings, and the MLS encoding of primitive
//! values.

pub mod bytes;
pub mod mls;
