//! Results of operations, and how they combine.
//!
//! A [`Result`] records how an operation ended: an identifier, a status code,
//! what was written to the output and error channels, and the values that
//! were returned, by key. Two results add up to one (`&a + &b`): the sum has
//! the identifier of the second, the greater status code, the channels of
//! both joined line by line, and the return values of both, those of the
//! second replacing those of the first. A result is a failure where its
//! status code is 1 or at least 300.
//!
//! Every function of the library is verified against its contract. The
//! contracts are stated over the plain values of [`model`]; what is taken on
//! trust from other crates is in [`outside`].

pub mod builder;
pub mod jsonify;
pub mod key_order;
pub mod model;
pub mod outside;
pub mod repr;
pub mod result;
pub mod text;
pub mod value_map;

pub use builder::ResultBuilder;
pub use result::Result;
