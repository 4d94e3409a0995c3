pub mod call_input;
mod convert;
mod fmt;
pub mod i256;
pub mod laws;
pub mod ops;
pub mod order;
mod outside;
pub mod sign;
pub mod uint;

pub use call_input::{Bytes, CallInput, CallInputError, InputField};
pub use i256::I256;
pub use sign::{Sign, TryFromBigIntError};
pub use uint::U256;
