//! Validation types and utilities for accumulating errors.
pub mod iter;
pub mod model;
pub mod traits;

pub use iter::{ErrorsIter, ErrorsIterMut, IntoIter, Iter, IterMut};
pub use model::{errors_of, Validation};
