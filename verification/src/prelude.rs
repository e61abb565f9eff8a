//! The handful of names almost every caller wants.

pub use crate::error::AiError;
pub use crate::error::AiResult;
