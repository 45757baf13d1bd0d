//! Small verified helpers: validation, filename and size formatting, and
//! time arithmetic.

pub mod digits;
pub mod file_utils;
pub mod strings;
pub mod time_utils;
pub mod validation;
