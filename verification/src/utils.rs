//! Helpers of the generator that stand for themselves.

pub mod text;
