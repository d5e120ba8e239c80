//! The algorithms that place sample values.

pub mod halton;
pub mod random;
pub mod stratified;
pub mod zerotwosequence;
