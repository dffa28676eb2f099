//! Iris-code templates: packed bit vectors, the masked Hamming distance
//! between two templates, and the bookkeeping of a recall benchmark that
//! matches noisy re-captures against an approximate nearest-neighbour index.

pub mod adapter;
pub mod bench;
pub mod bitvec;
pub mod random;
pub mod template;
