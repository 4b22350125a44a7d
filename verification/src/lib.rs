//! Core of a memory benchmark: a verified model of an instrumented
//! allocator's byte counters, and three strategies for summing the
//! pixel channels of a PNG image, all proved to agree.

pub mod allocator;
pub mod decode;
pub mod pixel;
pub mod strategy;
