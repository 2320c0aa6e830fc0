pub mod frequency;
pub mod statistics;
pub mod patterns;
pub mod ranking;
pub mod standard;
