//! Verified contract rules of the CodeNoesis local analysis profiles.
pub mod text;
pub mod json;
pub mod s4_r13;
pub mod s4_r18;
pub mod s4_r17;
pub mod s4_r12;
pub mod s4_r14;
pub mod s4_r15;
pub mod portable;
pub mod textset;
pub mod graph;
pub mod integer;
pub mod s4_r16;
pub mod dependency;
pub mod constants;
pub mod projection_v9;
pub mod explorer;
pub mod errors;
pub mod ordering;
pub mod context;
pub mod laws;
pub mod export;
