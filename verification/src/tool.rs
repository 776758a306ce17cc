//! Tools that read a checked system: listing and finding its functions,
//! advice on its design, and its flow drawn as a graph.
pub mod check;
pub mod eval;
pub mod view;
