//! Resolution of task descriptors: environment, list and task merging,
//! location stamping, the version gate, the extends chain and the final
//! composition with the bundled baseline.
pub mod env;
pub mod task;
pub mod config;
pub mod stamp;
pub mod version;
pub mod resolve;
pub mod load;
