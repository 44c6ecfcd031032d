//! A small neural-network training engine over fixed-point arithmetic:
//! fixed-shape tensors, composable differentiable layers, a forward/backward
//! propagation protocol, and a mini-batch gradient-descent trainer.

pub mod activation;
pub mod array;
pub mod cost;
pub mod fixed;
pub mod layer;
pub mod network;
mod rng;

pub use network::Network;
