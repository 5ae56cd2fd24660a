//! A small feed-forward neural-network toolkit: a dense, shape-checked
//! matrix type over an abstract numeric field, differentiable layers,
//! finite-difference and backpropagation gradients, and first-order
//! optimizers that consume gradients to update parameters in place.

pub mod element;
pub mod functions;
pub mod gradient;
pub mod image;
pub mod layers;
pub mod matrix;
pub mod network;
pub mod optimize;

pub use element::Element;
pub use element::Transcendental;
