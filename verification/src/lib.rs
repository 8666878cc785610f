//! A verified marshaling layer for a staking chain extension.
//!
//! Contract code reaches a privileged staking subsystem of the host runtime
//! through three numerically addressed extension calls. This crate defines
//! that call protocol — the call identifiers, the canonical binary encoding
//! of inputs and outputs, and the status-code-to-error translation — and
//! layers typed calls and contract-shaped facades on top of it.

pub mod codec;
pub mod contract;
pub mod host;
pub mod staking;
pub mod wire;

