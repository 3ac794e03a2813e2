//! A driver for the i.MX RT uSDHC host controller, in blocking (polling)
//! operation.
//!
//! The driver reaches the peripheral through a [`Registers`] interface;
//! [`Mmio`] is the one over the memory-mapped register block. Each operation's
//! contract states the exact sequence of register accesses (and delays) that
//! it performs, as the ghost history of [`Usdhc`].
pub mod config;
pub mod counts;
pub mod data;
pub mod mmio;
pub mod registers;
pub mod status;
pub mod transport;
pub mod usdhc;
pub mod wait;

pub use config::{
    DDRPrescaler, DataRate, DataTransferDirection, DataTransferWidth, DmaSelect, EndianMode,
    SDRPrescaler, Timing, Watermark,
};
pub use mmio::Mmio;
pub use registers::{Event, Reg, Registers};
pub use status::{transport_error, PresentState, Status, TransportError};
pub use transport::{rebuild_long_response, Command, ResponseLen};
pub use usdhc::Usdhc;
