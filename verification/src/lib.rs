//! A driver core for the HopeRF RFM95/96/97/98 LoRa and FSK radio modules.
//!
//! The radio is driven over SPI with single-register reads and writes. This
//! crate holds everything that decides what goes over the wire: the register
//! map, the mode and modem configuration words, the configuration sequences of
//! each operation and the state machine that runs them, answering each bus
//! reply with the next bus action. The bus itself (SPI, GPIO pins and delays)
//! is driven by the caller, which hands every reply back to the machine.

pub mod error;
pub mod mode;
pub mod modem_config;
pub mod rates;
pub mod register;
pub mod program;
pub mod machine;
pub mod laws;
pub mod program_laws;

pub use error::RFMError;
pub use rates::{DataRate, FskDataRate, FREQ_CH0, FREQ_CH1, FREQ_CH2};
pub use machine::{Action, Event, Output, RFM95};
