//! An atomic two-party asset swap ("escrow").
//!
//! One party, the initializer, locks a quantity of a fungible asset in a
//! custody account controlled by a keyless, deterministically derived
//! authority, and publishes the terms of the trade. A second party, the
//! taker, may later settle the trade in a single atomic step: the taker's
//! payment goes to the initializer, the locked funds go to the taker, and
//! the escrow record is deleted.

pub mod account;
pub mod authority;
pub mod bytes;
mod error;
pub mod laws;
pub mod model;
pub mod state;
pub mod table;

pub use account::{Account, Escrow};
pub use error::EscrowError;
pub use state::{initialize_escrow, take_escrow, InitializeEscrow, TakeEscrow, World};
