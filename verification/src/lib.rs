//! A registry of uniquely keyed kitties: who owns which, and the two
//! operations that change it, registration and transfer.

pub mod bytes;
pub mod index;
pub mod laws;
pub mod pallet;
pub mod registry;
pub mod store;
pub mod types;

pub use pallet::Pallet;
pub use registry::Registry;
pub use types::{AccountId, Error, Event, Gender, Kitty};
