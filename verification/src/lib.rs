pub mod authority;
pub mod contexts;
pub mod error;
pub mod ids;
pub mod laws;
pub mod ledger;
pub mod state;

pub use crate::contexts::make::{make, Make};
pub use crate::contexts::refund::{refund, Refund};
pub use crate::contexts::take::{take, Take};
pub use crate::error::EscrowError;
pub use crate::ids::AccountId;
pub use crate::ledger::Ledger;
pub use crate::state::Escrow;
