//! Scheduled payments between accounts.
//!
//! A sender registers an obligation to pay a recipient, in the native asset
//! or in a whitelisted token. Someone later triggers the payment; the
//! contract decides which transfer has to be made and, once it was made,
//! appends the time to the schedule's execution history.
//!
//! Every operation takes the calling account, the clock and the outcome of a
//! transfer as plain arguments, so the whole contract is a value: its
//! meaning is the mathematical state in [`model`], and each method is proved
//! to perform exactly one transition of that state.

pub mod error;
pub mod ident;
pub mod table;
pub mod schedule;
pub mod model;
pub mod preserved;
pub mod contract;
pub mod laws;

pub use crate::contract::TemporaContract;
pub use crate::error::TemporaError;
pub use crate::ident::{AccountId, Balance, ScheduleId, Timestamp};
pub use crate::model::Transfer;
pub use crate::schedule::{ScheduleConfiguration, UserScheduleData};
