//! Verified core of a fixed-term investment tracker.
//!
//! The crate models the lifecycle of investment records: a backend record
//! store with CRUD operations, the client-side state store that mirrors
//! confirmed backend state, the controller that commits backend outcomes
//! into that state, and the form logic that validates candidate records
//! before they are submitted.

pub mod controller;
pub mod create_inv_form;
pub mod dates;
pub mod digits;
pub mod errors;
pub mod forms;
pub mod record;
pub mod renew_inv_form;
pub mod state;
pub mod store;
pub mod validation;

pub use controller::InvestmentController;
pub use digits::u64_to_string;
pub use errors::StoreError;
pub use record::{AffectedRows, Investment, InvestmentPatch};
pub use state::InvestmentState;
pub use store::InvestmentStore;
pub use validation::Field;
