//! A small account-ledger engine.
//!
//! The engine consumes an ordered sequence of transaction records
//! (deposits, withdrawals and the dispute lifecycle: dispute, resolve,
//! chargeback) and computes each client's final balances. Records are
//! applied one at a time, in input order; a record that cannot be applied
//! is rejected with an [`EventError`] and leaves every balance unchanged,
//! so processing can continue with the next record.

pub mod account;
pub mod amount;
pub mod cli;
pub mod laws;
pub mod ledger;
pub mod record;
pub mod render;
pub mod store;

pub use account::Client;
pub use amount::Amount;
pub use cli::Moneybags;
pub use ledger::Ledger;
pub use ledger::process_records;
pub use record::EventError;
pub use record::Record;
pub use record::RecordType;
pub use render::render_amount;
pub use render::render_summary;
pub use store::EventStore;
pub use store::TxEntry;
