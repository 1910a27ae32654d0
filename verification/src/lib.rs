//! A verified model of an authority-linked counter record hosted on a ledger.
//!
//! One record holds a single byte of state, its `count`. A ledger keyed by
//! account address stores such records and exposes five operations on them:
//! initialize, increment, decrement, set and close. Creation takes a storage
//! deposit from a payer's wallet; destruction refunds it to a recipient.
//! Increment and decrement are checked: they fail rather than wrap.

pub mod ledger;
pub mod record;
