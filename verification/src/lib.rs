//! Value-locking commitments, verified.
//!
//! A participant locks an asset under a rule set (a duration, a maximum
//! tolerated loss, a penalty for leaving early) and gets a transferable
//! receipt. The ledgers in this crate decide what may happen to such a
//! commitment and keep the books while it happens:
//!
//! - [`commitment_core`] creates, revalues, checks, settles and exits
//!   commitments and allocates their value, behind a reentrancy guard and
//!   call quotas ([`rate_limiting`]);
//! - [`attestation_engine`] keeps append-only attestations about
//!   commitments and derives their compliance score;
//! - [`commitment_nft`], [`price_oracle`] and [`time_lock`] are the
//!   receipt contract, the price feed and the governance time lock around
//!   them; [`fees`], [`math`], [`validation`] and [`pausable`] are what
//!   they share.
//!
//! Every ledger is a plain value. An operation takes the time and the
//! authenticated caller as arguments, answers with a result or a refusal
//! that changes nothing, and queues the notifications that it wants
//! published. Each operation is specified by a function from the state
//! before to the state after; [`ledger_laws`], [`compliance_laws`] and
//! [`receipt_laws`] prove what follows for every history.

pub mod address;
pub mod assoc;
pub mod attestation_engine;
pub mod commitment;
pub mod commitment_core;
pub mod commitment_nft;
pub mod compliance_laws;
pub mod fees;
pub mod ledger_laws;
pub mod math;
pub mod pausable;
pub mod price_oracle;
pub mod rate_limiting;
pub mod receipt_laws;
pub mod time_lock;
pub mod validation;
