//! The rules of a wallet for identities on the chain, proved with Verus.
//!
//! The heart of the crate is the discovery of namespaces: which currencies of the catalogue
//! are open for the registration of identities ([`eligibility`]), in which currency each of
//! them takes its fee ([`fee`]), how the lookups that this needs are scheduled
//! ([`batch`], [`discovery`]), and in which order the result is handed out ([`aggregate`]).
//! [`schedule`] states what a whole discovery does. [`root`] offers the native currency of
//! a known chain as a namespace.
//!
//! Beside it stand the rules for the identities of the wallet ([`identity`], [`rpc`]), for
//! waiting on the chain ([`polling`]) and for summing up unspent outputs ([`wallet`]).
//!
//! Nothing in this crate talks to the outside: callers fetch, wait and store, and hand in
//! what they got. Amounts count units of 10^-8.

pub mod aggregate;
pub mod batch;
pub mod currency;
pub mod discovery;
pub mod eligibility;
pub mod error;
pub mod fee;
pub mod identity;
pub mod polling;
pub mod root;
pub mod rpc;
pub mod schedule;
pub mod text;
pub mod wallet;
