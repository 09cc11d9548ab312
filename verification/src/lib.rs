//! A minimal custodial-wallet protocol: user-owned wallet accounts that gate
//! asset movement and delegated actions behind an owner/agent authorization
//! model, extend themselves through an allow-listed set of plugin contracts,
//! and settle atomic two-party token exchanges through an escrow-and-refund
//! pattern. A factory deploys wallet instances and propagates the current
//! plugin allow-list to every wallet it creates.
//!
//! Each contract's persistent fields are modelled as an explicit state
//! struct; the surrounding host substrate (durable key-value persistence,
//! signature checking, contract deployment, cross-contract dispatch) is the
//! caller's concern. Authorization evidence enters through [`auth::AuthContext`],
//! and token balances live in the [`ledger::TokenLedger`] model of the
//! external token service, so every decision and every balance movement the
//! protocol makes is stated and proved here.

pub mod auth;
pub mod factory;
pub mod ledger;
pub mod members;
pub mod swap;
pub mod types;
pub mod wallet;
