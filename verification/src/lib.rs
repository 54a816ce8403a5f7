//! Jito bundles: lists of one to five transactions that a ledger takes on as a whole or not at
//! all.
//!
//! [`rpc`] takes requests on. [`submission`] carries a bundle out and [`simulation`] tries one
//! out, step by step; the ledger that the steps are taken on is the caller's. [`run`] says what
//! becomes of a request from end to end, and [`laws`] what holds of it.
pub mod base58;
pub mod base64;
pub mod bundle;
pub mod decimal;
pub mod error;
pub mod hex_text;
pub mod laws;
pub mod ledger;
pub mod outside;
pub mod rpc;
pub mod run;
pub mod signature;
pub mod simulation;
pub mod submission;
pub mod transaction;
