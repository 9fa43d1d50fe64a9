use vstd::prelude::*;

pub mod auth;
pub mod config;
pub mod dashboard;
pub mod domain;
pub mod error;
pub mod export;
pub mod fields;
pub mod form;
pub mod random;
pub mod recycle;
pub mod requests;
pub mod roster;
pub mod startup;
pub mod storage;
pub mod submission_form;
pub mod text;
pub mod url;
pub mod validation;

verus! {
} // verus!
