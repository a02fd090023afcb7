//! A router between chat clients and model providers: the rules by which requests
//! are matched to providers and converted between their formats.

pub mod api;
pub mod clock;
pub mod config;
pub mod convert;
pub mod json;
mod keys;
pub mod order;
pub mod pages;
pub mod proxy;
pub mod seqs;
pub mod takeover;
pub mod text;
