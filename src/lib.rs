//! A WHOIS client core: domain suffix decomposition, response parsing, an
//! authority cache and the referral decision that drives a resolution.
pub mod client;
pub mod decide;
pub mod domain;
pub mod errors;
pub mod normalize;
pub mod record;
pub mod table;
pub mod text;

pub use client::{Client, Resolution, Step, ROOT_WHOIS_SERVER};
pub use decide::{contains_str, decide, Decision, NextWhois};
pub use domain::split_domain;
pub use errors::Error;
pub use record::{get_domain, next_whois_server, whois_key_value, WhoisKV};
pub use table::KeyValues;
