//! ACME DNS-01 through a delegated challenge zone: what to ask of DNS servers, of the
//! certificate authority and of the reader, and what to make of the answers.
//!
//! Everything that depends on the network, on files or on time is an event that the
//! program around this library reports; the library says what to do next.

pub mod acme;
pub mod addr;
pub mod bindings;
pub mod certs;
pub mod check;
pub mod config;
pub mod config_laws;
pub mod confirm;
pub mod dns;
pub mod dns_laws;
pub mod doctor;
pub mod encoding;
pub mod failure;
pub mod files;
pub mod hook;
pub mod lines;
pub mod order;
pub mod order_laws;
pub mod prompt;
pub mod query;
pub mod setup;
pub mod setup_laws;
pub mod text;
pub mod text_laws;
pub mod told_laws;
pub mod zone;
