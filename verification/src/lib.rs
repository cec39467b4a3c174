//! Replicant: the integer and textual rules of a bio-inspired swarm whose agents
//! make claims, attest them, and carry a reputation ledger.
//!
//! The verified library holds the rules that decide: claim numbering and
//! adjudication, the reputation event ledger, the replication cooldown, the
//! derived quarantine status, the environment calendar and the bounded lists.

pub mod adversary;
pub mod capsule;
pub mod claims;
pub mod decimal;
pub mod demo;
pub mod environment;
pub mod reputation;
pub mod types;
pub mod vitals;
pub mod world;
