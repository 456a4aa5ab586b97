//! Deterministic canonical serialization, content-addressed digests, record
//! hash-chains, and verifiable-random receipt issuance for UCF records.
//!
//! Every producer and consumer of UCF evidence must agree bit-for-bit on the
//! canonical bytes of a record, on the domain-separated digest stamped over
//! those bytes, and on the chained digests and VRF tags that receipts carry.
//! The contracts in this crate pin those byte strings down exactly.

pub mod bytes;
pub mod wire;
pub mod records;
pub mod codec;
pub mod chain;
pub mod digest;
pub mod hexfmt;
pub mod vrf;
pub mod receipt;
pub mod fixture;

pub use chain::record_digest_from_components;
pub use vrf::VrfEngine;
pub use vrf::VrfKeypair;
pub use vrf::digest_signature;
pub use digest::digest32;
pub use digest::domain_core;
pub use digest::domain_mc_config;
pub use digest::domain_asset_morph;
pub use digest::domain_asset_channel_params;
pub use digest::domain_asset_syn_params;
pub use digest::domain_asset_connectivity;
pub use digest::domain_asset_manifest;
pub use records::AssetDigest;
pub use records::AssetKind;
pub use records::CanonicalIntent;
pub use records::CanonicalRecord;
pub use records::Channel;
pub use records::DataClass;
pub use records::Digest32;
pub use records::IntentParams;
pub use records::MicroModule;
pub use records::MicrocircuitConfigEvidence;
pub use records::ProofReceipt;
pub use records::QueryParams;
pub use records::ReasonCodes;
pub use records::ReceiptStatus;
pub use records::Ref;
pub use records::RiskLevel;
pub use records::Signature;
pub use records::canonical_bytes;
pub use wire::DecodeError;
pub use receipt::ProofReceiptInputs;
pub use receipt::ProofReceiptIssuer;
pub use receipt::PvgsKeyEpoch;
pub use receipt::ReceiptError;
