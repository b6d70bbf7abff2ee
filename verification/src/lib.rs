//! Authorization core of an mTLS CONNECT gateway and of its local sidecar.
//!
//! The crate holds the rules: how destinations are named, which certificates
//! identify a client, when a signed permission lets a client through, how the
//! two proxies answer, and how the sidecar encodes what a TPM hands it.
//! Sockets, files, the database and the TPM itself stay with the caller.

pub mod text;
pub mod text_laws;
pub mod number;
pub mod number_laws;
pub mod address;
pub mod address_laws;
pub mod endpoint;
pub mod destination;
pub mod destination_laws;
pub mod destination_forms;
pub mod endpoint_laws;
pub mod der;
pub mod der_laws;
pub mod identity;
pub mod identity_laws;
pub mod timestamp;
pub mod timestamp_laws;
pub mod calendar_laws;
pub mod certificate;
pub mod certificate_laws;
pub mod registry;
pub mod permission;
pub mod permission_laws;
pub mod policy;
pub mod policy_laws;
pub mod proxy;
pub mod proxy_laws;
pub mod proxy_step_laws;
pub mod gateway_laws;
pub mod bridge;
pub mod bridge_laws;
pub mod tls;
pub mod tls_laws;
pub mod config;
pub mod observability;
pub mod config_laws;
pub mod rate_limit;
pub mod rate_limit_laws;
pub mod message_laws;
pub mod plain_value_laws;
