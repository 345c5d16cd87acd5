//! Trust-based secure routing, with contracts that Verus proves.
//!
//! Nodes hold cryptographic identities, establish secure channels across
//! routes that may lead through relays they do not trust, and let a message
//! reach a local endpoint only where flow control was told to. This crate
//! holds the rules of that: who is trusted, which delivery is allowed, how a
//! handshake advances and when it may enter a channel into the registry, and
//! how a relay re-routes what is addressed to a forwarder. Sending and
//! receiving, key exchange and signatures are left to the caller, who hands
//! in what they came to.
//!
//! - [`flow_control`]: the registry of flows, producers and consumers.
//! - [`secure_channel`], [`nonce`]: the handshake as a state machine, the
//!   installation of a channel, and the nonces of an installed one.
//! - [`forwarding`], [`routing`]: forwarders on a relay, addresses and routes.
//! - [`identity`], [`trust_context`], [`verification`]: identities,
//!   authorities and the verifier's decision on a credential.
//! - [`vault`], [`public_keys`]: public keys, generic and typed.
//! - [`models`], [`wire`], [`codec`], [`codec_laws`], [`cbor`]: the models
//!   of the identity service, their numbered fields and their bytes.
//! - [`cli_state`], [`share`], [`desktop`]: profiles, the share command and
//!   the decisions of the tray application.
//! - [`error`], [`hex_text`], [`byte_map`]: errors, hexadecimal text and a
//!   small ordered map.

pub mod error;
pub mod hex_text;
pub mod byte_map;
pub mod cbor;
pub mod vault;
pub mod public_keys;
pub mod identity;
pub mod trust_context;
pub mod verification;
pub mod routing;
pub mod flow_control;
pub mod secure_channel;
pub mod nonce;
pub mod forwarding;
pub mod wire;
pub mod codec;
pub mod codec_laws;
pub mod models;
pub mod cli_state;
pub mod share;
pub mod desktop;
