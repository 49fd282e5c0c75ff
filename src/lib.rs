//! A JSON-RPC client for blockchain endpoints: resolves a network identifier to an
//! endpoint and chain id, routes each call to the authenticated, REST or plain lane by
//! its method, and describes the HTTP request that each lane sends, with the access
//! token and API key it needs. Sending the requests and exchanging credentials for
//! tokens is left to the caller, which hands the outcomes back.
pub mod chains;
pub mod client;
pub mod networks;
pub mod provider;
pub mod router;
pub mod text;
pub mod tokens;
