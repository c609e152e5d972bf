//! The chain client: one JSON-RPC endpoint, wrapped for balance queries and
//! raw-transaction broadcast. Construction is pure, local URL validation;
//! the network calls themselves are made by the embedding program through
//! the handle this module exposes.

use vstd::prelude::*;
use crate::types::EvmConfig;

verus! {

#[verifier::external_type_specification]
#[verifier::external_body]
pub struct ExHttp(web3::transports::Http);

/// Whether a node URL string parses into a usable HTTP transport.
pub uninterp spec fn http_url_ok(url: Seq<char>) -> bool;

/// Relies on web3::transports::Http::new: it parses the URL and builds the
/// HTTP client locally, with no network round-trip, and refuses a URL that
/// does not parse.
#[verifier::external_body]
fn http_new(url: &str) -> (r: Result<web3::transports::Http, ()>)
    ensures
        r is Ok ==> http_url_ok(url@),
{
    match web3::transports::Http::new(url) {
        Ok(t) => Ok(t),
        Err(_) => Err(()),
    }
}

/// The configured node URL could not be turned into a transport.
#[derive(Clone, Copy, Debug, PartialEq, Eq, Structural)]
pub struct EndpointError;

/// A client for one chain's JSON-RPC node.
pub struct ChainClient {
    transport: web3::transports::Http,
}

impl ChainClient {
    /// Builds the client for a configuration's node URL. Pure local
    /// validation: fails exactly when no usable transport can be built,
    /// and success implies the URL was accepted.
    pub fn new(cfg: &EvmConfig) -> (r: Result<ChainClient, EndpointError>)
        ensures
            r is Ok ==> http_url_ok(cfg@.node_url),
    {
        match http_new(cfg.node_url.as_str()) {
            Ok(t) => Ok(ChainClient { transport: t }),
            Err(_) => Err(EndpointError),
        }
    }

    /// The underlying transport, for the embedding program to issue the
    /// actual balance and broadcast calls through.
    pub fn transport(&self) -> &web3::transports::Http {
        &self.transport
    }
}

} // verus!
