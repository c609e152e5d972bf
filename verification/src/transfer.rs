//! The transfer pipeline: registry lookup, client construction, and
//! descriptor construction for one transfer request. Everything up to the
//! network boundary is decided here; the embedding program signs and
//! broadcasts the returned descriptor on the returned client, once each.

use vstd::prelude::*;
use crate::address::{addr_bytes_str, addr_ok_str};
use crate::agent::{SigningAgent, TxDescriptor};
use crate::client::{http_url_ok, ChainClient};
use crate::registry::ChainRegistry;
use crate::types::{SendTx, TransferError};

verus! {

/// Resolves a transfer request: looks the currency up, builds the chain
/// client, and validates the destination. Fails with `UnknownCurrency`
/// exactly when the currency is unregistered, and never reaches the
/// address check when the endpoint is refused; no network call is made.
pub fn execute(reg: &ChainRegistry, agent: &SigningAgent, request: &SendTx) -> (r: Result<
    (ChainClient, TxDescriptor),
    TransferError,
>)
    requires
        reg.wf(),
    ensures
        r matches Err(TransferError::UnknownCurrency) <==> !reg.as_map().contains_key(
            request.currency,
        ),
        r matches Err(e) ==> e is UnknownCurrency || e is Endpoint || e is InvalidAddress,
        r matches Err(TransferError::InvalidAddress) ==> reg.as_map().contains_key(
            request.currency,
        ) && !addr_ok_str(request.to@),
        reg.as_map().contains_key(request.currency) && !addr_ok_str(request.to@) ==> !(r is Ok),
        r matches Ok(p) ==> reg.as_map().contains_key(request.currency) && addr_ok_str(request.to@)
            && p.1.to@ == addr_bytes_str(request.to@) && p.1.value == request.amount
            && http_url_ok(reg.as_map()[request.currency].node_url),
{
    let cfg = match reg.get(request.currency) {
        Some(cfg) => cfg,
        None => {
            return Err(TransferError::UnknownCurrency);
        },
    };
    let client = match ChainClient::new(cfg) {
        Ok(client) => client,
        Err(_) => {
            return Err(TransferError::Endpoint);
        },
    };
    let tx = match agent.build_transfer(request) {
        Ok(tx) => tx,
        Err(e) => {
            return Err(e);
        },
    };
    Ok((client, tx))
}

} // verus!
