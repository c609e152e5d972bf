//! Core data types of the gateway: the closed currency set, chain
//! configurations, transfer requests, and the error taxonomy.

use vstd::prelude::*;

verus! {

/// Compares two string slices for equality of their character sequences.
pub fn str_eq(a: &str, b: &str) -> (r: bool)
    ensures
        r == (a@ == b@),
{
    let x = a.to_owned();
    let y = b.to_owned();
    x == y
}

/// Closed set of chain identifiers the gateway can serve.
#[derive(Clone, Copy, Debug, PartialEq, Eq, Hash, Structural)]
pub enum Currency {
    Eth,
    Matic,
}

impl Currency {
    /// The ticker string that names this currency.
    pub open spec fn ticker_spec(self) -> Seq<char> {
        match self {
            Currency::Eth => "Eth"@,
            Currency::Matic => "Matic"@,
        }
    }

    /// Which currency, if any, a ticker string names.
    pub open spec fn from_str_spec(s: Seq<char>) -> Option<Currency> {
        if s == "Eth"@ {
            Some(Currency::Eth)
        } else if s == "Matic"@ {
            Some(Currency::Matic)
        } else {
            None
        }
    }

    /// Parses a ticker string; fails on anything outside the closed set.
    pub fn from_str(s: &str) -> (r: Option<Currency>)
        ensures
            r == Self::from_str_spec(s@),
    {
        if str_eq(s, "Eth") {
            Some(Currency::Eth)
        } else if str_eq(s, "Matic") {
            Some(Currency::Matic)
        } else {
            None
        }
    }

    /// The ticker string that names this currency.
    pub fn ticker(self) -> (r: &'static str)
        ensures
            r@ == self.ticker_spec(),
            Self::from_str_spec(r@) == Some(self),
    {
        proof {
            reveal_strlit("Eth");
            reveal_strlit("Matic");
            assert("Eth"@.len() == 3);
            assert("Matic"@.len() == 5);
        }
        match self {
            Currency::Eth => "Eth",
            Currency::Matic => "Matic",
        }
    }
}

/// Mathematical value of an [`EvmConfig`]: its three fields as character
/// sequences.
pub ghost struct EvmConfigV {
    pub node_url: Seq<char>,
    pub denom: Seq<char>,
    pub ticker: Seq<char>,
}

/// Immutable description of one chain: its JSON-RPC endpoint, display
/// denomination, and ticker.
#[derive(Debug)]
pub struct EvmConfig {
    pub node_url: String,
    pub denom: String,
    pub ticker: String,
}

impl View for EvmConfig {
    type V = EvmConfigV;

    open spec fn view(&self) -> EvmConfigV {
        EvmConfigV {
            node_url: self.node_url@,
            denom: self.denom@,
            ticker: self.ticker@,
        }
    }
}

impl EvmConfig {
    /// Builds a configuration from its three fields.
    pub fn new(node_url: String, denom: String, ticker: String) -> (r: EvmConfig)
        ensures
            r@.node_url == node_url@,
            r@.denom == denom@,
            r@.ticker == ticker@,
    {
        EvmConfig { node_url, denom, ticker }
    }

    /// Returns a copy with the same field values.
    pub fn duplicate(&self) -> (r: EvmConfig)
        ensures
            r@ == self@,
    {
        EvmConfig {
            node_url: self.node_url.clone(),
            denom: self.denom.clone(),
            ticker: self.ticker.clone(),
        }
    }
}

/// A request to transfer `amount` base units to the address written in `to`
/// on the chain registered for `currency`.
#[derive(Debug)]
pub struct SendTx {
    pub to: String,
    pub amount: usize,
    pub currency: Currency,
}

/// Failure of a JSON-RPC exchange with a chain node: transport failure,
/// timeout, or a malformed response, as reported by the transport.
#[derive(Debug)]
pub struct RpcError {
    pub message: String,
}

/// Why a registration attempt was refused.
#[derive(Clone, Copy, Debug, PartialEq, Eq, Structural)]
pub enum RegisterError {
    /// The ticker of the submitted configuration names no known currency.
    UnknownCurrency,
    /// A configuration for this currency is already registered.
    AlreadyRegistered,
}

/// Why a transfer was not broadcast, or why its broadcast failed.
#[derive(Debug)]
pub enum TransferError {
    /// No configuration is registered for the requested currency.
    UnknownCurrency,
    /// The configured node URL could not be turned into a transport.
    Endpoint,
    /// The destination string is not a well-formed chain address.
    InvalidAddress,
    /// The node refused to sign, or signing failed on malformed inputs.
    Signing(RpcError),
    /// Broadcasting the signed transaction failed.
    Broadcast(RpcError),
}

/// Why a balance query produced no report.
#[derive(Debug)]
pub enum BalanceError {
    /// No configuration is registered for the requested currency.
    UnknownCurrency,
    /// The configured node URL could not be turned into a transport.
    Endpoint(Currency),
    /// The balance query against this currency's node failed.
    Rpc(Currency, RpcError),
}

/// Why the signing agent could not be constructed from its secret material.
#[derive(Clone, Copy, Debug, PartialEq, Eq, Structural)]
pub enum KeyMaterialError {
    /// The private key string is absent or malformed.
    BadSecret,
    /// The account address string is absent or malformed.
    BadAccount,
}

} // verus!
