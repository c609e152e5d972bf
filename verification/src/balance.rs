//! Balance reporting: conversion from base units to native units at the
//! fixed 10^18 scale, single-currency lookup, and the all-or-nothing
//! assembly of a batch of balance reports.

use vstd::prelude::*;
use crate::address::Address;
use crate::client::ChainClient;
use crate::registry::ChainRegistry;
use crate::types::{BalanceError, Currency, EvmConfig, EvmConfigV, RpcError};

verus! {

/// Base units per native unit on the EVM chains this gateway targets.
pub const WEI_PER_ETH: u128 = 1_000_000_000_000_000_000;

/// A native-unit amount as a fixed-point value: whole native units, plus a
/// remainder in base units strictly below the scale.
#[derive(Clone, Copy, Debug, PartialEq, Eq, Structural)]
pub struct EthAmount {
    pub whole: u128,
    pub frac: u64,
}

/// The exact fixed-point conversion of a base-unit amount.
pub open spec fn eth_amount_of(wei: u128) -> EthAmount {
    EthAmount { whole: (wei / WEI_PER_ETH) as u128, frac: (wei % WEI_PER_ETH) as u64 }
}

/// Converts a base-unit amount to whole native units and remainder;
/// nothing is lost: `whole * 10^18 + frac == wei`.
pub fn wei_to_eth(wei: u128) -> (r: EthAmount)
    ensures
        r == eth_amount_of(wei),
        r.whole * WEI_PER_ETH + r.frac == wei,
        r.frac < WEI_PER_ETH,
{
    let whole = wei / WEI_PER_ETH;
    let frac = (wei % WEI_PER_ETH) as u64;
    EthAmount { whole, frac }
}

/// The character for one decimal digit.
pub open spec fn digit_char(d: nat) -> char {
    if d == 0 {
        '0'
    } else if d == 1 {
        '1'
    } else if d == 2 {
        '2'
    } else if d == 3 {
        '3'
    } else if d == 4 {
        '4'
    } else if d == 5 {
        '5'
    } else if d == 6 {
        '6'
    } else if d == 7 {
        '7'
    } else if d == 8 {
        '8'
    } else {
        '9'
    }
}

/// The decimal digits of `n`, most significant first, no leading zeros.
pub open spec fn dec_digits(n: nat) -> Seq<char>
    decreases n,
{
    if n < 10 {
        seq![digit_char(n)]
    } else {
        dec_digits(n / 10).push(digit_char(n % 10))
    }
}

/// Exactly `w` decimal digits of `n`, most significant first, zero-padded.
pub open spec fn dec_digits_pad(n: nat, w: nat) -> Seq<char>
    decreases w,
{
    if w == 0 {
        Seq::empty()
    } else {
        dec_digits_pad(n / 10, (w - 1) as nat).push(digit_char(n % 10))
    }
}

/// Drops trailing `'0'` characters, keeping at least one character.
pub open spec fn trim_trailing_zeros(s: Seq<char>) -> Seq<char>
    decreases s.len(),
{
    if s.len() <= 1 {
        s
    } else if s.last() == '0' {
        trim_trailing_zeros(s.drop_last())
    } else {
        s
    }
}

/// The exact decimal rendering of a fixed-point amount: the whole units,
/// a point, and the 18-digit fraction with trailing zeros trimmed.
pub open spec fn decimal_str_of(a: EthAmount) -> Seq<char> {
    dec_digits(a.whole as nat) + seq!['.'] + trim_trailing_zeros(
        dec_digits_pad(a.frac as nat, 18),
    )
}

/// A one-character string for one decimal digit.
fn digit_str(d: u8) -> (r: &'static str)
    requires
        d < 10,
    ensures
        r@ == seq![digit_char(d as nat)],
{
    proof {
        reveal_strlit("0");
        reveal_strlit("1");
        reveal_strlit("2");
        reveal_strlit("3");
        reveal_strlit("4");
        reveal_strlit("5");
        reveal_strlit("6");
        reveal_strlit("7");
        reveal_strlit("8");
        reveal_strlit("9");
    }
    let r = match d {
        0 => "0",
        1 => "1",
        2 => "2",
        3 => "3",
        4 => "4",
        5 => "5",
        6 => "6",
        7 => "7",
        8 => "8",
        _ => "9",
    };
    proof {
        assert(r@ =~= seq![digit_char(d as nat)]);
    }
    r
}

/// Appends the decimal digits of `n`, most significant first.
fn push_dec(n: u128, out: &mut String)
    ensures
        final(out)@ == old(out)@ + dec_digits(n as nat),
    decreases n,
{
    if n >= 10 {
        push_dec(n / 10, out);
    }
    out.append(digit_str((n % 10) as u8));
    proof {
        assert(final(out)@ =~= old(out)@ + dec_digits(n as nat));
    }
}

/// Appends exactly `w` decimal digits of `n`, zero-padded.
fn push_dec_pad(n: u128, w: usize, out: &mut String)
    ensures
        final(out)@ == old(out)@ + dec_digits_pad(n as nat, w as nat),
    decreases w,
{
    if w > 0 {
        push_dec_pad(n / 10, w - 1, out);
        out.append(digit_str((n % 10) as u8));
    }
    proof {
        assert(final(out)@ =~= old(out)@ + dec_digits_pad(n as nat, w as nat));
    }
}

/// A zero-padded rendering has exactly its width.
proof fn lemma_pad_len(n: nat, w: nat)
    ensures
        dec_digits_pad(n, w).len() == w,
    decreases w,
{
    if w > 0 {
        lemma_pad_len(n / 10, (w - 1) as nat);
    }
}

impl EthAmount {
    /// Renders the amount as an exact decimal string: whole units, a
    /// point, and the fraction with trailing zeros trimmed.
    pub fn to_decimal_string(&self) -> (r: String)
        ensures
            r@ == decimal_str_of(*self),
    {
        let mut out = String::new();
        push_dec(self.whole, &mut out);
        proof {
            reveal_strlit(".");
            assert("."@ =~= seq!['.']);
        }
        out.append(".");
        let mut v: u128 = self.frac as u128;
        let mut w: usize = 18;
        proof {
            lemma_pad_len(v as nat, w as nat);
        }
        while w > 1 && v % 10 == 0
            invariant
                1 <= w <= 18,
                trim_trailing_zeros(dec_digits_pad(self.frac as nat, 18))
                    == trim_trailing_zeros(dec_digits_pad(v as nat, w as nat)),
            decreases w,
        {
            proof {
                lemma_pad_len((v / 10) as nat, (w - 1) as nat);
                assert(dec_digits_pad(v as nat, w as nat) == dec_digits_pad(
                    (v / 10) as nat,
                    (w - 1) as nat,
                ).push('0'));
                assert(dec_digits_pad(v as nat, w as nat).last() == '0');
                assert(dec_digits_pad(v as nat, w as nat).drop_last() =~= dec_digits_pad(
                    (v / 10) as nat,
                    (w - 1) as nat,
                ));
            }
            v = v / 10;
            w = w - 1;
        }
        proof {
            lemma_pad_len(v as nat, w as nat);
            if w == 1 {
            } else {
                assert(dec_digits_pad(v as nat, w as nat).last() == digit_char(
                    (v % 10) as nat,
                ));
            }
            assert(trim_trailing_zeros(dec_digits_pad(v as nat, w as nat)) == dec_digits_pad(
                v as nat,
                w as nat,
            ));
        }
        push_dec_pad(v, w, &mut out);
        proof {
            assert(out@ =~= decimal_str_of(*self));
        }
        out
    }
}

/// One balance report: a currency, the queried account, the converted
/// amount, and the chain's display denomination.
#[derive(Debug)]
pub struct Balance {
    pub currency: Currency,
    pub account: Address,
    pub amount: EthAmount,
    pub denom: String,
}

/// What a report for `wei` base units on the chain `(c, cfg)`, queried for
/// `account`, must hold.
pub open spec fn report_matches(
    b: Balance,
    c: Currency,
    cfg: EvmConfigV,
    account: Seq<u8>,
    wei: u128,
) -> bool {
    &&& b.currency == c
    &&& b.account@ == account
    &&& b.amount == eth_amount_of(wei)
    &&& b.denom@ == cfg.denom
}

/// Builds the report for one balance query result.
pub fn balance_report(c: Currency, cfg: &EvmConfig, account: &Address, wei: u128) -> (r: Balance)
    ensures
        report_matches(r, c, cfg@, account@, wei),
{
    let amount = wei_to_eth(wei);
    Balance { currency: c, account: account.duplicate(), amount, denom: cfg.denom.clone() }
}

/// Looks up a currency's configuration and builds its chain client; the
/// query itself is issued by the embedding program on the returned client.
pub fn prepare_balance(reg: &ChainRegistry, c: Currency) -> (r: Result<
    (EvmConfig, ChainClient),
    BalanceError,
>)
    requires
        reg.wf(),
    ensures
        r matches Err(BalanceError::UnknownCurrency) <==> !reg.as_map().contains_key(c),
        r matches Err(e) ==> e is UnknownCurrency || e == BalanceError::Endpoint(c),
        r matches Ok(p) ==> reg.as_map().contains_key(c) && p.0@ == reg.as_map()[c]
            && crate::client::http_url_ok(reg.as_map()[c].node_url),
{
    let cfg = match reg.get(c) {
        Some(cfg) => cfg,
        None => {
            return Err(BalanceError::UnknownCurrency);
        },
    };
    match ChainClient::new(cfg) {
        Ok(client) => Ok((cfg.duplicate(), client)),
        Err(_) => Err(BalanceError::Endpoint(c)),
    }
}

/// Assembles the batch of balance reports from a registry snapshot and the
/// per-chain query outcomes, all-or-nothing: the first failure makes the
/// whole batch fail, and no partial list is ever returned.
pub fn assemble_reports(
    entries: &Vec<(Currency, EvmConfig)>,
    account: &Address,
    outcomes: &Vec<Result<u128, RpcError>>,
) -> (r: Result<Vec<Balance>, BalanceError>)
    requires
        entries@.len() == outcomes@.len(),
    ensures
        r is Ok <==> (forall|i: int| 0 <= i < outcomes@.len() ==> (#[trigger] outcomes@[i]) is Ok),
        r matches Ok(list) ==> list@.len() == entries@.len() && (forall|i: int|
            0 <= i < entries@.len() ==> report_matches(
                #[trigger] list@[i],
                entries@[i].0,
                entries@[i].1@,
                account@,
                outcomes@[i]->Ok_0,
            )),
        r matches Err(e) ==> (exists|k: int|
            0 <= k < outcomes@.len() && (#[trigger] outcomes@[k]) is Err && (forall|j: int|
                0 <= j < k ==> (#[trigger] outcomes@[j]) is Ok) && e == BalanceError::Rpc(
                entries@[k].0,
                RpcError { message: outcomes@[k]->Err_0.message },
            )),
{
    let n = entries.len();
    let mut list: Vec<Balance> = Vec::new();
    let mut i: usize = 0;
    while i < n
        invariant
            n == entries@.len(),
            n == outcomes@.len(),
            0 <= i <= n,
            list@.len() == i,
            forall|j: int| 0 <= j < i ==> (#[trigger] outcomes@[j]) is Ok,
            forall|j: int|
                0 <= j < i ==> report_matches(
                    #[trigger] list@[j],
                    entries@[j].0,
                    entries@[j].1@,
                    account@,
                    outcomes@[j]->Ok_0,
                ),
        decreases n - i,
    {
        match &outcomes[i] {
            Ok(wei) => {
                let e = &entries[i];
                list.push(balance_report(e.0, &e.1, account, *wei));
            },
            Err(err) => {
                return Err(
                    BalanceError::Rpc(
                        entries[i].0,
                        RpcError { message: err.message.clone() },
                    ),
                );
            },
        }
        i = i + 1;
    }
    Ok(list)
}

} // verus!
