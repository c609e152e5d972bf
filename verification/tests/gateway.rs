use evm_gateway::address::parse_address;
use evm_gateway::agent::SigningAgent;
use evm_gateway::balance::{assemble_reports, balance_report, wei_to_eth, EthAmount};
use evm_gateway::client::ChainClient;
use evm_gateway::config::Config;
use evm_gateway::registry::ChainRegistry;
use evm_gateway::transfer;
use evm_gateway::types::{
    BalanceError, Currency, EvmConfig, KeyMaterialError, RegisterError, RpcError, SendTx,
    TransferError,
};

const GOOD_KEY: &str = "aaaaaaaaaaaaaaaaaaaaaaaaaaaaaaaaaaaaaaaaaaaaaaaaaaaaaaaaaaaaaaaa";
const GOOD_ACCOUNT: &str = "0x2222222222222222222222222222222222222222";

fn eth_config(node_url: &str) -> EvmConfig {
    EvmConfig::new(node_url.to_string(), "ether".to_string(), "Eth".to_string())
}

fn matic_config(node_url: &str) -> EvmConfig {
    EvmConfig::new(node_url.to_string(), "matic".to_string(), "Matic".to_string())
}

fn agent() -> SigningAgent {
    SigningAgent::new(GOOD_KEY, GOOD_ACCOUNT).ok().unwrap()
}

#[test]
fn currency_from_str_known() {
    assert_eq!(Currency::from_str("Eth"), Some(Currency::Eth));
    assert_eq!(Currency::from_str("Matic"), Some(Currency::Matic));
}

#[test]
fn currency_from_str_unknown() {
    assert_eq!(Currency::from_str("Doge"), None);
    assert_eq!(Currency::from_str("eth"), None);
    assert_eq!(Currency::from_str(""), None);
}

#[test]
fn register_then_get_returns_config() {
    let mut reg = ChainRegistry::new();
    assert_eq!(reg.register(eth_config("http://node1")), Ok(Currency::Eth));
    let got = reg.get(Currency::Eth).unwrap();
    assert_eq!(got.node_url, "http://node1");
    assert_eq!(got.denom, "ether");
    assert_eq!(got.ticker, "Eth");
}

#[test]
fn reregister_fails_and_keeps_first() {
    let mut reg = ChainRegistry::new();
    assert_eq!(reg.register(eth_config("http://node1")), Ok(Currency::Eth));
    assert_eq!(
        reg.register(eth_config("http://other")),
        Err(RegisterError::AlreadyRegistered)
    );
    assert_eq!(reg.get(Currency::Eth).unwrap().node_url, "http://node1");
    assert_eq!(reg.len(), 1);
}

#[test]
fn register_unknown_ticker_fails() {
    let mut reg = ChainRegistry::new();
    let cfg = EvmConfig::new(
        "http://node1".to_string(),
        "doge".to_string(),
        "Doge".to_string(),
    );
    assert_eq!(reg.register(cfg), Err(RegisterError::UnknownCurrency));
    assert_eq!(reg.len(), 0);
}

#[test]
fn get_unregistered_is_none() {
    let reg = ChainRegistry::new();
    assert!(reg.get(Currency::Matic).is_none());
}

#[test]
fn list_snapshots_all_entries() {
    let mut reg = ChainRegistry::new();
    reg.register(eth_config("http://node1")).ok().unwrap();
    reg.register(matic_config("http://node2")).ok().unwrap();
    let list = reg.list();
    assert_eq!(list.len(), 2);
    assert_eq!(list[0].0, Currency::Eth);
    assert_eq!(list[0].1.node_url, "http://node1");
    assert_eq!(list[1].0, Currency::Matic);
    assert_eq!(list[1].1.denom, "matic");
}

#[test]
fn persist_round_trip_reproduces_registry() {
    let mut reg = ChainRegistry::new();
    reg.register(eth_config("http://node1")).ok().unwrap();
    reg.register(matic_config("http://node2")).ok().unwrap();
    let records = reg.to_records();
    let reloaded = Config::new(records).into_registry().ok().unwrap();
    assert_eq!(reloaded.len(), 2);
    assert_eq!(reloaded.get(Currency::Eth).unwrap().node_url, "http://node1");
    assert_eq!(reloaded.get(Currency::Eth).unwrap().denom, "ether");
    assert_eq!(
        reloaded.get(Currency::Matic).unwrap().node_url,
        "http://node2"
    );
}

#[test]
fn replay_rejects_duplicate_records() {
    let records = vec![eth_config("http://node1"), eth_config("http://other")];
    match Config::new(records).into_registry() {
        Err(RegisterError::AlreadyRegistered) => {}
        _ => panic!("duplicate record must be refused"),
    }
}

#[test]
fn replay_rejects_unknown_ticker() {
    let bad = EvmConfig::new(
        "http://node1".to_string(),
        "doge".to_string(),
        "Doge".to_string(),
    );
    match Config::new(vec![bad]).into_registry() {
        Err(RegisterError::UnknownCurrency) => {}
        _ => panic!("unknown ticker must be refused"),
    }
}

#[test]
fn config_into_records_keeps_order() {
    let records = vec![eth_config("a"), matic_config("b")];
    let out = Config::new(records).into_records();
    assert_eq!(out.len(), 2);
    assert_eq!(out[0].ticker, "Eth");
    assert_eq!(out[1].ticker, "Matic");
}

#[test]
fn parse_address_plain_and_prefixed() {
    let a = parse_address("1111111111111111111111111111111111111111").unwrap();
    assert_eq!(a.bytes().as_slice(), [0x11u8; 20].as_slice());
    let b = parse_address("0x1111111111111111111111111111111111111111").unwrap();
    assert_eq!(b.bytes().as_slice(), [0x11u8; 20].as_slice());
}

#[test]
fn parse_address_exact_bytes() {
    let a = parse_address("0x00000000000000000000000000000000000000Ff").unwrap();
    let mut expect = [0u8; 20];
    expect[19] = 0xFF;
    assert_eq!(a.bytes().as_slice(), expect.as_slice());
}

#[test]
fn parse_address_skips_whitespace() {
    let a = parse_address("0x1111 1111 1111\t1111 1111 1111 1111 1111 1111 1111").unwrap();
    assert_eq!(a.bytes().as_slice(), [0x11u8; 20].as_slice());
}

#[test]
fn parse_address_malformed() {
    assert!(parse_address("").is_none());
    assert!(parse_address("0x123").is_none());
    assert!(parse_address("hello").is_none());
    // 39 digits: one short
    assert!(parse_address("0x111111111111111111111111111111111111111").is_none());
    // 41 digits: one long
    assert!(parse_address("0x11111111111111111111111111111111111111111").is_none());
    // right length, one bad digit
    assert!(parse_address("0x111111111111111111111111111111111111111g").is_none());
}

#[test]
fn wei_to_eth_two_whole_units() {
    let a = wei_to_eth(2_000_000_000_000_000_000);
    assert_eq!(a, EthAmount { whole: 2, frac: 0 });
}

#[test]
fn wei_to_eth_fractional() {
    let a = wei_to_eth(1_500_000_000_000_000_000);
    assert_eq!(
        a,
        EthAmount {
            whole: 1,
            frac: 500_000_000_000_000_000
        }
    );
    assert_eq!(wei_to_eth(0), EthAmount { whole: 0, frac: 0 });
    assert_eq!(
        wei_to_eth(999_999_999_999_999_999),
        EthAmount {
            whole: 0,
            frac: 999_999_999_999_999_999
        }
    );
}

#[test]
fn balance_report_two_eth() {
    let cfg = eth_config("http://node1");
    let account = parse_address(GOOD_ACCOUNT).unwrap();
    let report = balance_report(Currency::Eth, &cfg, &account, 2_000_000_000_000_000_000);
    assert_eq!(report.currency, Currency::Eth);
    assert_eq!(report.amount, EthAmount { whole: 2, frac: 0 });
    assert_eq!(report.denom, "ether");
    assert_eq!(report.account.bytes().as_slice(), account.bytes().as_slice());
}

#[test]
fn prepare_balance_unknown_currency() {
    let reg = ChainRegistry::new();
    match evm_gateway::balance::prepare_balance(&reg, Currency::Eth) {
        Err(BalanceError::UnknownCurrency) => {}
        _ => panic!("unregistered currency must be refused"),
    }
}

#[test]
fn prepare_balance_registered() {
    let mut reg = ChainRegistry::new();
    reg.register(eth_config("http://node1")).ok().unwrap();
    let (cfg, _client) = evm_gateway::balance::prepare_balance(&reg, Currency::Eth)
        .ok()
        .unwrap();
    assert_eq!(cfg.denom, "ether");
}

#[test]
fn prepare_balance_bad_endpoint() {
    let mut reg = ChainRegistry::new();
    reg.register(eth_config("not a url")).ok().unwrap();
    match evm_gateway::balance::prepare_balance(&reg, Currency::Eth) {
        Err(BalanceError::Endpoint(Currency::Eth)) => {}
        _ => panic!("unusable node URL must be refused"),
    }
}

#[test]
fn assemble_reports_all_ok() {
    let entries = vec![
        (Currency::Eth, eth_config("http://node1")),
        (Currency::Matic, matic_config("http://node2")),
    ];
    let account = parse_address(GOOD_ACCOUNT).unwrap();
    let outcomes: Vec<Result<u128, RpcError>> =
        vec![Ok(2_000_000_000_000_000_000), Ok(500_000_000_000_000_000)];
    let list = assemble_reports(&entries, &account, &outcomes).ok().unwrap();
    assert_eq!(list.len(), 2);
    assert_eq!(list[0].currency, Currency::Eth);
    assert_eq!(list[0].amount, EthAmount { whole: 2, frac: 0 });
    assert_eq!(list[0].denom, "ether");
    assert_eq!(list[1].currency, Currency::Matic);
    assert_eq!(
        list[1].amount,
        EthAmount {
            whole: 0,
            frac: 500_000_000_000_000_000
        }
    );
}

#[test]
fn assemble_reports_one_failure_fails_batch() {
    let entries = vec![
        (Currency::Eth, eth_config("http://node1")),
        (Currency::Matic, matic_config("http://node2")),
    ];
    let account = parse_address(GOOD_ACCOUNT).unwrap();
    let outcomes: Vec<Result<u128, RpcError>> = vec![
        Ok(2_000_000_000_000_000_000),
        Err(RpcError {
            message: "boom".to_string(),
        }),
    ];
    match assemble_reports(&entries, &account, &outcomes) {
        Err(BalanceError::Rpc(c, e)) => {
            assert_eq!(c, Currency::Matic);
            assert_eq!(e.message, "boom");
        }
        _ => panic!("one failing chain must fail the whole batch"),
    }
}

#[test]
fn assemble_reports_first_failure_wins() {
    let entries = vec![
        (Currency::Eth, eth_config("http://node1")),
        (Currency::Matic, matic_config("http://node2")),
    ];
    let account = parse_address(GOOD_ACCOUNT).unwrap();
    let outcomes: Vec<Result<u128, RpcError>> = vec![
        Err(RpcError {
            message: "first".to_string(),
        }),
        Err(RpcError {
            message: "second".to_string(),
        }),
    ];
    match assemble_reports(&entries, &account, &outcomes) {
        Err(BalanceError::Rpc(c, e)) => {
            assert_eq!(c, Currency::Eth);
            assert_eq!(e.message, "first");
        }
        _ => panic!("the batch must fail"),
    }
}

#[test]
fn assemble_reports_empty() {
    let entries: Vec<(Currency, EvmConfig)> = vec![];
    let outcomes: Vec<Result<u128, RpcError>> = vec![];
    let account = parse_address(GOOD_ACCOUNT).unwrap();
    let list = assemble_reports(&entries, &account, &outcomes).ok().unwrap();
    assert!(list.is_empty());
}

#[test]
fn signing_agent_accepts_good_material() {
    let agent = agent();
    let expect = parse_address(GOOD_ACCOUNT).unwrap();
    assert_eq!(agent.account.bytes().as_slice(), expect.bytes().as_slice());
}

#[test]
fn signing_agent_rejects_bad_secret() {
    // too short
    assert_eq!(
        SigningAgent::new("abc", GOOD_ACCOUNT).err().unwrap(),
        KeyMaterialError::BadSecret
    );
    // right length, not hex
    let zz = "z".repeat(64);
    assert_eq!(
        SigningAgent::new(&zz, GOOD_ACCOUNT).err().unwrap(),
        KeyMaterialError::BadSecret
    );
    // the zero scalar is out of range
    let zero = "0".repeat(64);
    assert_eq!(
        SigningAgent::new(&zero, GOOD_ACCOUNT).err().unwrap(),
        KeyMaterialError::BadSecret
    );
}

#[test]
fn signing_agent_rejects_bad_account() {
    assert_eq!(
        SigningAgent::new(GOOD_KEY, "0x123").err().unwrap(),
        KeyMaterialError::BadAccount
    );
}

#[test]
fn build_transfer_zero_value_succeeds() {
    let agent = agent();
    let request = SendTx {
        to: "0x1111111111111111111111111111111111111111".to_string(),
        amount: 0,
        currency: Currency::Eth,
    };
    let tx = agent.build_transfer(&request).ok().unwrap();
    assert_eq!(tx.value, 0);
    assert_eq!(tx.to.bytes().as_slice(), [0x11u8; 20].as_slice());
}

#[test]
fn build_transfer_malformed_address_fails() {
    let agent = agent();
    let request = SendTx {
        to: "not-an-address".to_string(),
        amount: 7,
        currency: Currency::Eth,
    };
    match agent.build_transfer(&request) {
        Err(TransferError::InvalidAddress) => {}
        _ => panic!("malformed destination must be refused"),
    }
}

#[test]
fn execute_unknown_currency() {
    let reg = ChainRegistry::new();
    let agent = agent();
    let request = SendTx {
        to: "0x1111111111111111111111111111111111111111".to_string(),
        amount: 1,
        currency: Currency::Eth,
    };
    match transfer::execute(&reg, &agent, &request) {
        Err(TransferError::UnknownCurrency) => {}
        _ => panic!("unregistered currency must be refused"),
    }
}

#[test]
fn execute_resolves_transfer() {
    let mut reg = ChainRegistry::new();
    reg.register(eth_config("http://node1")).ok().unwrap();
    let agent = agent();
    let request = SendTx {
        to: "0x1111111111111111111111111111111111111111".to_string(),
        amount: 42,
        currency: Currency::Eth,
    };
    let (_client, tx) = transfer::execute(&reg, &agent, &request).ok().unwrap();
    assert_eq!(tx.value, 42);
    assert_eq!(tx.to.bytes().as_slice(), [0x11u8; 20].as_slice());
}

#[test]
fn execute_invalid_address() {
    let mut reg = ChainRegistry::new();
    reg.register(eth_config("http://node1")).ok().unwrap();
    let agent = agent();
    let request = SendTx {
        to: "xyz".to_string(),
        amount: 1,
        currency: Currency::Eth,
    };
    match transfer::execute(&reg, &agent, &request) {
        Err(TransferError::InvalidAddress) => {}
        _ => panic!("malformed destination must be refused"),
    }
}

#[test]
fn execute_bad_endpoint() {
    let mut reg = ChainRegistry::new();
    reg.register(eth_config("not a url")).ok().unwrap();
    let agent = agent();
    let request = SendTx {
        to: "0x1111111111111111111111111111111111111111".to_string(),
        amount: 1,
        currency: Currency::Eth,
    };
    match transfer::execute(&reg, &agent, &request) {
        Err(TransferError::Endpoint) => {}
        _ => panic!("unusable node URL must be refused"),
    }
}

#[test]
fn chain_client_rejects_bad_url() {
    assert!(ChainClient::new(&eth_config("not a url")).is_err());
    assert!(ChainClient::new(&eth_config("http://node1")).is_ok());
}

#[test]
fn decimal_string_whole_units() {
    assert_eq!(
        wei_to_eth(2_000_000_000_000_000_000).to_decimal_string(),
        "2.0"
    );
    assert_eq!(wei_to_eth(0).to_decimal_string(), "0.0");
}

#[test]
fn decimal_string_fractions() {
    assert_eq!(
        wei_to_eth(1_500_000_000_000_000_000).to_decimal_string(),
        "1.5"
    );
    assert_eq!(wei_to_eth(1).to_decimal_string(), "0.000000000000000001");
    assert_eq!(
        wei_to_eth(123_456_789_000_000_000_000).to_decimal_string(),
        "123.456789"
    );
}
