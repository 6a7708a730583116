//! Registration, validation and query behaviour on concrete values.

use archid_registry::commands::Command;
use archid_registry::contract::{execute, instantiate, query, Externals};
use archid_registry::error::ContractError;
use archid_registry::msg::{ExecuteMsg, InstantiateMsg, QueryMsg, QueryResponse};
use archid_registry::read_utils::{
    format_name, get_name_body, get_subdomain_prefix, invalid_char, validate_name,
    validate_subdomain,
};
use archid_registry::state::{classify, Config, NameRecord, Registry, SubDomainStatus};

const BASE_COST: u128 = 5000;
const BASE_EXPIRATION: u64 = 86400;
const NOW: u64 = 1_000_000;

fn fresh_registry() -> Registry {
    instantiate(InstantiateMsg {
        admin: "creator".to_string(),
        wallet: "wallet".to_string(),
        cw721: "mock_cw721".to_string(),
        base_cost: BASE_COST,
        base_expiration: BASE_EXPIRATION,
    })
}

fn no_externals() -> Externals {
    Externals {
        name_owner: None,
        subdomain_owner: None,
        metadata: None,
    }
}

fn mock_alice_registers_name(reg: &mut Registry) -> Vec<Command> {
    execute(
        reg,
        NOW,
        "alice_key".to_string(),
        Some(BASE_COST),
        ExecuteMsg::Register {
            name: "alice".to_string(),
        },
        no_externals(),
    )
    .expect("contract successfully handles Register message")
}

fn assert_name_resolver(reg: &Registry, now: u64, name: &str, expected: &str) {
    let res = query(
        reg,
        now,
        QueryMsg::ResolveRecord {
            name: name.to_string(),
        },
    )
    .unwrap();
    match res {
        QueryResponse::Record(value) => {
            assert_eq!(Some(expected.to_string()), value.address);
        }
        other => panic!("unexpected response: {:?}", other),
    }
}

#[test]
fn proper_init() {
    let reg = fresh_registry();
    let res = query(&reg, NOW, QueryMsg::Config {}).unwrap();
    match res {
        QueryResponse::Config(c) => {
            assert_eq!(c.admin, "creator");
            assert_eq!(c.wallet, "wallet");
            assert_eq!(c.cw721, "mock_cw721");
            assert_eq!(c.base_cost, BASE_COST);
            assert_eq!(c.base_expiration, BASE_EXPIRATION);
        }
        other => panic!("unexpected response: {:?}", other),
    }
}

#[test]
fn register_available_name_and_query_works() {
    let mut reg = fresh_registry();
    mock_alice_registers_name(&mut reg);
    assert_name_resolver(&reg, NOW, "alice.arch", "alice_key");
}

#[test]
fn fails_on_register_already_taken_name() {
    let mut reg = fresh_registry();
    mock_alice_registers_name(&mut reg);

    let res = execute(
        &mut reg,
        NOW + 10,
        "bob_key".to_string(),
        Some(BASE_COST),
        ExecuteMsg::Register {
            name: "alice".to_string(),
        },
        no_externals(),
    );
    match res {
        Ok(_) => panic!("Must return error"),
        Err(ContractError::NameTaken { .. }) => {}
        Err(_) => panic!("Unknown error"),
    }

    let res = execute(
        &mut reg,
        NOW + 10,
        "alice_key".to_string(),
        Some(BASE_COST),
        ExecuteMsg::Register {
            name: "alice".to_string(),
        },
        no_externals(),
    );
    match res {
        Ok(_) => panic!("Must return error"),
        Err(ContractError::NameTaken { .. }) => {}
        Err(e) => panic!("Unexpected error: {:?}", e),
    }
}

#[test]
fn register_available_name_fails_with_invalid_name() {
    let mut reg = fresh_registry();

    match execute(
        &mut reg,
        NOW,
        "bob_key".to_string(),
        Some(BASE_COST),
        ExecuteMsg::Register {
            name: "hi".to_string(),
        },
        no_externals(),
    ) {
        Ok(_) => panic!("Must return error"),
        Err(ContractError::NameTooShort { .. }) => {}
        Err(_) => panic!("Unknown error"),
    }

    match execute(
        &mut reg,
        NOW,
        "bob_key".to_string(),
        Some(BASE_COST),
        ExecuteMsg::Register {
            name: "01234567890123456789012345678901234567890123456789012345678901234"
                .to_string(),
        },
        no_externals(),
    ) {
        Ok(_) => panic!("Must return error"),
        Err(ContractError::NameTooLong { .. }) => {}
        Err(_) => panic!("Unknown error"),
    }

    match execute(
        &mut reg,
        NOW,
        "bob_key".to_string(),
        Some(BASE_COST),
        ExecuteMsg::Register {
            name: "LOUD".to_string(),
        },
        no_externals(),
    ) {
        Ok(_) => panic!("Must return error"),
        Err(ContractError::InvalidCharacter { c }) => assert_eq!(c, 'L'),
        Err(_) => panic!("Unknown error"),
    }

    match execute(
        &mut reg,
        NOW,
        "bob_key".to_string(),
        Some(BASE_COST),
        ExecuteMsg::Register {
            name: "two words".to_string(),
        },
        no_externals(),
    ) {
        Ok(_) => panic!("Must return error"),
        Err(ContractError::InvalidCharacter { .. }) => {}
        Err(_) => panic!("Unknown error"),
    }
}

#[test]
fn returns_empty_on_query_unregistered_name() {
    let reg = fresh_registry();
    let res = query(
        &reg,
        NOW,
        QueryMsg::ResolveRecord {
            name: "alice".to_string(),
        },
    )
    .unwrap();
    match res {
        QueryResponse::Record(value) => assert_eq!(None, value.address),
        other => panic!("unexpected response: {:?}", other),
    }
}

#[test]
fn validate_name_accepts_all_allowed_characters() {
    assert!(validate_name(&"abc-def_019.arch".to_string()).is_ok());
    assert!(validate_name(&"abc.arch".to_string()).is_ok());
    // A 64-character body is the longest allowed.
    let body64 = "a".repeat(64);
    assert!(validate_name(&format!("{}.arch", body64)).is_ok());
    let body65 = "a".repeat(65);
    match validate_name(&format!("{}.arch", body65)) {
        Err(ContractError::NameTooLong {
            length,
            max_length,
        }) => {
            assert_eq!(length, 70);
            assert_eq!(max_length, 64);
        }
        other => panic!("unexpected: {:?}", other),
    }
    match validate_name(&"ab.arch".to_string()) {
        Err(ContractError::NameTooShort {
            length,
            min_length,
        }) => {
            assert_eq!(length, 7);
            assert_eq!(min_length, 3);
        }
        other => panic!("unexpected: {:?}", other),
    }
}

#[test]
fn validate_name_reports_first_invalid_character() {
    match validate_name(&"ab!cd$.arch".to_string()) {
        Err(ContractError::InvalidCharacter { c }) => assert_eq!(c, '!'),
        other => panic!("unexpected: {:?}", other),
    }
}

#[test]
fn validate_subdomain_checks_whole_label() {
    assert!(validate_subdomain(&"dapp".to_string()).is_ok());
    assert!(validate_subdomain(&"abc".to_string()).is_ok());
    match validate_subdomain(&"ab".to_string()) {
        Err(ContractError::NameTooShort { length, .. }) => assert_eq!(length, 2),
        other => panic!("unexpected: {:?}", other),
    }
    match validate_subdomain(&"dot.ted".to_string()) {
        Err(ContractError::InvalidCharacter { c }) => assert_eq!(c, '.'),
        other => panic!("unexpected: {:?}", other),
    }
}

#[test]
fn invalid_char_matches_the_allowed_classes() {
    for c in "abcxyz0159-_".chars() {
        assert!(!invalid_char(c));
    }
    for c in "A Z.!/:@[`{".chars() {
        assert!(invalid_char(c));
    }
}

#[test]
fn name_formatting_round_trip() {
    assert_eq!(format_name("alice".to_string()), "alice.arch");
    assert_eq!(get_name_body("alice.arch".to_string()), "alice");
    assert_eq!(
        get_name_body("dapp.simpletest.arch".to_string()),
        "dapp.simpletest"
    );
}

#[test]
fn subdomain_prefix_splits_routes_only() {
    assert_eq!(
        get_subdomain_prefix(&"dapp.simpletest.arch".to_string()),
        Some(("dapp".to_string(), "simpletest.arch".to_string()))
    );
    assert_eq!(get_subdomain_prefix(&"simpletest.arch".to_string()), None);
    assert_eq!(
        get_subdomain_prefix(&"a.b.c.arch".to_string()),
        None
    );
}

#[test]
fn classify_derives_the_four_way_status() {
    let rec = NameRecord {
        resolver: "someone".to_string(),
        created: NOW,
        expiration: NOW + 100,
    };
    assert_eq!(classify(None, false, NOW), SubDomainStatus::NewSubdomain);
    assert_eq!(
        classify(Some(&rec), false, NOW),
        SubDomainStatus::NewSubdomain
    );
    assert_eq!(
        classify(Some(&rec), true, NOW),
        SubDomainStatus::ExistingMintActive
    );
    assert_eq!(
        classify(Some(&rec), true, NOW + 100),
        SubDomainStatus::ExistingMintExpired
    );
}

#[test]
fn record_expiration_query_reports_lease_times() {
    let mut reg = fresh_registry();
    mock_alice_registers_name(&mut reg);
    let res = query(
        &reg,
        NOW,
        QueryMsg::RecordExpiration {
            name: "alice.arch".to_string(),
        },
    )
    .unwrap();
    match res {
        QueryResponse::Expiration(e) => {
            assert_eq!(e.created, NOW);
            assert_eq!(e.expiration, NOW + BASE_EXPIRATION);
        }
        other => panic!("unexpected response: {:?}", other),
    }
    // A name without a lease has no expiration to report.
    assert!(query(
        &reg,
        NOW,
        QueryMsg::RecordExpiration {
            name: "missing.arch".to_string(),
        },
    )
    .is_err());
}

#[test]
fn reverse_lookup_returns_active_names_only() {
    let mut reg = fresh_registry();
    mock_alice_registers_name(&mut reg);
    execute(
        &mut reg,
        NOW,
        "alice_key".to_string(),
        Some(BASE_COST),
        ExecuteMsg::Register {
            name: "second".to_string(),
        },
        no_externals(),
    )
    .unwrap();

    let res = query(
        &reg,
        NOW,
        QueryMsg::ResolveAddress {
            address: "alice_key".to_string(),
        },
    )
    .unwrap();
    match res {
        QueryResponse::Address(a) => {
            let mut names = a.names.expect("two active names");
            names.sort();
            assert_eq!(names, vec!["alice.arch".to_string(), "second.arch".to_string()]);
        }
        other => panic!("unexpected response: {:?}", other),
    }

    // After expiry nothing resolves to the address any more.
    let res = query(
        &reg,
        NOW + BASE_EXPIRATION,
        QueryMsg::ResolveAddress {
            address: "alice_key".to_string(),
        },
    )
    .unwrap();
    match res {
        QueryResponse::Address(a) => assert_eq!(a.names, None),
        other => panic!("unexpected response: {:?}", other),
    }
}

#[test]
fn payment_must_be_readable_and_sufficient() {
    let mut reg = fresh_registry();
    // No readable payment at all.
    match execute(
        &mut reg,
        NOW,
        "alice_key".to_string(),
        None,
        ExecuteMsg::Register {
            name: "alice".to_string(),
        },
        no_externals(),
    ) {
        Err(ContractError::Payment {}) => {}
        other => panic!("unexpected: {:?}", other),
    }
    // Less than one period's cost.
    match execute(
        &mut reg,
        NOW,
        "alice_key".to_string(),
        Some(BASE_COST - 1),
        ExecuteMsg::Register {
            name: "alice".to_string(),
        },
        no_externals(),
    ) {
        Err(ContractError::InvalidPayment { amount }) => assert_eq!(amount, BASE_COST - 1),
        other => panic!("unexpected: {:?}", other),
    }
}

#[test]
fn register_periods_follow_the_payment() {
    for (k, periods) in [(1u128, 1u64), (2, 2), (3, 3), (4, 3), (100, 3)] {
        let mut reg = fresh_registry();
        let cmds = execute(
            &mut reg,
            NOW,
            "alice_key".to_string(),
            Some(k * BASE_COST),
            ExecuteMsg::Register {
                name: "alice".to_string(),
            },
            no_externals(),
        )
        .unwrap();
        assert_eq!(cmds.len(), 1);
        let res = query(
            &reg,
            NOW,
            QueryMsg::RecordExpiration {
                name: "alice.arch".to_string(),
            },
        )
        .unwrap();
        match res {
            QueryResponse::Expiration(e) => {
                assert_eq!(e.expiration, NOW + periods * BASE_EXPIRATION);
            }
            other => panic!("unexpected response: {:?}", other),
        }
    }
}

#[test]
fn update_config_is_admin_gated() {
    let mut reg = fresh_registry();
    let new_config = Config {
        admin: "creator".to_string(),
        wallet: "wallet2".to_string(),
        cw721: "cw721_addr".to_string(),
        base_cost: 7000,
        base_expiration: 100,
    };
    match execute(
        &mut reg,
        NOW,
        "stranger".to_string(),
        None,
        ExecuteMsg::UpdateConfig {
            config: new_config.clone(),
        },
        no_externals(),
    ) {
        Err(ContractError::Unauthorized {}) => {}
        other => panic!("unexpected: {:?}", other),
    }
    let cmds = execute(
        &mut reg,
        NOW,
        "creator".to_string(),
        None,
        ExecuteMsg::UpdateConfig {
            config: new_config.clone(),
        },
        no_externals(),
    )
    .unwrap();
    assert!(cmds.is_empty());
    match query(&reg, NOW, QueryMsg::Config {}).unwrap() {
        QueryResponse::Config(c) => assert_eq!(c, new_config),
        other => panic!("unexpected response: {:?}", other),
    }
}

#[test]
fn withdraw_pays_the_treasury_wallet() {
    let mut reg = fresh_registry();
    match execute(
        &mut reg,
        NOW,
        "stranger".to_string(),
        None,
        ExecuteMsg::Withdraw { amount: 123 },
        no_externals(),
    ) {
        Err(ContractError::Unauthorized {}) => {}
        other => panic!("unexpected: {:?}", other),
    }
    let cmds = execute(
        &mut reg,
        NOW,
        "creator".to_string(),
        None,
        ExecuteMsg::Withdraw { amount: 123 },
        no_externals(),
    )
    .unwrap();
    assert_eq!(
        cmds,
        vec![Command::Send {
            to: "wallet".to_string(),
            amount: 123,
        }]
    );
}
