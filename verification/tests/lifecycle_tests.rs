//! Lifecycle scenarios: renewal, subdomains, removal, and the mirror
//! commands they emit.

use archid_registry::commands::Command;
use archid_registry::contract::{execute, instantiate, query, Externals};
use archid_registry::error::ContractError;
use archid_registry::metadata::Metadata;
use archid_registry::msg::{
    ExecuteMsg, InstantiateMsg, MetaDataUpdateMsg, QueryMsg, QueryResponse,
};
use archid_registry::state::{NameRecord, Registry};

const BASE_COST: u128 = 5000;
const BASE_EXPIRATION: u64 = 86400;
const NOW: u64 = 1_000_000;

fn fresh_registry() -> Registry {
    instantiate(InstantiateMsg {
        admin: "owner".to_string(),
        wallet: "wallet".to_string(),
        cw721: "mock_cw721".to_string(),
        base_cost: BASE_COST,
        base_expiration: BASE_EXPIRATION,
    })
}

fn no_externals() -> Externals {
    Externals {
        name_owner: None,
        subdomain_owner: None,
        metadata: None,
    }
}

fn with_owner(owner: &str, meta: Option<Metadata>) -> Externals {
    Externals {
        name_owner: Some(owner.to_string()),
        subdomain_owner: None,
        metadata: meta,
    }
}

/// The metadata a mint command carries: what the token ledger would
/// store, and so what the next query for the token's metadata returns.
fn mint_extension(cmds: &[Command]) -> Metadata {
    for c in cmds {
        if let Command::Mint { extension, .. } = c {
            return extension.clone();
        }
    }
    panic!("no mint command in {:?}", cmds);
}

fn register(reg: &mut Registry, sender: &str, name: &str, paid: u128, now: u64) -> Vec<Command> {
    execute(
        reg,
        now,
        sender.to_string(),
        Some(paid),
        ExecuteMsg::Register {
            name: name.to_string(),
        },
        no_externals(),
    )
    .expect("registration succeeds")
}

fn expiration_of(reg: &Registry, name: &str) -> u64 {
    match query(
        reg,
        NOW,
        QueryMsg::RecordExpiration {
            name: name.to_string(),
        },
    )
    .unwrap()
    {
        QueryResponse::Expiration(e) => e.expiration,
        other => panic!("unexpected response: {:?}", other),
    }
}

#[test]
fn basic_domain_test() {
    let mut reg = fresh_registry();

    // Registering without payment fails.
    assert!(execute(
        &mut reg,
        NOW,
        "mintnames".to_string(),
        None,
        ExecuteMsg::Register {
            name: "simpletest".to_string(),
        },
        no_externals(),
    )
    .is_err());

    let cmds = register(&mut reg, "mintnames", "simpletest", 5000, NOW);
    let domain_meta = mint_extension(&cmds);
    assert_eq!(domain_meta.name, Some("simpletest".to_string()));
    assert_eq!(
        domain_meta.description,
        Some("simpletest.arch domain".to_string())
    );
    assert_eq!(domain_meta.subdomains, Some(vec![]));

    // The same name cannot be taken while the lease is active.
    assert!(execute(
        &mut reg,
        NOW + 1,
        "mintnames".to_string(),
        Some(5000),
        ExecuteMsg::Register {
            name: "simpletest".to_string(),
        },
        no_externals(),
    )
    .is_err());

    let expiration = expiration_of(&reg, "simpletest.arch");
    assert_eq!(expiration, NOW + BASE_EXPIRATION);

    // First subdomain: minted under the domain owner's authority.
    let cmds = execute(
        &mut reg,
        NOW + 2,
        "mintnames".to_string(),
        None,
        ExecuteMsg::RegisterSubdomain {
            domain: "simpletest".to_string(),
            subdomain: "dapp".to_string(),
            new_resolver: "testtesttest".to_string(),
            new_owner: "testtesttest".to_string(),
            expiration,
        },
        with_owner("mintnames", Some(domain_meta.clone())),
    )
    .unwrap();
    let sub_meta = mint_extension(&cmds);
    assert_eq!(sub_meta.name, Some("dapp.simpletest".to_string()));
    assert_eq!(
        sub_meta.description,
        Some("dapp.simpletest.arch subdomain".to_string())
    );
    assert_eq!(sub_meta.image, None);
    assert_eq!(sub_meta.expiry, Some(expiration));
    assert_eq!(sub_meta.domain, Some("dapp.simpletest.arch".to_string()));
    assert_eq!(sub_meta.subdomains, None);
    assert_eq!(sub_meta.accounts, None);
    assert_eq!(sub_meta.websites, None);

    // The subdomain resolves.
    match query(
        &reg,
        NOW + 2,
        QueryMsg::ResolveRecord {
            name: "dapp.simpletest.arch".to_string(),
        },
    )
    .unwrap()
    {
        QueryResponse::Record(r) => {
            assert_eq!(r.address, Some("testtesttest".to_string()))
        }
        other => panic!("unexpected response: {:?}", other),
    }

    // The parent's mirror was extended with the new descriptor.
    let updated_parent = cmds
        .iter()
        .find_map(|c| match c {
            Command::UpdateMetadata { extension, .. } => Some(extension.clone()),
            _ => None,
        })
        .expect("a metadata update for the parent");
    let descriptors = updated_parent.subdomains.clone().unwrap();
    assert_eq!(descriptors.len(), 1);
    assert_eq!(descriptors[0].name, Some("dapp".to_string()));

    // Second subdomain against the updated mirror.
    let cmds = execute(
        &mut reg,
        NOW + 3,
        "mintnames".to_string(),
        None,
        ExecuteMsg::RegisterSubdomain {
            domain: "simpletest".to_string(),
            subdomain: "subdomain2".to_string(),
            new_resolver: "testtesttest".to_string(),
            new_owner: "testtesttest".to_string(),
            expiration,
        },
        with_owner("mintnames", Some(updated_parent)),
    )
    .unwrap();
    let sub_meta2 = mint_extension(&cmds);
    assert_eq!(sub_meta2.name, Some("subdomain2.simpletest".to_string()));
    assert_eq!(
        sub_meta2.description,
        Some("subdomain2.simpletest.arch subdomain".to_string())
    );
    let updated_parent2 = cmds
        .iter()
        .find_map(|c| match c {
            Command::UpdateMetadata { extension, .. } => Some(extension.clone()),
            _ => None,
        })
        .unwrap();
    assert_eq!(updated_parent2.subdomains.unwrap().len(), 2);
}

#[test]
fn test_expired_domains() {
    let mut reg = fresh_registry();
    let cmds = register(&mut reg, "mintnames", "simpletest", 5000, NOW);
    let domain_meta = mint_extension(&cmds);

    // Once the lease has run out, the name no longer resolves.
    let after = NOW + 86401;
    match query(
        &reg,
        after,
        QueryMsg::ResolveRecord {
            name: "simpletest.arch".to_string(),
        },
    )
    .unwrap()
    {
        QueryResponse::Record(r) => assert!(r.address == None),
        other => panic!("unexpected response: {:?}", other),
    }

    // The old owner cannot issue subdomains under an expired domain.
    assert!(execute(
        &mut reg,
        after,
        "mintnames".to_string(),
        None,
        ExecuteMsg::RegisterSubdomain {
            domain: "simpletest".to_string(),
            subdomain: "subdomain".to_string(),
            new_resolver: "testtesttest".to_string(),
            new_owner: "testtesttest".to_string(),
            expiration: after + 1000,
        },
        with_owner("mintnames", Some(domain_meta)),
    )
    .is_err());

    // Someone else takes the expired name over: the stale token is
    // burned before the fresh mint.
    let cmds = register(&mut reg, "mintothernames", "simpletest", 5000, after);
    assert_eq!(cmds.len(), 2);
    assert_eq!(
        cmds[0],
        Command::Burn {
            token_id: "simpletest.arch".to_string(),
        }
    );
    match &cmds[1] {
        Command::Mint {
            token_id,
            owner,
            extension,
        } => {
            assert_eq!(token_id, "simpletest.arch");
            assert_eq!(owner, "mintothernames");
            assert_eq!(extension.name, Some("simpletest".to_string()));
            assert_eq!(
                extension.description,
                Some("simpletest.arch domain".to_string())
            );
            assert_eq!(extension.image, None);
            assert_eq!(extension.domain, Some("simpletest.arch".to_string()));
            assert_eq!(extension.subdomains, Some(vec![]));
            assert_eq!(extension.accounts, Some(vec![]));
            assert_eq!(extension.websites, Some(vec![]));
        }
        other => panic!("unexpected command: {:?}", other),
    }
}

#[test]
fn test_subdomain_rules() {
    let mut reg = fresh_registry();
    let cmds = register(&mut reg, "mintnames", "simpletest", 5000, NOW);
    let domain_meta = mint_extension(&cmds);

    let sub_expiration = NOW + 43200;
    let cmds = execute(
        &mut reg,
        NOW,
        "mintnames".to_string(),
        None,
        ExecuteMsg::RegisterSubdomain {
            domain: "simpletest".to_string(),
            subdomain: "subdomain".to_string(),
            new_resolver: "mintothernames".to_string(),
            new_owner: "testtesttest".to_string(),
            expiration: sub_expiration,
        },
        with_owner("mintnames", Some(domain_meta.clone())),
    )
    .unwrap();
    let parent_meta = cmds
        .iter()
        .find_map(|c| match c {
            Command::UpdateMetadata { extension, .. } => Some(extension.clone()),
            _ => None,
        })
        .unwrap();

    // An actively minted subdomain cannot be re-registered.
    match execute(
        &mut reg,
        NOW + 1,
        "mintnames".to_string(),
        None,
        ExecuteMsg::RegisterSubdomain {
            domain: "simpletest".to_string(),
            subdomain: "subdomain".to_string(),
            new_resolver: "mintothernames".to_string(),
            new_owner: "testtesttest".to_string(),
            expiration: sub_expiration,
        },
        with_owner("mintnames", Some(parent_meta.clone())),
    ) {
        Err(ContractError::Unauthorized {}) => {}
        other => panic!("unexpected: {:?}", other),
    }

    // Only the subdomain token's owner may repoint it: the domain owner
    // is not authorized.
    assert!(execute(
        &mut reg,
        NOW + 1,
        "mintnames".to_string(),
        None,
        ExecuteMsg::UpdateResolver {
            name: "subdomain.simpletest".to_string(),
            new_resolver: "domain_owner".to_string(),
        },
        with_owner("testtesttest", Some(parent_meta.clone())),
    )
    .is_err());

    // The token's owner may.
    let cmds = execute(
        &mut reg,
        NOW + 1,
        "testtesttest".to_string(),
        None,
        ExecuteMsg::UpdateResolver {
            name: "subdomain.simpletest".to_string(),
            new_resolver: "domain_owner".to_string(),
        },
        with_owner("testtesttest", Some(parent_meta.clone())),
    )
    .unwrap();
    // The parent's mirrored descriptor follows the new resolver.
    let mirrored = cmds
        .iter()
        .find_map(|c| match c {
            Command::UpdateMetadata { extension, .. } => Some(extension.clone()),
            _ => None,
        })
        .unwrap();
    let descriptors = mirrored.subdomains.clone().unwrap();
    assert_eq!(descriptors[0].resolver, Some("domain_owner".to_string()));
    assert_eq!(descriptors[0].expiry, Some(sub_expiration));

    // After the subdomain expires, re-registration succeeds: one burn
    // first, one mint last.
    let later = NOW + 43205;
    let cmds = execute(
        &mut reg,
        later,
        "mintnames".to_string(),
        None,
        ExecuteMsg::RegisterSubdomain {
            domain: "simpletest".to_string(),
            subdomain: "subdomain".to_string(),
            new_resolver: "mintothernames".to_string(),
            new_owner: "testtesttest".to_string(),
            expiration: later + 1000,
        },
        with_owner("mintnames", Some(mirrored)),
    )
    .unwrap();
    assert_eq!(cmds.len(), 3);
    assert!(matches!(cmds[0], Command::Burn { .. }));
    assert!(matches!(cmds[1], Command::UpdateMetadata { .. }));
    assert!(matches!(cmds[2], Command::Mint { .. }));
    assert_eq!(
        cmds.iter()
            .filter(|c| matches!(c, Command::Burn { .. }))
            .count(),
        1
    );
    assert_eq!(
        cmds.iter()
            .filter(|c| matches!(c, Command::Mint { .. }))
            .count(),
        1
    );
}

#[test]
fn renewal_requires_exact_base_cost() {
    let mut reg = fresh_registry();
    let cmds = register(&mut reg, "alice_key", "alice", 5000, NOW);
    let meta = mint_extension(&cmds);

    // Any amount other than one period's cost fails.
    for bad in [0u128, 4999, 5001, 10000] {
        match execute(
            &mut reg,
            NOW + 100,
            "alice_key".to_string(),
            Some(bad),
            ExecuteMsg::RenewRegistration {
                name: "alice".to_string(),
            },
            with_owner("alice_key", Some(meta.clone())),
        ) {
            Err(ContractError::InvalidPayment { amount }) => assert_eq!(amount, bad),
            other => panic!("unexpected: {:?}", other),
        }
    }

    // Only the token's owner may renew.
    match execute(
        &mut reg,
        NOW + 100,
        "bob_key".to_string(),
        Some(5000),
        ExecuteMsg::RenewRegistration {
            name: "alice".to_string(),
        },
        with_owner("alice_key", Some(meta.clone())),
    ) {
        Err(ContractError::Unauthorized {}) => {}
        other => panic!("unexpected: {:?}", other),
    }

    // A renewal long before the expiry still anchors at the old expiry.
    let cmds = execute(
        &mut reg,
        NOW + 100,
        "alice_key".to_string(),
        Some(5000),
        ExecuteMsg::RenewRegistration {
            name: "alice".to_string(),
        },
        with_owner("alice_key", Some(meta.clone())),
    )
    .unwrap();
    assert_eq!(
        expiration_of(&reg, "alice.arch"),
        NOW + 2 * BASE_EXPIRATION
    );
    // The mirror follows the new expiry.
    match &cmds[0] {
        Command::UpdateMetadata {
            token_id,
            extension,
        } => {
            assert_eq!(token_id, "alice.arch");
            assert_eq!(extension.expiry, Some(NOW + 2 * BASE_EXPIRATION));
        }
        other => panic!("unexpected command: {:?}", other),
    }

    // An expired lease cannot be renewed ...
    match execute(
        &mut reg,
        NOW + 10 * BASE_EXPIRATION,
        "alice_key".to_string(),
        Some(5000),
        ExecuteMsg::RenewRegistration {
            name: "alice".to_string(),
        },
        with_owner("alice_key", Some(meta.clone())),
    ) {
        Err(ContractError::NameOwnershipExpired { name }) => assert_eq!(name, "alice.arch"),
        other => panic!("unexpected: {:?}", other),
    }
    // ... and a missing one is rejected outright.
    match execute(
        &mut reg,
        NOW,
        "alice_key".to_string(),
        Some(5000),
        ExecuteMsg::RenewRegistration {
            name: "missing".to_string(),
        },
        with_owner("alice_key", Some(meta)),
    ) {
        Err(ContractError::InvalidInput {}) => {}
        other => panic!("unexpected: {:?}", other),
    }
}

#[test]
fn lease_scenario_with_renewal_and_clamped_subdomain() {
    // The full walk: register, renew, issue a clamped subdomain, then
    // find no room left to extend it.
    let mut reg = fresh_registry();
    let t = NOW;
    let cmds = register(&mut reg, "owner_key", "alice", 5000, t);
    assert_eq!(expiration_of(&reg, "alice.arch"), t + 86400);
    let meta = mint_extension(&cmds);

    execute(
        &mut reg,
        t + 100,
        "owner_key".to_string(),
        Some(5000),
        ExecuteMsg::RenewRegistration {
            name: "alice".to_string(),
        },
        with_owner("owner_key", Some(meta.clone())),
    )
    .unwrap();
    assert_eq!(expiration_of(&reg, "alice.arch"), t + 172800);

    // The subdomain's requested expiration exceeds the domain's and is
    // clamped to it; a mint is emitted.
    let cmds = execute(
        &mut reg,
        t + 200,
        "owner_key".to_string(),
        None,
        ExecuteMsg::RegisterSubdomain {
            domain: "alice".to_string(),
            subdomain: "shop".to_string(),
            new_resolver: "shop_wallet".to_string(),
            new_owner: "shop_wallet".to_string(),
            expiration: t + 200000,
        },
        with_owner("owner_key", Some(meta)),
    )
    .unwrap();
    assert_eq!(expiration_of(&reg, "shop.alice.arch"), t + 172800);
    assert!(cmds.iter().any(|c| matches!(c, Command::Mint { .. })));
    let parent_meta = cmds
        .iter()
        .find_map(|c| match c {
            Command::UpdateMetadata { extension, .. } => Some(extension.clone()),
            _ => None,
        })
        .unwrap();

    // Subdomain expiry equals domain expiry: no valid extension exists
    // until the domain itself is renewed.
    match execute(
        &mut reg,
        t + 300,
        "owner_key".to_string(),
        None,
        ExecuteMsg::ExtendSubdomainExpiry {
            domain: "alice".to_string(),
            subdomain: "shop".to_string(),
            expiration: t + 172800 + 1,
        },
        with_owner("owner_key", Some(parent_meta)),
    ) {
        Err(ContractError::InvalidInput {}) => {}
        other => panic!("unexpected: {:?}", other),
    }
}

#[test]
fn extension_moves_expiry_strictly_forward() {
    let mut reg = fresh_registry();
    let cmds = register(&mut reg, "owner_key", "alice", 3 * 5000, NOW);
    let meta = mint_extension(&cmds);
    let sub_exp = NOW + 1000;
    let cmds = execute(
        &mut reg,
        NOW,
        "owner_key".to_string(),
        None,
        ExecuteMsg::RegisterSubdomain {
            domain: "alice".to_string(),
            subdomain: "shop".to_string(),
            new_resolver: "shop_wallet".to_string(),
            new_owner: "shop_wallet".to_string(),
            expiration: sub_exp,
        },
        with_owner("owner_key", Some(meta)),
    )
    .unwrap();
    let parent_meta = cmds
        .iter()
        .find_map(|c| match c {
            Command::UpdateMetadata { extension, .. } => Some(extension.clone()),
            _ => None,
        })
        .unwrap();

    // No strict improvement: rejected.
    match execute(
        &mut reg,
        NOW + 1,
        "owner_key".to_string(),
        None,
        ExecuteMsg::ExtendSubdomainExpiry {
            domain: "alice".to_string(),
            subdomain: "shop".to_string(),
            expiration: sub_exp,
        },
        with_owner("owner_key", Some(parent_meta.clone())),
    ) {
        Err(ContractError::InvalidInput {}) => {}
        other => panic!("unexpected: {:?}", other),
    }

    // A later instant within the domain's lease works, and the mirror
    // follows.
    let cmds = execute(
        &mut reg,
        NOW + 1,
        "owner_key".to_string(),
        None,
        ExecuteMsg::ExtendSubdomainExpiry {
            domain: "alice".to_string(),
            subdomain: "shop".to_string(),
            expiration: sub_exp + 500,
        },
        with_owner("owner_key", Some(parent_meta)),
    )
    .unwrap();
    assert_eq!(expiration_of(&reg, "shop.alice.arch"), sub_exp + 500);
    match &cmds[0] {
        Command::UpdateMetadata { extension, .. } => {
            let d = extension.subdomains.clone().unwrap();
            assert_eq!(d[0].expiry, Some(sub_exp + 500));
        }
        other => panic!("unexpected command: {:?}", other),
    }
    // Extensions never mint or burn.
    assert_eq!(cmds.len(), 1);
}

#[test]
fn remove_subdomain_protects_active_holders() {
    let mut reg = fresh_registry();
    let cmds = register(&mut reg, "owner_key", "alice", 5000, NOW);
    let meta = mint_extension(&cmds);
    let cmds = execute(
        &mut reg,
        NOW,
        "owner_key".to_string(),
        None,
        ExecuteMsg::RegisterSubdomain {
            domain: "alice".to_string(),
            subdomain: "shop".to_string(),
            new_resolver: "holder".to_string(),
            new_owner: "holder".to_string(),
            expiration: NOW + 1000,
        },
        with_owner("owner_key", Some(meta)),
    )
    .unwrap();
    let parent_meta = cmds
        .iter()
        .find_map(|c| match c {
            Command::UpdateMetadata { extension, .. } => Some(extension.clone()),
            _ => None,
        })
        .unwrap();

    // The domain owner alone cannot remove the active subdomain.
    match execute(
        &mut reg,
        NOW + 1,
        "owner_key".to_string(),
        None,
        ExecuteMsg::RemoveSubdomain {
            domain: "alice".to_string(),
            subdomain: "shop".to_string(),
        },
        Externals {
            name_owner: Some("owner_key".to_string()),
            subdomain_owner: Some("holder".to_string()),
            metadata: Some(parent_meta.clone()),
        },
    ) {
        Err(ContractError::NameTaken { name }) => assert_eq!(name, "shop.alice.arch"),
        other => panic!("unexpected: {:?}", other),
    }

    // A caller who is not the domain owner is rejected outright.
    match execute(
        &mut reg,
        NOW + 1,
        "holder".to_string(),
        None,
        ExecuteMsg::RemoveSubdomain {
            domain: "alice".to_string(),
            subdomain: "shop".to_string(),
        },
        Externals {
            name_owner: Some("owner_key".to_string()),
            subdomain_owner: Some("holder".to_string()),
            metadata: Some(parent_meta.clone()),
        },
    ) {
        Err(ContractError::Unauthorized {}) => {}
        other => panic!("unexpected: {:?}", other),
    }

    // Once expired, the domain owner removes it without the holder's
    // consent: mirror update, then burn.
    let cmds = execute(
        &mut reg,
        NOW + 1000,
        "owner_key".to_string(),
        None,
        ExecuteMsg::RemoveSubdomain {
            domain: "alice".to_string(),
            subdomain: "shop".to_string(),
        },
        Externals {
            name_owner: Some("owner_key".to_string()),
            subdomain_owner: None,
            metadata: Some(parent_meta.clone()),
        },
    )
    .unwrap();
    assert_eq!(cmds.len(), 2);
    match &cmds[0] {
        Command::UpdateMetadata { extension, .. } => {
            assert_eq!(extension.subdomains.clone().unwrap().len(), 0);
        }
        other => panic!("unexpected command: {:?}", other),
    }
    assert_eq!(
        cmds[1],
        Command::Burn {
            token_id: "shop.alice.arch".to_string(),
        }
    );
    // The lease row is gone.
    assert!(query(
        &reg,
        NOW,
        QueryMsg::RecordExpiration {
            name: "shop.alice.arch".to_string(),
        },
    )
    .is_err());
}

#[test]
fn remove_active_subdomain_with_holder_consent() {
    let mut reg = fresh_registry();
    let cmds = register(&mut reg, "both_keys", "alice", 5000, NOW);
    let meta = mint_extension(&cmds);
    let cmds = execute(
        &mut reg,
        NOW,
        "both_keys".to_string(),
        None,
        ExecuteMsg::RegisterSubdomain {
            domain: "alice".to_string(),
            subdomain: "shop".to_string(),
            new_resolver: "shop_wallet".to_string(),
            new_owner: "both_keys".to_string(),
            expiration: NOW + 1000,
        },
        with_owner("both_keys", Some(meta)),
    )
    .unwrap();
    let parent_meta = cmds
        .iter()
        .find_map(|c| match c {
            Command::UpdateMetadata { extension, .. } => Some(extension.clone()),
            _ => None,
        })
        .unwrap();

    // The caller owns both the domain and the subdomain tokens.
    let cmds = execute(
        &mut reg,
        NOW + 1,
        "both_keys".to_string(),
        None,
        ExecuteMsg::RemoveSubdomain {
            domain: "alice".to_string(),
            subdomain: "shop".to_string(),
        },
        Externals {
            name_owner: Some("both_keys".to_string()),
            subdomain_owner: Some("both_keys".to_string()),
            metadata: Some(parent_meta),
        },
    )
    .unwrap();
    assert_eq!(cmds.len(), 2);
    assert!(matches!(cmds[1], Command::Burn { .. }));
}

#[test]
fn user_metadata_update_replaces_descriptive_fields_only() {
    let mut reg = fresh_registry();
    let cmds = register(&mut reg, "alice_key", "alice", 5000, NOW);
    let meta = mint_extension(&cmds);

    let cmds = execute(
        &mut reg,
        NOW + 1,
        "alice_key".to_string(),
        None,
        ExecuteMsg::UpdateUserDomainData {
            name: "alice".to_string(),
            metadata_update: MetaDataUpdateMsg {
                description: Some("my own words".to_string()),
                image: Some("ipfs://img".to_string()),
                accounts: Some(vec![]),
                websites: None,
            },
        },
        with_owner("alice_key", Some(meta.clone())),
    )
    .unwrap();
    match &cmds[0] {
        Command::UpdateMetadata {
            token_id,
            extension,
        } => {
            assert_eq!(token_id, "alice.arch");
            assert_eq!(extension.name, Some("alice.arch".to_string()));
            assert_eq!(extension.description, Some("my own words".to_string()));
            assert_eq!(extension.image, Some("ipfs://img".to_string()));
            assert_eq!(extension.created, meta.created);
            assert_eq!(extension.expiry, meta.expiry);
            assert_eq!(extension.domain, meta.domain);
            assert_eq!(extension.subdomains, meta.subdomains);
            assert_eq!(extension.accounts, Some(vec![]));
            assert_eq!(extension.websites, None);
        }
        other => panic!("unexpected command: {:?}", other),
    }

    // Only the token's owner may.
    match execute(
        &mut reg,
        NOW + 1,
        "bob_key".to_string(),
        None,
        ExecuteMsg::UpdateUserDomainData {
            name: "alice".to_string(),
            metadata_update: MetaDataUpdateMsg {
                description: None,
                image: None,
                accounts: None,
                websites: None,
            },
        },
        with_owner("alice_key", Some(meta)),
    ) {
        Err(ContractError::Unauthorized {}) => {}
        other => panic!("unexpected: {:?}", other),
    }
}

#[test]
fn renewal_without_owner_answer_aborts() {
    let mut reg = fresh_registry();
    register(&mut reg, "alice_key", "alice", 5000, NOW);
    // The host could not learn the token's owner: the invocation
    // aborts with the host-failure error, changing nothing.
    match execute(
        &mut reg,
        NOW + 1,
        "alice_key".to_string(),
        Some(5000),
        ExecuteMsg::RenewRegistration {
            name: "alice".to_string(),
        },
        no_externals(),
    ) {
        Err(ContractError::Std {}) => {}
        other => panic!("unexpected: {:?}", other),
    }
    assert_eq!(expiration_of(&reg, "alice.arch"), NOW + BASE_EXPIRATION);
}

#[test]
fn update_resolver_on_plain_domain_keeps_lease_times() {
    let mut reg = fresh_registry();
    register(&mut reg, "alice_key", "alice", 5000, NOW);

    // Missing owner answer aborts.
    match execute(
        &mut reg,
        NOW + 1,
        "alice_key".to_string(),
        None,
        ExecuteMsg::UpdateResolver {
            name: "alice".to_string(),
            new_resolver: "elsewhere".to_string(),
        },
        no_externals(),
    ) {
        Err(ContractError::Std {}) => {}
        other => panic!("unexpected: {:?}", other),
    }

    // Only the token's owner may repoint.
    match execute(
        &mut reg,
        NOW + 1,
        "bob_key".to_string(),
        None,
        ExecuteMsg::UpdateResolver {
            name: "alice".to_string(),
            new_resolver: "elsewhere".to_string(),
        },
        with_owner("alice_key", None),
    ) {
        Err(ContractError::Unauthorized {}) => {}
        other => panic!("unexpected: {:?}", other),
    }

    // A plain domain needs no mirror update: the batch is empty, the
    // resolver changes, and the lease times stay.
    let cmds = execute(
        &mut reg,
        NOW + 1,
        "alice_key".to_string(),
        None,
        ExecuteMsg::UpdateResolver {
            name: "alice".to_string(),
            new_resolver: "elsewhere".to_string(),
        },
        with_owner("alice_key", None),
    )
    .unwrap();
    assert!(cmds.is_empty());
    match query(
        &reg,
        NOW + 1,
        QueryMsg::ResolveRecord {
            name: "alice.arch".to_string(),
        },
    )
    .unwrap()
    {
        QueryResponse::Record(r) => {
            assert_eq!(r.address, Some("elsewhere".to_string()));
            assert_eq!(r.expiration, NOW + BASE_EXPIRATION);
        }
        other => panic!("unexpected response: {:?}", other),
    }

    // An expired lease cannot be repointed.
    match execute(
        &mut reg,
        NOW + BASE_EXPIRATION,
        "alice_key".to_string(),
        None,
        ExecuteMsg::UpdateResolver {
            name: "alice".to_string(),
            new_resolver: "another".to_string(),
        },
        with_owner("alice_key", None),
    ) {
        Err(ContractError::NameOwnershipExpired { name }) => assert_eq!(name, "alice.arch"),
        other => panic!("unexpected: {:?}", other),
    }
}

#[test]
fn arithmetic_beyond_machine_range_aborts() {
    // A base period so long that even one period overflows the clock.
    let mut reg = instantiate(InstantiateMsg {
        admin: "owner".to_string(),
        wallet: "wallet".to_string(),
        cw721: "mock_cw721".to_string(),
        base_cost: BASE_COST,
        base_expiration: u64::MAX,
    });
    match execute(
        &mut reg,
        NOW,
        "alice_key".to_string(),
        Some(BASE_COST),
        ExecuteMsg::Register {
            name: "alice".to_string(),
        },
        no_externals(),
    ) {
        Err(ContractError::Std {}) => {}
        other => panic!("unexpected: {:?}", other),
    }

    // A zero base cost leaves the period computation undefined.
    let mut reg = instantiate(InstantiateMsg {
        admin: "owner".to_string(),
        wallet: "wallet".to_string(),
        cw721: "mock_cw721".to_string(),
        base_cost: 0,
        base_expiration: BASE_EXPIRATION,
    });
    match execute(
        &mut reg,
        NOW,
        "alice_key".to_string(),
        Some(BASE_COST),
        ExecuteMsg::Register {
            name: "alice".to_string(),
        },
        no_externals(),
    ) {
        Err(ContractError::Std {}) => {}
        other => panic!("unexpected: {:?}", other),
    }
}

#[test]
fn renewal_resets_creation_and_resolver_to_the_renewing_owner() {
    let mut reg = fresh_registry();
    let cmds = register(&mut reg, "alice_key", "alice", 5000, NOW);
    let meta = mint_extension(&cmds);
    execute(
        &mut reg,
        NOW + 50,
        "alice_key".to_string(),
        Some(BASE_COST),
        ExecuteMsg::RenewRegistration {
            name: "alice".to_string(),
        },
        with_owner("alice_key", Some(meta)),
    )
    .unwrap();
    match query(
        &reg,
        NOW + 50,
        QueryMsg::RecordExpiration {
            name: "alice.arch".to_string(),
        },
    )
    .unwrap()
    {
        QueryResponse::Expiration(e) => {
            // The row's creation time moves to the renewal instant; the
            // expiry extends from the old expiry.
            assert_eq!(e.created, NOW + 50);
            assert_eq!(e.expiration, NOW + 2 * BASE_EXPIRATION);
        }
        other => panic!("unexpected response: {:?}", other),
    }
}

#[test]
fn extension_without_parent_lease_is_invalid_input() {
    // A subdomain row without its parent's row is a structural
    // violation: the extension is rejected as invalid input.
    let mut reg = fresh_registry();
    reg.save_record(
        &"shop.alice.arch".to_string(),
        NameRecord {
            resolver: "holder".to_string(),
            created: NOW,
            expiration: NOW + 1000,
        },
    );
    match execute(
        &mut reg,
        NOW + 1,
        "owner_key".to_string(),
        None,
        ExecuteMsg::ExtendSubdomainExpiry {
            domain: "alice".to_string(),
            subdomain: "shop".to_string(),
            expiration: NOW + 2000,
        },
        with_owner("owner_key", None),
    ) {
        Err(ContractError::InvalidInput {}) => {}
        other => panic!("unexpected: {:?}", other),
    }
    // The missing subdomain row itself is reported the same way.
    match execute(
        &mut reg,
        NOW + 1,
        "owner_key".to_string(),
        None,
        ExecuteMsg::ExtendSubdomainExpiry {
            domain: "alice".to_string(),
            subdomain: "other".to_string(),
            expiration: NOW + 2000,
        },
        with_owner("owner_key", None),
    ) {
        Err(ContractError::InvalidInput {}) => {}
        other => panic!("unexpected: {:?}", other),
    }
}
