//! The registry's entry points: initialisation, the execute dispatcher
//! and the query dispatcher.
//!
//! The host decodes an incoming message, queries the token ledger for
//! the answers the operation will need ([`Externals`]), reads the
//! attached payment, and calls [`execute`]; it then applies the
//! returned command batch and the registry's new state atomically, or
//! discards both on an error.

use vstd::prelude::*;

verus! {

use crate::commands::Command;
use crate::error::{ContractError, ErrorV};
use crate::handlers::{
    execute_extend_subdomain_expiry,
    execute_register,
    execute_remove_subdomain,
    execute_renew_registration,
    execute_set_subdomain,
    execute_update_config,
    execute_update_resolver,
    execute_user_metadata_update,
    execute_withdraw_fees,
    extend_subdomain_outcome,
    realises,
    register_outcome,
    remove_subdomain_outcome,
    renew_outcome,
    set_subdomain_outcome,
    update_config_outcome,
    update_resolver_outcome,
    user_metadata_update_outcome,
    withdraw_outcome,
    OutcomeV,
};
use crate::metadata::{Metadata, MetadataV};
use crate::msg::{ExecuteMsg, InstantiateMsg, QueryMsg, QueryResponse};
use crate::read_utils::{
    format_name,
    lemma_suffix_roundtrip,
    query_resolver,
    query_resolver_address,
    query_resolver_expiration,
    resolve_record_view,
    with_suffix,
};
use crate::state::{resolves_to, Config, Registry, RegistryV};

/// The answers of the host's token-ledger queries for one invocation:
/// the owner of the operation's main token, the owner of the subdomain
/// token (for a removal), and the metadata the relevant token currently
/// carries.  `None` records that the query failed or was not made.
pub struct Externals {
    pub name_owner: Option<String>,
    pub subdomain_owner: Option<String>,
    pub metadata: Option<Metadata>,
}

/// Sets the registry up with its first configuration; no leases, no
/// minted names.
pub fn instantiate(msg: InstantiateMsg) -> (r: Registry)
    ensures
        r.wf(),
        r@.config.admin == msg.admin@,
        r@.config.wallet == msg.wallet@,
        r@.config.cw721 == msg.cw721@,
        r@.config.base_cost == msg.base_cost,
        r@.config.base_expiration == msg.base_expiration,
        r@.records == Map::<Seq<char>, crate::state::NameRecordV>::empty(),
        r@.minted == Set::<Seq<char>>::empty(),
{
    Registry::new(
        Config {
            admin: msg.admin,
            wallet: msg.wallet,
            cw721: msg.cw721,
            base_cost: msg.base_cost,
            base_expiration: msg.base_expiration,
        },
    )
}

/// The outcome of one execute invocation: the message picks the
/// operation, and raw names are made fully qualified first.
pub open spec fn execute_outcome(
    m: RegistryV,
    now: u64,
    sender: Seq<char>,
    funds: Option<u128>,
    msg: ExecuteMsg,
    name_owner: Option<Seq<char>>,
    subdomain_owner: Option<Seq<char>>,
    metadata: Option<MetadataV>,
) -> OutcomeV {
    match msg {
        ExecuteMsg::Register { name } => register_outcome(
            m,
            with_suffix(name@),
            sender,
            funds,
            now,
        ),
        ExecuteMsg::Withdraw { amount } => withdraw_outcome(m, sender, amount),
        ExecuteMsg::RenewRegistration { name } => renew_outcome(
            m,
            with_suffix(name@),
            sender,
            funds,
            name_owner,
            metadata,
            now,
        ),
        ExecuteMsg::ExtendSubdomainExpiry { domain, subdomain, expiration } => extend_subdomain_outcome(
            m,
            with_suffix(domain@),
            subdomain@,
            expiration,
            sender,
            name_owner,
            metadata,
            now,
        ),
        ExecuteMsg::UpdateResolver { name, new_resolver } => update_resolver_outcome(
            m,
            with_suffix(name@),
            new_resolver@,
            sender,
            name_owner,
            metadata,
            now,
        ),
        ExecuteMsg::RegisterSubdomain {
            domain,
            subdomain,
            new_resolver,
            new_owner,
            expiration,
        } => set_subdomain_outcome(
            m,
            with_suffix(domain@),
            subdomain@,
            new_resolver@,
            new_owner@,
            expiration,
            sender,
            name_owner,
            metadata,
            now,
        ),
        ExecuteMsg::RemoveSubdomain { domain, subdomain } => remove_subdomain_outcome(
            m,
            with_suffix(domain@),
            subdomain@,
            sender,
            name_owner,
            subdomain_owner,
            metadata,
            now,
        ),
        ExecuteMsg::UpdateConfig { config } => update_config_outcome(m, sender, config@),
        ExecuteMsg::UpdateUserDomainData { name, metadata_update } => user_metadata_update_outcome(
            m,
            with_suffix(name@),
            metadata_update@,
            sender,
            name_owner,
            metadata,
        ),
    }
}

/// Runs one state-changing invocation: qualifies the raw names in the
/// message and dispatches to the operation's handler.  On an error the
/// registry is left exactly as it was.
pub fn execute(
    reg: &mut Registry,
    now: u64,
    sender: String,
    funds: Option<u128>,
    msg: ExecuteMsg,
    ext: Externals,
) -> (r: Result<Vec<Command>, ContractError>)
    requires
        old(reg).wf(),
    ensures
        final(reg).wf(),
        realises(
            execute_outcome(
                old(reg)@,
                now,
                sender@,
                funds,
                msg,
                ext.name_owner.deep_view(),
                ext.subdomain_owner.deep_view(),
                ext.metadata.deep_view(),
            ),
            final(reg)@,
            r,
        ),
{
    let Externals { name_owner, subdomain_owner, metadata } = ext;
    match msg {
        ExecuteMsg::Register { name } => {
            proof {
                lemma_suffix_roundtrip(name@);
            }
            execute_register(reg, now, sender, funds, format_name(name))
        },
        ExecuteMsg::Withdraw { amount } => execute_withdraw_fees(reg, sender, amount),
        ExecuteMsg::RenewRegistration { name } => {
            proof {
                lemma_suffix_roundtrip(name@);
            }
            execute_renew_registration(
                reg,
                now,
                sender,
                funds,
                format_name(name),
                name_owner,
                metadata,
            )
        },
        ExecuteMsg::ExtendSubdomainExpiry { domain, subdomain, expiration } => {
            proof {
                lemma_suffix_roundtrip(domain@);
            }
            execute_extend_subdomain_expiry(
                reg,
                now,
                sender,
                format_name(domain),
                subdomain,
                expiration,
                name_owner,
                metadata,
            )
        },
        ExecuteMsg::UpdateResolver { name, new_resolver } => execute_update_resolver(
            reg,
            now,
            sender,
            format_name(name),
            new_resolver,
            name_owner,
            metadata,
        ),
        ExecuteMsg::RegisterSubdomain {
            domain,
            subdomain,
            new_resolver,
            new_owner,
            expiration,
        } => {
            proof {
                lemma_suffix_roundtrip(domain@);
            }
            execute_set_subdomain(
                reg,
                now,
                sender,
                format_name(domain),
                subdomain,
                new_resolver,
                new_owner,
                expiration,
                name_owner,
                metadata,
            )
        },
        ExecuteMsg::RemoveSubdomain { domain, subdomain } => execute_remove_subdomain(
            reg,
            now,
            sender,
            format_name(domain),
            subdomain,
            name_owner,
            subdomain_owner,
            metadata,
        ),
        ExecuteMsg::UpdateConfig { config } => execute_update_config(reg, sender, config),
        ExecuteMsg::UpdateUserDomainData { name, metadata_update } => execute_user_metadata_update(
            reg,
            sender,
            format_name(name),
            metadata_update,
            name_owner,
            metadata,
        ),
    }
}

/// Answers a read-only query.  Resolution and reverse lookup always
/// answer; asking for the expiration of a name that holds no lease
/// fails with the host-failure error.
pub fn query(reg: &Registry, now: u64, msg: QueryMsg) -> (r: Result<QueryResponse, ContractError>)
    requires
        reg.wf(),
    ensures
        match msg {
            QueryMsg::ResolveRecord { name } => r matches Ok(QueryResponse::Record(resp)) && resp@
                == resolve_record_view(reg@, name@, now),
            QueryMsg::RecordExpiration { name } => {
                if reg@.records.contains_key(name@) {
                    r matches Ok(QueryResponse::Expiration(resp)) && resp.created
                        == reg@.records[name@].created && resp.expiration
                        == reg@.records[name@].expiration
                } else {
                    r matches Err(e) && e@ == ErrorV::Std
                }
            },
            QueryMsg::ResolveAddress { address } => r matches Ok(QueryResponse::Address(resp))
                && (match resp.names {
                None => forall|k: Seq<char>| !resolves_to(reg@, k, address@, now),
                Some(_) => {
                    let names = resp@.names->Some_0;
                    names.len() > 0 && (forall|k: Seq<char>|
                        names.contains(k) <==> resolves_to(reg@, k, address@, now)) && (forall|
                        t1: int,
                        t2: int,
                    |
                        0 <= t1 < t2 < names.len() ==> names[t1] != names[t2])
                },
            }),
            QueryMsg::Config {} => r matches Ok(QueryResponse::Config(c)) && c@ == reg@.config,
        },
{
    match msg {
        QueryMsg::ResolveRecord { name } => Ok(
            QueryResponse::Record(query_resolver(reg, now, &name)),
        ),
        QueryMsg::RecordExpiration { name } => match query_resolver_expiration(reg, &name) {
            Some(resp) => Ok(QueryResponse::Expiration(resp)),
            None => Err(ContractError::Std {}),
        },
        QueryMsg::ResolveAddress { address } => Ok(
            QueryResponse::Address(query_resolver_address(reg, now, &address)),
        ),
        QueryMsg::Config {} => {
            let c = reg.config();
            Ok(
                QueryResponse::Config(
                    Config {
                        admin: c.admin.clone(),
                        wallet: c.wallet.clone(),
                        cw721: c.cw721.clone(),
                        base_cost: c.base_cost,
                        base_expiration: c.base_expiration,
                    },
                ),
            )
        },
    }
}

} // verus!
