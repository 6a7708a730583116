//! The lifecycle engine: the state-changing operations of the registry.
//!
//! Every operation is a pure function of the registry's state, the
//! caller, the clock, and the answers of the token-ledger queries the
//! host made for it.  It either returns the ordered batch of outbound
//! [`Command`]s and mutates the registry, or returns an error and
//! leaves the registry exactly as it was — mirroring the host's
//! all-or-nothing application of an invocation.
//!
//! Each operation's contract equates its behaviour with a spec-level
//! outcome function (`register_outcome` and friends), which lays out,
//! case by case, which error each input earns and what the new state
//! and command batch are on success.

use vstd::prelude::*;

verus! {

use crate::commands::{
    burn_handler,
    mint_handler,
    mint_metadata,
    send_data_update,
    send_tokens,
    update_metadata_expiry,
    Command,
    CommandV,
};
use crate::error::{ContractError, ErrorV};
use crate::metadata::{Metadata, MetadataV};
use crate::metadata::{
    add_subdomain_metadata,
    drop_descriptor,
    first_descriptor_at,
    remove_subdomain_metadata,
    rewrite_descriptor,
    update_subdomain_metadata,
    upsert_descriptor,
};
use crate::read_utils::{
    get_subdomain_prefix,
    validate_subdomain,
    validate_subdomain_err,
    subdomain_prefix_of,
    validate_name,
    validate_name_err,
    SUFFIX_LEN,
};
use crate::state::{
    classify,
    lease_active,
    spec_classify,
    Config,
    NameRecord,
    NameRecordV,
    Registry,
    RegistryV,
    SubDomainStatus,
};

/// No single payment can lease more than this many base periods.
pub const MAX_BASE_INTERVAL: u64 = 3;

/// What an operation does: the registry state it leaves behind, and
/// either the command batch it emits or the error it aborts with.
#[verifier::ext_equal]
pub struct OutcomeV {
    pub state: RegistryV,
    pub res: Result<Seq<CommandV>, ErrorV>,
}

/// View of an operation's runtime result.
pub open spec fn res_view(r: Result<Vec<Command>, ContractError>) -> Result<
    Seq<CommandV>,
    ErrorV,
> {
    match r {
        Ok(v) => Ok(v.deep_view()),
        Err(e) => Err(e@),
    }
}

/// An aborting outcome: the state is left unchanged.
pub open spec fn err_outcome(m: RegistryV, e: ErrorV) -> OutcomeV {
    OutcomeV { state: m, res: Err(e) }
}

/// The runtime result `r` and final state `s` realise the outcome `o`.
pub open spec fn realises(o: OutcomeV, s: RegistryV, r: Result<Vec<Command>, ContractError>) -> bool {
    s == o.state && res_view(r) == o.res
}

pub broadcast proof fn lemma_vec_deep_view<T: DeepView>(v: Vec<T>)
    ensures
        (#[trigger] v.deep_view()).len() == v@.len(),
        forall|i: int| 0 <= i < v@.len() ==> v.deep_view()[i] == (#[trigger] v@[i]).deep_view(),
{
}

/// The outcome of `Register`: lease a fresh or expired name to the
/// caller for as many base periods as the payment buys, capped at
/// [`MAX_BASE_INTERVAL`].
pub open spec fn register_outcome(
    m: RegistryV,
    name: Seq<char>,
    sender: Seq<char>,
    funds: Option<u128>,
    now: u64,
) -> OutcomeV {
    if validate_name_err(name) is Some {
        err_outcome(m, validate_name_err(name)->Some_0)
    } else if funds is None {
        err_outcome(m, ErrorV::Payment)
    } else if m.config.base_cost == 0 {
        err_outcome(m, ErrorV::Std)
    } else {
        let paid = funds->Some_0;
        let periods = paid as int / m.config.base_cost as int;
        if periods > u64::MAX {
            err_outcome(m, ErrorV::Std)
        } else if periods < 1 {
            err_outcome(m, ErrorV::InvalidPayment { amount: paid })
        } else if lease_active(m, name, now) {
            err_outcome(m, ErrorV::NameTaken { name })
        } else {
            let reg_periods = if periods > MAX_BASE_INTERVAL as int {
                MAX_BASE_INTERVAL as int
            } else {
                periods
            };
            let expiration = m.config.base_expiration * reg_periods + now;
            if expiration > u64::MAX {
                err_outcome(m, ErrorV::Std)
            } else {
                let burn: Seq<CommandV> = if m.records.contains_key(name) && m.minted.contains(
                    name,
                ) {
                    seq![CommandV::Burn { token_id: name }]
                } else {
                    Seq::empty()
                };
                OutcomeV {
                    state: RegistryV {
                        records: m.records.insert(
                            name,
                            NameRecordV {
                                resolver: sender,
                                created: now,
                                expiration: expiration as u64,
                            },
                        ),
                        minted: m.minted.insert(name),
                        ..m
                    },
                    res: Ok(
                        burn.push(
                            CommandV::Mint {
                                token_id: name,
                                owner: sender,
                                extension: mint_metadata(name, now, expiration as u64),
                            },
                        ),
                    ),
                }
            }
        }
    }
}

/// Leases `name` to the caller: the payment buys `paid / base_cost`
/// base periods (at least one, at most three); an active lease rejects
/// the attempt, an expired minted one has its stale token burned before
/// the fresh mint.
pub fn execute_register(
    reg: &mut Registry,
    now: u64,
    sender: String,
    funds: Option<u128>,
    name: String,
) -> (r: Result<Vec<Command>, ContractError>)
    requires
        old(reg).wf(),
        name@.len() >= SUFFIX_LEN,
    ensures
        final(reg).wf(),
        realises(register_outcome(old(reg)@, name@, sender@, funds, now), final(reg)@, r),
{
    broadcast use lemma_vec_deep_view;

    if let Err(e) = validate_name(&name) {
        return Err(e);
    }
    let paid = match funds {
        None => {
            return Err(ContractError::Payment {});
        },
        Some(p) => p,
    };
    let base_cost = reg.config().base_cost;
    if base_cost == 0 {
        return Err(ContractError::Std {});
    }
    let periods = paid / base_cost;
    if periods > u64::MAX as u128 {
        return Err(ContractError::Std {});
    }
    let mut registration: u64 = periods as u64;
    if registration < 1 {
        return Err(ContractError::InvalidPayment { amount: paid });
    }
    if registration > MAX_BASE_INTERVAL {
        registration = MAX_BASE_INTERVAL;
    }
    let taken_active = match reg.get_record(&name) {
        Some(rec) => !rec.is_expired(now),
        None => false,
    };
    if taken_active {
        return Err(ContractError::NameTaken { name });
    }
    let needs_burn = match reg.get_record(&name) {
        Some(_) => reg.is_minted(&name),
        None => false,
    };
    let base_expiration = reg.config().base_expiration;
    proof {
        assert((base_expiration as int) * (registration as int) <= (u64::MAX as int) * 3
            && (base_expiration as int) * (registration as int) >= 0) by (nonlinear_arith)
            requires
                0 <= registration <= 3,
                0 <= base_expiration <= u64::MAX,
        ;
    }
    let total = (base_expiration as u128) * (registration as u128) + (now as u128);
    if total > u64::MAX as u128 {
        return Err(ContractError::Std {});
    }
    let expiration = total as u64;
    let mut messages: Vec<Command> = Vec::new();
    if needs_burn {
        messages.push(burn_handler(&name));
    }
    let record = NameRecord { resolver: sender.clone(), created: now, expiration };
    messages.push(mint_handler(&name, &sender, now, expiration));
    reg.save_record(&name, record);
    reg.set_minted(&name);
    proof {
        let o = register_outcome(old(reg)@, name@, sender@, funds, now);
        assert(reg@ =~= o.state);
        assert(messages.deep_view() =~= o.res->Ok_0);
    }
    Ok(messages)
}

/// The outcome of `RenewRegistration`: extend an active lease by
/// exactly one base period, anchored at the old expiry.
pub open spec fn renew_outcome(
    m: RegistryV,
    name: Seq<char>,
    sender: Seq<char>,
    funds: Option<u128>,
    owner: Option<Seq<char>>,
    meta: Option<MetadataV>,
    now: u64,
) -> OutcomeV {
    if validate_name_err(name) is Some {
        err_outcome(m, validate_name_err(name)->Some_0)
    } else if !m.records.contains_key(name) {
        err_outcome(m, ErrorV::InvalidInput)
    } else if m.records[name].is_expired(now) {
        err_outcome(m, ErrorV::NameOwnershipExpired { name })
    } else if owner is None {
        err_outcome(m, ErrorV::Std)
    } else if owner->Some_0 != sender {
        err_outcome(m, ErrorV::Unauthorized)
    } else if m.config.base_expiration + m.records[name].expiration > u64::MAX {
        err_outcome(m, ErrorV::Std)
    } else if funds is None {
        err_outcome(m, ErrorV::Payment)
    } else if funds->Some_0 != m.config.base_cost {
        err_outcome(m, ErrorV::InvalidPayment { amount: funds->Some_0 })
    } else if meta is None {
        err_outcome(m, ErrorV::Std)
    } else {
        let new_expiration = (m.config.base_expiration + m.records[name].expiration) as u64;
        OutcomeV {
            state: RegistryV {
                records: m.records.insert(
                    name,
                    NameRecordV { resolver: sender, created: now, expiration: new_expiration },
                ),
                ..m
            },
            res: Ok(
                seq![
                    CommandV::UpdateMetadata {
                        token_id: name,
                        extension: MetadataV { expiry: Some(new_expiration), ..meta->Some_0 },
                    },
                ],
            ),
        }
    }
}

/// Renews an active lease: the caller must be the token's current
/// owner, the payment must equal exactly one base period's cost, and
/// the new expiry is the old one plus one base period — however early
/// the renewal comes.  An expired lease cannot be renewed, only
/// re-registered.
pub fn execute_renew_registration(
    reg: &mut Registry,
    now: u64,
    sender: String,
    funds: Option<u128>,
    name: String,
    name_owner: Option<String>,
    name_metadata: Option<Metadata>,
) -> (r: Result<Vec<Command>, ContractError>)
    requires
        old(reg).wf(),
        name@.len() >= SUFFIX_LEN,
    ensures
        final(reg).wf(),
        realises(
            renew_outcome(
                old(reg)@,
                name@,
                sender@,
                funds,
                name_owner.deep_view(),
                name_metadata.deep_view(),
                now,
            ),
            final(reg)@,
            r,
        ),
{
    broadcast use lemma_vec_deep_view;

    if let Err(e) = validate_name(&name) {
        return Err(e);
    }
    let expiration0 = match reg.get_record(&name) {
        None => {
            return Err(ContractError::InvalidInput {});
        },
        Some(rec) => rec.expiration,
    };
    if now >= expiration0 {
        return Err(ContractError::NameOwnershipExpired { name });
    }
    let owner = match name_owner {
        None => {
            return Err(ContractError::Std {});
        },
        Some(o) => o,
    };
    if !(owner == sender) {
        return Err(ContractError::Unauthorized {});
    }
    let base_expiration = reg.config().base_expiration;
    let total = (base_expiration as u128) + (expiration0 as u128);
    if total > u64::MAX as u128 {
        return Err(ContractError::Std {});
    }
    let new_expiration = total as u64;
    let paid = match funds {
        None => {
            return Err(ContractError::Payment {});
        },
        Some(p) => p,
    };
    if paid != reg.config().base_cost {
        return Err(ContractError::InvalidPayment { amount: paid });
    }
    let meta = match name_metadata {
        None => {
            return Err(ContractError::Std {});
        },
        Some(mdata) => mdata,
    };
    let record = NameRecord { resolver: sender.clone(), created: now, expiration: new_expiration };
    reg.save_record(&name, record);
    let mut messages: Vec<Command> = Vec::new();
    messages.push(update_metadata_expiry(&name, meta, new_expiration));
    proof {
        let o = renew_outcome(
            old(reg)@,
            name@,
            sender@,
            funds,
            name_owner.deep_view(),
            name_metadata.deep_view(),
            now,
        );
        assert(reg@ =~= o.state);
        assert(messages.deep_view() =~= o.res->Ok_0);
    }
    Ok(messages)
}

/// The outcome of `UpdateResolver`: repoint an active name, leaving its
/// lease times alone.  When the name is a subdomain route, the parent
/// domain's metadata mirror is rewritten alongside.
pub open spec fn update_resolver_outcome(
    m: RegistryV,
    name: Seq<char>,
    new_resolver: Seq<char>,
    sender: Seq<char>,
    owner: Option<Seq<char>>,
    parent_meta: Option<MetadataV>,
    now: u64,
) -> OutcomeV {
    if owner is None {
        err_outcome(m, ErrorV::Std)
    } else if owner->Some_0 != sender {
        err_outcome(m, ErrorV::Unauthorized)
    } else if !m.records.contains_key(name) {
        err_outcome(m, ErrorV::Std)
    } else if m.records[name].is_expired(now) {
        err_outcome(m, ErrorV::NameOwnershipExpired { name })
    } else {
        let curr = m.records[name];
        let new_state = RegistryV {
            records: m.records.insert(
                name,
                NameRecordV {
                    resolver: new_resolver,
                    created: curr.created,
                    expiration: curr.expiration,
                },
            ),
            ..m
        };
        match subdomain_prefix_of(name) {
            None => OutcomeV { state: new_state, res: Ok(Seq::empty()) },
            Some((label, parent)) => {
                if parent_meta is None {
                    err_outcome(m, ErrorV::Std)
                } else {
                    let pm = parent_meta->Some_0;
                    match pm.subdomains {
                        None => err_outcome(m, ErrorV::Std),
                        Some(list) => if exists|i: int| first_descriptor_at(list, label, i) {
                            OutcomeV {
                                state: new_state,
                                res: Ok(
                                    seq![
                                        CommandV::UpdateMetadata {
                                            token_id: parent,
                                            extension: MetadataV {
                                                subdomains: Some(
                                                    rewrite_descriptor(
                                                        list,
                                                        label,
                                                        new_resolver,
                                                        curr.expiration,
                                                    ),
                                                ),
                                                ..pm
                                            },
                                        },
                                    ],
                                ),
                            }
                        } else {
                            err_outcome(m, ErrorV::Std)
                        },
                    }
                }
            },
        }
    }
}

/// Repoints an active name at a new resolver; only the token's current
/// owner may do so, and the lease's creation and expiration times stay
/// untouched.  For a subdomain route the parent domain's mirrored
/// descriptor is rewritten in the same batch.
pub fn execute_update_resolver(
    reg: &mut Registry,
    now: u64,
    sender: String,
    name: String,
    new_resolver: String,
    name_owner: Option<String>,
    parent_metadata: Option<Metadata>,
) -> (r: Result<Vec<Command>, ContractError>)
    requires
        old(reg).wf(),
    ensures
        final(reg).wf(),
        realises(
            update_resolver_outcome(
                old(reg)@,
                name@,
                new_resolver@,
                sender@,
                name_owner.deep_view(),
                parent_metadata.deep_view(),
                now,
            ),
            final(reg)@,
            r,
        ),
{
    broadcast use lemma_vec_deep_view;

    let owner = match name_owner {
        None => {
            return Err(ContractError::Std {});
        },
        Some(o) => o,
    };
    if !(owner == sender) {
        return Err(ContractError::Unauthorized {});
    }
    let (created0, expiration0) = match reg.get_record(&name) {
        None => {
            return Err(ContractError::Std {});
        },
        Some(rec) => (rec.created, rec.expiration),
    };
    if now >= expiration0 {
        return Err(ContractError::NameOwnershipExpired { name });
    }
    let mut messages: Vec<Command> = Vec::new();
    match get_subdomain_prefix(&name) {
        Some((label, parent)) => {
            let meta = match parent_metadata {
                None => {
                    return Err(ContractError::Std {});
                },
                Some(mdata) => mdata,
            };
            let updated = match update_subdomain_metadata(meta, &label, &new_resolver, expiration0) {
                Err(e) => {
                    return Err(e);
                },
                Ok(u) => u,
            };
            messages.push(send_data_update(&parent, updated));
        },
        None => {},
    }
    let record = NameRecord {
        resolver: new_resolver.clone(),
        created: created0,
        expiration: expiration0,
    };
    reg.save_record(&name, record);
    proof {
        let o = update_resolver_outcome(
            old(reg)@,
            name@,
            new_resolver@,
            sender@,
            name_owner.deep_view(),
            parent_metadata.deep_view(),
            now,
        );
        assert(reg@ =~= o.state);
        assert(messages.deep_view() =~= o.res->Ok_0);
    }
    Ok(messages)
}

/// A subdomain route: the label, a dot, the parent domain.
pub open spec fn route_of(label: Seq<char>, domain: Seq<char>) -> Seq<char> {
    label + "."@ + domain
}

/// Joins a label and its parent domain into the subdomain route.
pub fn make_route(subdomain: &String, domain: &String) -> (r: String)
    ensures
        r@ == route_of(subdomain@, domain@),
{
    subdomain.clone().concat(".").concat(domain.as_str())
}

/// The state after a subdomain mint: the route's lease written, its
/// mint flag raised.
pub open spec fn subdomain_fresh_state(
    m: RegistryV,
    route: Seq<char>,
    resolver: Seq<char>,
    now: u64,
    expiration: u64,
) -> RegistryV {
    RegistryV {
        records: m.records.insert(
            route,
            NameRecordV { resolver, created: now, expiration },
        ),
        minted: m.minted.insert(route),
        ..m
    }
}

/// The command replacing the parent's metadata mirror with the fresh
/// subdomain descriptor upserted.
pub open spec fn subdomain_meta_cmd(
    pm: MetadataV,
    domain: Seq<char>,
    label: Seq<char>,
    resolver: Seq<char>,
    now: u64,
    expiration: u64,
) -> CommandV
    recommends
        pm.subdomains is Some,
{
    CommandV::UpdateMetadata {
        token_id: domain,
        extension: MetadataV {
            subdomains: Some(
                upsert_descriptor(pm.subdomains->Some_0, label, resolver, now, expiration),
            ),
            ..pm
        },
    }
}

/// The command minting a subdomain's token for its new owner.
pub open spec fn subdomain_mint_cmd(
    route: Seq<char>,
    owner: Seq<char>,
    now: u64,
    expiration: u64,
) -> CommandV {
    CommandV::Mint { token_id: route, owner, extension: mint_metadata(route, now, expiration) }
}

/// Issues a fresh subdomain under an authorized domain: writes the
/// route's lease, raises its mint flag, and emits the parent's mirror
/// update followed by the mint.  Fails with the host-failure error when
/// the parent's metadata carries no descriptor list.
pub fn register_new_subdomain(
    reg: &mut Registry,
    meta: Metadata,
    domain: &String,
    subdomain: &String,
    new_resolver: &String,
    new_owner: &String,
    expiration: u64,
    now: u64,
) -> (r: Result<Vec<Command>, ContractError>)
    requires
        old(reg).wf(),
        domain@.len() >= SUFFIX_LEN,
    ensures
        final(reg).wf(),
        ({
            let route = route_of(subdomain@, domain@);
            match meta@.subdomains {
                None => r matches Err(e) && e@ == ErrorV::Std && final(reg)@ == old(reg)@,
                Some(list) => r matches Ok(v) && v.deep_view() == seq![
                    subdomain_meta_cmd(meta@, domain@, subdomain@, new_resolver@, now, expiration),
                    subdomain_mint_cmd(route, new_owner@, now, expiration),
                ] && final(reg)@ == subdomain_fresh_state(
                    old(reg)@,
                    route,
                    new_resolver@,
                    now,
                    expiration,
                ),
            }
        }),
{
    broadcast use lemma_vec_deep_view;

    let route = make_route(subdomain, domain);
    let new_meta = match add_subdomain_metadata(meta, subdomain, new_resolver, now, expiration) {
        Err(e) => {
            return Err(e);
        },
        Ok(mm) => mm,
    };
    let mut messages: Vec<Command> = Vec::new();
    messages.push(send_data_update(domain, new_meta));
    let record = NameRecord { resolver: new_resolver.clone(), created: now, expiration };
    reg.save_record(&route, record);
    reg.set_minted(&route);
    messages.push(mint_handler(&route, new_owner, now, expiration));
    proof {
        assert(reg@ =~= subdomain_fresh_state(
            old(reg)@,
            route_of(subdomain@, domain@),
            new_resolver@,
            now,
            expiration,
        ));
        assert(messages.deep_view() =~= seq![
            subdomain_meta_cmd(meta@, domain@, subdomain@, new_resolver@, now, expiration),
            subdomain_mint_cmd(route_of(subdomain@, domain@), new_owner@, now, expiration),
        ]);
    }
    Ok(messages)
}

/// Re-issues an expired minted subdomain: burns the stale token first,
/// then proceeds exactly as a fresh issue.  Fails with the host-failure
/// error when the parent's metadata carries no descriptor list.
pub fn burn_remint_subdomain(
    reg: &mut Registry,
    meta: Metadata,
    domain: &String,
    subdomain: &String,
    new_resolver: &String,
    new_owner: &String,
    expiration: u64,
    now: u64,
) -> (r: Result<Vec<Command>, ContractError>)
    requires
        old(reg).wf(),
        domain@.len() >= SUFFIX_LEN,
    ensures
        final(reg).wf(),
        ({
            let route = route_of(subdomain@, domain@);
            match meta@.subdomains {
                None => r matches Err(e) && e@ == ErrorV::Std && final(reg)@ == old(reg)@,
                Some(list) => r matches Ok(v) && v.deep_view() == seq![
                    CommandV::Burn { token_id: route },
                    subdomain_meta_cmd(meta@, domain@, subdomain@, new_resolver@, now, expiration),
                    subdomain_mint_cmd(route, new_owner@, now, expiration),
                ] && final(reg)@ == subdomain_fresh_state(
                    old(reg)@,
                    route,
                    new_resolver@,
                    now,
                    expiration,
                ),
            }
        }),
{
    broadcast use lemma_vec_deep_view;

    let route = make_route(subdomain, domain);
    let new_meta = match add_subdomain_metadata(meta, subdomain, new_resolver, now, expiration) {
        Err(e) => {
            return Err(e);
        },
        Ok(mm) => mm,
    };
    let mut messages: Vec<Command> = Vec::new();
    messages.push(burn_handler(&route));
    messages.push(send_data_update(domain, new_meta));
    let record = NameRecord { resolver: new_resolver.clone(), created: now, expiration };
    reg.save_record(&route, record);
    reg.set_minted(&route);
    messages.push(mint_handler(&route, new_owner, now, expiration));
    proof {
        assert(reg@ =~= subdomain_fresh_state(
            old(reg)@,
            route_of(subdomain@, domain@),
            new_resolver@,
            now,
            expiration,
        ));
        assert(messages.deep_view() =~= seq![
            CommandV::Burn { token_id: route_of(subdomain@, domain@) },
            subdomain_meta_cmd(meta@, domain@, subdomain@, new_resolver@, now, expiration),
            subdomain_mint_cmd(route_of(subdomain@, domain@), new_owner@, now, expiration),
        ]);
    }
    Ok(messages)
}

/// The outcome of `RegisterSubdomain`: the four-way derived state
/// machine.  A fresh or never-minted route is issued anew; an expired
/// minted one is burned and re-minted; an actively minted one rejects
/// the attempt.  The requested expiration is clamped to the parent
/// domain's, and an already-passed expiration is rejected outright.
pub open spec fn set_subdomain_outcome(
    m: RegistryV,
    domain: Seq<char>,
    label: Seq<char>,
    new_resolver: Seq<char>,
    new_owner: Seq<char>,
    expiration: u64,
    sender: Seq<char>,
    owner: Option<Seq<char>>,
    meta: Option<MetadataV>,
    now: u64,
) -> OutcomeV {
    let route = route_of(label, domain);
    if validate_name_err(domain) is Some {
        err_outcome(m, validate_name_err(domain)->Some_0)
    } else if validate_subdomain_err(label) is Some {
        err_outcome(m, validate_subdomain_err(label)->Some_0)
    } else if !m.records.contains_key(domain) {
        err_outcome(m, ErrorV::InvalidInput)
    } else if owner is None {
        err_outcome(m, ErrorV::Std)
    } else if m.records[domain].is_expired(now) {
        err_outcome(m, ErrorV::NameOwnershipExpired { name: domain })
    } else if owner->Some_0 != sender {
        err_outcome(m, ErrorV::Unauthorized)
    } else if now >= expiration {
        err_outcome(m, ErrorV::InvalidInput)
    } else {
        let dom_exp = m.records[domain].expiration;
        let clamped = if expiration > dom_exp {
            dom_exp
        } else {
            expiration
        };
        let status = spec_classify(
            if m.records.contains_key(route) {
                Some(m.records[route])
            } else {
                None
            },
            m.minted.contains(route),
            now,
        );
        if status == SubDomainStatus::ExistingMintActive {
            err_outcome(m, ErrorV::Unauthorized)
        } else if meta is None {
            err_outcome(m, ErrorV::Std)
        } else if meta->Some_0.subdomains is None {
            err_outcome(m, ErrorV::Std)
        } else {
            let pm = meta->Some_0;
            let meta_cmd = subdomain_meta_cmd(pm, domain, label, new_resolver, now, clamped);
            let mint_cmd = subdomain_mint_cmd(route, new_owner, now, clamped);
            let cmds = if status == SubDomainStatus::ExistingMintExpired {
                seq![CommandV::Burn { token_id: route }, meta_cmd, mint_cmd]
            } else {
                seq![meta_cmd, mint_cmd]
            };
            OutcomeV {
                state: subdomain_fresh_state(m, route, new_resolver, now, clamped),
                res: Ok(cmds),
            }
        }
    }
}

/// Registers a subdomain under a domain: only the domain token's owner
/// may issue one, the subdomain's lease never outlives the domain's
/// (the requested expiration is clamped), and an actively minted
/// subdomain can never be re-registered — only an expired one, whose
/// stale token is burned first.
pub fn execute_set_subdomain(
    reg: &mut Registry,
    now: u64,
    sender: String,
    domain: String,
    subdomain: String,
    new_resolver: String,
    new_owner: String,
    expiration: u64,
    domain_owner: Option<String>,
    domain_metadata: Option<Metadata>,
) -> (r: Result<Vec<Command>, ContractError>)
    requires
        old(reg).wf(),
        domain@.len() >= SUFFIX_LEN,
    ensures
        final(reg).wf(),
        realises(
            set_subdomain_outcome(
                old(reg)@,
                domain@,
                subdomain@,
                new_resolver@,
                new_owner@,
                expiration,
                sender@,
                domain_owner.deep_view(),
                domain_metadata.deep_view(),
                now,
            ),
            final(reg)@,
            r,
        ),
{
    broadcast use lemma_vec_deep_view;

    if let Err(e) = validate_name(&domain) {
        return Err(e);
    }
    if let Err(e) = validate_subdomain(&subdomain) {
        return Err(e);
    }
    let dom_expiration = match reg.get_record(&domain) {
        None => {
            return Err(ContractError::InvalidInput {});
        },
        Some(rec) => rec.expiration,
    };
    let owner = match domain_owner {
        None => {
            return Err(ContractError::Std {});
        },
        Some(o) => o,
    };
    if now >= dom_expiration {
        return Err(ContractError::NameOwnershipExpired { name: domain });
    }
    if !(owner == sender) {
        return Err(ContractError::Unauthorized {});
    }
    if now >= expiration {
        return Err(ContractError::InvalidInput {});
    }
    let clamped = if expiration > dom_expiration {
        dom_expiration
    } else {
        expiration
    };
    let route = make_route(&subdomain, &domain);
    let minted = reg.is_minted(&route);
    let status = classify(reg.get_record(&route), minted, now);
    if status == SubDomainStatus::ExistingMintActive {
        return Err(ContractError::Unauthorized {});
    }
    let meta = match domain_metadata {
        None => {
            return Err(ContractError::Std {});
        },
        Some(mdata) => mdata,
    };
    if meta.subdomains.is_none() {
        return Err(ContractError::Std {});
    }
    let messages = if status == SubDomainStatus::ExistingMintExpired {
        burn_remint_subdomain(
            reg,
            meta,
            &domain,
            &subdomain,
            &new_resolver,
            &new_owner,
            clamped,
            now,
        )
    } else {
        register_new_subdomain(
            reg,
            meta,
            &domain,
            &subdomain,
            &new_resolver,
            &new_owner,
            clamped,
            now,
        )
    };
    messages
}

/// Moves a subdomain's stored expiry to `expiration` and rewrites the
/// parent's mirrored descriptor to match; the lease's resolver and
/// creation time are kept, and no token is minted or burned.  Fails
/// with the host-failure error when the route holds no lease or the
/// parent's metadata carries no matching descriptor.
pub fn update_subdomain_expiry(
    reg: &mut Registry,
    meta: Metadata,
    domain: &String,
    subdomain: &String,
    expiration: u64,
) -> (r: Result<Vec<Command>, ContractError>)
    requires
        old(reg).wf(),
    ensures
        final(reg).wf(),
        ({
            let route = route_of(subdomain@, domain@);
            if !old(reg)@.records.contains_key(route) {
                r matches Err(e) && e@ == ErrorV::Std && final(reg)@ == old(reg)@
            } else {
                let sub = old(reg)@.records[route];
                match meta@.subdomains {
                    None => r matches Err(e) && e@ == ErrorV::Std && final(reg)@ == old(reg)@,
                    Some(list) => if exists|i: int| first_descriptor_at(list, subdomain@, i) {
                        r matches Ok(v) && v.deep_view() == seq![
                            CommandV::UpdateMetadata {
                                token_id: domain@,
                                extension: MetadataV {
                                    subdomains: Some(
                                        rewrite_descriptor(
                                            list,
                                            subdomain@,
                                            sub.resolver,
                                            expiration,
                                        ),
                                    ),
                                    ..meta@
                                },
                            },
                        ] && final(reg)@ == (RegistryV {
                            records: old(reg)@.records.insert(
                                route,
                                NameRecordV {
                                    resolver: sub.resolver,
                                    created: sub.created,
                                    expiration,
                                },
                            ),
                            ..old(reg)@
                        })
                    } else {
                        r matches Err(e) && e@ == ErrorV::Std && final(reg)@ == old(reg)@
                    },
                }
            }
        }),
{
    broadcast use lemma_vec_deep_view;

    let route = make_route(subdomain, domain);
    let (sub_resolver, sub_created) = match reg.get_record(&route) {
        None => {
            return Err(ContractError::Std {});
        },
        Some(rec) => (rec.resolver.clone(), rec.created),
    };
    let updated = match update_subdomain_metadata(meta, subdomain, &sub_resolver, expiration) {
        Err(e) => {
            return Err(e);
        },
        Ok(u) => u,
    };
    let record = NameRecord { resolver: sub_resolver, created: sub_created, expiration };
    reg.save_record(&route, record);
    let mut messages: Vec<Command> = Vec::new();
    messages.push(send_data_update(domain, updated));
    Ok(messages)
}

/// The outcome of `ExtendSubdomainExpiry`: move a subdomain's expiry
/// strictly forward, clamped to the parent domain's expiry.  When the
/// clamp leaves no strict improvement, no valid extension exists and
/// the request is rejected.
pub open spec fn extend_subdomain_outcome(
    m: RegistryV,
    domain: Seq<char>,
    label: Seq<char>,
    expiration: u64,
    sender: Seq<char>,
    owner: Option<Seq<char>>,
    meta: Option<MetadataV>,
    now: u64,
) -> OutcomeV {
    let route = route_of(label, domain);
    if validate_name_err(domain) is Some {
        err_outcome(m, validate_name_err(domain)->Some_0)
    } else if validate_subdomain_err(label) is Some {
        err_outcome(m, validate_subdomain_err(label)->Some_0)
    } else if !m.records.contains_key(route) {
        err_outcome(m, ErrorV::InvalidInput)
    } else if !m.records.contains_key(domain) {
        err_outcome(m, ErrorV::InvalidInput)
    } else if owner is None {
        err_outcome(m, ErrorV::Std)
    } else if m.records[domain].is_expired(now) {
        err_outcome(m, ErrorV::NameOwnershipExpired { name: domain })
    } else if owner->Some_0 != sender {
        err_outcome(m, ErrorV::Unauthorized)
    } else {
        let dom_exp = m.records[domain].expiration;
        let clamped = if expiration > dom_exp {
            dom_exp
        } else {
            expiration
        };
        let sub = m.records[route];
        if clamped <= sub.expiration {
            err_outcome(m, ErrorV::InvalidInput)
        } else if meta is None {
            err_outcome(m, ErrorV::Std)
        } else {
            let pm = meta->Some_0;
            match pm.subdomains {
                None => err_outcome(m, ErrorV::Std),
                Some(list) => if exists|i: int| first_descriptor_at(list, label, i) {
                    OutcomeV {
                        state: RegistryV {
                            records: m.records.insert(
                                route,
                                NameRecordV {
                                    resolver: sub.resolver,
                                    created: sub.created,
                                    expiration: clamped,
                                },
                            ),
                            ..m
                        },
                        res: Ok(
                            seq![
                                CommandV::UpdateMetadata {
                                    token_id: domain,
                                    extension: MetadataV {
                                        subdomains: Some(
                                            rewrite_descriptor(list, label, sub.resolver, clamped),
                                        ),
                                        ..pm
                                    },
                                },
                            ],
                        ),
                    }
                } else {
                    err_outcome(m, ErrorV::Std)
                },
            }
        }
    }
}

/// Extends a subdomain's lease: only the domain token's owner may do
/// so, the new expiry must strictly exceed the current one after being
/// clamped to the domain's expiry, and the parent's mirrored descriptor
/// is rewritten in the same batch.  No token is minted or burned.
pub fn execute_extend_subdomain_expiry(
    reg: &mut Registry,
    now: u64,
    sender: String,
    domain: String,
    subdomain: String,
    expiration: u64,
    domain_owner: Option<String>,
    domain_metadata: Option<Metadata>,
) -> (r: Result<Vec<Command>, ContractError>)
    requires
        old(reg).wf(),
        domain@.len() >= SUFFIX_LEN,
    ensures
        final(reg).wf(),
        realises(
            extend_subdomain_outcome(
                old(reg)@,
                domain@,
                subdomain@,
                expiration,
                sender@,
                domain_owner.deep_view(),
                domain_metadata.deep_view(),
                now,
            ),
            final(reg)@,
            r,
        ),
{
    broadcast use lemma_vec_deep_view;

    if let Err(e) = validate_name(&domain) {
        return Err(e);
    }
    if let Err(e) = validate_subdomain(&subdomain) {
        return Err(e);
    }
    let route = make_route(&subdomain, &domain);
    let sub_expiration = match reg.get_record(&route) {
        None => {
            return Err(ContractError::InvalidInput {});
        },
        Some(rec) => rec.expiration,
    };
    let dom_expiration = match reg.get_record(&domain) {
        None => {
            return Err(ContractError::InvalidInput {});
        },
        Some(rec) => rec.expiration,
    };
    let owner = match domain_owner {
        None => {
            return Err(ContractError::Std {});
        },
        Some(o) => o,
    };
    if now >= dom_expiration {
        return Err(ContractError::NameOwnershipExpired { name: domain });
    }
    if !(owner == sender) {
        return Err(ContractError::Unauthorized {});
    }
    let clamped = if expiration > dom_expiration {
        dom_expiration
    } else {
        expiration
    };
    if clamped <= sub_expiration {
        return Err(ContractError::InvalidInput {});
    }
    let meta = match domain_metadata {
        None => {
            return Err(ContractError::Std {});
        },
        Some(mdata) => mdata,
    };
    let r = update_subdomain_expiry(reg, meta, &domain, &subdomain, clamped);
    proof {
        let o = extend_subdomain_outcome(
            old(reg)@,
            domain@,
            subdomain@,
            expiration,
            sender@,
            domain_owner.deep_view(),
            domain_metadata.deep_view(),
            now,
        );
        assert(reg@ =~= o.state);
    }
    r
}

/// The outcome of `RemoveSubdomain`: the domain token's owner deletes a
/// subdomain's lease.  An actively minted subdomain is protected: it
/// only goes if the caller also owns the subdomain's own token.  A
/// minted removal burns the token, drops the mirrored descriptor and
/// clears the mint flag; a never-minted one just deletes the lease.
pub open spec fn remove_subdomain_outcome(
    m: RegistryV,
    domain: Seq<char>,
    label: Seq<char>,
    sender: Seq<char>,
    owner: Option<Seq<char>>,
    sub_owner: Option<Seq<char>>,
    meta: Option<MetadataV>,
    now: u64,
) -> OutcomeV {
    let route = route_of(label, domain);
    if owner is None {
        err_outcome(m, ErrorV::Std)
    } else if owner->Some_0 != sender {
        err_outcome(m, ErrorV::Unauthorized)
    } else {
        let minted = m.minted.contains(route);
        let protected = minted && lease_active(m, route, now);
        if protected && sub_owner is None {
            err_outcome(m, ErrorV::Std)
        } else if protected && sub_owner->Some_0 != sender {
            err_outcome(m, ErrorV::NameTaken { name: route })
        } else if minted && meta is None {
            err_outcome(m, ErrorV::Std)
        } else if minted && meta->Some_0.subdomains is None {
            err_outcome(m, ErrorV::Std)
        } else if minted {
            let pm = meta->Some_0;
            OutcomeV {
                state: RegistryV {
                    records: m.records.remove(route),
                    minted: m.minted.remove(route),
                    ..m
                },
                res: Ok(
                    seq![
                        CommandV::UpdateMetadata {
                            token_id: domain,
                            extension: MetadataV {
                                subdomains: Some(drop_descriptor(pm.subdomains->Some_0, label)),
                                ..pm
                            },
                        },
                        CommandV::Burn { token_id: route },
                    ],
                ),
            }
        } else {
            OutcomeV {
                state: RegistryV { records: m.records.remove(route), ..m },
                res: Ok(Seq::empty()),
            }
        }
    }
}

/// Removes a subdomain: the domain token's owner deletes its lease.
/// While the subdomain is minted and unexpired, the caller must also
/// own the subdomain's own token, which protects an active holder from
/// losing the name without consent.  A minted removal emits the
/// parent's mirror update and the burn, and clears the mint flag.
pub fn execute_remove_subdomain(
    reg: &mut Registry,
    now: u64,
    sender: String,
    domain: String,
    subdomain: String,
    domain_owner: Option<String>,
    subdomain_owner: Option<String>,
    domain_metadata: Option<Metadata>,
) -> (r: Result<Vec<Command>, ContractError>)
    requires
        old(reg).wf(),
    ensures
        final(reg).wf(),
        realises(
            remove_subdomain_outcome(
                old(reg)@,
                domain@,
                subdomain@,
                sender@,
                domain_owner.deep_view(),
                subdomain_owner.deep_view(),
                domain_metadata.deep_view(),
                now,
            ),
            final(reg)@,
            r,
        ),
{
    broadcast use lemma_vec_deep_view;

    let owner = match domain_owner {
        None => {
            return Err(ContractError::Std {});
        },
        Some(o) => o,
    };
    if !(owner == sender) {
        return Err(ContractError::Unauthorized {});
    }
    let route = make_route(&subdomain, &domain);
    let minted = reg.is_minted(&route);
    let active = match reg.get_record(&route) {
        Some(rec) => !rec.is_expired(now),
        None => false,
    };
    if minted && active {
        let sub_owner = match subdomain_owner {
            None => {
                return Err(ContractError::Std {});
            },
            Some(o) => o,
        };
        if !(sub_owner == sender) {
            return Err(ContractError::NameTaken { name: route });
        }
    }
    let mut messages: Vec<Command> = Vec::new();
    if minted {
        let meta = match domain_metadata {
            None => {
                return Err(ContractError::Std {});
            },
            Some(mdata) => mdata,
        };
        let updated = match remove_subdomain_metadata(meta, &subdomain) {
            Err(e) => {
                return Err(e);
            },
            Ok(u) => u,
        };
        messages.push(send_data_update(&domain, updated));
        messages.push(burn_handler(&route));
        reg.clear_minted(&route);
    }
    reg.remove_record(&route);
    proof {
        let o = remove_subdomain_outcome(
            old(reg)@,
            domain@,
            subdomain@,
            sender@,
            domain_owner.deep_view(),
            subdomain_owner.deep_view(),
            domain_metadata.deep_view(),
            now,
        );
        assert(reg@ =~= o.state);
        assert(messages.deep_view() =~= o.res->Ok_0);
    }
    Ok(messages)
}

/// The outcome of `UpdateUserDomainData`: the token's owner replaces
/// the descriptive parts of its metadata (description, image, accounts,
/// websites); the name, times, domain and subdomain list are kept.  The
/// registry's own state never changes.
pub open spec fn user_metadata_update_outcome(
    m: RegistryV,
    name: Seq<char>,
    update: crate::msg::MetaDataUpdateMsgV,
    sender: Seq<char>,
    owner: Option<Seq<char>>,
    meta: Option<MetadataV>,
) -> OutcomeV {
    if owner is None {
        err_outcome(m, ErrorV::Std)
    } else if owner->Some_0 != sender {
        err_outcome(m, ErrorV::Unauthorized)
    } else if meta is None {
        err_outcome(m, ErrorV::Std)
    } else {
        let cm = meta->Some_0;
        OutcomeV {
            state: m,
            res: Ok(
                seq![
                    CommandV::UpdateMetadata {
                        token_id: name,
                        extension: MetadataV {
                            name: Some(name),
                            description: update.description,
                            image: update.image,
                            created: cm.created,
                            expiry: cm.expiry,
                            domain: cm.domain,
                            subdomains: cm.subdomains,
                            accounts: update.accounts,
                            websites: update.websites,
                        },
                    },
                ],
            ),
        }
    }
}

/// Replaces the descriptive parts of a name's token metadata with what
/// the holder supplies; only the token's current owner may do so, and
/// the mirrored times and subdomain list are carried over unchanged.
pub fn execute_user_metadata_update(
    reg: &Registry,
    sender: String,
    name: String,
    update: crate::msg::MetaDataUpdateMsg,
    name_owner: Option<String>,
    name_metadata: Option<Metadata>,
) -> (r: Result<Vec<Command>, ContractError>)
    requires
        reg.wf(),
    ensures
        realises(
            user_metadata_update_outcome(
                reg@,
                name@,
                update@,
                sender@,
                name_owner.deep_view(),
                name_metadata.deep_view(),
            ),
            reg@,
            r,
        ),
{
    broadcast use lemma_vec_deep_view;

    let owner = match name_owner {
        None => {
            return Err(ContractError::Std {});
        },
        Some(o) => o,
    };
    if !(owner == sender) {
        return Err(ContractError::Unauthorized {});
    }
    let current = match name_metadata {
        None => {
            return Err(ContractError::Std {});
        },
        Some(mdata) => mdata,
    };
    let crate::msg::MetaDataUpdateMsg { description, image, accounts, websites } = update;
    let new_metadata = Metadata {
        name: Some(name.clone()),
        description,
        image,
        created: current.created,
        expiry: current.expiry,
        domain: current.domain,
        subdomains: current.subdomains,
        accounts,
        websites,
    };
    let mut messages: Vec<Command> = Vec::new();
    messages.push(send_data_update(&name, new_metadata));
    proof {
        let o = user_metadata_update_outcome(
            reg@,
            name@,
            update@,
            sender@,
            name_owner.deep_view(),
            name_metadata.deep_view(),
        );
        assert(messages.deep_view() =~= o.res->Ok_0);
    }
    Ok(messages)
}

/// The outcome of `UpdateConfig`: only the admin may replace the
/// configuration; nothing else changes and no command is emitted.
pub open spec fn update_config_outcome(m: RegistryV, sender: Seq<char>, update: ConfigV) -> OutcomeV {
    if m.config.admin != sender {
        err_outcome(m, ErrorV::Unauthorized)
    } else {
        OutcomeV { state: RegistryV { config: update, ..m }, res: Ok(Seq::empty()) }
    }
}

use crate::state::ConfigV;

/// Replaces the configuration; permitted to the admin alone.
pub fn execute_update_config(reg: &mut Registry, sender: String, config_update: Config) -> (r:
    Result<Vec<Command>, ContractError>)
    requires
        old(reg).wf(),
    ensures
        final(reg).wf(),
        realises(update_config_outcome(old(reg)@, sender@, config_update@), final(reg)@, r),
{
    broadcast use lemma_vec_deep_view;

    let authorized = reg.config().admin == sender;
    if !authorized {
        return Err(ContractError::Unauthorized {});
    }
    reg.set_config(config_update);
    let messages: Vec<Command> = Vec::new();
    proof {
        assert(messages.deep_view() =~= Seq::<CommandV>::empty());
    }
    Ok(messages)
}

/// The outcome of `Withdraw`: only the admin may move collected fees;
/// the registry state never changes, the single command pays the
/// treasury wallet.
pub open spec fn withdraw_outcome(m: RegistryV, sender: Seq<char>, amount: u128) -> OutcomeV {
    if m.config.admin != sender {
        err_outcome(m, ErrorV::Unauthorized)
    } else {
        OutcomeV {
            state: m,
            res: Ok(seq![CommandV::Send { to: m.config.wallet, amount }]),
        }
    }
}

/// Sends `amount` of the collected fees to the treasury wallet;
/// permitted to the admin alone.
pub fn execute_withdraw_fees(reg: &Registry, sender: String, amount: u128) -> (r: Result<
    Vec<Command>,
    ContractError,
>)
    requires
        reg.wf(),
    ensures
        realises(withdraw_outcome(reg@, sender@, amount), reg@, r),
{
    broadcast use lemma_vec_deep_view;

    let authorized = reg.config().admin == sender;
    if !authorized {
        return Err(ContractError::Unauthorized {});
    }
    let mut messages: Vec<Command> = Vec::new();
    messages.push(send_tokens(&reg.config().wallet, amount));
    proof {
        assert(messages.deep_view() =~= seq![
            CommandV::Send { to: reg@.config.wallet, amount },
        ]);
    }
    Ok(messages)
}

} // verus!
