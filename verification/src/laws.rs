//! The registry's laws: properties relating several operations, proved
//! once and for all over the operations' outcome functions.

use vstd::prelude::*;

verus! {

use crate::commands::CommandV;
use crate::error::ErrorV;
use crate::handlers::{
    extend_subdomain_outcome,
    register_outcome,
    update_resolver_outcome,
    remove_subdomain_outcome,
    renew_outcome,
    route_of,
    set_subdomain_outcome,
    MAX_BASE_INTERVAL,
};
use crate::metadata::{
    drop_descriptor,
    first_descriptor_at,
    keeps_label,
    new_descriptor,
    rewrite_descriptor,
    upsert_descriptor,
    MetadataV,
    SubdomainV,
};
use crate::read_utils::{
    count_char,
    first_char_at,
    resolve_record_view,
    subdomain_prefix_of,
    validate_name_err,
    validate_subdomain_err,
};
use crate::state::{lease_active, NameRecordV, RegistryV};

/// A route is strictly longer than its parent domain, so the two are
/// distinct keys of the lease table.
pub proof fn lemma_route_distinct(label: Seq<char>, domain: Seq<char>)
    ensures
        route_of(label, domain).len() == label.len() + 1 + domain.len(),
        route_of(label, domain) != domain,
{
    reveal_strlit(".");
    assert(route_of(label, domain).len() != domain.len());
}

/// Registering a free, valid name with `paid == k * base_cost` leases
/// it for exactly `k` base periods when `k` is 1, 2 or 3, and for 3
/// when `k` exceeds the cap: the new lease expires at `now + min(k, 3)
/// * base_period`.  `k == 0` fails with the invalid-payment error.
pub proof fn lemma_register_periods(
    m: RegistryV,
    name: Seq<char>,
    sender: Seq<char>,
    k: u64,
    now: u64,
)
    requires
        validate_name_err(name) is None,
        m.config.base_cost > 0,
        k * m.config.base_cost <= u128::MAX,
        !lease_active(m, name, now),
        k >= 1 ==> (if k > MAX_BASE_INTERVAL {
            MAX_BASE_INTERVAL as int
        } else {
            k as int
        }) * m.config.base_expiration + now <= u64::MAX,
    ensures
        ({
            let paid = (k * m.config.base_cost) as u128;
            let o = register_outcome(m, name, sender, Some(paid), now);
            &&& (k == 0 ==> o.res == Result::<Seq<CommandV>, ErrorV>::Err(
                ErrorV::InvalidPayment { amount: paid },
            ))
            &&& (k >= 1 ==> o.res is Ok && o.state.records.contains_key(name)
                && o.state.records[name].expiration == now + (if k > MAX_BASE_INTERVAL {
                MAX_BASE_INTERVAL as int
            } else {
                k as int
            }) * m.config.base_expiration)
        }),
{
    let c = m.config.base_cost as int;
    assert(k * c >= 0 && (k * c) / c == k) by (nonlinear_arith)
        requires
            c > 0,
            k >= 0,
    ;
    let paid = (k * m.config.base_cost) as u128;
    assert(paid == k * c);
    assert(paid as int / c == k);
    let reg_p: int = if k > MAX_BASE_INTERVAL {
        MAX_BASE_INTERVAL as int
    } else {
        k as int
    };
    assert(m.config.base_expiration * reg_p == reg_p * m.config.base_expiration) by (nonlinear_arith);
}

/// Renewal of an active lease by its token's owner demands exactly one
/// base period's cost — any other amount fails — and the new expiry is
/// the old one plus one base period, however early the renewal comes.
pub proof fn lemma_renew_exact(
    m: RegistryV,
    name: Seq<char>,
    sender: Seq<char>,
    paid: u128,
    meta: MetadataV,
    now: u64,
)
    requires
        validate_name_err(name) is None,
        lease_active(m, name, now),
        m.config.base_expiration + m.records[name].expiration <= u64::MAX,
    ensures
        ({
            let o = renew_outcome(m, name, sender, Some(paid), Some(sender), Some(meta), now);
            &&& (paid != m.config.base_cost ==> o.res == Result::<Seq<CommandV>, ErrorV>::Err(
                ErrorV::InvalidPayment { amount: paid },
            ))
            &&& (paid == m.config.base_cost ==> o.res is Ok && o.state.records.contains_key(name)
                && o.state.records[name].expiration == m.records[name].expiration
                + m.config.base_expiration)
        }),
{
}

/// After a successful registration, resolving the name returns the
/// registering caller as resolver at any instant strictly before the
/// new expiry, and no resolver from the expiry on — though the lease
/// row itself remains in the table.
pub proof fn lemma_register_then_resolve(
    m: RegistryV,
    name: Seq<char>,
    sender: Seq<char>,
    funds: Option<u128>,
    now: u64,
    later: u64,
)
    requires
        register_outcome(m, name, sender, funds, now).res is Ok,
    ensures
        ({
            let st = register_outcome(m, name, sender, funds, now).state;
            &&& st.records.contains_key(name)
            &&& st.records[name].resolver == sender
            &&& resolve_record_view(st, name, later).expiration == st.records[name].expiration
            &&& (later < st.records[name].expiration ==> resolve_record_view(st, name, later).address
                == Some(sender))
            &&& (later >= st.records[name].expiration ==> resolve_record_view(
                st,
                name,
                later,
            ).address is None)
        }),
{
}

/// A successful subdomain registration never leaves the subdomain's
/// expiry above the parent domain's: the requested expiration is
/// clamped to the domain's at the time of the call.
pub proof fn lemma_subdomain_expiry_clamped(
    m: RegistryV,
    domain: Seq<char>,
    label: Seq<char>,
    new_resolver: Seq<char>,
    new_owner: Seq<char>,
    expiration: u64,
    sender: Seq<char>,
    owner: Option<Seq<char>>,
    meta: Option<MetadataV>,
    now: u64,
)
    requires
        set_subdomain_outcome(
            m,
            domain,
            label,
            new_resolver,
            new_owner,
            expiration,
            sender,
            owner,
            meta,
            now,
        ).res is Ok,
    ensures
        ({
            let st = set_subdomain_outcome(
                m,
                domain,
                label,
                new_resolver,
                new_owner,
                expiration,
                sender,
                owner,
                meta,
                now,
            ).state;
            let route = route_of(label, domain);
            &&& st.records.contains_key(route)
            &&& st.records.contains_key(domain)
            &&& st.records[route].expiration <= st.records[domain].expiration
            &&& st.records[domain] == m.records[domain]
        }),
{
    lemma_route_distinct(label, domain);
}

/// A successful expiry extension keeps the subdomain's expiry within
/// the parent domain's, and moves it strictly forward.
pub proof fn lemma_extension_clamped(
    m: RegistryV,
    domain: Seq<char>,
    label: Seq<char>,
    expiration: u64,
    sender: Seq<char>,
    owner: Option<Seq<char>>,
    meta: Option<MetadataV>,
    now: u64,
)
    requires
        extend_subdomain_outcome(m, domain, label, expiration, sender, owner, meta, now).res is Ok,
    ensures
        ({
            let st = extend_subdomain_outcome(
                m,
                domain,
                label,
                expiration,
                sender,
                owner,
                meta,
                now,
            ).state;
            let route = route_of(label, domain);
            &&& st.records.contains_key(route)
            &&& st.records.contains_key(domain)
            &&& st.records[route].expiration <= st.records[domain].expiration
            &&& st.records[route].expiration > m.records[route].expiration
            &&& st.records[domain] == m.records[domain]
        }),
{
    lemma_route_distinct(label, domain);
}

/// Re-registering an actively minted subdomain always fails
/// `Unauthorized`.  Once the subdomain has expired, the same request
/// succeeds, and its batch holds exactly one burn — first — and exactly
/// one mint — last.
pub proof fn lemma_subdomain_reregistration(
    m: RegistryV,
    domain: Seq<char>,
    label: Seq<char>,
    new_resolver: Seq<char>,
    new_owner: Seq<char>,
    expiration: u64,
    sender: Seq<char>,
    pm: MetadataV,
    now: u64,
)
    requires
        validate_name_err(domain) is None,
        validate_subdomain_err(label) is None,
        m.records.contains_key(domain),
        !m.records[domain].is_expired(now),
        now < expiration,
        pm.subdomains is Some,
        m.records.contains_key(route_of(label, domain)),
        m.minted.contains(route_of(label, domain)),
    ensures
        ({
            let o = set_subdomain_outcome(
                m,
                domain,
                label,
                new_resolver,
                new_owner,
                expiration,
                sender,
                Some(sender),
                Some(pm),
                now,
            );
            let route = route_of(label, domain);
            &&& (!m.records[route].is_expired(now) ==> o.res == Result::<
                Seq<CommandV>,
                ErrorV,
            >::Err(ErrorV::Unauthorized))
            &&& (m.records[route].is_expired(now) ==> o.res is Ok && {
                let cmds = o.res->Ok_0;
                &&& cmds.len() == 3
                &&& cmds[0] == CommandV::Burn { token_id: route }
                &&& cmds[2] matches CommandV::Mint { token_id, .. } && token_id == route
                &&& forall|i: int|
                    0 <= i < 3 && ((#[trigger] cmds[i]) matches CommandV::Burn { .. }) ==> i == 0
                &&& forall|i: int|
                    0 <= i < 3 && ((#[trigger] cmds[i]) matches CommandV::Mint { .. }) ==> i == 2
            })
        }),
{
}

/// A minted, unexpired subdomain is protected: the domain owner alone
/// cannot remove it — the attempt fails `NameTaken` — while the domain
/// owner who also holds the subdomain's own token may.
pub proof fn lemma_remove_active_subdomain(
    m: RegistryV,
    domain: Seq<char>,
    label: Seq<char>,
    sender: Seq<char>,
    sub_owner: Seq<char>,
    pm: MetadataV,
    now: u64,
)
    requires
        m.minted.contains(route_of(label, domain)),
        lease_active(m, route_of(label, domain), now),
        pm.subdomains is Some,
    ensures
        ({
            let o = remove_subdomain_outcome(
                m,
                domain,
                label,
                sender,
                Some(sender),
                Some(sub_owner),
                Some(pm),
                now,
            );
            let route = route_of(label, domain);
            &&& (sub_owner != sender ==> o.res == Result::<Seq<CommandV>, ErrorV>::Err(
                ErrorV::NameTaken { name: route },
            ))
            &&& (sub_owner == sender ==> o.res is Ok && !o.state.records.contains_key(route)
                && !o.state.minted.contains(route))
        }),
{
}


/// Two routes under one domain coincide only for the same label.
pub proof fn lemma_route_injective(l1: Seq<char>, l2: Seq<char>, domain: Seq<char>)
    requires
        route_of(l1, domain) == route_of(l2, domain),
    ensures
        l1 == l2,
{
    lemma_route_distinct(l1, domain);
    lemma_route_distinct(l2, domain);
    assert(l1.len() == l2.len());
    assert(l1 =~= l2) by {
        assert(forall|i: int| 0 <= i < l1.len() ==> route_of(l1, domain)[i] == #[trigger] l1[i]);
        assert(forall|i: int| 0 <= i < l2.len() ==> route_of(l2, domain)[i] == #[trigger] l2[i]);
    }
}

/// No two descriptors of a mirror carry the same name.
pub open spec fn descriptor_names_distinct(list: Seq<SubdomainV>) -> bool {
    forall|i: int, j: int|
        0 <= i < j < list.len() ==> (#[trigger] list[i]).name != (#[trigger] list[j]).name
}

/// The mirrored descriptor of the lease `rec` under the label `label`.
pub open spec fn lease_descriptor(rec: NameRecordV, label: Seq<char>) -> SubdomainV {
    new_descriptor(label, rec.resolver, rec.created, rec.expiration)
}

/// The mirror invariant: a domain token's descriptor list equals the
/// projection of the lease table's subdomains under that domain — every
/// descriptor is the image of a live subdomain lease, every subdomain
/// lease is mirrored, and no label appears twice.
pub open spec fn mirror_matches(m: RegistryV, domain: Seq<char>, list: Seq<SubdomainV>) -> bool {
    &&& (forall|i: int|
        0 <= i < list.len() ==> {
            let d = #[trigger] list[i];
            &&& d.name is Some
            &&& m.records.contains_key(route_of(d.name->Some_0, domain))
            &&& d == lease_descriptor(m.records[route_of(d.name->Some_0, domain)], d.name->Some_0)
        })
    &&& (forall|label: Seq<char>|
        #![trigger m.records.contains_key(route_of(label, domain))]
        m.records.contains_key(route_of(label, domain)) ==> list.contains(
            lease_descriptor(m.records[route_of(label, domain)], label),
        ))
    &&& descriptor_names_distinct(list)
}

/// Dropping a label keeps a subset of the list: every survivor sits in
/// the original list, no survivor carries the dropped label, and
/// distinct names stay distinct.
pub proof fn lemma_drop_descriptor_props(list: Seq<SubdomainV>, label: Seq<char>)
    ensures
        forall|i: int|
            0 <= i < drop_descriptor(list, label).len() ==> list.contains(
                #[trigger] drop_descriptor(list, label)[i],
            ),
        descriptor_names_distinct(list) ==> descriptor_names_distinct(drop_descriptor(list, label)),
    decreases list.len(),
{
    reveal(Seq::filter);
    let pred = keeps_label(label);
    let out = drop_descriptor(list, label);
    if list.len() == 0 {
    } else {
        let dl = list.drop_last();
        lemma_drop_descriptor_props(dl, label);
        let sub = drop_descriptor(dl, label);
        assert(forall|i: int| 0 <= i < dl.len() ==> #[trigger] dl[i] == list[i]);
        assert(forall|d: SubdomainV| dl.contains(d) ==> list.contains(d));
        if pred(list.last()) {
            assert(out =~= sub.push(list.last()));
            assert(forall|i: int| 0 <= i < out.len() ==> list.contains(#[trigger] out[i]));
            if descriptor_names_distinct(list) {
                assert(descriptor_names_distinct(dl));
                assert forall|i: int, j: int| 0 <= i < j < out.len() implies (
                #[trigger] out[i]).name != (#[trigger] out[j]).name by {
                    if j < out.len() - 1 {
                        assert(out[i] == sub[i] && out[j] == sub[j]);
                    } else {
                        assert(out[j] == list.last());
                        assert(dl.contains(out[i]));
                        let k = choose|k: int| 0 <= k < dl.len() && dl[k] == out[i];
                        assert(list[k].name != list[list.len() - 1].name);
                    }
                }
            }
        } else {
            assert(out =~= sub);
        }
    }
}

/// `RegisterSubdomain` preserves the mirror invariant: whatever
/// metadata replacement it emits against the parent domain carries
/// exactly the projection of the new lease table's subdomains.
pub proof fn lemma_mirror_after_set_subdomain(
    m: RegistryV,
    domain: Seq<char>,
    label: Seq<char>,
    new_resolver: Seq<char>,
    new_owner: Seq<char>,
    expiration: u64,
    sender: Seq<char>,
    owner: Option<Seq<char>>,
    meta: Option<MetadataV>,
    now: u64,
)
    requires
        meta is Some,
        meta->Some_0.subdomains is Some,
        mirror_matches(m, domain, meta->Some_0.subdomains->Some_0),
        set_subdomain_outcome(
            m,
            domain,
            label,
            new_resolver,
            new_owner,
            expiration,
            sender,
            owner,
            meta,
            now,
        ).res is Ok,
    ensures
        ({
            let o = set_subdomain_outcome(
                m,
                domain,
                label,
                new_resolver,
                new_owner,
                expiration,
                sender,
                owner,
                meta,
                now,
            );
            forall|i: int|
                0 <= i < o.res->Ok_0.len() ==> ((#[trigger] o.res->Ok_0[i]) matches CommandV::UpdateMetadata {
                    token_id,
                    extension,
                } ==> token_id == domain && extension.subdomains is Some && mirror_matches(
                    o.state,
                    domain,
                    extension.subdomains->Some_0,
                ))
        }),
{
    let o = set_subdomain_outcome(
        m,
        domain,
        label,
        new_resolver,
        new_owner,
        expiration,
        sender,
        owner,
        meta,
        now,
    );
    let list = meta->Some_0.subdomains->Some_0;
    let dom_exp = m.records[domain].expiration;
    let clamped: u64 = if expiration > dom_exp {
        dom_exp
    } else {
        expiration
    };
    let route0 = route_of(label, domain);
    let rec0 = NameRecordV { resolver: new_resolver, created: now, expiration: clamped };
    let newd = new_descriptor(label, new_resolver, now, clamped);
    let kept = drop_descriptor(list, label);
    let list2 = upsert_descriptor(list, label, new_resolver, now, clamped);
    let m2 = o.state;
    lemma_drop_descriptor_props(list, label);
    assert(m2.records == m.records.insert(route0, rec0));
    assert(newd == lease_descriptor(rec0, label));
    assert forall|i: int| 0 <= i < list2.len() implies {
        let d = #[trigger] list2[i];
        &&& d.name is Some
        &&& m2.records.contains_key(route_of(d.name->Some_0, domain))
        &&& d == lease_descriptor(m2.records[route_of(d.name->Some_0, domain)], d.name->Some_0)
    } by {
        if i < list2.len() - 1 {
            let d = kept[i];
            assert(list.contains(d));
            let k = choose|k: int| 0 <= k < list.len() && list[k] == d;
            Seq::lemma_filter_pred(list, keeps_label(label), i);
            assert(d.name != Some(label));
            if route_of(d.name->Some_0, domain) == route0 {
                lemma_route_injective(d.name->Some_0, label, domain);
            }
        } else {
            assert(list2[i] == newd);
        }
    }
    assert forall|label2: Seq<char>|
        m2.records.contains_key(#[trigger] route_of(label2, domain)) implies list2.contains(
        lease_descriptor(m2.records[route_of(label2, domain)], label2),
    ) by {
        if label2 == label {
            assert(list2[list2.len() - 1] == newd);
        } else {
            if route_of(label2, domain) == route0 {
                lemma_route_injective(label2, label, domain);
            }
            assert(m.records.contains_key(route_of(label2, domain)));
            let canon = lease_descriptor(m.records[route_of(label2, domain)], label2);
            assert(list.contains(canon));
            let k = choose|k: int| 0 <= k < list.len() && list[k] == canon;
            Seq::lemma_filter_contains(list, keeps_label(label), k);
            assert(kept.contains(canon));
            let t = choose|t: int| 0 <= t < kept.len() && kept[t] == canon;
            assert(list2[t] == canon);
        }
    }
    assert(descriptor_names_distinct(list2)) by {
        assert forall|i: int, j: int| 0 <= i < j < list2.len() implies (
        #[trigger] list2[i]).name != (#[trigger] list2[j]).name by {
            if j < list2.len() - 1 {
                assert(list2[i] == kept[i] && list2[j] == kept[j]);
            } else {
                assert(list2[j] == newd);
                Seq::lemma_filter_pred(list, keeps_label(label), i);
                assert(list2[i].name != Some(label));
            }
        }
    }
    assert(mirror_matches(m2, domain, list2));
}

/// `ExtendSubdomainExpiry` preserves the mirror invariant: its
/// metadata replacement carries exactly the projection of the new
/// lease table's subdomains.
pub proof fn lemma_mirror_after_extension(
    m: RegistryV,
    domain: Seq<char>,
    label: Seq<char>,
    expiration: u64,
    sender: Seq<char>,
    owner: Option<Seq<char>>,
    meta: Option<MetadataV>,
    now: u64,
)
    requires
        meta is Some,
        meta->Some_0.subdomains is Some,
        mirror_matches(m, domain, meta->Some_0.subdomains->Some_0),
        extend_subdomain_outcome(m, domain, label, expiration, sender, owner, meta, now).res is Ok,
    ensures
        ({
            let o = extend_subdomain_outcome(m, domain, label, expiration, sender, owner, meta, now);
            forall|i: int|
                0 <= i < o.res->Ok_0.len() ==> ((#[trigger] o.res->Ok_0[i]) matches CommandV::UpdateMetadata {
                    token_id,
                    extension,
                } ==> token_id == domain && extension.subdomains is Some && mirror_matches(
                    o.state,
                    domain,
                    extension.subdomains->Some_0,
                ))
        }),
{
    let o = extend_subdomain_outcome(m, domain, label, expiration, sender, owner, meta, now);
    let list = meta->Some_0.subdomains->Some_0;
    let route0 = route_of(label, domain);
    let sub = m.records[route0];
    let dom_exp = m.records[domain].expiration;
    let clamped: u64 = if expiration > dom_exp {
        dom_exp
    } else {
        expiration
    };
    let rec2 = NameRecordV { resolver: sub.resolver, created: sub.created, expiration: clamped };
    let list2 = rewrite_descriptor(list, label, sub.resolver, clamped);
    let m2 = o.state;
    let i0 = choose|i: int| first_descriptor_at(list, label, i);
    assert(first_descriptor_at(list, label, i0));
    assert(list[i0] == lease_descriptor(sub, label));
    assert(list2 == list.update(
        i0,
        SubdomainV {
            name: Some(label),
            resolver: Some(sub.resolver),
            minted: None,
            created: list[i0].created,
            expiry: Some(clamped),
        },
    ));
    assert(list2[i0] == lease_descriptor(rec2, label));
    assert(m2.records == m.records.insert(route0, rec2));
    assert forall|i: int| 0 <= i < list2.len() implies {
        let d = #[trigger] list2[i];
        &&& d.name is Some
        &&& m2.records.contains_key(route_of(d.name->Some_0, domain))
        &&& d == lease_descriptor(m2.records[route_of(d.name->Some_0, domain)], d.name->Some_0)
    } by {
        if i != i0 {
            assert(list2[i] == list[i]);
            assert(list[i].name != list[i0].name);
            if route_of(list[i].name->Some_0, domain) == route0 {
                lemma_route_injective(list[i].name->Some_0, label, domain);
            }
        }
    }
    assert forall|label2: Seq<char>|
        m2.records.contains_key(#[trigger] route_of(label2, domain)) implies list2.contains(
        lease_descriptor(m2.records[route_of(label2, domain)], label2),
    ) by {
        if label2 == label {
            assert(list2[i0] == lease_descriptor(rec2, label));
        } else {
            if route_of(label2, domain) == route0 {
                lemma_route_injective(label2, label, domain);
            }
            let canon = lease_descriptor(m.records[route_of(label2, domain)], label2);
            assert(list.contains(canon));
            let k = choose|k: int| 0 <= k < list.len() && list[k] == canon;
            assert(k != i0) by {
                if k == i0 {
                    assert(canon.name == Some(label2));
                }
            }
            assert(list2[k] == canon);
        }
    }
    assert(descriptor_names_distinct(list2)) by {
        assert(forall|i: int| 0 <= i < list2.len() ==> (#[trigger] list2[i]).name == list[i].name);
    }
    assert(mirror_matches(m2, domain, list2));
}

/// `RemoveSubdomain` preserves the mirror invariant: its metadata
/// replacement drops exactly the removed subdomain's descriptor.
pub proof fn lemma_mirror_after_removal(
    m: RegistryV,
    domain: Seq<char>,
    label: Seq<char>,
    sender: Seq<char>,
    owner: Option<Seq<char>>,
    sub_owner: Option<Seq<char>>,
    meta: Option<MetadataV>,
    now: u64,
)
    requires
        meta is Some,
        meta->Some_0.subdomains is Some,
        mirror_matches(m, domain, meta->Some_0.subdomains->Some_0),
        remove_subdomain_outcome(m, domain, label, sender, owner, sub_owner, meta, now).res is Ok,
    ensures
        ({
            let o = remove_subdomain_outcome(m, domain, label, sender, owner, sub_owner, meta, now);
            forall|i: int|
                0 <= i < o.res->Ok_0.len() ==> ((#[trigger] o.res->Ok_0[i]) matches CommandV::UpdateMetadata {
                    token_id,
                    extension,
                } ==> token_id == domain && extension.subdomains is Some && mirror_matches(
                    o.state,
                    domain,
                    extension.subdomains->Some_0,
                ))
        }),
{
    let o = remove_subdomain_outcome(m, domain, label, sender, owner, sub_owner, meta, now);
    let list = meta->Some_0.subdomains->Some_0;
    let route0 = route_of(label, domain);
    let list2 = drop_descriptor(list, label);
    let m2 = o.state;
    lemma_drop_descriptor_props(list, label);
    assert forall|i: int| 0 <= i < list2.len() implies {
        let d = #[trigger] list2[i];
        &&& d.name is Some
        &&& m2.records.contains_key(route_of(d.name->Some_0, domain))
        &&& d == lease_descriptor(m2.records[route_of(d.name->Some_0, domain)], d.name->Some_0)
    } by {
        let d = list2[i];
        assert(list.contains(d));
        let k = choose|k: int| 0 <= k < list.len() && list[k] == d;
        Seq::lemma_filter_pred(list, keeps_label(label), i);
        assert(d.name != Some(label));
        if route_of(d.name->Some_0, domain) == route0 {
            lemma_route_injective(d.name->Some_0, label, domain);
        }
    }
    assert forall|label2: Seq<char>|
        m2.records.contains_key(#[trigger] route_of(label2, domain)) implies list2.contains(
        lease_descriptor(m2.records[route_of(label2, domain)], label2),
    ) by {
        assert(label2 != label) by {
            if label2 == label {
                assert(!m2.records.contains_key(route0));
            }
        }
        if route_of(label2, domain) == route0 {
            lemma_route_injective(label2, label, domain);
        }
        let canon = lease_descriptor(m.records[route_of(label2, domain)], label2);
        assert(list.contains(canon));
        let k = choose|k: int| 0 <= k < list.len() && list[k] == canon;
        Seq::lemma_filter_contains(list, keeps_label(label), k);
    }
    assert(mirror_matches(m2, domain, list2));
}


/// A sequence containing an occurrence of `c` has a first occurrence.
proof fn lemma_exists_first_char(s: Seq<char>, c: char, k: int)
    requires
        0 <= k < s.len(),
        s[k] == c,
    ensures
        exists|i: int| first_char_at(s, c, i),
    decreases k,
{
    if forall|j: int| 0 <= j < k ==> #[trigger] s[j] != c {
        assert(first_char_at(s, c, k));
    } else {
        let k2 = choose|j: int| 0 <= j < k && #[trigger] s[j] == c;
        lemma_exists_first_char(s, c, k2);
    }
}

/// A positive character count means the character occurs.
proof fn lemma_count_pos_occurs(s: Seq<char>, c: char)
    requires
        count_char(s, c) > 0,
    ensures
        exists|i: int| 0 <= i < s.len() && s[i] == c,
    decreases s.len(),
{
    if s.last() == c {
        assert(s[s.len() - 1] == c);
    } else {
        lemma_count_pos_occurs(s.drop_last(), c);
        let i = choose|i: int| 0 <= i < s.drop_last().len() && s.drop_last()[i] == c;
        assert(s[i] == c);
    }
}

/// Splitting a subdomain route and joining the parts again gives the
/// route back.
pub proof fn lemma_prefix_splits_route(s: Seq<char>)
    requires
        subdomain_prefix_of(s) is Some,
    ensures
        s == route_of(subdomain_prefix_of(s)->Some_0.0, subdomain_prefix_of(s)->Some_0.1),
{
    reveal_strlit(".");
    lemma_count_pos_occurs(s, '.');
    let k = choose|i: int| 0 <= i < s.len() && s[i] == '.';
    lemma_exists_first_char(s, '.', k);
    let p = choose|i: int| first_char_at(s, '.', i);
    let label = s.subrange(0, p);
    let parent = s.subrange(p + 1, s.len() as int);
    assert(s =~= route_of(label, parent)) by {
        assert("."@.len() == 1 && "."@[0] == '.');
        assert(route_of(label, parent).len() == s.len());
        assert(forall|i: int| 0 <= i < p ==> #[trigger] route_of(label, parent)[i] == s[i]);
        assert(route_of(label, parent)[p] == '.');
        assert(forall|i: int|
            p < i < s.len() ==> #[trigger] route_of(label, parent)[i] == parent[i - p - 1]);
    }
}

/// `UpdateResolver` of a subdomain route preserves the mirror
/// invariant: the parent's metadata replacement repoints exactly the
/// one descriptor whose lease was repointed.
pub proof fn lemma_mirror_after_update_resolver(
    m: RegistryV,
    name: Seq<char>,
    new_resolver: Seq<char>,
    sender: Seq<char>,
    owner: Option<Seq<char>>,
    meta: Option<MetadataV>,
    now: u64,
)
    requires
        subdomain_prefix_of(name) is Some,
        meta is Some,
        meta->Some_0.subdomains is Some,
        mirror_matches(m, subdomain_prefix_of(name)->Some_0.1, meta->Some_0.subdomains->Some_0),
        update_resolver_outcome(m, name, new_resolver, sender, owner, meta, now).res is Ok,
    ensures
        ({
            let o = update_resolver_outcome(m, name, new_resolver, sender, owner, meta, now);
            let parent = subdomain_prefix_of(name)->Some_0.1;
            forall|i: int|
                0 <= i < o.res->Ok_0.len() ==> ((#[trigger] o.res->Ok_0[i]) matches CommandV::UpdateMetadata {
                    token_id,
                    extension,
                } ==> token_id == parent && extension.subdomains is Some && mirror_matches(
                    o.state,
                    parent,
                    extension.subdomains->Some_0,
                ))
        }),
{
    let o = update_resolver_outcome(m, name, new_resolver, sender, owner, meta, now);
    let label = subdomain_prefix_of(name)->Some_0.0;
    let parent = subdomain_prefix_of(name)->Some_0.1;
    lemma_prefix_splits_route(name);
    let route0 = route_of(label, parent);
    let list = meta->Some_0.subdomains->Some_0;
    let curr = m.records[route0];
    let rec2 = NameRecordV {
        resolver: new_resolver,
        created: curr.created,
        expiration: curr.expiration,
    };
    let list2 = rewrite_descriptor(list, label, new_resolver, curr.expiration);
    let m2 = o.state;
    let i0 = choose|i: int| first_descriptor_at(list, label, i);
    assert(first_descriptor_at(list, label, i0));
    assert(list[i0] == lease_descriptor(curr, label));
    assert(list2 == list.update(
        i0,
        SubdomainV {
            name: Some(label),
            resolver: Some(new_resolver),
            minted: None,
            created: list[i0].created,
            expiry: Some(curr.expiration),
        },
    ));
    assert(list2[i0] == lease_descriptor(rec2, label));
    assert(m2.records == m.records.insert(route0, rec2));
    assert forall|i: int| 0 <= i < list2.len() implies {
        let d = #[trigger] list2[i];
        &&& d.name is Some
        &&& m2.records.contains_key(route_of(d.name->Some_0, parent))
        &&& d == lease_descriptor(m2.records[route_of(d.name->Some_0, parent)], d.name->Some_0)
    } by {
        if i != i0 {
            assert(list2[i] == list[i]);
            assert(list[i].name != list[i0].name);
            if route_of(list[i].name->Some_0, parent) == route0 {
                lemma_route_injective(list[i].name->Some_0, label, parent);
            }
        }
    }
    assert forall|label2: Seq<char>|
        m2.records.contains_key(#[trigger] route_of(label2, parent)) implies list2.contains(
        lease_descriptor(m2.records[route_of(label2, parent)], label2),
    ) by {
        if label2 == label {
            assert(list2[i0] == lease_descriptor(rec2, label));
        } else {
            if route_of(label2, parent) == route0 {
                lemma_route_injective(label2, label, parent);
            }
            let canon = lease_descriptor(m.records[route_of(label2, parent)], label2);
            assert(list.contains(canon));
            let k = choose|k: int| 0 <= k < list.len() && list[k] == canon;
            assert(k != i0) by {
                if k == i0 {
                    assert(canon.name == Some(label2));
                }
            }
            assert(list2[k] == canon);
        }
    }
    assert(descriptor_names_distinct(list2)) by {
        assert(forall|i: int| 0 <= i < list2.len() ==> (#[trigger] list2[i]).name == list[i].name);
    }
    assert(mirror_matches(m2, parent, list2));
}

} // verus!
