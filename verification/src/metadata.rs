//! The metadata mirror: the descriptive record that the external token
//! ledger stores for each token.
//!
//! A domain token's metadata carries the list of its subdomain
//! descriptors; every operation that changes a subdomain lease emits a
//! metadata-replace command built by the functions here, so that the
//! mirrored list follows the lease table.

use vstd::prelude::*;

verus! {

use crate::error::{ContractError, ErrorV};

/// One mirrored subdomain descriptor inside a domain token's metadata.
#[derive(Clone, Debug, PartialEq)]
pub struct Subdomain {
    pub name: Option<String>,
    pub resolver: Option<String>,
    pub minted: Option<bool>,
    pub created: Option<u64>,
    pub expiry: Option<u64>,
}

/// Spec-level view of a [`Subdomain`] descriptor.
pub struct SubdomainV {
    pub name: Option<Seq<char>>,
    pub resolver: Option<Seq<char>>,
    pub minted: Option<bool>,
    pub created: Option<u64>,
    pub expiry: Option<u64>,
}

impl View for Subdomain {
    type V = SubdomainV;

    open spec fn view(&self) -> SubdomainV {
        SubdomainV {
            name: self.name.deep_view(),
            resolver: self.resolver.deep_view(),
            minted: self.minted,
            created: self.created,
            expiry: self.expiry,
        }
    }
}

impl DeepView for Subdomain {
    type V = SubdomainV;

    open spec fn deep_view(&self) -> SubdomainV {
        self.view()
    }
}

/// An external account linked to a name.
#[derive(Clone, Debug, PartialEq)]
pub struct Account {
    pub username: Option<String>,
    pub profile: Option<String>,
    pub account_type: Option<String>,
    pub verfication_hash: Option<String>,
}

/// Spec-level view of an [`Account`].
pub struct AccountV {
    pub username: Option<Seq<char>>,
    pub profile: Option<Seq<char>>,
    pub account_type: Option<Seq<char>>,
    pub verfication_hash: Option<Seq<char>>,
}

impl View for Account {
    type V = AccountV;

    open spec fn view(&self) -> AccountV {
        AccountV {
            username: self.username.deep_view(),
            profile: self.profile.deep_view(),
            account_type: self.account_type.deep_view(),
            verfication_hash: self.verfication_hash.deep_view(),
        }
    }
}

impl DeepView for Account {
    type V = AccountV;

    open spec fn deep_view(&self) -> AccountV {
        self.view()
    }
}

/// A website linked to a name.
#[derive(Clone, Debug, PartialEq)]
pub struct Website {
    pub url: Option<String>,
    pub domain: Option<String>,
    pub verfication_hash: Option<String>,
}

/// Spec-level view of a [`Website`].
pub struct WebsiteV {
    pub url: Option<Seq<char>>,
    pub domain: Option<Seq<char>>,
    pub verfication_hash: Option<Seq<char>>,
}

impl View for Website {
    type V = WebsiteV;

    open spec fn view(&self) -> WebsiteV {
        WebsiteV {
            url: self.url.deep_view(),
            domain: self.domain.deep_view(),
            verfication_hash: self.verfication_hash.deep_view(),
        }
    }
}

impl DeepView for Website {
    type V = WebsiteV;

    open spec fn deep_view(&self) -> WebsiteV {
        self.view()
    }
}

/// The descriptive record mirrored in the token ledger for one token.
#[derive(Clone, Debug, PartialEq)]
pub struct Metadata {
    pub name: Option<String>,
    pub description: Option<String>,
    pub image: Option<String>,
    pub created: Option<u64>,
    pub expiry: Option<u64>,
    pub domain: Option<String>,
    pub subdomains: Option<Vec<Subdomain>>,
    pub accounts: Option<Vec<Account>>,
    pub websites: Option<Vec<Website>>,
}

/// Spec-level view of a [`Metadata`] record.
#[verifier::ext_equal]
pub struct MetadataV {
    pub name: Option<Seq<char>>,
    pub description: Option<Seq<char>>,
    pub image: Option<Seq<char>>,
    pub created: Option<u64>,
    pub expiry: Option<u64>,
    pub domain: Option<Seq<char>>,
    pub subdomains: Option<Seq<SubdomainV>>,
    pub accounts: Option<Seq<AccountV>>,
    pub websites: Option<Seq<WebsiteV>>,
}

impl View for Metadata {
    type V = MetadataV;

    open spec fn view(&self) -> MetadataV {
        MetadataV {
            name: self.name.deep_view(),
            description: self.description.deep_view(),
            image: self.image.deep_view(),
            created: self.created,
            expiry: self.expiry,
            domain: self.domain.deep_view(),
            subdomains: self.subdomains.deep_view(),
            accounts: self.accounts.deep_view(),
            websites: self.websites.deep_view(),
        }
    }
}

impl DeepView for Metadata {
    type V = MetadataV;

    open spec fn deep_view(&self) -> MetadataV {
        self.view()
    }
}

/// The descriptor that the registry writes into a domain's mirror for
/// one subdomain.
pub open spec fn new_descriptor(
    label: Seq<char>,
    resolver: Seq<char>,
    created: u64,
    expiry: u64,
) -> SubdomainV {
    SubdomainV {
        name: Some(label),
        resolver: Some(resolver),
        minted: None,
        created: Some(created),
        expiry: Some(expiry),
    }
}

/// Whether a descriptor carries the given label as its name.
pub open spec fn descriptor_is(d: SubdomainV, label: Seq<char>) -> bool {
    d.name == Some(label)
}

/// The predicate keeping every descriptor that does not carry `label`.
pub open spec fn keeps_label(label: Seq<char>) -> spec_fn(SubdomainV) -> bool {
    |d: SubdomainV| !descriptor_is(d, label)
}

/// `list` with every descriptor of the given label dropped.
pub open spec fn drop_descriptor(list: Seq<SubdomainV>, label: Seq<char>) -> Seq<SubdomainV> {
    list.filter(keeps_label(label))
}

/// `list` with the given label's descriptor replaced: any old descriptor
/// of that label is dropped and the fresh one appended.
pub open spec fn upsert_descriptor(
    list: Seq<SubdomainV>,
    label: Seq<char>,
    resolver: Seq<char>,
    created: u64,
    expiry: u64,
) -> Seq<SubdomainV> {
    drop_descriptor(list, label).push(new_descriptor(label, resolver, created, expiry))
}

/// `i` is the position of the first descriptor carrying `label`.
pub open spec fn first_descriptor_at(list: Seq<SubdomainV>, label: Seq<char>, i: int) -> bool {
    0 <= i < list.len() && descriptor_is(list[i], label) && (forall|j: int|
        0 <= j < i ==> !descriptor_is(#[trigger] list[j], label))
}

/// `list` with the first descriptor of `label` rewritten to the given
/// resolver and expiry; its creation time is kept, its mint mark
/// cleared.
pub open spec fn rewrite_descriptor(
    list: Seq<SubdomainV>,
    label: Seq<char>,
    resolver: Seq<char>,
    expiry: u64,
) -> Seq<SubdomainV>
    recommends
        exists|i: int| first_descriptor_at(list, label, i),
{
    let i = choose|i: int| first_descriptor_at(list, label, i);
    list.update(
        i,
        SubdomainV {
            name: Some(label),
            resolver: Some(resolver),
            minted: None,
            created: list[i].created,
            expiry: Some(expiry),
        },
    )
}

/// At most one position holds the first descriptor of a label.
pub proof fn lemma_first_descriptor_unique(list: Seq<SubdomainV>, label: Seq<char>, i: int, j: int)
    requires
        first_descriptor_at(list, label, i),
        first_descriptor_at(list, label, j),
    ensures
        i == j,
{
    if i < j {
        assert(!descriptor_is(list[i], label));
    }
    if j < i {
        assert(!descriptor_is(list[j], label));
    }
}

/// Drops every descriptor of `label` from the list, keeping the rest in
/// order.
fn strip_descriptors(subs: Vec<Subdomain>, label: &String) -> (r: Vec<Subdomain>)
    ensures
        r.deep_view() == drop_descriptor(subs.deep_view(), label@),
{
    let ghost orig = subs.deep_view();
    let ghost pred = keeps_label(label@);
    let mut rest = subs;
    let mut acc: Vec<Subdomain> = Vec::new();
    let ghost k: int = 0;
    proof {
        assert(orig.take(0).filter(pred) =~= Seq::<SubdomainV>::empty());
        assert(acc.deep_view() =~= Seq::<SubdomainV>::empty());
    }
    while rest.len() > 0
        invariant
            pred == keeps_label(label@),
            0 <= k <= orig.len(),
            rest.deep_view() == orig.skip(k),
            acc.deep_view() == orig.take(k).filter(pred),
        decreases rest.len(),
    {
        let ghost rv_before = rest.deep_view();
        let ghost rvec = rest@;
        let ghost dk = orig[k];
        proof {
            assert(rv_before.len() == rvec.len());
            assert(k < orig.len());
            assert(rv_before[0] == rvec[0].deep_view());
            assert(orig.skip(k)[0] == orig[k]);
        }
        let d = rest.remove(0);
        proof {
            assert(d.deep_view() == dk);
            assert(rest.deep_view() =~= orig.skip(k + 1)) by {
                assert(rest@ == rvec.remove(0));
                assert(forall|j: int| 0 <= j < rest@.len() ==> rest@[j] == rvec[j + 1]);
                assert(forall|j: int|
                    0 <= j < rest@.len() ==> rest.deep_view()[j] == (#[trigger] rest@[j]).deep_view());
                assert(forall|j: int|
                    0 <= j < rest@.len() ==> (#[trigger] rvec[j + 1]).deep_view() == rv_before[j
                        + 1]);
                assert(forall|j: int| 0 <= j < rest@.len() ==> #[trigger] rv_before[j + 1] == orig[k
                    + 1 + j]);
            }
            assert(orig.take(k + 1) =~= orig.take(k).push(dk));
            Seq::lemma_filter_push(orig.take(k), dk, pred);
        }
        let keep = match &d.name {
            Some(n) => !(*n == *label),
            None => true,
        };
        proof {
            assert(dk.name == d.name.deep_view());
            assert(pred(dk) == !descriptor_is(dk, label@));
            assert(keep == pred(dk));
        }
        if keep {
            let ghost acc_old = acc.deep_view();
            let ghost avec = acc@;
            acc.push(d);
            proof {
                assert(acc.deep_view() =~= acc_old.push(dk)) by {
                    assert(acc@ == avec.push(d));
                    assert(forall|j: int|
                        0 <= j < acc@.len() ==> acc.deep_view()[j] == (
                        #[trigger] acc@[j]).deep_view());
                    assert(forall|j: int|
                        0 <= j < avec.len() ==> (#[trigger] avec[j]).deep_view() == acc_old[j]);
                }
            }
        }
        proof {
            k = k + 1;
        }
    }
    proof {
        assert(orig.take(k) =~= orig);
    }
    acc
}

/// Replaces (or first inserts) the mirrored descriptor of one subdomain
/// inside its domain's metadata: any stale descriptor of the same label
/// is dropped and a fresh one, pointing at `resolver` and expiring at
/// `expiry`, is appended.
///
/// Fails with the host-failure error when the metadata carries no
/// descriptor list at all, as only domain tokens do.
pub fn add_subdomain_metadata(
    meta: Metadata,
    subdomain: &String,
    resolver: &String,
    created: u64,
    expiry: u64,
) -> (r: Result<Metadata, ContractError>)
    ensures
        match meta.subdomains {
            None => r matches Err(e) && e@ == ErrorV::Std,
            Some(_) => r matches Ok(m) && m@ == (MetadataV {
                subdomains: Some(
                    upsert_descriptor(
                        meta@.subdomains->Some_0,
                        subdomain@,
                        resolver@,
                        created,
                        expiry,
                    ),
                ),
                ..meta@
            }),
        },
{
    let Metadata { name, description, image, created: m_created, expiry: m_expiry, domain, subdomains, accounts, websites } = meta;
    let subs = match subdomains {
        None => {
            return Err(ContractError::Std {});
        },
        Some(s) => s,
    };
    let mut out = strip_descriptors(subs, subdomain);
    out.push(
        Subdomain {
            name: Some(subdomain.clone()),
            resolver: Some(resolver.clone()),
            minted: None,
            created: Some(created),
            expiry: Some(expiry),
        },
    );
    proof {
        assert(out.deep_view() =~= upsert_descriptor(
            meta@.subdomains->Some_0,
            subdomain@,
            resolver@,
            created,
            expiry,
        ));
    }
    Ok(
        Metadata {
            name,
            description,
            image,
            created: m_created,
            expiry: m_expiry,
            domain,
            subdomains: Some(out),
            accounts,
            websites,
        },
    )
}

/// Drops one subdomain's mirrored descriptor from its domain's
/// metadata.  Fails with the host-failure error when the metadata
/// carries no descriptor list.
pub fn remove_subdomain_metadata(meta: Metadata, subdomain: &String) -> (r: Result<
    Metadata,
    ContractError,
>)
    ensures
        match meta.subdomains {
            None => r matches Err(e) && e@ == ErrorV::Std,
            Some(_) => r matches Ok(m) && m@ == (MetadataV {
                subdomains: Some(drop_descriptor(meta@.subdomains->Some_0, subdomain@)),
                ..meta@
            }),
        },
{
    let Metadata { name, description, image, created: m_created, expiry: m_expiry, domain, subdomains, accounts, websites } = meta;
    let subs = match subdomains {
        None => {
            return Err(ContractError::Std {});
        },
        Some(s) => s,
    };
    let out = strip_descriptors(subs, subdomain);
    Ok(
        Metadata {
            name,
            description,
            image,
            created: m_created,
            expiry: m_expiry,
            domain,
            subdomains: Some(out),
            accounts,
            websites,
        },
    )
}

/// Rewrites the mirrored descriptor of one subdomain in place: new
/// resolver, new expiry, creation time kept.  Fails with the
/// host-failure error when the metadata carries no descriptor list or
/// no descriptor of that label.
#[verifier::loop_isolation(false)]
pub fn update_subdomain_metadata(
    meta: Metadata,
    subdomain: &String,
    resolver: &String,
    expiry: u64,
) -> (r: Result<Metadata, ContractError>)
    ensures
        match meta.subdomains {
            None => r matches Err(e) && e@ == ErrorV::Std,
            Some(_) => {
                let list = meta@.subdomains->Some_0;
                if exists|i: int| first_descriptor_at(list, subdomain@, i) {
                    r matches Ok(m) && m@ == (MetadataV {
                        subdomains: Some(rewrite_descriptor(list, subdomain@, resolver@, expiry)),
                        ..meta@
                    })
                } else {
                    r matches Err(e) && e@ == ErrorV::Std
                }
            },
        },
{
    let Metadata { name, description, image, created: m_created, expiry: m_expiry, domain, subdomains, accounts, websites } = meta;
    let mut subs = match subdomains {
        None => {
            return Err(ContractError::Std {});
        },
        Some(s) => s,
    };
    let ghost list = subs.deep_view();
    let n = subs.len();
    let mut i: usize = 0;
    while i < n
        invariant
            0 <= i <= n,
            n == subs@.len(),
            list == subs.deep_view(),
            forall|j: int| 0 <= j < i ==> !descriptor_is(#[trigger] list[j], subdomain@),
        decreases n - i,
    {
        proof {
            assert(list[i as int] == subs.deep_view()[i as int]);
            assert(subs.deep_view()[i as int] == subs@[i as int].deep_view());
        }
        let is_match = match &subs[i].name {
            Some(nm) => *nm == *subdomain,
            None => false,
        };
        if is_match {
            proof {
                assert(descriptor_is(list[i as int], subdomain@));
                assert(first_descriptor_at(list, subdomain@, i as int));
                let w = choose|w: int| first_descriptor_at(list, subdomain@, w);
                lemma_first_descriptor_unique(list, subdomain@, i as int, w);
            }
            let created_kept = subs[i].created;
            let d = Subdomain {
                name: Some(subdomain.clone()),
                resolver: Some(resolver.clone()),
                minted: None,
                created: created_kept,
                expiry: Some(expiry),
            };
            let ghost bvec = subs@;
            vstd::pervasive::VecAdditionalExecFns::set(&mut subs, i, d);
            proof {
                assert(subs.deep_view() =~= rewrite_descriptor(
                    list,
                    subdomain@,
                    resolver@,
                    expiry,
                )) by {
                    assert(subs@ == bvec.update(i as int, d));
                    assert(d.deep_view().created == list[i as int].created);
                    assert(forall|j: int|
                        0 <= j < subs@.len() ==> subs.deep_view()[j] == (
                        #[trigger] subs@[j]).deep_view());
                    assert(forall|j: int|
                        0 <= j < bvec.len() ==> (#[trigger] bvec[j]).deep_view() == list[j]);
                }
            }
            return Ok(
                Metadata {
                    name,
                    description,
                    image,
                    created: m_created,
                    expiry: m_expiry,
                    domain,
                    subdomains: Some(subs),
                    accounts,
                    websites,
                },
            );
        }
        i += 1;
    }
    proof {
        if exists|w: int| first_descriptor_at(list, subdomain@, w) {
            let w = choose|w: int| first_descriptor_at(list, subdomain@, w);
            assert(!descriptor_is(list[w], subdomain@));
        }
    }
    Err(ContractError::Std {})
}

/// Sets the mirrored expiry of a token's own metadata, leaving every
/// other field alone.
pub fn update_metadata_expiry(meta: Metadata, expiration: u64) -> (r: Metadata)
    ensures
        r@ == (MetadataV { expiry: Some(expiration), ..meta@ }),
{
    let Metadata { name, description, image, created, expiry: _, domain, subdomains, accounts, websites } = meta;
    Metadata {
        name,
        description,
        image,
        created,
        expiry: Some(expiration),
        domain,
        subdomains,
        accounts,
        websites,
    }
}

} // verus!
