//! The registry's request and response shapes, as plain values.
//!
//! The host decodes wire messages into these types, queries the token
//! ledger for whatever answers the chosen operation needs, and hands
//! both to [`crate::contract::execute`].

use vstd::prelude::*;

verus! {

use crate::metadata::{Account, AccountV, Website, WebsiteV};
use crate::state::Config;

/// The values the registry is initialised with: the first configuration.
#[derive(Clone, Debug, PartialEq)]
pub struct InstantiateMsg {
    pub admin: String,
    pub wallet: String,
    pub cw721: String,
    pub base_cost: u128,
    pub base_expiration: u64,
}

/// A holder's replacement of the descriptive parts of their token's
/// metadata.
#[derive(Clone, Debug, PartialEq)]
pub struct MetaDataUpdateMsg {
    pub description: Option<String>,
    pub image: Option<String>,
    pub accounts: Option<Vec<Account>>,
    pub websites: Option<Vec<Website>>,
}

/// Spec-level view of a [`MetaDataUpdateMsg`].
pub struct MetaDataUpdateMsgV {
    pub description: Option<Seq<char>>,
    pub image: Option<Seq<char>>,
    pub accounts: Option<Seq<AccountV>>,
    pub websites: Option<Seq<WebsiteV>>,
}

impl View for MetaDataUpdateMsg {
    type V = MetaDataUpdateMsgV;

    open spec fn view(&self) -> MetaDataUpdateMsgV {
        MetaDataUpdateMsgV {
            description: self.description.deep_view(),
            image: self.image.deep_view(),
            accounts: self.accounts.deep_view(),
            websites: self.websites.deep_view(),
        }
    }
}

/// A state-changing request.  Names arrive raw (without the suffix);
/// the dispatcher qualifies them.
#[derive(Clone, Debug, PartialEq)]
pub enum ExecuteMsg {
    Register { name: String },
    Withdraw { amount: u128 },
    RenewRegistration { name: String },
    ExtendSubdomainExpiry { domain: String, subdomain: String, expiration: u64 },
    UpdateResolver { name: String, new_resolver: String },
    RegisterSubdomain {
        domain: String,
        subdomain: String,
        new_resolver: String,
        new_owner: String,
        expiration: u64,
    },
    RemoveSubdomain { domain: String, subdomain: String },
    UpdateConfig { config: Config },
    UpdateUserDomainData { name: String, metadata_update: MetaDataUpdateMsg },
}

/// A read-only request.
#[derive(Clone, Debug, PartialEq)]
pub enum QueryMsg {
    ResolveRecord { name: String },
    RecordExpiration { name: String },
    ResolveAddress { address: String },
    Config {},
}

/// The answer to a resolve query: the resolver the name points to while
/// its lease is active (`None` once expired or absent), and the lease's
/// expiration.
#[derive(Clone, Debug, PartialEq)]
pub struct ResolveRecordResponse {
    pub address: Option<String>,
    pub expiration: u64,
}

/// Spec-level view of a [`ResolveRecordResponse`].
pub struct ResolveRecordResponseV {
    pub address: Option<Seq<char>>,
    pub expiration: u64,
}

impl View for ResolveRecordResponse {
    type V = ResolveRecordResponseV;

    open spec fn view(&self) -> ResolveRecordResponseV {
        ResolveRecordResponseV { address: self.address.deep_view(), expiration: self.expiration }
    }
}

/// The answer to a reverse lookup: the active names pointing at an
/// address, or `None` when there is none.
#[derive(Clone, Debug, PartialEq)]
pub struct ResolveAddressResponse {
    pub names: Option<Vec<String>>,
}

/// Spec-level view of a [`ResolveAddressResponse`].
pub struct ResolveAddressResponseV {
    pub names: Option<Seq<Seq<char>>>,
}

impl View for ResolveAddressResponse {
    type V = ResolveAddressResponseV;

    open spec fn view(&self) -> ResolveAddressResponseV {
        ResolveAddressResponseV { names: self.names.deep_view() }
    }
}

/// The answer to an expiration query: the lease's creation and
/// expiration times.
#[derive(Clone, Copy, Debug, PartialEq, Eq, Structural)]
pub struct RecordExpirationResponse {
    pub created: u64,
    pub expiration: u64,
}

/// The answer to a [`QueryMsg`], as a plain value for the host to
/// encode.
#[derive(Clone, Debug, PartialEq)]
pub enum QueryResponse {
    Record(ResolveRecordResponse),
    Expiration(RecordExpirationResponse),
    Address(ResolveAddressResponse),
    Config(Config),
}

} // verus!
