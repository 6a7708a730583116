//! Outbound commands: the effects an operation asks the host to apply.
//!
//! Commands are plain data, not side effects.  An operation returns the
//! ordered batch of commands for the token ledger (mint, burn, metadata
//! replacement) or the bank (fund transfer); the host must apply the
//! whole batch atomically together with the registry's own state change.

use vstd::prelude::*;

verus! {

use crate::metadata::{Metadata, MetadataV};
use crate::read_utils::{contains_char, get_name_body, name_body_of, SUFFIX_LEN};

/// One outbound effect for the host to execute.
#[derive(Clone, Debug, PartialEq)]
pub enum Command {
    /// Mint the ownership token `token_id` for `owner`, carrying the
    /// given metadata.
    Mint { token_id: String, owner: String, extension: Metadata },
    /// Burn the ownership token `token_id`.
    Burn { token_id: String },
    /// Replace the metadata stored with the token `token_id`.
    UpdateMetadata { token_id: String, extension: Metadata },
    /// Transfer `amount` of the native unit to `to`.
    Send { to: String, amount: u128 },
}

/// Spec-level view of a [`Command`].
#[verifier::ext_equal]
pub enum CommandV {
    Mint { token_id: Seq<char>, owner: Seq<char>, extension: MetadataV },
    Burn { token_id: Seq<char> },
    UpdateMetadata { token_id: Seq<char>, extension: MetadataV },
    Send { to: Seq<char>, amount: u128 },
}

impl View for Command {
    type V = CommandV;

    open spec fn view(&self) -> CommandV {
        match self {
            Command::Mint { token_id, owner, extension } => CommandV::Mint {
                token_id: token_id@,
                owner: owner@,
                extension: extension@,
            },
            Command::Burn { token_id } => CommandV::Burn { token_id: token_id@ },
            Command::UpdateMetadata { token_id, extension } => CommandV::UpdateMetadata {
                token_id: token_id@,
                extension: extension@,
            },
            Command::Send { to, amount } => CommandV::Send { to: to@, amount: *amount },
        }
    }
}

impl DeepView for Command {
    type V = CommandV;

    open spec fn deep_view(&self) -> CommandV {
        self.view()
    }
}

/// The metadata a fresh token is minted with.  A domain token starts
/// with empty subdomain, account and website lists; a subdomain token
/// (whose body contains a dot) carries none, and its description says
/// so.
pub open spec fn mint_metadata(name: Seq<char>, created: u64, expiration: u64) -> MetadataV {
    let body = name_body_of(name);
    let is_sub = body.contains('.');
    MetadataV {
        name: Some(body),
        description: Some(if is_sub {
            name + " subdomain"@
        } else {
            name + " domain"@
        }),
        image: None,
        created: Some(created),
        expiry: Some(expiration),
        domain: Some(name),
        subdomains: if is_sub {
            None
        } else {
            Some(Seq::empty())
        },
        accounts: if is_sub {
            None
        } else {
            Some(Seq::empty())
        },
        websites: if is_sub {
            None
        } else {
            Some(Seq::empty())
        },
    }
}

/// The mint command for a fully-qualified name: token id and metadata
/// derive from the name, `creator` becomes the token's owner.
pub fn mint_handler(name: &String, creator: &String, created: u64, expiration: u64) -> (c: Command)
    requires
        name@.len() >= SUFFIX_LEN,
    ensures
        c@ == (CommandV::Mint {
            token_id: name@,
            owner: creator@,
            extension: mint_metadata(name@, created, expiration),
        }),
{
    let body = get_name_body(name.clone());
    let is_sub = contains_char(body.as_str(), '.');
    let description = if is_sub {
        name.clone().concat(" subdomain")
    } else {
        name.clone().concat(" domain")
    };
    let extension = Metadata {
        name: Some(body),
        description: Some(description),
        image: None,
        created: Some(created),
        expiry: Some(expiration),
        domain: Some(name.clone()),
        subdomains: if is_sub {
            None
        } else {
            Some(Vec::new())
        },
        accounts: if is_sub {
            None
        } else {
            Some(Vec::new())
        },
        websites: if is_sub {
            None
        } else {
            Some(Vec::new())
        },
    };
    proof {
        assert(extension@.subdomains == mint_metadata(name@, created, expiration).subdomains) by {
            if !is_sub {
                assert(extension.subdomains->Some_0.deep_view() =~= Seq::<
                    crate::metadata::SubdomainV,
                >::empty());
            }
        }
        assert(extension@.accounts == mint_metadata(name@, created, expiration).accounts) by {
            if !is_sub {
                assert(extension.accounts->Some_0.deep_view() =~= Seq::<
                    crate::metadata::AccountV,
                >::empty());
            }
        }
        assert(extension@.websites == mint_metadata(name@, created, expiration).websites) by {
            if !is_sub {
                assert(extension.websites->Some_0.deep_view() =~= Seq::<
                    crate::metadata::WebsiteV,
                >::empty());
            }
        }
        assert(extension@ =~= mint_metadata(name@, created, expiration));
    }
    Command::Mint { token_id: name.clone(), owner: creator.clone(), extension }
}

/// The burn command for a token.
pub fn burn_handler(name: &String) -> (c: Command)
    ensures
        c@ == (CommandV::Burn { token_id: name@ }),
{
    Command::Burn { token_id: name.clone() }
}

/// The bank command transferring `amount` to `to`.
pub fn send_tokens(to: &String, amount: u128) -> (c: Command)
    ensures
        c@ == (CommandV::Send { to: to@, amount }),
{
    Command::Send { to: to.clone(), amount }
}

/// The command replacing the metadata stored with `name`'s token.
pub fn send_data_update(name: &String, data: Metadata) -> (c: Command)
    ensures
        c@ == (CommandV::UpdateMetadata { token_id: name@, extension: data@ }),
{
    Command::UpdateMetadata { token_id: name.clone(), extension: data }
}

/// The command rewriting only the mirrored expiry of `name`'s token,
/// given the metadata it currently carries.
pub fn update_metadata_expiry(name: &String, current: Metadata, expiration: u64) -> (c: Command)
    ensures
        c@ == (CommandV::UpdateMetadata {
            token_id: name@,
            extension: MetadataV { expiry: Some(expiration), ..current@ },
        }),
{
    let updated = crate::metadata::update_metadata_expiry(current, expiration);
    Command::UpdateMetadata { token_id: name.clone(), extension: updated }
}

} // verus!
