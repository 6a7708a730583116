//! Name syntax: validation of name bodies and subdomain labels, and the
//! helpers that assemble and take apart fully-qualified names.
//!
//! A fully-qualified name is a body followed by the fixed suffix
//! `".arch"`; a subdomain route is `"<label>.<domain-body>.arch"`.  A
//! valid body or label is 3 to 64 characters, each a lowercase ASCII
//! letter, a digit, a hyphen or an underscore.

use vstd::prelude::*;

verus! {

use vstd::string::StrSliceExecFns;
use vstd::string::StringExecFns;

use crate::error::{ContractError, ErrorV};
use crate::msg::{
    RecordExpirationResponse,
    ResolveAddressResponse,
    ResolveRecordResponse,
    ResolveRecordResponseV,
};
use crate::state::{lease_expired, resolves_to, Registry, RegistryV};

/// Least allowed length of a name body or subdomain label.
pub const MIN_NAME_LENGTH: u64 = 3;

/// Greatest allowed length of a name body or subdomain label.
pub const MAX_NAME_LENGTH: u64 = 64;

/// Length of the fixed suffix `".arch"` that every fully-qualified name
/// carries.
pub const SUFFIX_LEN: usize = 5;

/// Whether `c` may appear in a name body: a lowercase ASCII letter, a
/// digit, `'-'` or `'_'`.
pub open spec fn spec_valid_char(c: char) -> bool {
    let u = c as u32;
    (97 <= u && u <= 122)  // 'a' ..= 'z'
    || (48 <= u && u <= 57)  // '0' ..= '9'
    || u == 45  // '-'
    || u == 95  // '_'
}

/// Every character of `s` may appear in a name body.
pub open spec fn all_valid_chars(s: Seq<char>) -> bool {
    forall|i: int| 0 <= i < s.len() ==> spec_valid_char(#[trigger] s[i])
}

/// The body of a fully-qualified name: everything before the suffix.
pub open spec fn name_body_of(s: Seq<char>) -> Seq<char>
    recommends
        s.len() >= SUFFIX_LEN,
{
    s.subrange(0, s.len() - SUFFIX_LEN)
}

/// A name body (or subdomain label) is well-formed: length within bounds
/// and every character allowed.
pub open spec fn spec_name_valid(body: Seq<char>) -> bool {
    MIN_NAME_LENGTH <= body.len() <= MAX_NAME_LENGTH && all_valid_chars(body)
}

/// `i` is the position of the first disallowed character of `s`.
pub open spec fn first_invalid_at(s: Seq<char>, i: int) -> bool {
    0 <= i < s.len() && !spec_valid_char(s[i]) && (forall|j: int|
        0 <= j < i ==> spec_valid_char(#[trigger] s[j]))
}

/// The error that checking `checked` reports, if any; `reported` is the
/// length that the length errors carry (the full name's length, also
/// when only the body is checked).
pub open spec fn name_check_err(checked: Seq<char>, reported: u64) -> Option<ErrorV> {
    if checked.len() < MIN_NAME_LENGTH {
        Some(ErrorV::NameTooShort { length: reported, min_length: MIN_NAME_LENGTH })
    } else if checked.len() > MAX_NAME_LENGTH {
        Some(ErrorV::NameTooLong { length: reported, max_length: MAX_NAME_LENGTH })
    } else if exists|i: int| first_invalid_at(checked, i) {
        Some(
            ErrorV::InvalidCharacter {
                c: checked[choose|i: int| first_invalid_at(checked, i)],
            },
        )
    } else {
        None
    }
}

/// The outcome of validating a fully-qualified name: its body is checked,
/// the reported length is that of the whole name.
pub open spec fn validate_name_err(name: Seq<char>) -> Option<ErrorV> {
    name_check_err(name_body_of(name), name.len() as u64)
}

/// The outcome of validating a subdomain label, which carries no suffix.
pub open spec fn validate_subdomain_err(name: Seq<char>) -> Option<ErrorV> {
    name_check_err(name, name.len() as u64)
}

/// View of a `Result<(), ContractError>` as the error it may hold.
pub open spec fn unit_res_view(r: Result<(), ContractError>) -> Option<ErrorV> {
    match r {
        Ok(_) => None,
        Err(e) => Some(e@),
    }
}

/// At most one position of `s` is the first disallowed one.
pub proof fn lemma_first_invalid_unique(s: Seq<char>, i: int, j: int)
    requires
        first_invalid_at(s, i),
        first_invalid_at(s, j),
    ensures
        i == j,
{
    if i < j {
        assert(spec_valid_char(s[i]));
    }
    if j < i {
        assert(spec_valid_char(s[j]));
    }
}

/// Whether `c` is disallowed in a name body.
pub fn invalid_char(c: char) -> (r: bool)
    ensures
        r == !spec_valid_char(c),
{
    let u = c as u32;
    let is_valid = (97 <= u && u <= 122) || (48 <= u && u <= 57) || u == 45 || u == 95;
    !is_valid
}

/// Checks the characters of `name` in positions `0 .. upto` and reports
/// the first disallowed one, if any.
fn scan_chars(name: &String, upto: usize) -> (r: Result<(), char>)
    requires
        upto <= name@.len(),
    ensures
        match r {
            Ok(_) => forall|i: int| 0 <= i < upto ==> spec_valid_char(#[trigger] name@[i]),
            Err(c) => {
                let s = name@.subrange(0, upto as int);
                exists|i: int| first_invalid_at(s, i) && c == s[choose|i: int|
                    first_invalid_at(s, i)]
            },
        },
{
    let ghost s = name@.subrange(0, upto as int);
    let mut i: usize = 0;
    while i < upto
        invariant
            0 <= i <= upto,
            upto <= name@.len(),
            s == name@.subrange(0, upto as int),
            forall|j: int| 0 <= j < i ==> spec_valid_char(#[trigger] name@[j]),
        decreases upto - i,
    {
        let c = name.as_str().get_char(i);
        if invalid_char(c) {
            proof {
                assert(forall|j: int| 0 <= j < i ==> s[j] == name@[j]);
                assert(first_invalid_at(s, i as int));
                let w = choose|k: int| first_invalid_at(s, k);
                lemma_first_invalid_unique(s, i as int, w);
            }
            return Err(c);
        }
        i += 1;
    }
    Ok(())
}

/// Validates a fully-qualified name: its body (everything before the
/// 5-character suffix) must be 3 to 64 characters, each a lowercase
/// ASCII letter, digit, hyphen or underscore.
///
/// Succeeds exactly on the names whose body is well-formed; the error
/// otherwise names the first violation found, checking the length bounds
/// first.
pub fn validate_name(name: &String) -> (r: Result<(), ContractError>)
    requires
        name@.len() >= SUFFIX_LEN,
    ensures
        unit_res_view(r) == validate_name_err(name@),
        r is Ok <==> spec_name_valid(name_body_of(name@)),
{
    let ghost body = name_body_of(name@);
    let n = name.as_str().unicode_len();
    let body_len = n - SUFFIX_LEN;
    proof {
        assert(body.len() == body_len);
    }
    if (body_len as u64) < MIN_NAME_LENGTH {
        return Err(ContractError::NameTooShort { length: n as u64, min_length: MIN_NAME_LENGTH });
    }
    if (body_len as u64) > MAX_NAME_LENGTH {
        return Err(ContractError::NameTooLong { length: n as u64, max_length: MAX_NAME_LENGTH });
    }
    match scan_chars(name, body_len) {
        Ok(_) => {
            proof {
                assert(forall|i: int| 0 <= i < body.len() ==> body[i] == name@[i]);
                if exists|i: int| first_invalid_at(body, i) {
                    let w = choose|i: int| first_invalid_at(body, i);
                    assert(spec_valid_char(name@[w]));
                }
            }
            Ok(())
        },
        Err(c) => {
            proof {
                assert(body =~= name@.subrange(0, body_len as int));
            }
            Err(ContractError::InvalidCharacter { c })
        },
    }
}

/// Validates a subdomain label: 3 to 64 characters, each a lowercase
/// ASCII letter, digit, hyphen or underscore.  Unlike a fully-qualified
/// name, a label carries no suffix, so the whole string is checked.
pub fn validate_subdomain(name: &String) -> (r: Result<(), ContractError>)
    ensures
        unit_res_view(r) == validate_subdomain_err(name@),
        r is Ok <==> spec_name_valid(name@),
{
    let n = name.as_str().unicode_len();
    if (n as u64) < MIN_NAME_LENGTH {
        return Err(ContractError::NameTooShort { length: n as u64, min_length: MIN_NAME_LENGTH });
    }
    if (n as u64) > MAX_NAME_LENGTH {
        return Err(ContractError::NameTooLong { length: n as u64, max_length: MAX_NAME_LENGTH });
    }
    match scan_chars(name, n) {
        Ok(_) => {
            proof {
                if exists|i: int| first_invalid_at(name@, i) {
                    let w = choose|i: int| first_invalid_at(name@, i);
                    assert(spec_valid_char(name@[w]));
                }
            }
            Ok(())
        },
        Err(c) => {
            proof {
                assert(name@ =~= name@.subrange(0, n as int));
            }
            Err(ContractError::InvalidCharacter { c })
        },
    }
}

/// `s` followed by the fixed suffix `".arch"`.
pub open spec fn with_suffix(s: Seq<char>) -> Seq<char> {
    s + ".arch"@
}

/// Appends the fixed suffix to a raw name, making it fully qualified.
pub fn format_name(name: String) -> (r: String)
    ensures
        r@ == with_suffix(name@),
{
    name.concat(".arch")
}

/// Strips the fixed suffix from a fully-qualified name, leaving the body.
pub fn get_name_body(name: String) -> (r: String)
    requires
        name@.len() >= SUFFIX_LEN,
    ensures
        r@ == name_body_of(name@),
{
    let n = name.as_str().unicode_len();
    let body = name.as_str().substring_char(0, n - SUFFIX_LEN);
    body.to_owned()
}

/// Appending the suffix then stripping it gives the raw name back.
pub proof fn lemma_suffix_roundtrip(s: Seq<char>)
    ensures
        with_suffix(s).len() == s.len() + 5,
        name_body_of(with_suffix(s)) =~= s,
{
    reveal_strlit(".arch");
}

/// How often `c` occurs in `s`.
pub open spec fn count_char(s: Seq<char>, c: char) -> int
    decreases s.len(),
{
    if s.len() == 0 {
        0
    } else {
        count_char(s.drop_last(), c) + if s.last() == c {
            1int
        } else {
            0int
        }
    }
}

/// `i` is the position of the first occurrence of `c` in `s`.
pub open spec fn first_char_at(s: Seq<char>, c: char, i: int) -> bool {
    0 <= i < s.len() && s[i] == c && (forall|j: int| 0 <= j < i ==> #[trigger] s[j] != c)
}

/// At most one position is the first occurrence of a character.
pub proof fn lemma_first_char_unique(s: Seq<char>, c: char, i: int, j: int)
    requires
        first_char_at(s, c, i),
        first_char_at(s, c, j),
    ensures
        i == j,
{
    if i < j {
        assert(s[i] != c);
    }
    if j < i {
        assert(s[j] != c);
    }
}

/// A subdomain route splits into its label and its parent domain: a
/// fully-qualified name with exactly two dots (`"label.body.arch"`)
/// yields the part before the first dot and the part after it; any
/// other name is no subdomain route.
pub open spec fn subdomain_prefix_of(s: Seq<char>) -> Option<(Seq<char>, Seq<char>)> {
    if count_char(s, '.') == 2 {
        let p = choose|i: int| first_char_at(s, '.', i);
        Some((s.subrange(0, p), s.subrange(p + 1, s.len() as int)))
    } else {
        None
    }
}

/// Splits a subdomain route (a name with exactly two dots) into its
/// label and its parent domain; any other name yields `None`.
pub fn get_subdomain_prefix(name: &String) -> (r: Option<(String, String)>)
    ensures
        r.deep_view() == subdomain_prefix_of(name@),
{
    let n = name.as_str().unicode_len();
    let mut i: usize = 0;
    let mut count: usize = 0;
    let mut first: usize = 0;
    let mut found_first = false;
    while i < n
        invariant
            0 <= i <= n,
            n == name@.len(),
            count <= i,
            count == count_char(name@.take(i as int), '.'),
            found_first ==> first_char_at(name@, '.', first as int),
            !found_first ==> count == 0 && (forall|j: int| 0 <= j < i ==> #[trigger] name@[j]
                != '.'),
        decreases n - i,
    {
        let c = name.as_str().get_char(i);
        proof {
            assert(name@.take(i + 1).drop_last() =~= name@.take(i as int));
            assert(name@.take(i + 1).last() == name@[i as int]);
        }
        if c == '.' {
            if !found_first {
                first = i;
                found_first = true;
            }
            count += 1;
        }
        i += 1;
    }
    proof {
        assert(name@.take(n as int) =~= name@);
    }
    if count == 2 {
        let label = name.as_str().substring_char(0, first).to_owned();
        let parent = name.as_str().substring_char(first + 1, n).to_owned();
        proof {
            let p = choose|w: int| first_char_at(name@, '.', w);
            lemma_first_char_unique(name@, '.', first as int, p);
        }
        Some((label, parent))
    } else {
        None
    }
}

/// Whether `name`'s lease is expired at `now`; a missing lease counts
/// as expired.
pub fn is_expired(registry: &Registry, name: &String, now: u64) -> (r: bool)
    requires
        registry.wf(),
    ensures
        r == lease_expired(registry@, name@, now),
{
    match registry.get_record(name) {
        Some(rec) => rec.is_expired(now),
        None => true,
    }
}

/// What a resolve query answers: the resolver while the lease is
/// active, `None` once it has expired or never existed; the stored
/// expiration alongside (zero for an absent lease).
pub open spec fn resolve_record_view(m: RegistryV, name: Seq<char>, now: u64) -> ResolveRecordResponseV {
    if m.records.contains_key(name) {
        ResolveRecordResponseV {
            address: if now < m.records[name].expiration {
                Some(m.records[name].resolver)
            } else {
                None
            },
            expiration: m.records[name].expiration,
        }
    } else {
        ResolveRecordResponseV { address: None, expiration: 0 }
    }
}

/// Resolves a name: the address its lease points at while active,
/// `None` once expired or absent — the lease row itself stays until it
/// is overwritten or removed.
pub fn query_resolver(registry: &Registry, now: u64, name: &String) -> (r: ResolveRecordResponse)
    requires
        registry.wf(),
    ensures
        r@ == resolve_record_view(registry@, name@, now),
{
    match registry.get_record(name) {
        Some(rec) => {
            let address = if rec.is_expired(now) {
                None
            } else {
                Some(rec.resolver.clone())
            };
            ResolveRecordResponse { address, expiration: rec.expiration }
        },
        None => ResolveRecordResponse { address: None, expiration: 0 },
    }
}

/// Fetches a lease's creation and expiration times; `None` for a name
/// that holds no lease.
pub fn query_resolver_expiration(registry: &Registry, name: &String) -> (r: Option<
    RecordExpirationResponse,
>)
    requires
        registry.wf(),
    ensures
        match r {
            Some(resp) => registry@.records.contains_key(name@) && resp.created
                == registry@.records[name@].created && resp.expiration
                == registry@.records[name@].expiration,
            None => !registry@.records.contains_key(name@),
        },
{
    match registry.get_record(name) {
        Some(rec) => Some(
            RecordExpirationResponse { created: rec.created, expiration: rec.expiration },
        ),
        None => None,
    }
}

/// Reverse lookup: every name whose active lease points at `address`,
/// or `None` when no such name exists.
pub fn query_resolver_address(registry: &Registry, now: u64, address: &String) -> (r:
    ResolveAddressResponse)
    requires
        registry.wf(),
    ensures
        match r.names {
            None => forall|k: Seq<char>| !resolves_to(registry@, k, address@, now),
            Some(_) => {
                let names = r@.names->Some_0;
                names.len() > 0 && (forall|k: Seq<char>|
                    names.contains(k) <==> resolves_to(registry@, k, address@, now)) && (forall|
                    t1: int,
                    t2: int,
                |
                    0 <= t1 < t2 < names.len() ==> names[t1] != names[t2])
            },
        },
{
    let found = registry.names_pointing_to(address, now);
    if found.len() == 0 {
        proof {
            assert forall|k: Seq<char>| !resolves_to(registry@, k, address@, now) by {
                if resolves_to(registry@, k, address@, now) {
                    assert(found.deep_view().contains(k));
                }
            }
        }
        ResolveAddressResponse { names: None }
    } else {
        ResolveAddressResponse { names: Some(found) }
    }
}

/// Whether `c` occurs in `s`.
pub fn contains_char(s: &str, c: char) -> (r: bool)
    ensures
        r == s@.contains(c),
{
    let n = s.unicode_len();
    let mut i: usize = 0;
    while i < n
        invariant
            0 <= i <= n,
            n == s@.len(),
            forall|j: int| 0 <= j < i ==> s@[j] != c,
        decreases n - i,
    {
        if s.get_char(i) == c {
            return true;
        }
        i += 1;
    }
    proof {
        assert(forall|j: int| 0 <= j < s@.len() ==> s@[j] != c);
    }
    false
}

} // verus!
