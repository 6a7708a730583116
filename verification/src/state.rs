//! The registry's state: configuration, lease records, mint flags.
//!
//! [`Registry`] is the whole persistent state of the name service: the
//! configuration singleton, a table mapping each fully-qualified name to
//! its [`NameRecord`] lease, and the set of names whose ownership token
//! has been minted and not yet burned away by an explicit removal.  Its
//! view is a [`RegistryV`]: a mathematical map of leases and a set of
//! minted names, which all operation contracts speak about.

use vstd::prelude::*;

verus! {

use vstd::pervasive::VecAdditionalExecFns;

/// The configuration singleton: admin identity, treasury wallet, the
/// token ledger's address, and the price and duration of one lease
/// period.
#[derive(Clone, Debug, PartialEq)]
pub struct Config {
    pub admin: String,
    pub wallet: String,
    pub cw721: String,
    pub base_cost: u128,
    pub base_expiration: u64,
}

/// Spec-level view of a [`Config`].
pub struct ConfigV {
    pub admin: Seq<char>,
    pub wallet: Seq<char>,
    pub cw721: Seq<char>,
    pub base_cost: u128,
    pub base_expiration: u64,
}

impl View for Config {
    type V = ConfigV;

    open spec fn view(&self) -> ConfigV {
        ConfigV {
            admin: self.admin@,
            wallet: self.wallet@,
            cw721: self.cw721@,
            base_cost: self.base_cost,
            base_expiration: self.base_expiration,
        }
    }
}

/// One lease: the address the name points to, and the lease's creation
/// and expiration times (seconds).  The resolver is *not* the owner;
/// ownership lives in the external token ledger alone.
#[derive(Clone, Debug, PartialEq)]
pub struct NameRecord {
    pub resolver: String,
    pub created: u64,
    pub expiration: u64,
}

/// Spec-level view of a [`NameRecord`].
pub struct NameRecordV {
    pub resolver: Seq<char>,
    pub created: u64,
    pub expiration: u64,
}

impl View for NameRecord {
    type V = NameRecordV;

    open spec fn view(&self) -> NameRecordV {
        NameRecordV { resolver: self.resolver@, created: self.created, expiration: self.expiration }
    }
}

impl NameRecordV {
    /// A lease is expired once `now` has reached its expiration time.
    pub open spec fn is_expired(self, now: u64) -> bool {
        now >= self.expiration
    }
}

impl NameRecord {
    /// Whether the lease has expired at time `now`; a lease is active
    /// strictly before its expiration instant.
    pub fn is_expired(&self, now: u64) -> (r: bool)
        ensures
            r == self@.is_expired(now),
    {
        now >= self.expiration
    }
}

/// The derived standing of a subdomain at registration time, recomputed
/// from the lease table and the mint flag on every call.
#[derive(Clone, Copy, Debug, PartialEq, Eq, Structural)]
pub enum SubDomainStatus {
    /// A minted subdomain whose lease is still active: it can only be
    /// extended, never re-registered.
    ExistingMintActive,
    /// A minted subdomain whose lease has expired: the stale token is
    /// burned and the subdomain minted anew.
    ExistingMintExpired,
    /// No lease, or a lease that was never minted: registered fresh.
    NewSubdomain,
}

/// Spec-level classification of a subdomain's standing.
pub open spec fn spec_classify(record: Option<NameRecordV>, minted: bool, now: u64) -> SubDomainStatus {
    match record {
        Option::None => SubDomainStatus::NewSubdomain,
        Option::Some(r) => if !minted {
            SubDomainStatus::NewSubdomain
        } else if r.is_expired(now) {
            SubDomainStatus::ExistingMintExpired
        } else {
            SubDomainStatus::ExistingMintActive
        },
    }
}

/// View of an optional borrowed record.
pub open spec fn opt_record_view(r: Option<&NameRecord>) -> Option<NameRecordV> {
    match r {
        Option::None => Option::None,
        Option::Some(rec) => Option::Some(rec@),
    }
}

/// Derives a subdomain's standing from primitive facts: lease presence,
/// the mint flag, and the clock.
pub fn classify(record: Option<&NameRecord>, minted: bool, now: u64) -> (s: SubDomainStatus)
    ensures
        s == spec_classify(opt_record_view(record), minted, now),
{
    match record {
        None => SubDomainStatus::NewSubdomain,
        Some(r) => {
            if !minted {
                SubDomainStatus::NewSubdomain
            } else if r.is_expired(now) {
                SubDomainStatus::ExistingMintExpired
            } else {
                SubDomainStatus::ExistingMintActive
            }
        },
    }
}

/// A name's lease exists and is active at `now`.
pub open spec fn lease_active(m: RegistryV, name: Seq<char>, now: u64) -> bool {
    m.records.contains_key(name) && now < m.records[name].expiration
}

/// A name's lease is expired at `now`; a missing lease counts as
/// expired.
pub open spec fn lease_expired(m: RegistryV, name: Seq<char>, now: u64) -> bool {
    !lease_active(m, name, now)
}

/// An active lease of `k` points at `address`.
pub open spec fn resolves_to(m: RegistryV, k: Seq<char>, address: Seq<char>, now: u64) -> bool {
    m.records.contains_key(k) && now < m.records[k].expiration && m.records[k].resolver == address
}

/// One row of the lease table.
pub struct NameEntry {
    pub name: String,
    pub record: NameRecord,
}

/// The lease table as a map, built row by row.
pub open spec fn entries_map(s: Seq<NameEntry>) -> Map<Seq<char>, NameRecordV>
    decreases s.len(),
{
    if s.len() == 0 {
        Map::empty()
    } else {
        entries_map(s.drop_last()).insert(s.last().name@, s.last().record@)
    }
}

/// No two rows carry the same name.
pub open spec fn entry_names_unique(s: Seq<NameEntry>) -> bool {
    forall|i: int, j: int|
        0 <= i < j < s.len() ==> (#[trigger] s[i]).name@ != (#[trigger] s[j]).name@
}

/// The mint-flag list as a set of names.
pub open spec fn names_set(s: Seq<String>) -> Set<Seq<char>>
    decreases s.len(),
{
    if s.len() == 0 {
        Set::empty()
    } else {
        names_set(s.drop_last()).insert(s.last()@)
    }
}

/// No name is flagged twice.
pub open spec fn names_unique(s: Seq<String>) -> bool {
    forall|i: int, j: int| 0 <= i < j < s.len() ==> (#[trigger] s[i])@ != (#[trigger] s[j])@
}

proof fn lemma_entries_map_dom(s: Seq<NameEntry>, k: Seq<char>)
    ensures
        entries_map(s).contains_key(k) <==> exists|i: int| 0 <= i < s.len() && (#[trigger] s[i]).name@
            == k,
    decreases s.len(),
{
    if s.len() == 0 {
    } else {
        lemma_entries_map_dom(s.drop_last(), k);
        if s.last().name@ == k {
            assert(s[s.len() - 1].name@ == k);
        } else {
            if entries_map(s).contains_key(k) {
                let i = choose|i: int|
                    0 <= i < s.drop_last().len() && (#[trigger] s.drop_last()[i]).name@ == k;
                assert(s[i].name@ == k);
            }
            if exists|i: int| 0 <= i < s.len() && (#[trigger] s[i]).name@ == k {
                let i = choose|i: int| 0 <= i < s.len() && (#[trigger] s[i]).name@ == k;
                assert(i < s.len() - 1);
                assert(s.drop_last()[i].name@ == k);
            }
        }
    }
}

proof fn lemma_entries_map_get(s: Seq<NameEntry>, i: int)
    requires
        entry_names_unique(s),
        0 <= i < s.len(),
    ensures
        entries_map(s).contains_key(s[i].name@),
        entries_map(s)[s[i].name@] == s[i].record@,
    decreases s.len(),
{
    if i == s.len() - 1 {
    } else {
        assert(entry_names_unique(s.drop_last()));
        assert(s.drop_last()[i] == s[i]);
        lemma_entries_map_get(s.drop_last(), i);
        assert(s.last().name@ != s[i].name@);
    }
}

proof fn lemma_entries_map_update(s: Seq<NameEntry>, i: int, e: NameEntry)
    requires
        entry_names_unique(s),
        0 <= i < s.len(),
        s[i].name@ == e.name@,
    ensures
        entries_map(s.update(i, e)) == entries_map(s).insert(e.name@, e.record@),
    decreases s.len(),
{
    let su = s.update(i, e);
    if i == s.len() - 1 {
        assert(su.drop_last() =~= s.drop_last());
        assert(su.last() == e);
        assert(entries_map(s.drop_last()).insert(e.name@, e.record@) =~= entries_map(
            s.drop_last(),
        ).insert(s.last().name@, s.last().record@).insert(e.name@, e.record@));
    } else {
        assert(entry_names_unique(s.drop_last()));
        assert(su.drop_last() =~= s.drop_last().update(i, e));
        assert(su.last() == s.last());
        lemma_entries_map_update(s.drop_last(), i, e);
        assert(s.last().name@ != e.name@);
        assert(entries_map(s.drop_last()).insert(e.name@, e.record@).insert(
            s.last().name@,
            s.last().record@,
        ) =~= entries_map(s.drop_last()).insert(s.last().name@, s.last().record@).insert(
            e.name@,
            e.record@,
        ));
    }
}

proof fn lemma_entries_map_remove(s: Seq<NameEntry>, i: int)
    requires
        entry_names_unique(s),
        0 <= i < s.len(),
    ensures
        entries_map(s.remove(i)) == entries_map(s).remove(s[i].name@),
    decreases s.len(),
{
    if i == s.len() - 1 {
        assert(s.remove(i) =~= s.drop_last());
        lemma_entries_map_dom(s.drop_last(), s[i].name@);
        assert(forall|j: int|
            0 <= j < s.drop_last().len() ==> (#[trigger] s.drop_last()[j]).name@ != s[i].name@);
        assert(!entries_map(s.drop_last()).contains_key(s[i].name@));
        assert(entries_map(s.drop_last()) =~= entries_map(s.drop_last()).insert(
            s.last().name@,
            s.last().record@,
        ).remove(s[i].name@));
    } else {
        assert(entry_names_unique(s.drop_last()));
        let sr = s.remove(i);
        assert(sr.drop_last() =~= s.drop_last().remove(i));
        assert(sr.last() == s.last());
        lemma_entries_map_remove(s.drop_last(), i);
        assert(s.last().name@ != s[i].name@);
        assert(entries_map(s.drop_last()).remove(s[i].name@).insert(
            s.last().name@,
            s.last().record@,
        ) =~= entries_map(s.drop_last()).insert(s.last().name@, s.last().record@).remove(
            s[i].name@,
        ));
    }
}

proof fn lemma_names_set_dom(s: Seq<String>, k: Seq<char>)
    ensures
        names_set(s).contains(k) <==> exists|i: int| 0 <= i < s.len() && (#[trigger] s[i])@ == k,
    decreases s.len(),
{
    if s.len() == 0 {
    } else {
        lemma_names_set_dom(s.drop_last(), k);
        if s.last()@ == k {
            assert(s[s.len() - 1]@ == k);
        } else {
            if names_set(s).contains(k) {
                let i = choose|i: int| 0 <= i < s.drop_last().len() && (#[trigger] s.drop_last()[i])@
                    == k;
                assert(s[i]@ == k);
            }
            if exists|i: int| 0 <= i < s.len() && (#[trigger] s[i])@ == k {
                let i = choose|i: int| 0 <= i < s.len() && (#[trigger] s[i])@ == k;
                assert(i < s.len() - 1);
                assert(s.drop_last()[i]@ == k);
            }
        }
    }
}

proof fn lemma_names_set_remove(s: Seq<String>, i: int)
    requires
        names_unique(s),
        0 <= i < s.len(),
    ensures
        names_set(s.remove(i)) == names_set(s).remove(s[i]@),
    decreases s.len(),
{
    if i == s.len() - 1 {
        assert(s.remove(i) =~= s.drop_last());
        lemma_names_set_dom(s.drop_last(), s[i]@);
        assert(forall|j: int| 0 <= j < s.drop_last().len() ==> (#[trigger] s.drop_last()[j])@ != s[i]@);
        assert(!names_set(s.drop_last()).contains(s[i]@));
        assert(names_set(s.drop_last()) =~= names_set(s.drop_last()).insert(s.last()@).remove(
            s[i]@,
        ));
    } else {
        assert(names_unique(s.drop_last()));
        let sr = s.remove(i);
        assert(sr.drop_last() =~= s.drop_last().remove(i));
        assert(sr.last() == s.last());
        lemma_names_set_remove(s.drop_last(), i);
        assert(s.last()@ != s[i]@);
        assert(names_set(s.drop_last()).remove(s[i]@).insert(s.last()@) =~= names_set(
            s.drop_last(),
        ).insert(s.last()@).remove(s[i]@));
    }
}

/// The whole state of the registry.
pub struct Registry {
    config: Config,
    records: Vec<NameEntry>,
    minted: Vec<String>,
}

/// Spec-level view of the registry: the configuration, the lease table
/// as a map from name to record, and the set of minted names.
#[verifier::ext_equal]
pub struct RegistryV {
    pub config: ConfigV,
    pub records: Map<Seq<char>, NameRecordV>,
    pub minted: Set<Seq<char>>,
}

impl View for Registry {
    type V = RegistryV;

    closed spec fn view(&self) -> RegistryV {
        RegistryV {
            config: self.config@,
            records: entries_map(self.records@),
            minted: names_set(self.minted@),
        }
    }
}

impl Registry {
    /// The internal lists keep each name at most once, so that the map
    /// and set views determine them.
    pub closed spec fn wf(&self) -> bool {
        entry_names_unique(self.records@) && names_unique(self.minted@)
    }

    /// A fresh registry: the given configuration, no leases, no minted
    /// names.
    pub fn new(config: Config) -> (r: Registry)
        ensures
            r.wf(),
            r@.config == config@,
            r@.records == Map::<Seq<char>, NameRecordV>::empty(),
            r@.minted == Set::<Seq<char>>::empty(),
    {
        Registry { config, records: Vec::new(), minted: Vec::new() }
    }

    /// The current configuration.
    pub fn config(&self) -> (c: &Config)
        ensures
            c@ == self@.config,
    {
        &self.config
    }

    /// Replaces the configuration; leases and mint flags are untouched.
    pub fn set_config(&mut self, config: Config)
        requires
            old(self).wf(),
        ensures
            final(self).wf(),
            final(self)@ == (RegistryV { config: config@, ..old(self)@ }),
    {
        self.config = config;
    }

    /// Looks a name's lease up.
    pub fn get_record(&self, name: &String) -> (r: Option<&NameRecord>)
        requires
            self.wf(),
        ensures
            match r {
                Option::Some(rec) => self@.records.contains_key(name@) && rec@
                    == self@.records[name@],
                Option::None => !self@.records.contains_key(name@),
            },
    {
        let n = self.records.len();
        let mut i: usize = 0;
        while i < n
            invariant
                0 <= i <= n,
                n == self.records@.len(),
                self.wf(),
                forall|j: int| 0 <= j < i ==> (#[trigger] self.records@[j]).name@ != name@,
            decreases n - i,
        {
            if self.records[i].name == *name {
                proof {
                    lemma_entries_map_get(self.records@, i as int);
                }
                return Some(&self.records[i].record);
            }
            i += 1;
        }
        proof {
            lemma_entries_map_dom(self.records@, name@);
        }
        None
    }

    /// Writes a name's lease, overwriting any existing one.
    pub fn save_record(&mut self, name: &String, record: NameRecord)
        requires
            old(self).wf(),
        ensures
            final(self).wf(),
            final(self)@ == (RegistryV {
                records: old(self)@.records.insert(name@, record@),
                ..old(self)@
            }),
    {
        let n = self.records.len();
        let mut i: usize = 0;
        while i < n
            invariant
                0 <= i <= n,
                n == self.records@.len(),
                self.wf(),
                self@ == old(self)@,
                self.records@ == old(self).records@,
                forall|j: int| 0 <= j < i ==> (#[trigger] self.records@[j]).name@ != name@,
            decreases n - i,
        {
            if self.records[i].name == *name {
                let ghost s = self.records@;
                let entry = NameEntry { name: name.clone(), record };
                proof {
                    lemma_entries_map_update(s, i as int, entry);
                }
                self.records.set(i, entry);
                proof {
                    assert(forall|p: int, q: int|
                        0 <= p < q < self.records@.len() ==> (#[trigger] self.records@[p]).name@
                            != (#[trigger] self.records@[q]).name@) by {
                        assert(forall|p: int|
                            0 <= p < self.records@.len() ==> (#[trigger] self.records@[p]).name@
                                == s[p].name@);
                    }
                }
                return ;
            }
            i += 1;
        }
        let ghost s = self.records@;
        let entry = NameEntry { name: name.clone(), record };
        self.records.push(entry);
        proof {
            assert(self.records@.drop_last() =~= s);
            assert(self.records@.last() == entry);
            assert(forall|p: int, q: int|
                0 <= p < q < self.records@.len() ==> (#[trigger] self.records@[p]).name@
                    != (#[trigger] self.records@[q]).name@) by {
                assert(forall|p: int| 0 <= p < s.len() ==> (#[trigger] self.records@[p]).name@
                    == s[p].name@);
                assert(self.records@[self.records@.len() - 1].name@ == name@);
            }
        }
    }

    /// Deletes a name's lease; a missing lease is left missing.
    pub fn remove_record(&mut self, name: &String)
        requires
            old(self).wf(),
        ensures
            final(self).wf(),
            final(self)@ == (RegistryV {
                records: old(self)@.records.remove(name@),
                ..old(self)@
            }),
    {
        let n = self.records.len();
        let mut i: usize = 0;
        while i < n
            invariant
                0 <= i <= n,
                n == self.records@.len(),
                self.wf(),
                self@ == old(self)@,
                self.records@ == old(self).records@,
                forall|j: int| 0 <= j < i ==> (#[trigger] self.records@[j]).name@ != name@,
            decreases n - i,
        {
            if self.records[i].name == *name {
                let ghost s = self.records@;
                proof {
                    lemma_entries_map_remove(s, i as int);
                }
                self.records.remove(i);
                proof {
                    assert(forall|p: int, q: int|
                        0 <= p < q < self.records@.len() ==> (#[trigger] self.records@[p]).name@
                            != (#[trigger] self.records@[q]).name@) by {
                        assert(forall|p: int|
                            0 <= p < self.records@.len() ==> #[trigger] self.records@[p] == if p
                                < i { s[p] } else { s[p + 1] });
                    }
                }
                return ;
            }
            i += 1;
        }
        proof {
            lemma_entries_map_dom(self.records@, name@);
            assert(old(self)@.records =~= old(self)@.records.remove(name@));
        }
    }

    /// Whether a token has been minted for the name and not burned away
    /// by an explicit removal.
    pub fn is_minted(&self, name: &String) -> (r: bool)
        requires
            self.wf(),
        ensures
            r == self@.minted.contains(name@),
    {
        let n = self.minted.len();
        let mut i: usize = 0;
        while i < n
            invariant
                0 <= i <= n,
                n == self.minted@.len(),
                self.wf(),
                forall|j: int| 0 <= j < i ==> (#[trigger] self.minted@[j])@ != name@,
            decreases n - i,
        {
            if self.minted[i] == *name {
                proof {
                    lemma_names_set_dom(self.minted@, name@);
                }
                return true;
            }
            i += 1;
        }
        proof {
            lemma_names_set_dom(self.minted@, name@);
        }
        false
    }

    /// Raises the name's mint flag.
    pub fn set_minted(&mut self, name: &String)
        requires
            old(self).wf(),
        ensures
            final(self).wf(),
            final(self)@ == (RegistryV { minted: old(self)@.minted.insert(name@), ..old(self)@ }),
    {
        if self.is_minted(name) {
            proof {
                assert(old(self)@.minted =~= old(self)@.minted.insert(name@));
                assert(self@ =~= RegistryV { minted: old(self)@.minted.insert(name@), ..old(self)@ });
            }
            return ;
        }
        let ghost s = self.minted@;
        self.minted.push(name.clone());
        proof {
            assert(self.minted@.drop_last() =~= s);
            assert(self.minted@.last()@ == name@);
            lemma_names_set_dom(s, name@);
            assert(forall|p: int, q: int|
                0 <= p < q < self.minted@.len() ==> (#[trigger] self.minted@[p])@
                    != (#[trigger] self.minted@[q])@) by {
                assert(forall|p: int| 0 <= p < s.len() ==> (#[trigger] self.minted@[p])@ == s[p]@);
                assert(self.minted@[self.minted@.len() - 1]@ == name@);
                assert(forall|p: int| 0 <= p < s.len() ==> s[p]@ != name@) by {
                    if exists|p: int| 0 <= p < s.len() && (#[trigger] s[p])@ == name@ {
                        assert(names_set(s).contains(name@));
                    }
                }
            }
        }
    }

    /// Clears the name's mint flag; a clear flag stays clear.
    pub fn clear_minted(&mut self, name: &String)
        requires
            old(self).wf(),
        ensures
            final(self).wf(),
            final(self)@ == (RegistryV { minted: old(self)@.minted.remove(name@), ..old(self)@ }),
    {
        let n = self.minted.len();
        let mut i: usize = 0;
        while i < n
            invariant
                0 <= i <= n,
                n == self.minted@.len(),
                self.wf(),
                self@ == old(self)@,
                self.minted@ == old(self).minted@,
                forall|j: int| 0 <= j < i ==> (#[trigger] self.minted@[j])@ != name@,
            decreases n - i,
        {
            if self.minted[i] == *name {
                let ghost s = self.minted@;
                proof {
                    lemma_names_set_remove(s, i as int);
                }
                self.minted.remove(i);
                proof {
                    assert(forall|p: int, q: int|
                        0 <= p < q < self.minted@.len() ==> (#[trigger] self.minted@[p])@
                            != (#[trigger] self.minted@[q])@) by {
                        assert(forall|p: int|
                            0 <= p < self.minted@.len() ==> #[trigger] self.minted@[p] == if p < i {
                                s[p]
                            } else {
                                s[p + 1]
                            });
                    }
                }
                return ;
            }
            i += 1;
        }
        proof {
            lemma_names_set_dom(self.minted@, name@);
            assert(old(self)@.minted =~= old(self)@.minted.remove(name@));
        }
    }

    /// Every name whose active lease points at `address`, each once, in
    /// table order.
    pub fn names_pointing_to(&self, address: &String, now: u64) -> (r: Vec<String>)
        requires
            self.wf(),
        ensures
            forall|k: Seq<char>| r.deep_view().contains(k) <==> resolves_to(self@, k, address@, now),
            forall|t1: int, t2: int|
                0 <= t1 < t2 < r.deep_view().len() ==> r.deep_view()[t1] != r.deep_view()[t2],
    {
        let n = self.records.len();
        let mut out: Vec<String> = Vec::new();
        let ghost mut sidx: Seq<int> = Seq::empty();
        let mut i: usize = 0;
        while i < n
            invariant
                0 <= i <= n,
                n == self.records@.len(),
                self.wf(),
                sidx.len() == out.deep_view().len(),
                forall|t: int|
                    #![trigger sidx[t]]
                    0 <= t < sidx.len() ==> 0 <= sidx[t] < i && out.deep_view()[t]
                        == self.records@[sidx[t]].name@ && now
                        < self.records@[sidx[t]].record.expiration
                        && self.records@[sidx[t]].record.resolver@ == address@,
                forall|t1: int, t2: int| 0 <= t1 < t2 < sidx.len() ==> sidx[t1] < sidx[t2],
                forall|j: int|
                    #![trigger self.records@[j]]
                    0 <= j < i && now < self.records@[j].record.expiration
                        && self.records@[j].record.resolver@ == address@
                        ==> out.deep_view().contains(self.records@[j].name@),
            decreases n - i,
        {
            let ghost before = out.deep_view();
            let keep = !self.records[i].record.is_expired(now) && self.records[i].record.resolver
                == *address;
            if keep {
                let ghost bvec = out@;
                out.push(self.records[i].name.clone());
                proof {
                    let newk = self.records@[i as int].name@;
                    assert(out.deep_view() =~= before.push(newk)) by {
                        assert(forall|t: int|
                            0 <= t < out@.len() ==> out.deep_view()[t] == (
                            #[trigger] out@[t]).deep_view());
                        assert(forall|t: int|
                            0 <= t < bvec.len() ==> (#[trigger] bvec[t]).deep_view() == before[t]);
                    }
                    sidx = sidx.push(i as int);
                    assert forall|j: int|
                        0 <= j < i + 1 && now < (#[trigger] self.records@[j]).record.expiration
                            && self.records@[j].record.resolver@ == address@ implies out.deep_view().contains(
                        self.records@[j].name@,
                    ) by {
                        if j < i {
                            assert(before.contains(self.records@[j].name@));
                            let t = choose|t: int|
                                0 <= t < before.len() && before[t] == self.records@[j].name@;
                            assert(out.deep_view()[t] == self.records@[j].name@);
                        } else {
                            assert(out.deep_view()[out.deep_view().len() - 1] == newk);
                        }
                    }
                }
            } else {
                proof {
                    assert(!(now < self.records@[i as int].record.expiration
                        && self.records@[i as int].record.resolver@ == address@));
                }
            }
            i += 1;
        }
        proof {
            assert forall|k: Seq<char>| out.deep_view().contains(k) implies resolves_to(
                self@,
                k,
                address@,
                now,
            ) by {
                let t = choose|t: int| 0 <= t < out.deep_view().len() && out.deep_view()[t] == k;
                assert(0 <= sidx[t] < self.records@.len());
                lemma_entries_map_get(self.records@, sidx[t]);
            }
            assert forall|k: Seq<char>| resolves_to(self@, k, address@, now) implies out.deep_view().contains(
                k,
            ) by {
                lemma_entries_map_dom(self.records@, k);
                let j = choose|j: int|
                    0 <= j < self.records@.len() && (#[trigger] self.records@[j]).name@ == k;
                lemma_entries_map_get(self.records@, j);
            }
            assert forall|t1: int, t2: int|
                0 <= t1 < t2 < out.deep_view().len() implies out.deep_view()[t1]
                != out.deep_view()[t2] by {
                assert(sidx[t1] < sidx[t2]);
                assert(self.records@[sidx[t1]].name@ != self.records@[sidx[t2]].name@);
            }
        }
        out
    }
}

} // verus!
