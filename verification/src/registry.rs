//! The name registry: an append-only record of contract names, their owners
//! and the versions published under each name.

use vstd::prelude::*;

verus! {

/// The version index type of the registry.
pub type Version = u32;

/// A 160-bit account or contract address, held as two integers.
#[derive(Clone, Copy, Debug, PartialEq, Eq, Structural)]
pub struct Address {
    /// The upper 32 bits.
    pub high: u32,
    /// The lower 128 bits.
    pub low: u128,
}

/// The address that stands for "none".
pub open spec fn zero_address() -> Address {
    Address { high: 0, low: 0 }
}

impl Default for Address {
    fn default() -> (r: Address)
        ensures
            r == zero_address(),
    {
        Address { high: 0, low: 0 }
    }
}

/// A published contract version in the registry.
#[derive(Debug)]
pub struct PublishedContract {
    /// The address of the published contract.
    pub address: Address,
    /// URI of this version's metadata.
    pub metadata_uri: String,
}

impl Clone for PublishedContract {
    fn clone(&self) -> (r: Self)
        ensures
            r == *self,
    {
        PublishedContract { address: self.address, metadata_uri: self.metadata_uri.clone() }
    }
}

/// What is recorded about a registered contract name.
#[derive(Clone, Copy, Debug, PartialEq, Eq, Structural)]
pub struct NamedContractInfo {
    /// The owner of the contract name.
    pub owner: Address,
    /// The number of versions published under the name;
    /// `version_count - 1` is the index of the latest one.
    pub version_count: Version,
}

/// One registered name with everything published under it.
struct NameRecord {
    name: String,
    info: NamedContractInfo,
    versions: Vec<PublishedContract>,
}

/// The registry's state: the registered names in the order of their
/// registration, each with its owner and its versions.
pub struct Registry {
    records: Vec<NameRecord>,
}

/// A published version as a mathematical value.
pub struct PublishedView {
    pub address: Address,
    pub metadata_uri: Seq<char>,
}

/// The registry as a mathematical value: the enumeration list of names, the
/// info by name, and the published versions by name and version index.
pub struct RegistryState {
    pub names: Seq<Seq<char>>,
    pub info: Map<Seq<char>, NamedContractInfo>,
    pub published: Map<(Seq<char>, Version), PublishedView>,
}

/// The state that every registry starts in.
pub open spec fn empty_state() -> RegistryState {
    RegistryState { names: Seq::empty(), info: Map::empty(), published: Map::empty() }
}

/// The invariant of a registry state: every name is listed once and has an
/// info record with at least one version, and the published versions of a name
/// are exactly those below its version count.
pub open spec fn state_wf(st: RegistryState) -> bool {
    &&& st.names.len() <= u32::MAX
    &&& forall|i: int, j: int|
        0 <= i < j < st.names.len() ==> #[trigger] st.names[i] != #[trigger] st.names[j]
    &&& forall|n: Seq<char>| #[trigger] st.info.contains_key(n) <==> st.names.contains(n)
    &&& forall|n: Seq<char>| #[trigger] st.info.contains_key(n) ==> st.info[n].version_count >= 1
    &&& forall|n: Seq<char>, v: Version| #[trigger]
        st.published.contains_key((n, v)) <==> st.info.contains_key(n) && v
            < st.info[n].version_count
}

/// Whether `publish_latest` can run without a counter leaving its range: a new
/// name needs room in the enumeration list, a further version of the caller's
/// own name needs room in its version count. A call by anyone but the owner
/// changes nothing and is always allowed.
pub open spec fn publish_allowed(st: RegistryState, caller: Address, name: Seq<char>) -> bool {
    if !st.info.contains_key(name) {
        st.names.len() < u32::MAX
    } else if st.info[name].owner == caller {
        st.info[name].version_count < u32::MAX
    } else {
        true
    }
}

/// The state after `publish_latest`. An unknown name is registered to the
/// caller and gets version 0; the owner of a known name appends its next
/// version; any other caller leaves the state as it is.
pub open spec fn publish(
    st: RegistryState,
    caller: Address,
    name: Seq<char>,
    address: Address,
    metadata_uri: Seq<char>,
) -> RegistryState {
    let entry = PublishedView { address, metadata_uri };
    if !st.info.contains_key(name) {
        RegistryState {
            names: st.names.push(name),
            info: st.info.insert(name, NamedContractInfo { owner: caller, version_count: 1 }),
            published: st.published.insert((name, 0), entry),
        }
    } else if st.info[name].owner == caller {
        let count = st.info[name].version_count;
        RegistryState {
            names: st.names,
            info: st.info.insert(
                name,
                NamedContractInfo { owner: caller, version_count: (count + 1) as Version },
            ),
            published: st.published.insert((name, count), entry),
        }
    } else {
        st
    }
}

/// The index of the latest version of `name`: one below its version count,
/// and 0 where the count is 0.
pub open spec fn latest_index(st: RegistryState, name: Seq<char>) -> Version {
    if st.info[name].version_count == 0 {
        0
    } else {
        (st.info[name].version_count - 1) as Version
    }
}

/// The address of the latest version of `name`; the zero address where the
/// name is unknown or nothing is stored at that index.
pub open spec fn address_of(st: RegistryState, name: Seq<char>) -> Address {
    let key = (name, latest_index(st, name));
    if st.info.contains_key(name) && st.published.contains_key(key) {
        st.published[key].address
    } else {
        zero_address()
    }
}

/// The metadata URI of the latest version of `name`; empty where the name is
/// unknown or nothing is stored at that index.
pub open spec fn metadata_uri_of(st: RegistryState, name: Seq<char>) -> Seq<char> {
    let key = (name, latest_index(st, name));
    if st.info.contains_key(name) && st.published.contains_key(key) {
        st.published[key].metadata_uri
    } else {
        Seq::empty()
    }
}

/// The owner of `name`; the zero address where the name is unknown.
pub open spec fn owner_of(st: RegistryState, name: Seq<char>) -> Address {
    if st.info.contains_key(name) {
        st.info[name].owner
    } else {
        zero_address()
    }
}

/// The version count of `name`; 0 where the name is unknown.
pub open spec fn version_count_of(st: RegistryState, name: Seq<char>) -> Version {
    if st.info.contains_key(name) {
        st.info[name].version_count
    } else {
        0
    }
}

/// The name at a place of the enumeration list; empty behind its end.
pub open spec fn name_at(st: RegistryState, index: Version) -> Seq<char> {
    if index < st.names.len() {
        st.names[index as int]
    } else {
        Seq::empty()
    }
}

spec fn known(records: Seq<NameRecord>, name: Seq<char>) -> bool {
    exists|i: int| 0 <= i < records.len() && (#[trigger] records[i]).name@ == name
}

spec fn slot(records: Seq<NameRecord>, name: Seq<char>) -> int {
    choose|i: int| 0 <= i < records.len() && (#[trigger] records[i]).name@ == name
}

spec fn distinct(records: Seq<NameRecord>) -> bool {
    forall|i: int, j: int|
        0 <= i < j < records.len() ==> (#[trigger] records[i]).name@ != (#[trigger] records[j]).name@
}

spec fn record_wf(r: NameRecord) -> bool {
    r.info.version_count >= 1 && r.versions.len() == r.info.version_count
}

spec fn published_view(p: PublishedContract) -> PublishedView {
    PublishedView { address: p.address, metadata_uri: p.metadata_uri@ }
}

spec fn state_of(records: Seq<NameRecord>) -> RegistryState {
    RegistryState {
        names: Seq::new(records.len(), |i: int| records[i].name@),
        info: Map::new(
            |n: Seq<char>| known(records, n),
            |n: Seq<char>| records[slot(records, n)].info,
        ),
        published: Map::new(
            |k: (Seq<char>, Version)|
                known(records, k.0) && k.1 < records[slot(records, k.0)].versions.len(),
            |k: (Seq<char>, Version)|
                published_view(records[slot(records, k.0)].versions[k.1 as int]),
        ),
    }
}

proof fn lemma_slot(records: Seq<NameRecord>, i: int)
    requires
        distinct(records),
        0 <= i < records.len(),
    ensures
        known(records, records[i].name@),
        slot(records, records[i].name@) == i,
{
    let j = slot(records, records[i].name@);
    assert(0 <= j < records.len() && records[j].name@ == records[i].name@);
}

/// Records that keep their names in place, with more records behind them or
/// none, keep every known name known and in its slot; a name known afterwards
/// was known before or stands in one of the records behind.
proof fn lemma_names_carry(before: Seq<NameRecord>, after: Seq<NameRecord>)
    requires
        distinct(after),
        before.len() <= after.len(),
        forall|j: int| 0 <= j < before.len() ==> (#[trigger] after[j]).name@ == before[j].name@,
    ensures
        forall|n: Seq<char>| #[trigger]
            known(before, n) ==> known(after, n) && slot(after, n) == slot(before, n),
        forall|n: Seq<char>| #[trigger]
            known(after, n) ==> known(before, n) || before.len() <= slot(after, n) < after.len(),
{
    assert forall|n: Seq<char>| #[trigger] known(before, n) implies known(after, n) && slot(
        after,
        n,
    ) == slot(before, n) by {
        let j = slot(before, n);
        assert(after[j].name@ == n);
        lemma_slot(after, j);
    }
    assert forall|n: Seq<char>| #[trigger] known(after, n) implies known(before, n) || before.len()
        <= slot(after, n) < after.len() by {
        let j = slot(after, n);
        if j < before.len() {
            assert(before[j].name@ == n);
        }
    }
}

impl Registry {
    /// The invariant of the stored form.
    pub closed spec fn wf(&self) -> bool {
        &&& self.records.len() <= u32::MAX
        &&& distinct(self.records@)
        &&& forall|i: int| 0 <= i < self.records.len() ==> record_wf(#[trigger] self.records[i])
    }

    /// The registry as a mathematical value.
    pub closed spec fn view(&self) -> RegistryState {
        state_of(self.records@)
    }

    /// A well-formed registry holds a well-formed state.
    pub proof fn lemma_state_wf(&self)
        requires
            self.wf(),
        ensures
            state_wf(self@),
    {
        let records = self.records@;
        let st = self@;
        assert forall|i: int, j: int| 0 <= i < j < st.names.len() implies #[trigger] st.names[i]
            != #[trigger] st.names[j] by {
            assert(records[i].name@ != records[j].name@);
        }
        assert forall|n: Seq<char>| #[trigger] st.info.contains_key(n) <==> st.names.contains(
            n,
        ) by {
            if st.info.contains_key(n) {
                let i = slot(records, n);
                assert(st.names[i] == n);
            }
            if st.names.contains(n) {
                let i = choose|i: int| 0 <= i < st.names.len() && st.names[i] == n;
                assert(records[i].name@ == n);
            }
        }
        assert forall|n: Seq<char>| #[trigger] st.info.contains_key(n) implies st.info[n].version_count
            >= 1 by {
            assert(record_wf(records[slot(records, n)]));
        }
        assert forall|n: Seq<char>, v: Version| #[trigger]
            st.published.contains_key((n, v)) <==> st.info.contains_key(n) && v
                < st.info[n].version_count by {
            if known(records, n) {
                assert(record_wf(records[slot(records, n)]));
            }
        }
    }

    fn position(&self, name: &String) -> (r: Option<usize>)
        requires
            self.wf(),
        ensures
            match r {
                Some(i) => i < self.records.len() && self.records[i as int].name@ == name@
                    && known(self.records@, name@) && slot(self.records@, name@) == i,
                None => !known(self.records@, name@),
            },
    {
        let mut i: usize = 0;
        while i < self.records.len()
            invariant
                self.wf(),
                i <= self.records.len(),
                forall|j: int| 0 <= j < i ==> (#[trigger] self.records[j]).name@ != name@,
            decreases self.records.len() - i,
        {
            if self.records[i].name == *name {
                proof {
                    lemma_slot(self.records@, i as int);
                }
                return Some(i);
            }
            i += 1;
        }
        None
    }
}

/// A registry in which no name is registered.
pub fn new() -> (r: Registry)
    ensures
        r.wf(),
        r@ == empty_state(),
{
    let r = Registry { records: Vec::new() };
    proof {
        assert(r@.names =~= Seq::empty());
        assert(r@.info =~= Map::empty());
        assert(r@.published =~= Map::empty());
    }
    r
}

/// Whether `publish_latest` by `caller` under `contract_name` stays within the
/// registry's counters.
pub fn can_publish(state: &Registry, caller: Address, contract_name: &String) -> (r: bool)
    requires
        state.wf(),
    ensures
        r == publish_allowed(state@, caller, contract_name@),
{
    match state.position(contract_name) {
        None => state.records.len() < 0xffff_ffff,
        Some(i) => {
            let info = state.records[i].info;
            info.owner != caller || info.version_count < u32::MAX
        },
    }
}

/// Publishes `contract_address` with `metadata_uri` as the latest version of
/// `contract_name` on behalf of `caller`.
///
/// An unknown name is registered to the caller first. A known name accepts a
/// new version from its owner only: for any other caller nothing changes.
pub fn publish_latest(
    state: &mut Registry,
    caller: Address,
    contract_name: String,
    contract_address: Address,
    metadata_uri: String,
)
    requires
        old(state).wf(),
        publish_allowed(old(state)@, caller, contract_name@),
    ensures
        final(state).wf(),
        final(state)@ == publish(
            old(state)@,
            caller,
            contract_name@,
            contract_address,
            metadata_uri@,
        ),
{
    let ghost before = state.records@;
    let ghost name = contract_name@;
    let ghost entry = PublishedView { address: contract_address, metadata_uri: metadata_uri@ };
    match state.position(&contract_name) {
        None => {
            let mut versions: Vec<PublishedContract> = Vec::new();
            versions.push(PublishedContract { address: contract_address, metadata_uri });
            let info = NamedContractInfo { owner: caller, version_count: 1 };
            state.records.push(NameRecord { name: contract_name, info, versions });
            proof {
                let after = state.records@;
                let last = before.len() as int;
                assert(after[last].name@ == name);
                assert forall|i: int, j: int| 0 <= i < j < after.len() implies (
                #[trigger] after[i]).name@ != (#[trigger] after[j]).name@ by {
                    assert(after[i] == before[i]);
                    if j < last {
                        assert(after[j] == before[j]);
                    }
                }
                assert forall|i: int| 0 <= i < after.len() implies record_wf(
                    #[trigger] after[i],
                ) by {
                    if i < last {
                        assert(after[i] == before[i]);
                    }
                }
                assert forall|j: int| 0 <= j < before.len() implies (#[trigger] after[j]).name@
                    == before[j].name@ by {
                    assert(after[j] == before[j]);
                }
                lemma_names_carry(before, after);
                lemma_slot(after, last);
                let goal = publish(
                    state_of(before),
                    caller,
                    name,
                    contract_address,
                    entry.metadata_uri,
                );
                assert(state_of(after).names =~= goal.names);
                assert(state_of(after).info =~= goal.info);
                assert(state_of(after).published =~= goal.published);
            }
        },
        Some(i) => {
            if state.records[i].info.owner != caller {
                return;
            }
            let count: Version = state.records[i].info.version_count;
            state.records[i].info.version_count = count + 1;
            state.records[i].versions.push(
                PublishedContract { address: contract_address, metadata_uri },
            );
            proof {
                let after = state.records@;
                let at = i as int;
                assert(after[at].name@ == name);
                assert(after[at].versions@ == before[at].versions@.push(
                    PublishedContract { address: contract_address, metadata_uri },
                ));
                assert forall|j: int| 0 <= j < after.len() && j != at implies #[trigger] after[j]
                    == before[j] by {}
                assert forall|j: int| 0 <= j < after.len() implies (#[trigger] after[j]).name@
                    == before[j].name@ by {}
                assert(record_wf(before[at]));
                assert forall|j: int| 0 <= j < after.len() implies record_wf(
                    #[trigger] after[j],
                ) by {
                    if j != at {
                        assert(record_wf(before[j]));
                    }
                }
                assert(distinct(after)) by {
                    assert forall|a: int, b: int| 0 <= a < b < after.len() implies (
                    #[trigger] after[a]).name@ != (#[trigger] after[b]).name@ by {
                        assert(before[a].name@ != before[b].name@);
                    }
                }
                lemma_names_carry(before, after);
                let goal = publish(
                    state_of(before),
                    caller,
                    name,
                    contract_address,
                    entry.metadata_uri,
                );
                assert(state_of(after).names =~= goal.names);
                assert(state_of(after).info =~= goal.info);
                assert(state_of(after).published =~= goal.published);
            }
        },
    }
}

/// The address of the latest version published under `contract_name`, or the
/// zero address where the name is unknown.
pub fn get_address(state: &Registry, contract_name: String) -> (r: Address)
    requires
        state.wf(),
    ensures
        r == address_of(state@, contract_name@),
{
    match state.position(&contract_name) {
        None => Address::default(),
        Some(i) => {
            let record = &state.records[i];
            assert(record_wf(*record));
            let latest: usize = (record.info.version_count - 1) as usize;
            record.versions[latest].address
        },
    }
}

/// The metadata URI of the latest version published under `contract_name`, or
/// the empty string where the name is unknown.
pub fn get_metadata_uri(state: &Registry, contract_name: String) -> (r: String)
    requires
        state.wf(),
    ensures
        r@ == metadata_uri_of(state@, contract_name@),
{
    match state.position(&contract_name) {
        None => String::new(),
        Some(i) => {
            let record = &state.records[i];
            assert(record_wf(*record));
            let latest: usize = (record.info.version_count - 1) as usize;
            record.versions[latest].metadata_uri.clone()
        },
    }
}

/// The name registered at `index` of the enumeration list, or the empty string
/// where the list is shorter.
pub fn get_contract_name_at(state: &Registry, index: u32) -> (r: String)
    requires
        state.wf(),
    ensures
        r@ == name_at(state@, index),
{
    if (index as usize) < state.records.len() {
        state.records[index as usize].name.clone()
    } else {
        String::new()
    }
}

/// The owner of `contract_name`, or the zero address where the name is unknown.
pub fn get_owner(state: &Registry, contract_name: String) -> (r: Address)
    requires
        state.wf(),
    ensures
        r == owner_of(state@, contract_name@),
{
    match state.position(&contract_name) {
        None => Address::default(),
        Some(i) => state.records[i].info.owner,
    }
}

/// The number of versions published under `contract_name`, 0 where the name is
/// unknown.
pub fn get_version_count(state: &Registry, contract_name: String) -> (r: u32)
    requires
        state.wf(),
    ensures
        r == version_count_of(state@, contract_name@),
{
    match state.position(&contract_name) {
        None => 0,
        Some(i) => state.records[i].info.version_count,
    }
}

/// The number of names registered.
pub fn get_contract_count(state: &Registry) -> (r: u32)
    requires
        state.wf(),
    ensures
        r == state@.names.len(),
{
    state.records.len() as u32
}

/// Publishing keeps a state well formed.
pub proof fn lemma_publish_keeps_wf(
    st: RegistryState,
    caller: Address,
    name: Seq<char>,
    address: Address,
    metadata_uri: Seq<char>,
)
    requires
        state_wf(st),
        publish_allowed(st, caller, name),
    ensures
        state_wf(publish(st, caller, name, address, metadata_uri)),
{
    let after = publish(st, caller, name, address, metadata_uri);
    if !st.info.contains_key(name) {
        assert forall|i: int, j: int| 0 <= i < j < after.names.len() implies #[trigger] after.names[i]
            != #[trigger] after.names[j] by {
            if j == st.names.len() {
                assert(st.names.contains(st.names[i]));
            }
        }
        assert forall|n: Seq<char>| #[trigger] after.info.contains_key(n) <==> after.names.contains(
            n,
        ) by {
            if after.names.contains(n) {
                let i = choose|i: int| 0 <= i < after.names.len() && after.names[i] == n;
                if i < st.names.len() {
                    assert(st.names.contains(n));
                }
            }
            if st.info.contains_key(n) {
                let i = choose|i: int| 0 <= i < st.names.len() && st.names[i] == n;
                assert(after.names[i] == n);
            }
            if n == name {
                assert(after.names[st.names.len() as int] == n);
            }
        }
        assert forall|n: Seq<char>, v: Version| #[trigger]
            after.published.contains_key((n, v)) <==> after.info.contains_key(n) && v
                < after.info[n].version_count by {
            assert(st.published.contains_key((n, v)) <==> st.info.contains_key(n) && v
                < st.info[n].version_count);
        }
    } else if st.info[name].owner == caller {
        assert forall|n: Seq<char>, v: Version| #[trigger]
            after.published.contains_key((n, v)) <==> after.info.contains_key(n) && v
                < after.info[n].version_count by {
            assert(st.published.contains_key((n, v)) <==> st.info.contains_key(n) && v
                < st.info[n].version_count);
        }
    }
}

/// The first publication under a name registers it to the caller: the name
/// joins the end of the enumeration list, the caller owns it, and its one
/// version is the published one.
pub proof fn lemma_first_publish(
    st: RegistryState,
    caller: Address,
    name: Seq<char>,
    address: Address,
    metadata_uri: Seq<char>,
)
    requires
        state_wf(st),
        !st.info.contains_key(name),
    ensures
        ({
            let after = publish(st, caller, name, address, metadata_uri);
            &&& after.names == st.names.push(name)
            &&& name_at(after, st.names.len() as Version) == name
            &&& owner_of(after, name) == caller
            &&& version_count_of(after, name) == 1
            &&& address_of(after, name) == address
            &&& metadata_uri_of(after, name) == metadata_uri
        }),
{
}

/// A further publication by the owner adds one version, which becomes the
/// latest, and leaves the owner as it was.
pub proof fn lemma_owner_publish(
    st: RegistryState,
    caller: Address,
    name: Seq<char>,
    address: Address,
    metadata_uri: Seq<char>,
)
    requires
        state_wf(st),
        st.info.contains_key(name),
        st.info[name].owner == caller,
        st.info[name].version_count < u32::MAX,
    ensures
        ({
            let after = publish(st, caller, name, address, metadata_uri);
            &&& after.names == st.names
            &&& owner_of(after, name) == caller
            &&& version_count_of(after, name) == version_count_of(st, name) + 1
            &&& address_of(after, name) == address
            &&& metadata_uri_of(after, name) == metadata_uri
        }),
{
}

/// A publication by anyone but the owner of a registered name changes nothing.
pub proof fn lemma_foreign_publish(
    st: RegistryState,
    caller: Address,
    name: Seq<char>,
    address: Address,
    metadata_uri: Seq<char>,
)
    requires
        st.info.contains_key(name),
        st.info[name].owner != caller,
    ensures
        publish(st, caller, name, address, metadata_uri) == st,
{
}

/// The registry only grows: whatever a publication does, the enumeration list
/// keeps its names in place, no owner changes, no version count falls, and
/// every version published before is still stored unchanged.
pub proof fn lemma_publish_appends(
    st: RegistryState,
    caller: Address,
    name: Seq<char>,
    address: Address,
    metadata_uri: Seq<char>,
)
    requires
        state_wf(st),
        publish_allowed(st, caller, name),
    ensures
        ({
            let after = publish(st, caller, name, address, metadata_uri);
            &&& st.names.is_prefix_of(after.names)
            &&& forall|n: Seq<char>| #[trigger]
                st.info.contains_key(n) ==> after.info.contains_key(n) && after.info[n].owner
                    == st.info[n].owner && after.info[n].version_count >= st.info[n].version_count
            &&& forall|k: (Seq<char>, Version)| #[trigger]
                st.published.contains_key(k) ==> after.published.contains_key(k)
                    && after.published[k] == st.published[k]
        }),
{
    let after = publish(st, caller, name, address, metadata_uri);
    assert(after.names.subrange(0, st.names.len() as int) =~= st.names);
    assert forall|k: (Seq<char>, Version)| #[trigger] st.published.contains_key(k) implies
        after.published.contains_key(k) && after.published[k] == st.published[k] by {
        assert(st.published.contains_key((k.0, k.1)));
    }
}

/// What the read accessors return depends on the registry's state alone: two
/// registries in the same state answer every query alike.
pub proof fn lemma_reads_follow_state(a: Registry, b: Registry, name: Seq<char>, index: Version)
    requires
        a@ == b@,
    ensures
        address_of(a@, name) == address_of(b@, name),
        metadata_uri_of(a@, name) == metadata_uri_of(b@, name),
        owner_of(a@, name) == owner_of(b@, name),
        version_count_of(a@, name) == version_count_of(b@, name),
        name_at(a@, index) == name_at(b@, index),
        a@.names.len() == b@.names.len(),
{
}

} // verus!
