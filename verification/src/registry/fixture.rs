//! Test records for the registry, and the order in which they are written.
use super::integrity::Integrity;
use crate::principal::Principal;
use vstd::prelude::*;
use vstd::string::*;

verus! {

/// The curves of ECDSA keys.
#[derive(Clone, Copy, Debug, PartialEq, Eq)]
pub enum EcdsaCurve {
    Secp256k1,
}

/// The name of an ECDSA key.
#[derive(Debug, PartialEq, Eq)]
pub struct EcdsaKeyId {
    pub curve: EcdsaCurve,
    pub name: String,
}

/// The key of a record.
#[derive(Debug, PartialEq, Eq)]
pub enum RecordKey {
    SubnetList,
    Subnet(Principal),
    CatchUpPackageContents(Principal),
    RoutingTable,
    CanisterMigrations,
    RootSubnetId,
    EcdsaSigningSubnetList(EcdsaKeyId),
    ProvisionalWhitelist,
    NodeSigningKey(Principal),
}

/// The value of a record.
#[derive(Debug, PartialEq, Eq)]
pub enum RecordValue {
    /// Bytes that are written as they are.
    Bytes(Vec<u8>),
    /// A list of subnets, each as its raw bytes.
    SubnetList(Vec<Vec<u8>>),
    /// A list of subnets, each as its id.
    SubnetIds(Vec<Principal>),
    /// One subnet.
    SubnetId(Principal),
    /// The contents of a catch-up package: the transcripts of low and of high
    /// threshold, encoded, if there are any.
    CatchUpPackageContents { low_threshold: Option<Vec<u8>>, high_threshold: Option<Vec<u8>> },
}

/// The mathematical view of a [`RecordValue`].
pub enum RecordValueView {
    Bytes(Seq<u8>),
    SubnetList(Seq<Seq<u8>>),
    SubnetIds(Seq<Principal>),
    SubnetId(Principal),
    CatchUpPackageContents { low_threshold: Option<Seq<u8>>, high_threshold: Option<Seq<u8>> },
}

/// The bytes in an optional vector.
pub open spec fn bytes_in(bytes: Option<Vec<u8>>) -> Option<Seq<u8>> {
    match bytes {
        Some(v) => Some(v@),
        None => None,
    }
}

impl View for RecordValue {
    type V = RecordValueView;

    open spec fn view(&self) -> RecordValueView {
        match self {
            RecordValue::Bytes(bytes) => RecordValueView::Bytes(bytes@),
            RecordValue::SubnetList(ids) => RecordValueView::SubnetList(
                ids@.map_values(|id: Vec<u8>| id@),
            ),
            RecordValue::SubnetIds(ids) => RecordValueView::SubnetIds(ids@),
            RecordValue::SubnetId(id) => RecordValueView::SubnetId(*id),
            RecordValue::CatchUpPackageContents { low_threshold, high_threshold } => {
                RecordValueView::CatchUpPackageContents {
                    low_threshold: bytes_in(*low_threshold),
                    high_threshold: bytes_in(*high_threshold),
                }
            },
        }
    }
}

/// A record that is to be written.
#[derive(Debug, PartialEq, Eq)]
pub struct RegistryWrite {
    pub key: RecordKey,
    pub version: u64,
    pub value: RecordValue,
}

/// The mathematical view of a [`RegistryWrite`].
pub struct RegistryWriteView {
    pub key: RecordKey,
    pub version: u64,
    pub value: RecordValueView,
}

impl View for RegistryWrite {
    type V = RegistryWriteView;

    open spec fn view(&self) -> RegistryWriteView {
        RegistryWriteView { key: self.key, version: self.version, value: self.value@ }
    }
}

/// The views of a list of writes.
pub open spec fn views(writes: Seq<RegistryWrite>) -> Seq<RegistryWriteView> {
    writes.map_values(|w: RegistryWrite| w@)
}

/// What stands in a corrupted record: prime numbers, which are no encoding of anything.
pub open spec fn corrupted_bytes() -> Seq<u8> {
    seq![
        2, 3, 5, 7, 11, 13, 17, 19, 23, 29, 31, 37, 41, 43, 47, 53, 59, 61, 71, 73, 79,
        83, 97, 101, 103, 107, 109, 113, 127, 131, 137, 139, 149, 151, 157, 163, 167,
        173, 179, 181, 191, 193, 197, 199, 211, 223, 227, 229, 233, 239, 241, 251,
    ]
}

/// What is in `value`, seen by its view.
pub open spec fn seen(value: Integrity<RecordValue>) -> Integrity<RecordValueView> {
    match value {
        Integrity::Valid(v) => Integrity::Valid(v@),
        Integrity::Corrupted => Integrity::Corrupted,
        Integrity::Missing => Integrity::Missing,
    }
}

/// What is written for a record: nothing if it is missing.
pub open spec fn record_writes(
    latest_version: u64,
    key: RecordKey,
    value: Integrity<RecordValueView>,
) -> Seq<RegistryWriteView> {
    let version = (latest_version + 1) as u64;
    match value {
        Integrity::Valid(v) => seq![RegistryWriteView { key, version, value: v }],
        Integrity::Corrupted => seq![
            RegistryWriteView { key, version, value: RecordValueView::Bytes(corrupted_bytes()) },
        ],
        Integrity::Missing => Seq::empty(),
    }
}

/// `value` with `f` applied to valid data.
pub open spec fn mapped<T, U>(value: Integrity<T>, f: spec_fn(T) -> U) -> Integrity<U> {
    match value {
        Integrity::Valid(v) => Integrity::Valid(f(v)),
        Integrity::Corrupted => Integrity::Corrupted,
        Integrity::Missing => Integrity::Missing,
    }
}

/// The record with the list of subnets: the raw bytes of each.
pub open spec fn subnet_list_value(ids: Integrity<Vec<Principal>>) -> Integrity<RecordValueView> {
    mapped(
        ids,
        |ids: Vec<Principal>|
            RecordValueView::SubnetList(ids@.map_values(|id: Principal| id@)),
    )
}

/// A record whose data is written as it is.
pub open spec fn bytes_value(data: Integrity<Vec<u8>>) -> Integrity<RecordValueView> {
    mapped(data, |data: Vec<u8>| RecordValueView::Bytes(data@))
}

/// The record with the transcripts of a subnet: one transcript for both thresholds.
pub open spec fn transcripts_value(transcript: Integrity<Option<Vec<u8>>>) -> Integrity<
    RecordValueView,
> {
    mapped(
        transcript,
        |transcript: Option<Vec<u8>>|
            RecordValueView::CatchUpPackageContents {
                low_threshold: bytes_in(transcript),
                high_threshold: bytes_in(transcript),
            },
    )
}

/// The record with the root subnet.
pub open spec fn subnet_id_value(id: Integrity<Principal>) -> Integrity<RecordValueView> {
    mapped(id, |id: Principal| RecordValueView::SubnetId(id))
}

/// The record with the subnets that sign with a key.
pub open spec fn subnet_ids_value(ids: Integrity<Vec<Principal>>) -> Integrity<RecordValueView> {
    mapped(ids, |ids: Vec<Principal>| RecordValueView::SubnetIds(ids@))
}

/// What is written for the first `n` subnets, each with its record.
pub open spec fn subnets_writes(
    latest_version: u64,
    ids: Seq<Principal>,
    records: Seq<Integrity<Vec<u8>>>,
    n: nat,
) -> Seq<RegistryWriteView>
    decreases n,
{
    if n == 0 {
        Seq::empty()
    } else {
        subnets_writes(latest_version, ids, records, (n - 1) as nat) + record_writes(
            latest_version,
            RecordKey::Subnet(ids[n - 1]),
            bytes_value(records[n - 1]),
        )
    }
}

/// What is written for the first `n` subnets, each with its transcripts.
pub open spec fn transcripts_writes(
    latest_version: u64,
    ids: Seq<Principal>,
    transcripts: Seq<Integrity<Option<Vec<u8>>>>,
    n: nat,
) -> Seq<RegistryWriteView>
    decreases n,
{
    if n == 0 {
        Seq::empty()
    } else {
        transcripts_writes(latest_version, ids, transcripts, (n - 1) as nat) + record_writes(
            latest_version,
            RecordKey::CatchUpPackageContents(ids[n - 1]),
            transcripts_value(transcripts[n - 1]),
        )
    }
}

/// What is written for the first `n` keys, each with the subnets that sign with it.
pub open spec fn signing_writes(
    latest_version: u64,
    subnets: Seq<(EcdsaKeyId, Integrity<Vec<Principal>>)>,
    n: nat,
) -> Seq<RegistryWriteView>
    decreases n,
{
    if n == 0 {
        Seq::empty()
    } else {
        signing_writes(latest_version, subnets, (n - 1) as nat) + record_writes(
            latest_version,
            RecordKey::EcdsaSigningSubnetList(subnets[n - 1].0),
            subnet_ids_value(subnets[n - 1].1),
        )
    }
}

/// What is written for the first `n` nodes, each with its public key.
pub open spec fn node_keys_writes(
    latest_version: u64,
    keys: Seq<(Principal, Integrity<Vec<u8>>)>,
    n: nat,
) -> Seq<RegistryWriteView>
    decreases n,
{
    if n == 0 {
        Seq::empty()
    } else {
        node_keys_writes(latest_version, keys, (n - 1) as nat) + record_writes(
            latest_version,
            RecordKey::NodeSigningKey(keys[n - 1].0),
            bytes_value(keys[n - 1].1),
        )
    }
}

/// The records that a test needs. Where the registry has one record for each key, the
/// keys ascend, as [`TestRecords::keys_ascend`] says. Data that is only handed on is
/// encoded.
#[derive(Debug)]
pub struct TestRecords {
    pub subnet_ids: Integrity<Vec<Principal>>,
    pub subnet_records: Vec<Integrity<Vec<u8>>>,
    pub ni_dkg_transcripts: Vec<Integrity<Option<Vec<u8>>>>,
    pub nns_subnet_id: Integrity<Principal>,
    pub ecdsa_signing_subnets: Vec<(EcdsaKeyId, Integrity<Vec<Principal>>)>,
    pub provisional_whitelist: Integrity<Vec<u8>>,
    pub routing_table: Integrity<Vec<u8>>,
    pub canister_migrations: Integrity<Vec<u8>>,
    pub node_public_keys: Vec<(Principal, Integrity<Vec<u8>>)>,
}

/// Whether `keys` ascend in the order that `less` gives, so that each occurs once.
pub open spec fn ascends<K>(keys: Seq<K>, less: spec_fn(K, K) -> bool) -> bool {
    forall|i: int, j: int|
        #![trigger keys[i], keys[j]]
        0 <= i < j < keys.len() ==> less(keys[i], keys[j])
}

/// Whether nothing is before itself in the order that `less` gives.
pub open spec fn is_strict<K>(less: spec_fn(K, K) -> bool) -> bool {
    forall|k: K| !#[trigger] less(k, k)
}

/// Whether no item occurs twice.
pub open spec fn is_distinct<K>(items: Seq<K>) -> bool {
    forall|i: int, j: int|
        #![trigger items[i], items[j]]
        0 <= i < j < items.len() ==> items[i] != items[j]
}

impl TestRecords {
    /// The ECDSA keys that there are records for.
    pub open spec fn ecdsa_keys(self) -> Seq<EcdsaKeyId> {
        self.ecdsa_signing_subnets@.map_values(
            |entry: (EcdsaKeyId, Integrity<Vec<Principal>>)| entry.0,
        )
    }

    /// The nodes that there are public keys for.
    pub open spec fn node_ids(self) -> Seq<Principal> {
        self.node_public_keys@.map_values(|entry: (Principal, Integrity<Vec<u8>>)| entry.0)
    }

    /// Whether the ECDSA keys and the nodes ascend in these orders, as the keys of ordered
    /// maps do.
    pub open spec fn keys_ascend(
        self,
        key_less: spec_fn(EcdsaKeyId, EcdsaKeyId) -> bool,
        node_less: spec_fn(Principal, Principal) -> bool,
    ) -> bool {
        &&& is_strict(key_less)
        &&& is_strict(node_less)
        &&& ascends(self.ecdsa_keys(), key_less)
        &&& ascends(self.node_ids(), node_less)
    }

    /// Whether no subnet is listed twice.
    pub open spec fn subnets_are_distinct(self) -> bool {
        self.subnet_ids matches Integrity::Valid(ids) ==> is_distinct(ids@)
    }
}

/// The smaller of two lengths.
pub open spec fn shorter(a: nat, b: nat) -> nat {
    if a <= b {
        a
    } else {
        b
    }
}

/// What is written for the subnets: nothing unless their ids are valid.
pub open spec fn all_subnets_writes(latest_version: u64, input: TestRecords) -> Seq<
    RegistryWriteView,
> {
    match input.subnet_ids {
        Integrity::Valid(ids) => subnets_writes(
            latest_version,
            ids@,
            input.subnet_records@,
            shorter(ids@.len(), input.subnet_records@.len()),
        ) + transcripts_writes(
            latest_version,
            ids@,
            input.ni_dkg_transcripts@,
            shorter(ids@.len(), input.ni_dkg_transcripts@.len()),
        ),
        _ => Seq::empty(),
    }
}

/// What is written for a test, in this order.
pub open spec fn test_writes(latest_version: u64, input: TestRecords) -> Seq<RegistryWriteView> {
    record_writes(latest_version, RecordKey::SubnetList, subnet_list_value(input.subnet_ids))
        + all_subnets_writes(latest_version, input)
        + record_writes(latest_version, RecordKey::RoutingTable, bytes_value(input.routing_table))
        + record_writes(
        latest_version,
        RecordKey::CanisterMigrations,
        bytes_value(input.canister_migrations),
    ) + record_writes(
        latest_version,
        RecordKey::RootSubnetId,
        subnet_id_value(input.nns_subnet_id),
    ) + signing_writes(
        latest_version,
        input.ecdsa_signing_subnets@,
        input.ecdsa_signing_subnets@.len(),
    ) + record_writes(
        latest_version,
        RecordKey::ProvisionalWhitelist,
        bytes_value(input.provisional_whitelist),
    ) + node_keys_writes(
        latest_version,
        input.node_public_keys@,
        input.node_public_keys@.len(),
    )
}

/// A copy of bytes that are maybe there.
fn copied(bytes: &Option<Vec<u8>>) -> (r: Option<Vec<u8>>)
    ensures
        bytes_in(r) == bytes_in(*bytes),
{
    match bytes {
        Some(v) => Some(v.clone()),
        None => None,
    }
}

/// The raw bytes of each of the ids.
fn raw_ids(ids: &Vec<Principal>) -> (r: Vec<Vec<u8>>)
    ensures
        r@.map_values(|id: Vec<u8>| id@) == ids@.map_values(|id: Principal| id@),
{
    let mut raw: Vec<Vec<u8>> = Vec::new();
    let mut i: usize = 0;
    while i < ids.len()
        invariant
            i <= ids@.len(),
            raw@.len() == i,
            forall|j: int| 0 <= j < i ==> (#[trigger] raw@[j])@ == ids@[j]@,
        decreases ids.len() - i,
    {
        raw.push(ids[i].as_bytes());
        i = i + 1;
    }
    assert(raw@.map_values(|id: Vec<u8>| id@) =~= ids@.map_values(|id: Principal| id@));
    raw
}

/// A copy of the ids.
fn copied_ids(ids: &Vec<Principal>) -> (r: Vec<Principal>)
    ensures
        r@ == ids@,
{
    let mut copy: Vec<Principal> = Vec::new();
    let mut i: usize = 0;
    while i < ids.len()
        invariant
            i <= ids@.len(),
            copy@ =~= ids@.take(i as int),
        decreases ids.len() - i,
    {
        copy.push(ids[i]);
        i = i + 1;
    }
    copy
}

/// A record with these bytes.
fn bytes_record(data: &Vec<u8>) -> (r: RecordValue)
    ensures
        r@ == RecordValueView::Bytes(data@),
{
    RecordValue::Bytes(data.clone())
}

/// A record with this transcript for both thresholds.
fn transcripts_record(transcript: &Option<Vec<u8>>) -> (r: RecordValue)
    ensures
        r@ == (RecordValueView::CatchUpPackageContents {
            low_threshold: bytes_in(*transcript),
            high_threshold: bytes_in(*transcript),
        }),
{
    RecordValue::CatchUpPackageContents {
        low_threshold: copied(transcript),
        high_threshold: copied(transcript),
    }
}

/// A record with this subnet.
fn subnet_id_record(id: Principal) -> (r: RecordValue)
    ensures
        r@ == RecordValueView::SubnetId(id),
{
    RecordValue::SubnetId(id)
}

/// A record with these subnets, as their ids.
fn subnet_ids_record(ids: &Vec<Principal>) -> (r: RecordValue)
    ensures
        r@ == RecordValueView::SubnetIds(ids@),
{
    RecordValue::SubnetIds(copied_ids(ids))
}

/// A record with these subnets, as their raw bytes.
fn subnet_list_record(ids: &Vec<Principal>) -> (r: RecordValue)
    ensures
        r@ == RecordValueView::SubnetList(ids@.map_values(|id: Principal| id@)),
{
    RecordValue::SubnetList(raw_ids(ids))
}

/// Collects the records to write, all at the version after the latest one of the
/// registry, which moves on once they have been written.
#[derive(Debug)]
pub struct RegistryFixture {
    pub latest_version: u64,
    pub writes: Vec<RegistryWrite>,
}

/// The mathematical view of a [`RegistryFixture`].
#[verifier::ext_equal]
pub struct RegistryFixtureView {
    pub latest_version: u64,
    pub writes: Seq<RegistryWriteView>,
}

impl View for RegistryFixture {
    type V = RegistryFixtureView;

    open spec fn view(&self) -> RegistryFixtureView {
        RegistryFixtureView { latest_version: self.latest_version, writes: views(self.writes@) }
    }
}

impl RegistryFixtureView {
    /// The fixture with more to write.
    pub open spec fn with(self, more: Seq<RegistryWriteView>) -> RegistryFixtureView {
        RegistryFixtureView { writes: self.writes + more, ..self }
    }

    /// Adding twice is adding both.
    proof fn lemma_with_both(self, more: Seq<RegistryWriteView>, last: Seq<RegistryWriteView>)
        ensures
            self.with(more).with(last) == self.with(more + last),
    {
        assert(self.with(more).with(last) =~= self.with(more + last));
    }

    /// Adding nothing changes nothing.
    proof fn lemma_with_nothing(self)
        ensures
            self.with(Seq::empty()) == self,
    {
        assert(self.with(Seq::empty()) =~= self);
    }
}

impl RegistryFixture {
    /// A fixture with nothing to write, for a registry at this version.
    pub fn new(latest_version: u64) -> (r: Self)
        ensures
            r@ == (RegistryFixtureView { latest_version, writes: Seq::empty() }),
    {
        let r = RegistryFixture { latest_version, writes: Vec::new() };
        assert(r@.writes =~= Seq::empty());
        r
    }

    /// Adds a write of this value at the next version.
    fn add(&mut self, key: RecordKey, value: RecordValue)
        requires
            old(self)@.latest_version < u64::MAX,
        ensures
            final(self)@ == old(self)@.with(
                seq![
                    RegistryWriteView {
                        key,
                        version: (old(self)@.latest_version + 1) as u64,
                        value: value@,
                    },
                ],
            ),
    {
        let version: u64 = self.latest_version + 1;
        let write = RegistryWrite { key, version, value };
        let ghost before = self.writes@;
        self.writes.push(write);
        assert(views(self.writes@) =~= views(before) + seq![write@]);
    }

    /// Adds the record with this key. Valid data is written as it is. For corrupted data
    /// prime numbers are written instead, which nobody can read. Missing data is not
    /// written.
    pub fn write_record(&mut self, key: RecordKey, value: Integrity<RecordValue>)
        requires
            old(self)@.latest_version < u64::MAX,
        ensures
            final(self)@ == old(self)@.with(
                record_writes(old(self)@.latest_version, key, seen(value)),
            ),
    {
        match value {
            Integrity::Valid(value) => self.add(key, value),
            Integrity::Corrupted => {
                let corrupted_data: Vec<u8> =
                    vec![
                    2, 3, 5, 7, 11, 13, 17, 19, 23, 29, 31, 37, 41, 43, 47, 53, 59, 61, 71, 73, 79,
                    83, 97, 101, 103, 107, 109, 113, 127, 131, 137, 139, 149, 151, 157, 163, 167,
                    173, 179, 181, 191, 193, 197, 199, 211, 223, 227, 229, 233, 239, 241, 251,
                ];
                assert(corrupted_data@ =~= corrupted_bytes());
                self.add(key, RecordValue::Bytes(corrupted_data))
            },
            Integrity::Missing => {
                assert(self@.writes + Seq::<RegistryWriteView>::empty() =~= self@.writes);
            },
        }
    }

    /// Adds a record whose data is written as it is.
    fn write_bytes(&mut self, key: RecordKey, data: &Integrity<Vec<u8>>)
        requires
            old(self)@.latest_version < u64::MAX,
        ensures
            final(self)@ == old(self)@.with(
                record_writes(old(self)@.latest_version, key, bytes_value(*data)),
            ),
    {
        self.write_record(
            key,
            data.as_ref().map(bytes_record),
        );
    }

    /// Adds the transcripts of a subnet.
    pub fn write_ni_dkg_transcripts(
        &mut self,
        subnet_id: Principal,
        transcript: &Integrity<Option<Vec<u8>>>,
    )
        requires
            old(self)@.latest_version < u64::MAX,
        ensures
            final(self)@ == old(self)@.with(
                record_writes(
                    old(self)@.latest_version,
                    RecordKey::CatchUpPackageContents(subnet_id),
                    transcripts_value(*transcript),
                ),
            ),
    {
        self.write_record(
            RecordKey::CatchUpPackageContents(subnet_id),
            transcript.as_ref().map(transcripts_record),
        );
    }

    /// Adds the record of a subnet.
    pub fn write_subnet_record(&mut self, subnet_id: Principal, subnet_record: &Integrity<Vec<u8>>)
        requires
            old(self)@.latest_version < u64::MAX,
        ensures
            final(self)@ == old(self)@.with(
                record_writes(
                    old(self)@.latest_version,
                    RecordKey::Subnet(subnet_id),
                    bytes_value(*subnet_record),
                ),
            ),
    {
        self.write_bytes(RecordKey::Subnet(subnet_id), subnet_record);
    }

    /// Adds the routing table.
    pub fn write_routing_table(&mut self, routing_table: &Integrity<Vec<u8>>)
        requires
            old(self)@.latest_version < u64::MAX,
        ensures
            final(self)@ == old(self)@.with(
                record_writes(
                    old(self)@.latest_version,
                    RecordKey::RoutingTable,
                    bytes_value(*routing_table),
                ),
            ),
    {
        self.write_bytes(RecordKey::RoutingTable, routing_table);
    }

    /// Adds the list of canister migrations.
    pub fn write_canister_migrations(&mut self, canister_migrations: &Integrity<Vec<u8>>)
        requires
            old(self)@.latest_version < u64::MAX,
        ensures
            final(self)@ == old(self)@.with(
                record_writes(
                    old(self)@.latest_version,
                    RecordKey::CanisterMigrations,
                    bytes_value(*canister_migrations),
                ),
            ),
    {
        self.write_bytes(RecordKey::CanisterMigrations, canister_migrations);
    }

    /// Adds the root subnet.
    pub fn write_root_subnet_id(&mut self, nns_subnet_id: Integrity<Principal>)
        requires
            old(self)@.latest_version < u64::MAX,
        ensures
            final(self)@ == old(self)@.with(
                record_writes(
                    old(self)@.latest_version,
                    RecordKey::RootSubnetId,
                    subnet_id_value(nns_subnet_id),
                ),
            ),
    {
        self.write_record(
            RecordKey::RootSubnetId,
            nns_subnet_id.map(subnet_id_record),
        );
    }

    /// Adds the subnets that sign with each key.
    pub fn write_ecdsa_signing_subnets(
        &mut self,
        ecdsa_signing_subnets: &Vec<(EcdsaKeyId, Integrity<Vec<Principal>>)>,
    )
        requires
            old(self)@.latest_version < u64::MAX,
        ensures
            final(self)@ == old(self)@.with(
                signing_writes(
                    old(self)@.latest_version,
                    ecdsa_signing_subnets@,
                    ecdsa_signing_subnets@.len(),
                ),
            ),
    {
        let ghost before = self@;
        let mut i: usize = 0;
        assert(before.writes + Seq::<RegistryWriteView>::empty() =~= before.writes);
        while i < ecdsa_signing_subnets.len()
            invariant
                before.latest_version < u64::MAX,
                i <= ecdsa_signing_subnets@.len(),
                self@ == before.with(
                    signing_writes(before.latest_version, ecdsa_signing_subnets@, i as nat),
                ),
            decreases ecdsa_signing_subnets.len() - i,
        {
            let (ecdsa_key, subnet_ids) = &ecdsa_signing_subnets[i];
            let key = EcdsaKeyId { curve: ecdsa_key.curve, name: ecdsa_key.name.clone() };
            self.write_record(
                RecordKey::EcdsaSigningSubnetList(key),
                subnet_ids.as_ref().map(subnet_ids_record),
            );
            i = i + 1;
            assert(self@ =~= before.with(
                signing_writes(before.latest_version, ecdsa_signing_subnets@, i as nat),
            ));
        }
    }

    /// Adds the list of subnets.
    pub fn write_subnet_list(&mut self, subnet_ids: &Integrity<Vec<Principal>>)
        requires
            old(self)@.latest_version < u64::MAX,
        ensures
            final(self)@ == old(self)@.with(
                record_writes(
                    old(self)@.latest_version,
                    RecordKey::SubnetList,
                    subnet_list_value(*subnet_ids),
                ),
            ),
    {
        self.write_record(
            RecordKey::SubnetList,
            subnet_ids.as_ref().map(subnet_list_record),
        );
    }

    /// Adds the provisional whitelist.
    pub fn write_provisional_whitelist(&mut self, provisional_whitelist: &Integrity<Vec<u8>>)
        requires
            old(self)@.latest_version < u64::MAX,
        ensures
            final(self)@ == old(self)@.with(
                record_writes(
                    old(self)@.latest_version,
                    RecordKey::ProvisionalWhitelist,
                    bytes_value(*provisional_whitelist),
                ),
            ),
    {
        self.write_bytes(RecordKey::ProvisionalWhitelist, provisional_whitelist);
    }

    /// Adds the public key of each node.
    pub fn write_node_public_keys(
        &mut self,
        node_public_keys: &Vec<(Principal, Integrity<Vec<u8>>)>,
    )
        requires
            old(self)@.latest_version < u64::MAX,
        ensures
            final(self)@ == old(self)@.with(
                node_keys_writes(
                    old(self)@.latest_version,
                    node_public_keys@,
                    node_public_keys@.len(),
                ),
            ),
    {
        let ghost before = self@;
        let mut i: usize = 0;
        assert(before.writes + Seq::<RegistryWriteView>::empty() =~= before.writes);
        while i < node_public_keys.len()
            invariant
                before.latest_version < u64::MAX,
                i <= node_public_keys@.len(),
                self@ == before.with(
                    node_keys_writes(before.latest_version, node_public_keys@, i as nat),
                ),
            decreases node_public_keys.len() - i,
        {
            let (node_id, public_key) = &node_public_keys[i];
            self.write_bytes(RecordKey::NodeSigningKey(*node_id), public_key);
            i = i + 1;
            assert(self@ =~= before.with(
                node_keys_writes(before.latest_version, node_public_keys@, i as nat),
            ));
        }
    }

    /// Adds the records of the subnets, one for each id as far as there are both.
    fn write_subnet_records(
        &mut self,
        subnet_ids: &Vec<Principal>,
        subnet_records: &Vec<Integrity<Vec<u8>>>,
    )
        requires
            old(self)@.latest_version < u64::MAX,
        ensures
            final(self)@ == old(self)@.with(
                subnets_writes(
                    old(self)@.latest_version,
                    subnet_ids@,
                    subnet_records@,
                    shorter(subnet_ids@.len(), subnet_records@.len()),
                ),
            ),
    {
        let ghost before = self@;
        let mut i: usize = 0;
        assert(before.writes + Seq::<RegistryWriteView>::empty() =~= before.writes);
        while i < subnet_ids.len() && i < subnet_records.len()
            invariant
                before.latest_version < u64::MAX,
                i <= subnet_ids@.len(),
                i <= subnet_records@.len(),
                self@ == before.with(
                    subnets_writes(
                        before.latest_version,
                        subnet_ids@,
                        subnet_records@,
                        i as nat,
                    ),
                ),
            decreases subnet_ids.len() - i,
        {
            self.write_subnet_record(subnet_ids[i], &subnet_records[i]);
            i = i + 1;
            assert(self@ =~= before.with(
                subnets_writes(before.latest_version, subnet_ids@, subnet_records@, i as nat),
            ));
        }
    }

    /// Adds the transcripts of the subnets, for each id as far as there are both.
    fn write_all_transcripts(
        &mut self,
        subnet_ids: &Vec<Principal>,
        transcripts: &Vec<Integrity<Option<Vec<u8>>>>,
    )
        requires
            old(self)@.latest_version < u64::MAX,
        ensures
            final(self)@ == old(self)@.with(
                transcripts_writes(
                    old(self)@.latest_version,
                    subnet_ids@,
                    transcripts@,
                    shorter(subnet_ids@.len(), transcripts@.len()),
                ),
            ),
    {
        let ghost before = self@;
        let mut i: usize = 0;
        assert(before.writes + Seq::<RegistryWriteView>::empty() =~= before.writes);
        while i < subnet_ids.len() && i < transcripts.len()
            invariant
                before.latest_version < u64::MAX,
                i <= subnet_ids@.len(),
                i <= transcripts@.len(),
                self@ == before.with(
                    transcripts_writes(
                        before.latest_version,
                        subnet_ids@,
                        transcripts@,
                        i as nat,
                    ),
                ),
            decreases subnet_ids.len() - i,
        {
            self.write_ni_dkg_transcripts(subnet_ids[i], &transcripts[i]);
            i = i + 1;
            assert(self@ =~= before.with(
                transcripts_writes(before.latest_version, subnet_ids@, transcripts@, i as nat),
            ));
        }
    }

    /// Adds the records that a test needs. Without valid subnet ids no subnet records and
    /// no transcripts are added, since their keys need an id.
    pub fn write_test_records(&mut self, input: &TestRecords)
        requires
            old(self)@.latest_version < u64::MAX,
        ensures
            final(self)@ == old(self)@.with(test_writes(old(self)@.latest_version, *input)),
    {
        let ghost before = self@;
        let ghost latest = before.latest_version;
        let ghost mut more = record_writes(
            latest,
            RecordKey::SubnetList,
            subnet_list_value(input.subnet_ids),
        );
        self.write_subnet_list(&input.subnet_ids);
        let ghost listed = self@;
        if let Integrity::Valid(subnet_ids) = &input.subnet_ids {
            self.write_subnet_records(subnet_ids, &input.subnet_records);
            proof {
                let n = shorter(subnet_ids@.len(), input.subnet_records@.len());
                let m = shorter(subnet_ids@.len(), input.ni_dkg_transcripts@.len());
                listed.lemma_with_both(
                    subnets_writes(latest, subnet_ids@, input.subnet_records@, n),
                    transcripts_writes(latest, subnet_ids@, input.ni_dkg_transcripts@, m),
                );
            }
            self.write_all_transcripts(subnet_ids, &input.ni_dkg_transcripts);
        }
        proof {
            listed.lemma_with_nothing();
            let next = all_subnets_writes(latest, *input);
            before.lemma_with_both(more, next);
            more = more + next;
            assert(self@ == before.with(more));
        }
        self.write_routing_table(&input.routing_table);
        proof {
            let next = record_writes(
                latest,
                RecordKey::RoutingTable,
                bytes_value(input.routing_table),
            );
            before.lemma_with_both(more, next);
            more = more + next;
        }
        self.write_canister_migrations(&input.canister_migrations);
        proof {
            let next = record_writes(
                latest,
                RecordKey::CanisterMigrations,
                bytes_value(input.canister_migrations),
            );
            before.lemma_with_both(more, next);
            more = more + next;
        }
        self.write_root_subnet_id(input.nns_subnet_id);
        proof {
            let next = record_writes(
                latest,
                RecordKey::RootSubnetId,
                subnet_id_value(input.nns_subnet_id),
            );
            before.lemma_with_both(more, next);
            more = more + next;
        }
        self.write_ecdsa_signing_subnets(&input.ecdsa_signing_subnets);
        proof {
            let subnets = input.ecdsa_signing_subnets@;
            let next = signing_writes(latest, subnets, subnets.len());
            before.lemma_with_both(more, next);
            more = more + next;
        }
        self.write_provisional_whitelist(&input.provisional_whitelist);
        proof {
            let next = record_writes(
                latest,
                RecordKey::ProvisionalWhitelist,
                bytes_value(input.provisional_whitelist),
            );
            before.lemma_with_both(more, next);
            more = more + next;
        }
        self.write_node_public_keys(&input.node_public_keys);
        proof {
            let keys = input.node_public_keys@;
            before.lemma_with_both(more, node_keys_writes(latest, keys, keys.len()));
        }
    }
}

} // verus!
