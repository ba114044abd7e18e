//! What holds of the records that a test writes, taken together.
use super::fixture::{
    all_subnets_writes, ascends, bytes_value, corrupted_bytes, is_distinct, is_strict,
    node_keys_writes, record_writes, seen, shorter, signing_writes, subnet_id_value,
    subnet_ids_value, subnet_list_value, subnets_writes, test_writes, transcripts_value,
    transcripts_writes, EcdsaKeyId, RecordKey, RecordValue, RecordValueView, RegistryFixture,
    RegistryFixtureView, RegistryWrite, RegistryWriteView, TestRecords,
};
use super::integrity::Integrity;
use crate::principal::Principal;
use vstd::prelude::*;

verus! {

/// Whether all writes are to this version.
pub open spec fn all_at(writes: Seq<RegistryWriteView>, version: int) -> bool {
    forall|i: int| 0 <= i < writes.len() ==> (#[trigger] writes[i]).version == version
}

/// Whether a record belongs to a subnet.
pub open spec fn is_of_subnet(key: RecordKey) -> bool {
    key is Subnet || key is CatchUpPackageContents
}

/// Whether no write is to a record that belongs to a subnet.
pub open spec fn none_of_subnet(writes: Seq<RegistryWriteView>) -> bool {
    forall|i: int| 0 <= i < writes.len() ==> !is_of_subnet((#[trigger] writes[i]).key)
}

/// One record more is at the next version too.
proof fn lemma_one_more_at(
    writes: Seq<RegistryWriteView>,
    latest_version: u64,
    key: RecordKey,
    value: Integrity<RecordValueView>,
)
    requires
        latest_version < u64::MAX,
        all_at(writes, latest_version + 1),
    ensures
        all_at(writes + record_writes(latest_version, key, value), latest_version + 1),
{
}

/// One record more is none of a subnet, if its key is not.
proof fn lemma_one_more_of_none(
    writes: Seq<RegistryWriteView>,
    latest_version: u64,
    key: RecordKey,
    value: Integrity<RecordValueView>,
)
    requires
        !is_of_subnet(key),
        none_of_subnet(writes),
    ensures
        none_of_subnet(writes + record_writes(latest_version, key, value)),
{
}

/// The records of subnets are written at the next version.
proof fn lemma_subnets_at(
    latest_version: u64,
    ids: Seq<Principal>,
    records: Seq<Integrity<Vec<u8>>>,
    n: nat,
)
    requires
        latest_version < u64::MAX,
    ensures
        all_at(subnets_writes(latest_version, ids, records, n), latest_version + 1),
    decreases n,
{
    if n > 0 {
        let m = (n - 1) as nat;
        lemma_subnets_at(latest_version, ids, records, m);
        lemma_one_more_at(
            subnets_writes(latest_version, ids, records, m),
            latest_version,
            RecordKey::Subnet(ids[m as int]),
            bytes_value(records[m as int]),
        );
    }
}

/// The transcripts of subnets are written at the next version.
proof fn lemma_transcripts_at(
    latest_version: u64,
    ids: Seq<Principal>,
    transcripts: Seq<Integrity<Option<Vec<u8>>>>,
    n: nat,
)
    requires
        latest_version < u64::MAX,
    ensures
        all_at(transcripts_writes(latest_version, ids, transcripts, n), latest_version + 1),
    decreases n,
{
    if n > 0 {
        let m = (n - 1) as nat;
        lemma_transcripts_at(latest_version, ids, transcripts, m);
        lemma_one_more_at(
            transcripts_writes(latest_version, ids, transcripts, m),
            latest_version,
            RecordKey::CatchUpPackageContents(ids[m as int]),
            transcripts_value(transcripts[m as int]),
        );
    }
}

/// The subnets that sign are written at the next version, to no record of a subnet.
proof fn lemma_signing(
    latest_version: u64,
    subnets: Seq<(EcdsaKeyId, Integrity<Vec<Principal>>)>,
    n: nat,
)
    ensures
        latest_version < u64::MAX ==> all_at(
            signing_writes(latest_version, subnets, n),
            latest_version + 1,
        ),
        none_of_subnet(signing_writes(latest_version, subnets, n)),
    decreases n,
{
    if n > 0 {
        let m = (n - 1) as nat;
        lemma_signing(latest_version, subnets, m);
        let before = signing_writes(latest_version, subnets, m);
        let key = RecordKey::EcdsaSigningSubnetList(subnets[m as int].0);
        let value = subnet_ids_value(subnets[m as int].1);
        if latest_version < u64::MAX {
            lemma_one_more_at(before, latest_version, key, value);
        }
        lemma_one_more_of_none(before, latest_version, key, value);
    }
}

/// The keys of nodes are written at the next version, to no record of a subnet.
proof fn lemma_node_keys(
    latest_version: u64,
    keys: Seq<(Principal, Integrity<Vec<u8>>)>,
    n: nat,
)
    ensures
        latest_version < u64::MAX ==> all_at(
            node_keys_writes(latest_version, keys, n),
            latest_version + 1,
        ),
        none_of_subnet(node_keys_writes(latest_version, keys, n)),
    decreases n,
{
    if n > 0 {
        let m = (n - 1) as nat;
        lemma_node_keys(latest_version, keys, m);
        let before = node_keys_writes(latest_version, keys, m);
        let key = RecordKey::NodeSigningKey(keys[m as int].0);
        let value = bytes_value(keys[m as int].1);
        if latest_version < u64::MAX {
            lemma_one_more_at(before, latest_version, key, value);
        }
        lemma_one_more_of_none(before, latest_version, key, value);
    }
}

/// All records of a test are written at the version after the latest one.
pub proof fn law_all_writes_at_next_version(latest_version: u64, input: TestRecords)
    requires
        latest_version < u64::MAX,
    ensures
        all_at(test_writes(latest_version, input), latest_version + 1),
{
    if let Integrity::Valid(ids) = input.subnet_ids {
        lemma_subnets_at(
            latest_version,
            ids@,
            input.subnet_records@,
            shorter(ids@.len(), input.subnet_records@.len()),
        );
        lemma_transcripts_at(
            latest_version,
            ids@,
            input.ni_dkg_transcripts@,
            shorter(ids@.len(), input.ni_dkg_transcripts@.len()),
        );
    }
    lemma_signing(
        latest_version,
        input.ecdsa_signing_subnets@,
        input.ecdsa_signing_subnets@.len(),
    );
    lemma_node_keys(latest_version, input.node_public_keys@, input.node_public_keys@.len());
}

/// Without valid subnet ids, no subnet records and no transcripts are written.
pub proof fn law_no_subnet_records_without_ids(latest_version: u64, input: TestRecords)
    requires
        !(input.subnet_ids is Valid),
    ensures
        none_of_subnet(test_writes(latest_version, input)),
{
    lemma_signing(
        latest_version,
        input.ecdsa_signing_subnets@,
        input.ecdsa_signing_subnets@.len(),
    );
    lemma_node_keys(latest_version, input.node_public_keys@, input.node_public_keys@.len());
}

/// Keys and nodes whose data is missing are not written.
proof fn lemma_missing_lists(latest_version: u64, input: TestRecords, n: nat, m: nat)
    requires
        n <= input.ecdsa_signing_subnets@.len(),
        m <= input.node_public_keys@.len(),
        forall|i: int|
            0 <= i < input.ecdsa_signing_subnets@.len() ==> (
            #[trigger] input.ecdsa_signing_subnets@[i]).1 is Missing,
        forall|i: int|
            0 <= i < input.node_public_keys@.len() ==> (#[trigger] input.node_public_keys@[i]).1
                is Missing,
    ensures
        signing_writes(latest_version, input.ecdsa_signing_subnets@, n).len() == 0,
        node_keys_writes(latest_version, input.node_public_keys@, m).len() == 0,
    decreases n + m,
{
    if n > 0 {
        lemma_missing_lists(latest_version, input, (n - 1) as nat, m);
        assert(input.ecdsa_signing_subnets@[n - 1].1 is Missing);
    } else if m > 0 {
        lemma_missing_lists(latest_version, input, n, (m - 1) as nat);
        assert(input.node_public_keys@[m - 1].1 is Missing);
    }
}

/// Data that is missing is not written: a test whose data is all missing writes nothing.
pub proof fn law_missing_data_is_not_written(latest_version: u64, input: TestRecords)
    requires
        input.subnet_ids is Missing,
        input.nns_subnet_id is Missing,
        input.provisional_whitelist is Missing,
        input.routing_table is Missing,
        input.canister_migrations is Missing,
        forall|i: int|
            0 <= i < input.ecdsa_signing_subnets@.len() ==> (
            #[trigger] input.ecdsa_signing_subnets@[i]).1 is Missing,
        forall|i: int|
            0 <= i < input.node_public_keys@.len() ==> (#[trigger] input.node_public_keys@[i]).1
                is Missing,
    ensures
        test_writes(latest_version, input).len() == 0,
{
    lemma_missing_lists(
        latest_version,
        input,
        input.ecdsa_signing_subnets@.len(),
        input.node_public_keys@.len(),
    );
}

/// The place of a kind of record in the order in which the kinds are written.
pub open spec fn rank(key: RecordKey) -> int {
    match key {
        RecordKey::SubnetList => 0,
        RecordKey::Subnet(_) => 1,
        RecordKey::CatchUpPackageContents(_) => 2,
        RecordKey::RoutingTable => 3,
        RecordKey::CanisterMigrations => 4,
        RecordKey::RootSubnetId => 5,
        RecordKey::EcdsaSigningSubnetList(_) => 6,
        RecordKey::ProvisionalWhitelist => 7,
        RecordKey::NodeSigningKey(_) => 8,
    }
}

/// Whether no record key is written twice.
pub open spec fn each_key_once(writes: Seq<RegistryWriteView>) -> bool {
    forall|i: int, j: int|
        #![trigger writes[i], writes[j]]
        0 <= i < j < writes.len() ==> writes[i].key != writes[j].key
}

/// Whether no record key is written twice, and all are of kinds up to `last`.
spec fn once_up_to(writes: Seq<RegistryWriteView>, last: int) -> bool {
    &&& each_key_once(writes)
    &&& forall|i: int| 0 <= i < writes.len() ==> rank((#[trigger] writes[i]).key) <= last
}

/// Whether no record key is written twice, and all are of one kind.
spec fn once_of_kind(writes: Seq<RegistryWriteView>, kind: int) -> bool {
    &&& each_key_once(writes)
    &&& forall|i: int| 0 <= i < writes.len() ==> rank((#[trigger] writes[i]).key) == kind
}

/// Records of a later kind have other keys.
proof fn lemma_later_kind(
    writes: Seq<RegistryWriteView>,
    last: int,
    more: Seq<RegistryWriteView>,
    kind: int,
)
    requires
        once_up_to(writes, last),
        once_of_kind(more, kind),
        last < kind,
    ensures
        once_up_to(writes + more, kind),
{
    let both = writes + more;
    let n = writes.len();
    assert forall|i: int, j: int|
        #![trigger both[i], both[j]]
        0 <= i < j < both.len() implies both[i].key != both[j].key by {
        if j < n {
            assert(both[i] == writes[i] && both[j] == writes[j]);
        } else {
            assert(both[j] == more[j - n]);
            if i < n {
                assert(both[i] == writes[i]);
            } else {
                assert(both[i] == more[i - n]);
            }
        }
    }
    assert forall|i: int| 0 <= i < both.len() implies rank((#[trigger] both[i]).key) <= kind by {
        if i < n {
            assert(both[i] == writes[i]);
        } else {
            assert(both[i] == more[i - n]);
        }
    }
}

/// Whether each write of `writes` is to one of the first `n` of `keys`.
spec fn within(writes: Seq<RegistryWriteView>, keys: Seq<RecordKey>, n: nat) -> bool {
    forall|i: int|
        0 <= i < writes.len() ==> exists|k: int|
            0 <= k < n && (#[trigger] writes[i]).key == #[trigger] keys[k]
}

/// A record with a key that was not written is one key more.
proof fn lemma_next_key(
    writes: Seq<RegistryWriteView>,
    keys: Seq<RecordKey>,
    n: nat,
    latest_version: u64,
    value: Integrity<RecordValueView>,
)
    requires
        n < keys.len(),
        is_distinct(keys),
        each_key_once(writes),
        within(writes, keys, n),
    ensures
        ({
            let more = writes + record_writes(latest_version, keys[n as int], value);
            each_key_once(more) && within(more, keys, n + 1)
        }),
{
    let last = record_writes(latest_version, keys[n as int], value);
    let more = writes + last;
    assert forall|i: int| 0 <= i < more.len() implies exists|k: int|
        0 <= k < n + 1 && (#[trigger] more[i]).key == #[trigger] keys[k] by {
        if i < writes.len() {
            assert(more[i] == writes[i]);
            let k = choose|k: int| 0 <= k < n && writes[i].key == #[trigger] keys[k];
            assert(more[i].key == keys[k]);
        } else {
            assert(more[i] == last[i - writes.len()]);
            assert(more[i].key == keys[n as int]);
        }
    }
    assert forall|i: int, j: int|
        #![trigger more[i], more[j]]
        0 <= i < j < more.len() implies more[i].key != more[j].key by {
        assert(more[i] == writes[i]);
        if j < writes.len() {
            assert(more[j] == writes[j]);
        } else {
            assert(more[j] == last[j - writes.len()]);
            let k = choose|k: int| 0 <= k < n && writes[i].key == #[trigger] keys[k];
            assert(keys[k] != keys[n as int]);
        }
    }
}

/// Writes to keys of one kind are of that kind.
proof fn lemma_of_kind(writes: Seq<RegistryWriteView>, keys: Seq<RecordKey>, n: nat, kind: int)
    requires
        each_key_once(writes),
        within(writes, keys, n),
        forall|k: int| 0 <= k < n ==> rank(#[trigger] keys[k]) == kind,
    ensures
        once_of_kind(writes, kind),
{
}

/// The records of distinct subnets have distinct keys.
proof fn lemma_subnets_once(
    latest_version: u64,
    ids: Seq<Principal>,
    records: Seq<Integrity<Vec<u8>>>,
    n: nat,
)
    requires
        n <= ids.len(),
        is_distinct(ids),
    ensures
        each_key_once(subnets_writes(latest_version, ids, records, n)),
        within(
            subnets_writes(latest_version, ids, records, n),
            ids.map_values(|id: Principal| RecordKey::Subnet(id)),
            n,
        ),
    decreases n,
{
    if n > 0 {
        let m = (n - 1) as nat;
        let keys = ids.map_values(|id: Principal| RecordKey::Subnet(id));
        lemma_subnets_once(latest_version, ids, records, m);
        assert forall|i: int, j: int|
            #![trigger keys[i], keys[j]]
            0 <= i < j < keys.len() implies keys[i] != keys[j] by {
            assert(ids[i] != ids[j]);
        }
        lemma_next_key(
            subnets_writes(latest_version, ids, records, m),
            keys,
            m,
            latest_version,
            bytes_value(records[m as int]),
        );
    }
}

/// The transcripts of distinct subnets have distinct keys.
proof fn lemma_transcripts_once(
    latest_version: u64,
    ids: Seq<Principal>,
    transcripts: Seq<Integrity<Option<Vec<u8>>>>,
    n: nat,
)
    requires
        n <= ids.len(),
        is_distinct(ids),
    ensures
        each_key_once(transcripts_writes(latest_version, ids, transcripts, n)),
        within(
            transcripts_writes(latest_version, ids, transcripts, n),
            ids.map_values(|id: Principal| RecordKey::CatchUpPackageContents(id)),
            n,
        ),
    decreases n,
{
    if n > 0 {
        let m = (n - 1) as nat;
        let keys = ids.map_values(|id: Principal| RecordKey::CatchUpPackageContents(id));
        lemma_transcripts_once(latest_version, ids, transcripts, m);
        assert forall|i: int, j: int|
            #![trigger keys[i], keys[j]]
            0 <= i < j < keys.len() implies keys[i] != keys[j] by {
            assert(ids[i] != ids[j]);
        }
        lemma_next_key(
            transcripts_writes(latest_version, ids, transcripts, m),
            keys,
            m,
            latest_version,
            transcripts_value(transcripts[m as int]),
        );
    }
}

/// The subnets that sign with distinct keys have records with distinct keys.
proof fn lemma_signing_once(latest_version: u64, input: TestRecords, n: nat)
    requires
        n <= input.ecdsa_signing_subnets@.len(),
        is_distinct(input.ecdsa_keys()),
    ensures
        each_key_once(signing_writes(latest_version, input.ecdsa_signing_subnets@, n)),
        within(
            signing_writes(latest_version, input.ecdsa_signing_subnets@, n),
            input.ecdsa_keys().map_values(
                |key: EcdsaKeyId| RecordKey::EcdsaSigningSubnetList(key),
            ),
            n,
        ),
    decreases n,
{
    if n > 0 {
        let m = (n - 1) as nat;
        let ids = input.ecdsa_keys();
        let keys = ids.map_values(|key: EcdsaKeyId| RecordKey::EcdsaSigningSubnetList(key));
        lemma_signing_once(latest_version, input, m);
        assert forall|i: int, j: int|
            #![trigger keys[i], keys[j]]
            0 <= i < j < keys.len() implies keys[i] != keys[j] by {
            assert(ids[i] != ids[j]);
        }
        lemma_next_key(
            signing_writes(latest_version, input.ecdsa_signing_subnets@, m),
            keys,
            m,
            latest_version,
            subnet_ids_value(input.ecdsa_signing_subnets@[m as int].1),
        );
    }
}

/// The keys of distinct nodes have records with distinct keys.
proof fn lemma_node_keys_once(latest_version: u64, input: TestRecords, n: nat)
    requires
        n <= input.node_public_keys@.len(),
        is_distinct(input.node_ids()),
    ensures
        each_key_once(node_keys_writes(latest_version, input.node_public_keys@, n)),
        within(
            node_keys_writes(latest_version, input.node_public_keys@, n),
            input.node_ids().map_values(|id: Principal| RecordKey::NodeSigningKey(id)),
            n,
        ),
    decreases n,
{
    if n > 0 {
        let m = (n - 1) as nat;
        let ids = input.node_ids();
        let keys = ids.map_values(|id: Principal| RecordKey::NodeSigningKey(id));
        lemma_node_keys_once(latest_version, input, m);
        assert forall|i: int, j: int|
            #![trigger keys[i], keys[j]]
            0 <= i < j < keys.len() implies keys[i] != keys[j] by {
            assert(ids[i] != ids[j]);
        }
        lemma_next_key(
            node_keys_writes(latest_version, input.node_public_keys@, m),
            keys,
            m,
            latest_version,
            bytes_value(input.node_public_keys@[m as int].1),
        );
    }
}

/// Keys that ascend are distinct.
proof fn lemma_ascending_is_distinct<K>(keys: Seq<K>, less: spec_fn(K, K) -> bool)
    requires
        is_strict(less),
        ascends(keys, less),
    ensures
        is_distinct(keys),
{
    assert forall|i: int, j: int|
        #![trigger keys[i], keys[j]]
        0 <= i < j < keys.len() implies keys[i] != keys[j] by {
        assert(less(keys[i], keys[j]));
    }
}

/// What is written for distinct subnets, after the list of subnets, has distinct keys.
proof fn lemma_all_subnets_once(latest_version: u64, input: TestRecords)
    requires
        input.subnets_are_distinct(),
    ensures
        once_up_to(
            record_writes(
                latest_version,
                RecordKey::SubnetList,
                subnet_list_value(input.subnet_ids),
            ) + all_subnets_writes(latest_version, input),
            2,
        ),
{
    let list = record_writes(
        latest_version,
        RecordKey::SubnetList,
        subnet_list_value(input.subnet_ids),
    );
    assert(once_up_to(list, 0));
    match input.subnet_ids {
        Integrity::Valid(ids) => {
            let n = shorter(ids@.len(), input.subnet_records@.len());
            let m = shorter(ids@.len(), input.ni_dkg_transcripts@.len());
            let subnets = subnets_writes(latest_version, ids@, input.subnet_records@, n);
            let transcripts = transcripts_writes(
                latest_version,
                ids@,
                input.ni_dkg_transcripts@,
                m,
            );
            lemma_subnets_once(latest_version, ids@, input.subnet_records@, n);
            lemma_of_kind(
                subnets,
                ids@.map_values(|id: Principal| RecordKey::Subnet(id)),
                n,
                1,
            );
            lemma_later_kind(list, 0, subnets, 1);
            lemma_transcripts_once(latest_version, ids@, input.ni_dkg_transcripts@, m);
            lemma_of_kind(
                transcripts,
                ids@.map_values(|id: Principal| RecordKey::CatchUpPackageContents(id)),
                m,
                2,
            );
            lemma_later_kind(list + subnets, 1, transcripts, 2);
            assert(list + (subnets + transcripts) =~= (list + subnets) + transcripts);
        },
        _ => {
            assert(list + Seq::<RegistryWriteView>::empty() =~= list);
        },
    }
}

/// A test writes no record key twice, if no subnet is listed twice and the ECDSA keys and
/// the nodes ascend.
pub proof fn law_no_key_is_written_twice(
    latest_version: u64,
    input: TestRecords,
    key_less: spec_fn(EcdsaKeyId, EcdsaKeyId) -> bool,
    node_less: spec_fn(Principal, Principal) -> bool,
)
    requires
        input.keys_ascend(key_less, node_less),
        input.subnets_are_distinct(),
    ensures
        each_key_once(test_writes(latest_version, input)),
{
    let lists = record_writes(
        latest_version,
        RecordKey::SubnetList,
        subnet_list_value(input.subnet_ids),
    ) + all_subnets_writes(latest_version, input);
    lemma_all_subnets_once(latest_version, input);
    let table = record_writes(
        latest_version,
        RecordKey::RoutingTable,
        bytes_value(input.routing_table),
    );
    lemma_later_kind(lists, 2, table, 3);
    let migrations = record_writes(
        latest_version,
        RecordKey::CanisterMigrations,
        bytes_value(input.canister_migrations),
    );
    lemma_later_kind(lists + table, 3, migrations, 4);
    let root = record_writes(
        latest_version,
        RecordKey::RootSubnetId,
        subnet_id_value(input.nns_subnet_id),
    );
    lemma_later_kind(lists + table + migrations, 4, root, 5);
    let n = input.ecdsa_signing_subnets@.len();
    let signing = signing_writes(latest_version, input.ecdsa_signing_subnets@, n);
    lemma_ascending_is_distinct(input.ecdsa_keys(), key_less);
    lemma_signing_once(latest_version, input, n);
    lemma_of_kind(
        signing,
        input.ecdsa_keys().map_values(|key: EcdsaKeyId| RecordKey::EcdsaSigningSubnetList(key)),
        n,
        6,
    );
    lemma_later_kind(lists + table + migrations + root, 5, signing, 6);
    let whitelist = record_writes(
        latest_version,
        RecordKey::ProvisionalWhitelist,
        bytes_value(input.provisional_whitelist),
    );
    lemma_later_kind(lists + table + migrations + root + signing, 6, whitelist, 7);
    let m = input.node_public_keys@.len();
    let node_keys = node_keys_writes(latest_version, input.node_public_keys@, m);
    lemma_ascending_is_distinct(input.node_ids(), node_less);
    lemma_node_keys_once(latest_version, input, m);
    lemma_of_kind(
        node_keys,
        input.node_ids().map_values(|id: Principal| RecordKey::NodeSigningKey(id)),
        m,
        8,
    );
    lemma_later_kind(
        lists + table + migrations + root + signing + whitelist,
        7,
        node_keys,
        8,
    );
}

/// Whether `value` is what stands in a record with these bytes: the bytes themselves, or what
/// stands in a corrupted record.
pub open spec fn stands_for_bytes(value: RecordValueView, data: Integrity<Vec<u8>>) -> bool {
    match data {
        Integrity::Valid(v) => value == RecordValueView::Bytes(v@),
        Integrity::Corrupted => value == RecordValueView::Bytes(corrupted_bytes()),
        Integrity::Missing => false,
    }
}

/// Whether `value` is what stands in the list of these subnets: the raw bytes of each, in their
/// order, or what stands in a corrupted record.
pub open spec fn stands_for_list(value: RecordValueView, ids: Integrity<Vec<Principal>>) -> bool {
    match ids {
        Integrity::Valid(v) => value matches RecordValueView::SubnetList(raw) && raw.len()
            == v@.len() && forall|i: int|
            0 <= i < v@.len() ==> #[trigger] raw[i] == v@[i]@,
        Integrity::Corrupted => value == RecordValueView::Bytes(corrupted_bytes()),
        Integrity::Missing => false,
    }
}

/// Whether `value` is what stands in the record of the subnets that sign with a key.
pub open spec fn stands_for_ids(value: RecordValueView, ids: Integrity<Vec<Principal>>) -> bool {
    match ids {
        Integrity::Valid(v) => value == RecordValueView::SubnetIds(v@),
        Integrity::Corrupted => value == RecordValueView::Bytes(corrupted_bytes()),
        Integrity::Missing => false,
    }
}

/// Whether `value` is what stands in the record of the root subnet.
pub open spec fn stands_for_id(value: RecordValueView, id: Integrity<Principal>) -> bool {
    match id {
        Integrity::Valid(v) => value == RecordValueView::SubnetId(v),
        Integrity::Corrupted => value == RecordValueView::Bytes(corrupted_bytes()),
        Integrity::Missing => false,
    }
}

/// Whether `value` is what stands in the record of a transcript: the transcript for both
/// thresholds, or for neither if there is none.
pub open spec fn stands_for_transcript(
    value: RecordValueView,
    transcript: Integrity<Option<Vec<u8>>>,
) -> bool {
    match transcript {
        Integrity::Valid(Some(v)) => value == (RecordValueView::CatchUpPackageContents {
            low_threshold: Some(v@),
            high_threshold: Some(v@),
        }),
        Integrity::Valid(None) => value == (RecordValueView::CatchUpPackageContents {
            low_threshold: None,
            high_threshold: None,
        }),
        Integrity::Corrupted => value == RecordValueView::Bytes(corrupted_bytes()),
        Integrity::Missing => false,
    }
}

/// Whether a write comes from the input of a test: its record is one that the input has data
/// for, and its value is that data.
pub open spec fn comes_from(w: RegistryWriteView, input: TestRecords) -> bool {
    match w.key {
        RecordKey::SubnetList => stands_for_list(w.value, input.subnet_ids),
        RecordKey::RoutingTable => stands_for_bytes(w.value, input.routing_table),
        RecordKey::CanisterMigrations => stands_for_bytes(w.value, input.canister_migrations),
        RecordKey::RootSubnetId => stands_for_id(w.value, input.nns_subnet_id),
        RecordKey::ProvisionalWhitelist => stands_for_bytes(w.value, input.provisional_whitelist),
        RecordKey::Subnet(id) => input.subnet_ids matches Integrity::Valid(ids) && exists|k: int|
            0 <= k < ids@.len() && k < input.subnet_records@.len() && #[trigger] ids@[k] == id
                && stands_for_bytes(w.value, input.subnet_records@[k]),
        RecordKey::CatchUpPackageContents(id) => input.subnet_ids matches Integrity::Valid(ids)
            && exists|k: int|
            0 <= k < ids@.len() && k < input.ni_dkg_transcripts@.len() && #[trigger] ids@[k] == id
                && stands_for_transcript(w.value, input.ni_dkg_transcripts@[k]),
        RecordKey::EcdsaSigningSubnetList(key) => exists|k: int|
            0 <= k < input.ecdsa_signing_subnets@.len() && (
            #[trigger] input.ecdsa_signing_subnets@[k]).0 == key && stands_for_ids(
                w.value,
                input.ecdsa_signing_subnets@[k].1,
            ),
        RecordKey::NodeSigningKey(id) => exists|k: int|
            0 <= k < input.node_public_keys@.len() && (#[trigger] input.node_public_keys@[k]).0
                == id && stands_for_bytes(w.value, input.node_public_keys@[k].1),
    }
}

/// Whether every write of `writes` comes from the input.
spec fn all_come_from(writes: Seq<RegistryWriteView>, input: TestRecords) -> bool {
    forall|i: int| 0 <= i < writes.len() ==> comes_from(#[trigger] writes[i], input)
}

/// Writes of two parts that come from the input come from it together.
proof fn lemma_both_come(
    a: Seq<RegistryWriteView>,
    b: Seq<RegistryWriteView>,
    input: TestRecords,
)
    requires
        all_come_from(a, input),
        all_come_from(b, input),
    ensures
        all_come_from(a + b, input),
{
    let both = a + b;
    assert forall|i: int| 0 <= i < both.len() implies comes_from(#[trigger] both[i], input) by {
        if i < a.len() {
            assert(both[i] == a[i]);
        } else {
            assert(both[i] == b[i - a.len()]);
        }
    }
}

/// The writes for the first `n` subnets come from the input.
proof fn lemma_subnets_come(latest_version: u64, input: TestRecords, n: nat)
    requires
        input.subnet_ids matches Integrity::Valid(ids) && n <= ids@.len() && n
            <= input.subnet_records@.len(),
    ensures
        all_come_from(
            subnets_writes(latest_version, input.subnet_ids->Valid_0@, input.subnet_records@, n),
            input,
        ),
    decreases n,
{
    if n > 0 {
        let m = (n - 1) as nat;
        let ids = input.subnet_ids->Valid_0@;
        lemma_subnets_come(latest_version, input, m);
        let last = record_writes(
            latest_version,
            RecordKey::Subnet(ids[m as int]),
            bytes_value(input.subnet_records@[m as int]),
        );
        assert(ids[m as int] == ids[m as int]);
        lemma_both_come(
            subnets_writes(latest_version, ids, input.subnet_records@, m),
            last,
            input,
        );
    }
}

/// The transcripts of the first `n` subnets come from the input.
proof fn lemma_transcripts_come(latest_version: u64, input: TestRecords, n: nat)
    requires
        input.subnet_ids matches Integrity::Valid(ids) && n <= ids@.len() && n
            <= input.ni_dkg_transcripts@.len(),
    ensures
        all_come_from(
            transcripts_writes(
                latest_version,
                input.subnet_ids->Valid_0@,
                input.ni_dkg_transcripts@,
                n,
            ),
            input,
        ),
    decreases n,
{
    if n > 0 {
        let m = (n - 1) as nat;
        let ids = input.subnet_ids->Valid_0@;
        lemma_transcripts_come(latest_version, input, m);
        let last = record_writes(
            latest_version,
            RecordKey::CatchUpPackageContents(ids[m as int]),
            transcripts_value(input.ni_dkg_transcripts@[m as int]),
        );
        lemma_both_come(
            transcripts_writes(latest_version, ids, input.ni_dkg_transcripts@, m),
            last,
            input,
        );
    }
}

/// The writes for the first `n` ECDSA keys come from the input.
proof fn lemma_signing_come(latest_version: u64, input: TestRecords, n: nat)
    requires
        n <= input.ecdsa_signing_subnets@.len(),
    ensures
        all_come_from(
            signing_writes(latest_version, input.ecdsa_signing_subnets@, n),
            input,
        ),
    decreases n,
{
    if n > 0 {
        let m = (n - 1) as nat;
        let entry = input.ecdsa_signing_subnets@[m as int];
        lemma_signing_come(latest_version, input, m);
        lemma_both_come(
            signing_writes(latest_version, input.ecdsa_signing_subnets@, m),
            record_writes(
                latest_version,
                RecordKey::EcdsaSigningSubnetList(entry.0),
                subnet_ids_value(entry.1),
            ),
            input,
        );
    }
}

/// The writes for the first `n` nodes come from the input.
proof fn lemma_node_keys_come(latest_version: u64, input: TestRecords, n: nat)
    requires
        n <= input.node_public_keys@.len(),
    ensures
        all_come_from(node_keys_writes(latest_version, input.node_public_keys@, n), input),
    decreases n,
{
    if n > 0 {
        let m = (n - 1) as nat;
        let entry = input.node_public_keys@[m as int];
        lemma_node_keys_come(latest_version, input, m);
        lemma_both_come(
            node_keys_writes(latest_version, input.node_public_keys@, m),
            record_writes(
                latest_version,
                RecordKey::NodeSigningKey(entry.0),
                bytes_value(entry.1),
            ),
            input,
        );
    }
}

/// Nothing is written for a test but the data of its input, each under its own key.
pub proof fn law_nothing_else_is_written(latest_version: u64, input: TestRecords)
    ensures
        forall|i: int|
            0 <= i < test_writes(latest_version, input).len() ==> comes_from(
                #[trigger] test_writes(latest_version, input)[i],
                input,
            ),
{
    let l = latest_version;
    let list = record_writes(l, RecordKey::SubnetList, subnet_list_value(input.subnet_ids));
    let subnets = all_subnets_writes(l, input);
    if let Integrity::Valid(ids) = input.subnet_ids {
        let n = shorter(ids@.len(), input.subnet_records@.len());
        let m = shorter(ids@.len(), input.ni_dkg_transcripts@.len());
        lemma_subnets_come(l, input, n);
        lemma_transcripts_come(l, input, m);
        lemma_both_come(
            subnets_writes(l, ids@, input.subnet_records@, n),
            transcripts_writes(l, ids@, input.ni_dkg_transcripts@, m),
            input,
        );
    }
    lemma_both_come(list, subnets, input);
    let table = record_writes(l, RecordKey::RoutingTable, bytes_value(input.routing_table));
    lemma_both_come(list + subnets, table, input);
    let migrations = record_writes(
        l,
        RecordKey::CanisterMigrations,
        bytes_value(input.canister_migrations),
    );
    lemma_both_come(list + subnets + table, migrations, input);
    let root = record_writes(l, RecordKey::RootSubnetId, subnet_id_value(input.nns_subnet_id));
    lemma_both_come(list + subnets + table + migrations, root, input);
    let n = input.ecdsa_signing_subnets@.len();
    let signing = signing_writes(l, input.ecdsa_signing_subnets@, n);
    lemma_signing_come(l, input, n);
    lemma_both_come(list + subnets + table + migrations + root, signing, input);
    let whitelist = record_writes(
        l,
        RecordKey::ProvisionalWhitelist,
        bytes_value(input.provisional_whitelist),
    );
    lemma_both_come(list + subnets + table + migrations + root + signing, whitelist, input);
    let m = input.node_public_keys@.len();
    let node_keys = node_keys_writes(l, input.node_public_keys@, m);
    lemma_node_keys_come(l, input, m);
    lemma_both_come(
        list + subnets + table + migrations + root + signing + whitelist,
        node_keys,
        input,
    );
}

/// Whether a value is written under a key, with something that `stands` there.
pub open spec fn is_written(
    writes: Seq<RegistryWriteView>,
    key: RecordKey,
    stands: spec_fn(RecordValueView) -> bool,
) -> bool {
    exists|i: int|
        0 <= i < writes.len() && (#[trigger] writes[i]).key == key && stands(writes[i].value)
}

/// What is written in a part is written in the whole.
proof fn lemma_written_in_whole(
    a: Seq<RegistryWriteView>,
    b: Seq<RegistryWriteView>,
    key: RecordKey,
    stands: spec_fn(RecordValueView) -> bool,
)
    ensures
        is_written(a, key, stands) || is_written(b, key, stands) ==> is_written(a + b, key, stands),
{
    if is_written(a, key, stands) {
        let i = choose|i: int|
            0 <= i < a.len() && (#[trigger] a[i]).key == key && stands(a[i].value);
        assert((a + b)[i] == a[i]);
    } else if is_written(b, key, stands) {
        let i = choose|i: int|
            0 <= i < b.len() && (#[trigger] b[i]).key == key && stands(b[i].value);
        assert((a + b)[i + a.len()] == b[i]);
    }
}

/// A record whose value stands for its data is written.
proof fn lemma_record_is_written(
    latest_version: u64,
    key: RecordKey,
    value: Integrity<RecordValueView>,
    stands: spec_fn(RecordValueView) -> bool,
)
    requires
        value matches Integrity::Valid(v) ==> stands(v),
        value is Corrupted ==> stands(RecordValueView::Bytes(corrupted_bytes())),
        !(value is Missing),
    ensures
        is_written(record_writes(latest_version, key, value), key, stands),
{
    let writes = record_writes(latest_version, key, value);
    assert(writes[0].key == key && stands(writes[0].value));
}

/// What is written in one of the parts of a test is written in the test.
proof fn lemma_written_in_test(
    latest_version: u64,
    input: TestRecords,
    key: RecordKey,
    stands: spec_fn(RecordValueView) -> bool,
)
    ensures
        ({
            let l = latest_version;
            let n = input.ecdsa_signing_subnets@.len();
            let m = input.node_public_keys@.len();
            ||| is_written(
                record_writes(l, RecordKey::SubnetList, subnet_list_value(input.subnet_ids)),
                key,
                stands,
            )
            ||| is_written(all_subnets_writes(l, input), key, stands)
            ||| is_written(
                record_writes(l, RecordKey::RoutingTable, bytes_value(input.routing_table)),
                key,
                stands,
            )
            ||| is_written(
                record_writes(
                    l,
                    RecordKey::CanisterMigrations,
                    bytes_value(input.canister_migrations),
                ),
                key,
                stands,
            )
            ||| is_written(
                record_writes(l, RecordKey::RootSubnetId, subnet_id_value(input.nns_subnet_id)),
                key,
                stands,
            )
            ||| is_written(signing_writes(l, input.ecdsa_signing_subnets@, n), key, stands)
            ||| is_written(
                record_writes(
                    l,
                    RecordKey::ProvisionalWhitelist,
                    bytes_value(input.provisional_whitelist),
                ),
                key,
                stands,
            )
            ||| is_written(node_keys_writes(l, input.node_public_keys@, m), key, stands)
        }) ==> is_written(test_writes(latest_version, input), key, stands),
{
    let l = latest_version;
    let list = record_writes(l, RecordKey::SubnetList, subnet_list_value(input.subnet_ids));
    let subnets = all_subnets_writes(l, input);
    let table = record_writes(l, RecordKey::RoutingTable, bytes_value(input.routing_table));
    let migrations = record_writes(
        l,
        RecordKey::CanisterMigrations,
        bytes_value(input.canister_migrations),
    );
    let root = record_writes(l, RecordKey::RootSubnetId, subnet_id_value(input.nns_subnet_id));
    let n = input.ecdsa_signing_subnets@.len();
    let signing = signing_writes(l, input.ecdsa_signing_subnets@, n);
    let whitelist = record_writes(
        l,
        RecordKey::ProvisionalWhitelist,
        bytes_value(input.provisional_whitelist),
    );
    let m = input.node_public_keys@.len();
    let node_keys = node_keys_writes(l, input.node_public_keys@, m);
    lemma_written_in_whole(list, subnets, key, stands);
    lemma_written_in_whole(list + subnets, table, key, stands);
    lemma_written_in_whole(list + subnets + table, migrations, key, stands);
    lemma_written_in_whole(list + subnets + table + migrations, root, key, stands);
    lemma_written_in_whole(list + subnets + table + migrations + root, signing, key, stands);
    lemma_written_in_whole(
        list + subnets + table + migrations + root + signing,
        whitelist,
        key,
        stands,
    );
    lemma_written_in_whole(
        list + subnets + table + migrations + root + signing + whitelist,
        node_keys,
        key,
        stands,
    );
}

/// Each record that a test has one of, and whose data is not missing, is written with that data.
pub proof fn law_single_records_are_written(latest_version: u64, input: TestRecords)
    ensures
        ({
            let writes = test_writes(latest_version, input);
            &&& !(input.subnet_ids is Missing) ==> is_written(
                writes,
                RecordKey::SubnetList,
                |v: RecordValueView| stands_for_list(v, input.subnet_ids),
            )
            &&& !(input.routing_table is Missing) ==> is_written(
                writes,
                RecordKey::RoutingTable,
                |v: RecordValueView| stands_for_bytes(v, input.routing_table),
            )
            &&& !(input.canister_migrations is Missing) ==> is_written(
                writes,
                RecordKey::CanisterMigrations,
                |v: RecordValueView| stands_for_bytes(v, input.canister_migrations),
            )
            &&& !(input.nns_subnet_id is Missing) ==> is_written(
                writes,
                RecordKey::RootSubnetId,
                |v: RecordValueView| stands_for_id(v, input.nns_subnet_id),
            )
            &&& !(input.provisional_whitelist is Missing) ==> is_written(
                writes,
                RecordKey::ProvisionalWhitelist,
                |v: RecordValueView| stands_for_bytes(v, input.provisional_whitelist),
            )
        }),
{
    let l = latest_version;
    if !(input.subnet_ids is Missing) {
        let stands = |v: RecordValueView| stands_for_list(v, input.subnet_ids);
        lemma_record_is_written(
            l,
            RecordKey::SubnetList,
            subnet_list_value(input.subnet_ids),
            stands,
        );
        lemma_written_in_test(l, input, RecordKey::SubnetList, stands);
    }
    if !(input.routing_table is Missing) {
        let stands = |v: RecordValueView| stands_for_bytes(v, input.routing_table);
        lemma_record_is_written(
            l,
            RecordKey::RoutingTable,
            bytes_value(input.routing_table),
            stands,
        );
        lemma_written_in_test(l, input, RecordKey::RoutingTable, stands);
    }
    if !(input.canister_migrations is Missing) {
        let stands = |v: RecordValueView| stands_for_bytes(v, input.canister_migrations);
        lemma_record_is_written(
            l,
            RecordKey::CanisterMigrations,
            bytes_value(input.canister_migrations),
            stands,
        );
        lemma_written_in_test(l, input, RecordKey::CanisterMigrations, stands);
    }
    if !(input.nns_subnet_id is Missing) {
        let stands = |v: RecordValueView| stands_for_id(v, input.nns_subnet_id);
        lemma_record_is_written(
            l,
            RecordKey::RootSubnetId,
            subnet_id_value(input.nns_subnet_id),
            stands,
        );
        lemma_written_in_test(l, input, RecordKey::RootSubnetId, stands);
    }
    if !(input.provisional_whitelist is Missing) {
        let stands = |v: RecordValueView| stands_for_bytes(v, input.provisional_whitelist);
        lemma_record_is_written(
            l,
            RecordKey::ProvisionalWhitelist,
            bytes_value(input.provisional_whitelist),
            stands,
        );
        lemma_written_in_test(l, input, RecordKey::ProvisionalWhitelist, stands);
    }
}

/// The record of a subnet among the first `n` is written.
proof fn lemma_subnet_is_written(
    latest_version: u64,
    ids: Seq<Principal>,
    records: Seq<Integrity<Vec<u8>>>,
    n: nat,
    k: int,
)
    requires
        0 <= k < n,
        !(records[k] is Missing),
    ensures
        is_written(
            subnets_writes(latest_version, ids, records, n),
            RecordKey::Subnet(ids[k]),
            |v: RecordValueView| stands_for_bytes(v, records[k]),
        ),
    decreases n,
{
    let m = (n - 1) as nat;
    let key = RecordKey::Subnet(ids[k]);
    let stands = |v: RecordValueView| stands_for_bytes(v, records[k]);
    let last = record_writes(
        latest_version,
        RecordKey::Subnet(ids[m as int]),
        bytes_value(records[m as int]),
    );
    if k == m {
        lemma_record_is_written(latest_version, key, bytes_value(records[k]), stands);
    } else {
        lemma_subnet_is_written(latest_version, ids, records, m, k);
    }
    lemma_written_in_whole(
        subnets_writes(latest_version, ids, records, m),
        last,
        key,
        stands,
    );
}

/// The transcript of a subnet among the first `n` is written.
proof fn lemma_transcript_is_written(
    latest_version: u64,
    ids: Seq<Principal>,
    transcripts: Seq<Integrity<Option<Vec<u8>>>>,
    n: nat,
    k: int,
)
    requires
        0 <= k < n,
        !(transcripts[k] is Missing),
    ensures
        is_written(
            transcripts_writes(latest_version, ids, transcripts, n),
            RecordKey::CatchUpPackageContents(ids[k]),
            |v: RecordValueView| stands_for_transcript(v, transcripts[k]),
        ),
    decreases n,
{
    let m = (n - 1) as nat;
    let key = RecordKey::CatchUpPackageContents(ids[k]);
    let stands = |v: RecordValueView| stands_for_transcript(v, transcripts[k]);
    let last = record_writes(
        latest_version,
        RecordKey::CatchUpPackageContents(ids[m as int]),
        transcripts_value(transcripts[m as int]),
    );
    if k == m {
        lemma_record_is_written(latest_version, key, transcripts_value(transcripts[k]), stands);
    } else {
        lemma_transcript_is_written(latest_version, ids, transcripts, m, k);
    }
    lemma_written_in_whole(
        transcripts_writes(latest_version, ids, transcripts, m),
        last,
        key,
        stands,
    );
}

/// The record of an ECDSA key among the first `n` is written.
proof fn lemma_key_is_written(
    latest_version: u64,
    subnets: Seq<(EcdsaKeyId, Integrity<Vec<Principal>>)>,
    n: nat,
    k: int,
)
    requires
        0 <= k < n,
        !(subnets[k].1 is Missing),
    ensures
        is_written(
            signing_writes(latest_version, subnets, n),
            RecordKey::EcdsaSigningSubnetList(subnets[k].0),
            |v: RecordValueView| stands_for_ids(v, subnets[k].1),
        ),
    decreases n,
{
    let m = (n - 1) as nat;
    let key = RecordKey::EcdsaSigningSubnetList(subnets[k].0);
    let stands = |v: RecordValueView| stands_for_ids(v, subnets[k].1);
    let last = record_writes(
        latest_version,
        RecordKey::EcdsaSigningSubnetList(subnets[m as int].0),
        subnet_ids_value(subnets[m as int].1),
    );
    if k == m {
        lemma_record_is_written(latest_version, key, subnet_ids_value(subnets[k].1), stands);
    } else {
        lemma_key_is_written(latest_version, subnets, m, k);
    }
    lemma_written_in_whole(signing_writes(latest_version, subnets, m), last, key, stands);
}

/// The public key of a node among the first `n` is written.
proof fn lemma_node_is_written(
    latest_version: u64,
    keys: Seq<(Principal, Integrity<Vec<u8>>)>,
    n: nat,
    k: int,
)
    requires
        0 <= k < n,
        !(keys[k].1 is Missing),
    ensures
        is_written(
            node_keys_writes(latest_version, keys, n),
            RecordKey::NodeSigningKey(keys[k].0),
            |v: RecordValueView| stands_for_bytes(v, keys[k].1),
        ),
    decreases n,
{
    let m = (n - 1) as nat;
    let key = RecordKey::NodeSigningKey(keys[k].0);
    let stands = |v: RecordValueView| stands_for_bytes(v, keys[k].1);
    let last = record_writes(
        latest_version,
        RecordKey::NodeSigningKey(keys[m as int].0),
        bytes_value(keys[m as int].1),
    );
    if k == m {
        lemma_record_is_written(latest_version, key, bytes_value(keys[k].1), stands);
    } else {
        lemma_node_is_written(latest_version, keys, m, k);
    }
    lemma_written_in_whole(node_keys_writes(latest_version, keys, m), last, key, stands);
}

/// For each subnet with a valid id, its record and its transcripts are written under that id,
/// where there are any and they are not missing.
pub proof fn law_subnets_are_written(latest_version: u64, input: TestRecords, k: int)
    requires
        input.subnet_ids matches Integrity::Valid(ids) && 0 <= k < ids@.len(),
    ensures
        ({
            let writes = test_writes(latest_version, input);
            let id = input.subnet_ids->Valid_0@[k];
            &&& k < input.subnet_records@.len() && !(input.subnet_records@[k] is Missing)
                ==> is_written(
                writes,
                RecordKey::Subnet(id),
                |v: RecordValueView| stands_for_bytes(v, input.subnet_records@[k]),
            )
            &&& k < input.ni_dkg_transcripts@.len() && !(input.ni_dkg_transcripts@[k] is Missing)
                ==> is_written(
                writes,
                RecordKey::CatchUpPackageContents(id),
                |v: RecordValueView| stands_for_transcript(v, input.ni_dkg_transcripts@[k]),
            )
        }),
{
    let l = latest_version;
    let ids = input.subnet_ids->Valid_0@;
    let n = shorter(ids.len(), input.subnet_records@.len());
    let m = shorter(ids.len(), input.ni_dkg_transcripts@.len());
    let subnets = subnets_writes(l, ids, input.subnet_records@, n);
    let transcripts = transcripts_writes(l, ids, input.ni_dkg_transcripts@, m);
    if k < n && !(input.subnet_records@[k] is Missing) {
        let stands = |v: RecordValueView| stands_for_bytes(v, input.subnet_records@[k]);
        let key = RecordKey::Subnet(ids[k]);
        lemma_subnet_is_written(l, ids, input.subnet_records@, n, k);
        lemma_written_in_whole(subnets, transcripts, key, stands);
        lemma_written_in_test(l, input, key, stands);
    }
    if k < m && !(input.ni_dkg_transcripts@[k] is Missing) {
        let stands = |v: RecordValueView| stands_for_transcript(v, input.ni_dkg_transcripts@[k]);
        let key = RecordKey::CatchUpPackageContents(ids[k]);
        lemma_transcript_is_written(l, ids, input.ni_dkg_transcripts@, m, k);
        lemma_written_in_whole(subnets, transcripts, key, stands);
        lemma_written_in_test(l, input, key, stands);
    }
}

/// For each ECDSA key and each node, its record is written, where its data is not missing.
pub proof fn law_keys_are_written(latest_version: u64, input: TestRecords, k: int)
    ensures
        ({
            let writes = test_writes(latest_version, input);
            &&& 0 <= k < input.ecdsa_signing_subnets@.len() && !(
            input.ecdsa_signing_subnets@[k].1 is Missing) ==> is_written(
                writes,
                RecordKey::EcdsaSigningSubnetList(input.ecdsa_signing_subnets@[k].0),
                |v: RecordValueView| stands_for_ids(v, input.ecdsa_signing_subnets@[k].1),
            )
            &&& 0 <= k < input.node_public_keys@.len() && !(input.node_public_keys@[k].1
                is Missing) ==> is_written(
                writes,
                RecordKey::NodeSigningKey(input.node_public_keys@[k].0),
                |v: RecordValueView| stands_for_bytes(v, input.node_public_keys@[k].1),
            )
        }),
{
    let l = latest_version;
    let subnets = input.ecdsa_signing_subnets@;
    if 0 <= k < subnets.len() && !(subnets[k].1 is Missing) {
        lemma_key_is_written(l, subnets, subnets.len(), k);
        lemma_written_in_test(
            l,
            input,
            RecordKey::EcdsaSigningSubnetList(subnets[k].0),
            |v: RecordValueView| stands_for_ids(v, subnets[k].1),
        );
    }
    let keys = input.node_public_keys@;
    if 0 <= k < keys.len() && !(keys[k].1 is Missing) {
        lemma_node_is_written(l, keys, keys.len(), k);
        lemma_written_in_test(
            l,
            input,
            RecordKey::NodeSigningKey(keys[k].0),
            |v: RecordValueView| stands_for_bytes(v, keys[k].1),
        );
    }
}

/// One record is one write at the next version if it is valid or corrupted, and none if it is
/// missing.
pub proof fn law_record_is_one_write(
    latest_version: u64,
    key: RecordKey,
    value: Integrity<RecordValueView>,
)
    requires
        latest_version < u64::MAX,
    ensures
        value is Missing <==> record_writes(latest_version, key, value).len() == 0,
        !(value is Missing) ==> record_writes(latest_version, key, value).len() == 1,
        !(value is Missing) ==> record_writes(latest_version, key, value)[0].key == key
            && record_writes(latest_version, key, value)[0].version == latest_version + 1,
        value matches Integrity::Valid(v) ==> record_writes(latest_version, key, value)[0].value
            == v,
{
}

/// What was to be written before stays, in its place, when more is added; and the version of the
/// registry stays.
pub proof fn law_adding_keeps_what_was_there(
    fixture: RegistryFixtureView,
    more: Seq<RegistryWriteView>,
)
    ensures
        fixture.with(more).latest_version == fixture.latest_version,
        fixture.with(more).writes.take(fixture.writes.len() as int) == fixture.writes,
        fixture.with(more).writes.skip(fixture.writes.len() as int) == more,
{
    assert(fixture.with(more).writes.take(fixture.writes.len() as int) =~= fixture.writes);
    assert(fixture.with(more).writes.skip(fixture.writes.len() as int) =~= more);
}

/// What is seen of a value, a write and a fixture is all that is in it.
pub proof fn law_writes_are_seen_whole(
    value: RecordValue,
    write: RegistryWrite,
    fixture: RegistryFixture,
)
    ensures
        value matches RecordValue::Bytes(bytes) ==> value@ == RecordValueView::Bytes(bytes@),
        value matches RecordValue::SubnetIds(ids) ==> value@ == RecordValueView::SubnetIds(ids@),
        value matches RecordValue::SubnetId(id) ==> value@ == RecordValueView::SubnetId(id),
        value matches RecordValue::SubnetList(ids) ==> (value@ matches RecordValueView::SubnetList(
            raw,
        ) && raw.len() == ids@.len() && forall|i: int|
            0 <= i < ids@.len() ==> #[trigger] raw[i] == ids@[i]@),
        value matches RecordValue::CatchUpPackageContents { low_threshold, high_threshold } ==> (
        value@ matches RecordValueView::CatchUpPackageContents {
            low_threshold: low,
            high_threshold: high,
        } && (low_threshold matches Some(v) ==> low == Some(v@)) && (low_threshold is None
            ==> low is None) && (high_threshold matches Some(v) ==> high == Some(v@)) && (
        high_threshold is None ==> high is None)),
        write@.key == write.key && write@.version == write.version && write@.value == write.value@,
        fixture@.latest_version == fixture.latest_version,
        fixture@.writes.len() == fixture.writes@.len(),
        forall|i: int|
            0 <= i < fixture.writes@.len() ==> #[trigger] fixture@.writes[i] == fixture.writes@[i]@,
{
}

/// What is seen of data is whether it is there, and what it is.
pub proof fn law_data_is_seen(value: Integrity<RecordValue>)
    ensures
        value matches Integrity::Valid(v) ==> seen(value) == Integrity::Valid(v@),
        value is Corrupted <==> seen(value) is Corrupted,
        value is Missing <==> seen(value) is Missing,
{
}

/// Whether the kinds of the records come in their order, up to `last`.
spec fn in_kinds_order(writes: Seq<RegistryWriteView>, last: int) -> bool {
    &&& forall|i: int, j: int|
        #![trigger writes[i], writes[j]]
        0 <= i <= j < writes.len() ==> rank(writes[i].key) <= rank(writes[j].key)
    &&& forall|i: int| 0 <= i < writes.len() ==> rank((#[trigger] writes[i]).key) <= last
}

/// Whether all records are of one kind.
spec fn of_kind(writes: Seq<RegistryWriteView>, kind: int) -> bool {
    forall|i: int| 0 <= i < writes.len() ==> rank((#[trigger] writes[i]).key) == kind
}

/// Records of a kind that is not earlier keep the order.
proof fn lemma_kind_behind(
    writes: Seq<RegistryWriteView>,
    last: int,
    more: Seq<RegistryWriteView>,
    kind: int,
)
    requires
        in_kinds_order(writes, last),
        of_kind(more, kind),
        last <= kind,
    ensures
        in_kinds_order(writes + more, kind),
{
    let both = writes + more;
    let n = writes.len();
    assert forall|i: int| 0 <= i < both.len() implies (#[trigger] both[i]) == if i < n {
        writes[i]
    } else {
        more[i - n]
    } by {}
}

/// The lists of records are each of one kind.
proof fn lemma_lists_of_kind(
    latest_version: u64,
    input: TestRecords,
    ids: Seq<Principal>,
    n: nat,
)
    ensures
        of_kind(subnets_writes(latest_version, ids, input.subnet_records@, n), 1),
        of_kind(transcripts_writes(latest_version, ids, input.ni_dkg_transcripts@, n), 2),
        of_kind(signing_writes(latest_version, input.ecdsa_signing_subnets@, n), 6),
        of_kind(node_keys_writes(latest_version, input.node_public_keys@, n), 8),
    decreases n,
{
    if n > 0 {
        let m = (n - 1) as nat;
        let k = m as int;
        lemma_lists_of_kind(latest_version, input, ids, m);
        lemma_one_more_of_kind(
            subnets_writes(latest_version, ids, input.subnet_records@, m),
            latest_version,
            RecordKey::Subnet(ids[k]),
            bytes_value(input.subnet_records@[k]),
        );
        lemma_one_more_of_kind(
            transcripts_writes(latest_version, ids, input.ni_dkg_transcripts@, m),
            latest_version,
            RecordKey::CatchUpPackageContents(ids[k]),
            transcripts_value(input.ni_dkg_transcripts@[k]),
        );
        lemma_one_more_of_kind(
            signing_writes(latest_version, input.ecdsa_signing_subnets@, m),
            latest_version,
            RecordKey::EcdsaSigningSubnetList(input.ecdsa_signing_subnets@[k].0),
            subnet_ids_value(input.ecdsa_signing_subnets@[k].1),
        );
        lemma_one_more_of_kind(
            node_keys_writes(latest_version, input.node_public_keys@, m),
            latest_version,
            RecordKey::NodeSigningKey(input.node_public_keys@[k].0),
            bytes_value(input.node_public_keys@[k].1),
        );
    }
}

/// One record more of a kind is of that kind.
proof fn lemma_one_more_of_kind(
    writes: Seq<RegistryWriteView>,
    latest_version: u64,
    key: RecordKey,
    value: Integrity<RecordValueView>,
)
    requires
        of_kind(writes, rank(key)),
    ensures
        of_kind(writes + record_writes(latest_version, key, value), rank(key)),
{
}

/// The kinds of records are written in one order: the list of subnets, their records, their
/// transcripts, the routing table, the canister migrations, the root subnet, the subnets that
/// sign, the whitelist, the keys of the nodes.
pub proof fn law_kinds_are_written_in_order(latest_version: u64, input: TestRecords)
    ensures
        forall|i: int, j: int|
            #![trigger test_writes(latest_version, input)[i], test_writes(latest_version, input)[j]]
            0 <= i <= j < test_writes(latest_version, input).len() ==> rank(
                test_writes(latest_version, input)[i].key,
            ) <= rank(test_writes(latest_version, input)[j].key),
{
    let l = latest_version;
    let list = record_writes(l, RecordKey::SubnetList, subnet_list_value(input.subnet_ids));
    let lists = list + all_subnets_writes(l, input);
    assert(in_kinds_order(list, 0));
    match input.subnet_ids {
        Integrity::Valid(ids) => {
            let n = shorter(ids@.len(), input.subnet_records@.len());
            let m = shorter(ids@.len(), input.ni_dkg_transcripts@.len());
            let subnets = subnets_writes(l, ids@, input.subnet_records@, n);
            let transcripts = transcripts_writes(l, ids@, input.ni_dkg_transcripts@, m);
            lemma_lists_of_kind(l, input, ids@, n);
            lemma_lists_of_kind(l, input, ids@, m);
            lemma_kind_behind(list, 0, subnets, 1);
            lemma_kind_behind(list + subnets, 1, transcripts, 2);
            assert(lists =~= (list + subnets) + transcripts);
        },
        _ => {
            assert(lists =~= list);
        },
    }
    let table = record_writes(l, RecordKey::RoutingTable, bytes_value(input.routing_table));
    lemma_kind_behind(lists, 2, table, 3);
    let migrations = record_writes(
        l,
        RecordKey::CanisterMigrations,
        bytes_value(input.canister_migrations),
    );
    lemma_kind_behind(lists + table, 3, migrations, 4);
    let root = record_writes(l, RecordKey::RootSubnetId, subnet_id_value(input.nns_subnet_id));
    lemma_kind_behind(lists + table + migrations, 4, root, 5);
    let n = input.ecdsa_signing_subnets@.len();
    let signing = signing_writes(l, input.ecdsa_signing_subnets@, n);
    lemma_lists_of_kind(l, input, Seq::empty(), n);
    lemma_kind_behind(lists + table + migrations + root, 5, signing, 6);
    let whitelist = record_writes(
        l,
        RecordKey::ProvisionalWhitelist,
        bytes_value(input.provisional_whitelist),
    );
    lemma_kind_behind(lists + table + migrations + root + signing, 6, whitelist, 7);
    let m = input.node_public_keys@.len();
    let node_keys = node_keys_writes(l, input.node_public_keys@, m);
    lemma_lists_of_kind(l, input, Seq::empty(), m);
    lemma_kind_behind(
        lists + table + migrations + root + signing + whitelist,
        7,
        node_keys,
        8,
    );
}

} // verus!
