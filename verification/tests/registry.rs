//! Tests of the registry fixtures.
use ic_nodes::principal::Principal;
use ic_nodes::registry::fixture::{
    EcdsaCurve, EcdsaKeyId, RecordKey, RecordValue, RegistryFixture, RegistryWrite, TestRecords,
};
use ic_nodes::registry::integrity::Integrity;
use ic_nodes::registry::mainnet::{mainnet_app_subnet, mainnet_nns_subnet, versioned};
use ic_nodes::registry::state_machine::{FakeStateMachine, ReplicatedState};

fn id(n: u8) -> Principal {
    Principal::try_from_slice(&[n]).unwrap()
}

fn primes() -> Vec<u8> {
    vec![
        2, 3, 5, 7, 11, 13, 17, 19, 23, 29, 31, 37, 41, 43, 47, 53, 59, 61, 71, 73, 79, 83, 97,
        101, 103, 107, 109, 113, 127, 131, 137, 139, 149, 151, 157, 163, 167, 173, 179, 181, 191,
        193, 197, 199, 211, 223, 227, 229, 233, 239, 241, 251,
    ]
}

fn key(name: &str) -> EcdsaKeyId {
    EcdsaKeyId { curve: EcdsaCurve::Secp256k1, name: name.to_string() }
}

fn no_records() -> TestRecords {
    TestRecords {
        subnet_ids: Integrity::Missing,
        subnet_records: vec![],
        ni_dkg_transcripts: vec![],
        nns_subnet_id: Integrity::Missing,
        ecdsa_signing_subnets: vec![],
        provisional_whitelist: Integrity::Missing,
        routing_table: Integrity::Missing,
        canister_migrations: Integrity::Missing,
        node_public_keys: vec![],
    }
}

fn write(key: RecordKey, value: RecordValue) -> RegistryWrite {
    RegistryWrite { key, version: 8, value }
}

#[test]
fn integrity_maps_valid_data_only() {
    assert_eq!(Integrity::Valid(3).map(|x| x + 1), Integrity::Valid(4));
    assert_eq!(Integrity::<i32>::Corrupted.map(|x| x + 1), Integrity::Corrupted);
    assert_eq!(Integrity::<i32>::Missing.map(|x| x + 1), Integrity::Missing);
    let text = Integrity::Valid("data".to_string());
    assert_eq!(text.as_ref(), Integrity::Valid(&"data".to_string()));
    assert_eq!(Integrity::<String>::Corrupted.as_ref(), Integrity::Corrupted);
    assert_eq!(Integrity::<String>::Missing.as_ref(), Integrity::Missing);
}

#[test]
fn records_are_written_by_their_integrity() {
    let mut fixture = RegistryFixture::new(7);
    fixture.write_record(RecordKey::RoutingTable, Integrity::Valid(RecordValue::Bytes(vec![1])));
    fixture.write_record(RecordKey::CanisterMigrations, Integrity::Corrupted);
    fixture.write_record(RecordKey::SubnetList, Integrity::Missing);
    assert_eq!(fixture.latest_version, 7);
    assert_eq!(
        fixture.writes,
        vec![
            write(RecordKey::RoutingTable, RecordValue::Bytes(vec![1])),
            write(RecordKey::CanisterMigrations, RecordValue::Bytes(primes())),
        ]
    );
}

#[test]
fn test_records_are_written_in_order() {
    let mut fixture = RegistryFixture::new(7);
    fixture.write_test_records(&TestRecords {
        subnet_ids: Integrity::Valid(vec![id(13), id(17)]),
        subnet_records: vec![Integrity::Valid(vec![1]), Integrity::Corrupted],
        ni_dkg_transcripts: vec![Integrity::Valid(Some(vec![2])), Integrity::Valid(None)],
        nns_subnet_id: Integrity::Valid(id(42)),
        ecdsa_signing_subnets: vec![
            (key("key 1"), Integrity::Valid(vec![id(1), id(2)])),
            (key("key 2"), Integrity::Missing),
        ],
        provisional_whitelist: Integrity::Valid(vec![3]),
        routing_table: Integrity::Valid(vec![4]),
        canister_migrations: Integrity::Valid(vec![5]),
        node_public_keys: vec![(id(3), Integrity::Missing), (id(4), Integrity::Valid(vec![6]))],
    });
    assert_eq!(
        fixture.writes,
        vec![
            write(RecordKey::SubnetList, RecordValue::SubnetList(vec![vec![13], vec![17]])),
            write(RecordKey::Subnet(id(13)), RecordValue::Bytes(vec![1])),
            write(RecordKey::Subnet(id(17)), RecordValue::Bytes(primes())),
            write(
                RecordKey::CatchUpPackageContents(id(13)),
                RecordValue::CatchUpPackageContents {
                    low_threshold: Some(vec![2]),
                    high_threshold: Some(vec![2]),
                }
            ),
            write(
                RecordKey::CatchUpPackageContents(id(17)),
                RecordValue::CatchUpPackageContents { low_threshold: None, high_threshold: None }
            ),
            write(RecordKey::RoutingTable, RecordValue::Bytes(vec![4])),
            write(RecordKey::CanisterMigrations, RecordValue::Bytes(vec![5])),
            write(RecordKey::RootSubnetId, RecordValue::SubnetId(id(42))),
            write(
                RecordKey::EcdsaSigningSubnetList(key("key 1")),
                RecordValue::SubnetIds(vec![id(1), id(2)])
            ),
            write(RecordKey::ProvisionalWhitelist, RecordValue::Bytes(vec![3])),
            write(RecordKey::NodeSigningKey(id(4)), RecordValue::Bytes(vec![6])),
        ]
    );
}

#[test]
fn subnet_records_need_valid_ids() {
    let mut fixture = RegistryFixture::new(7);
    let mut input = no_records();
    input.subnet_ids = Integrity::Corrupted;
    input.subnet_records = vec![Integrity::Valid(vec![1])];
    input.ni_dkg_transcripts = vec![Integrity::Valid(None)];
    fixture.write_test_records(&input);
    assert_eq!(
        fixture.writes,
        vec![write(RecordKey::SubnetList, RecordValue::Bytes(primes()))]
    );
}

#[test]
fn missing_data_is_not_written() {
    let mut fixture = RegistryFixture::new(0);
    let mut input = no_records();
    input.ecdsa_signing_subnets = vec![(key("key 1"), Integrity::Missing)];
    input.node_public_keys = vec![(id(1), Integrity::Missing)];
    fixture.write_test_records(&input);
    assert_eq!(fixture.writes, vec![]);
}

#[test]
fn subnets_of_the_main_network() {
    let nns = mainnet_nns_subnet().unwrap();
    let app = mainnet_app_subnet().unwrap();
    assert_ne!(nns, app);
    assert_eq!(nns.as_bytes().len(), 29);
    assert_eq!(
        nns.to_text(),
        "tdb26-jop6k-aogll-7ltgs-eruif-6kk7m-qpktf-gdiqx-mxtrf-vb5e6-eqe"
    );
    assert_eq!(
        app.to_text(),
        "6pbhf-qzpdk-kuqbr-pklfa-5ehhf-jfjps-zsj6q-57nrl-kzhpd-mu7hc-vae"
    );
}

#[test]
fn change_log_starts_at_version_one() {
    assert_eq!(versioned(&vec!['a', 'b', 'c']), vec![(1, 'a'), (2, 'b'), (3, 'c')]);
    assert_eq!(versioned(&Vec::<char>::new()), vec![]);
}

#[test]
fn state_machine_notes_what_it_is_handed() {
    let mut machine = FakeStateMachine { settings: 0 };
    let state = ReplicatedState {
        network_topology: 'x',
        own_subnet_features: false,
        node_public_keys: vec![1u8],
        rest: "rest",
    };
    let after = machine.execute_round(state, 'y', true, 387, vec![2u8]);
    assert_eq!(
        after,
        ReplicatedState {
            network_topology: 'y',
            own_subnet_features: true,
            node_public_keys: vec![2u8],
            rest: "rest",
        }
    );
    assert_eq!(machine.settings, 387);
}

#[test]
fn keys_are_written_once_if_they_occur_once() {
    let mut input = no_records();
    input.subnet_ids = Integrity::Valid(vec![id(13), id(17)]);
    input.subnet_records = vec![Integrity::Corrupted, Integrity::Corrupted];
    input.ni_dkg_transcripts = vec![Integrity::Valid(None), Integrity::Valid(None)];
    input.nns_subnet_id = Integrity::Valid(id(13));
    input.ecdsa_signing_subnets =
        vec![(key("key 1"), Integrity::Corrupted), (key("key 2"), Integrity::Corrupted)];
    input.node_public_keys =
        vec![(id(13), Integrity::Corrupted), (id(17), Integrity::Corrupted)];
    let mut fixture = RegistryFixture::new(7);
    fixture.write_test_records(&input);
    assert_eq!(fixture.writes.len(), 10);
    for (i, write) in fixture.writes.iter().enumerate() {
        assert!(fixture.writes[..i].iter().all(|other| other.key != write.key));
    }

    // A subnet that is listed twice is written twice.
    input.subnet_ids = Integrity::Valid(vec![id(13), id(13)]);
    let mut fixture = RegistryFixture::new(7);
    fixture.write_test_records(&input);
    assert_eq!(fixture.writes[1].key, fixture.writes[2].key);
}
