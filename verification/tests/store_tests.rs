use ddk::error::StorageError;
use ddk::lifecycle::{ChannelState, ContractState, SignedChannelStateType};
use ddk::record::{Channel, Contract, OfferedContract};
use ddk::store::SledStorageProvider;

fn fresh_store(name: &str) -> SledStorageProvider {
    let stamp = std::time::SystemTime::now()
        .duration_since(std::time::UNIX_EPOCH)
        .expect("clock before the epoch")
        .as_nanos();
    let path = format!("/tmp/ddk_store_tests/{}_{}", name, stamp);
    SledStorageProvider::new(&path).expect("Error opening sled DB")
}

fn offered() -> OfferedContract {
    OfferedContract { id: [0x01; 32], payload: vec![10, 11, 12] }
}

fn contract(state: ContractState, id: u8, temporary_id: u8, payload: Vec<u8>) -> Contract {
    Contract { state, id: [id; 32], temporary_id: [temporary_id; 32], payload }
}

fn channel(state: ChannelState, id: u8, temporary_id: u8, payload: Vec<u8>) -> Channel {
    Channel { state, id: [id; 32], temporary_id: [temporary_id; 32], payload }
}

fn insert_offered_signed_and_confirmed(storage: &mut SledStorageProvider) {
    storage.create_contract(&offered()).expect("Error creating contract");
    storage
        .update_contract(&contract(ContractState::Signed, 0x12, 0x02, vec![20]))
        .expect("Error creating contract");
    storage
        .update_contract(&contract(ContractState::Signed, 0x13, 0x03, vec![21]))
        .expect("Error creating contract");
    storage
        .update_contract(&contract(ContractState::Confirmed, 0x14, 0x04, vec![30]))
        .expect("Error creating contract");
    storage
        .update_contract(&contract(ContractState::Confirmed, 0x15, 0x05, vec![31]))
        .expect("Error creating contract");
    storage
        .update_contract(&contract(ContractState::PreClosed, 0x16, 0x06, vec![40]))
        .expect("Error creating contract");
}

fn insert_offered_and_signed_channels(storage: &mut SledStorageProvider) {
    storage
        .upsert_channel(
            channel(ChannelState::Offered, 0x21, 0x21, vec![1]),
            Some(contract(ContractState::Offered, 0x01, 0x01, vec![10, 11, 12])),
        )
        .expect("Error creating contract");
    storage
        .upsert_channel(
            channel(ChannelState::Signed(SignedChannelStateType::Established), 0x32, 0x22, vec![2, 2]),
            None,
        )
        .expect("Error creating contract");
    storage
        .upsert_channel(
            channel(ChannelState::Signed(SignedChannelStateType::Settled), 0x33, 0x23, vec![3, 3, 3]),
            None,
        )
        .expect("Error creating contract");
}

#[test]
fn create_contract_can_be_retrieved() {
    let mut storage = fresh_store("create_contract_can_be_retrieved");
    let contract = offered();
    storage.create_contract(&contract).expect("Error creating contract");
    let retrieved = storage.get_contract(&contract.id).expect("Error retrieving contract.");
    if let Some(record) = retrieved {
        assert_eq!(record.state, ContractState::Offered);
        assert_eq!(record.payload, contract.payload);
    } else {
        unreachable!();
    }
}

#[test]
fn update_contract_is_updated() {
    let mut storage = fresh_store("update_contract_is_updated");
    storage.create_contract(&offered()).expect("Error creating contract");
    let accepted = contract(ContractState::Accepted, 0x11, 0x01, vec![4, 5]);
    storage.update_contract(&accepted).expect("Error updating contract.");
    let retrieved = storage.get_contract(&accepted.id).expect("Error retrieving contract.");
    if let Some(record) = retrieved {
        assert_eq!(record.state, ContractState::Accepted);
        assert_eq!(record.payload, vec![4, 5]);
    } else {
        unreachable!();
    }
}

#[test]
fn delete_contract_is_deleted() {
    let mut storage = fresh_store("delete_contract_is_deleted");
    let contract = offered();
    storage.create_contract(&contract).expect("Error creating contract");
    storage.delete_contract(&contract.id).expect("Error deleting contract");
    assert!(storage.get_contract(&contract.id).expect("Error querying contract").is_none());
}

#[test]
fn get_signed_contracts_only_signed() {
    let mut storage = fresh_store("get_signed_contracts_only_signed");
    insert_offered_signed_and_confirmed(&mut storage);
    let mut signed_contracts = storage.get_signed_contracts().expect("Error retrieving signed contracts");
    assert_eq!(2, signed_contracts.len());
    signed_contracts.sort();
    assert_eq!(signed_contracts, vec![vec![20u8], vec![21u8]]);
}

#[test]
fn get_confirmed_contracts_only_confirmed() {
    let mut storage = fresh_store("get_confirmed_contracts_only_confirmed");
    insert_offered_signed_and_confirmed(&mut storage);
    let mut confirmed_contracts = storage.get_confirmed_contracts().expect("Error retrieving signed contracts");
    assert_eq!(2, confirmed_contracts.len());
    confirmed_contracts.sort();
    assert_eq!(confirmed_contracts, vec![vec![30u8], vec![31u8]]);
}

#[test]
fn get_offered_contracts_only_offered() {
    let mut storage = fresh_store("get_offered_contracts_only_offered");
    insert_offered_signed_and_confirmed(&mut storage);
    let offered_contracts = storage.get_contract_offers().expect("Error retrieving signed contracts");
    assert_eq!(1, offered_contracts.len());
    assert_eq!(offered_contracts[0], vec![10u8, 11, 12]);
}

#[test]
fn get_preclosed_contracts_only_preclosed() {
    let mut storage = fresh_store("get_preclosed_contracts_only_preclosed");
    insert_offered_signed_and_confirmed(&mut storage);
    let preclosed_contracts = storage.get_preclosed_contracts().expect("Error retrieving preclosed contracts");
    assert_eq!(1, preclosed_contracts.len());
    assert_eq!(preclosed_contracts[0], vec![40u8]);
}

#[test]
fn get_contracts_all_returned() {
    let mut storage = fresh_store("get_contracts_all_returned");
    insert_offered_signed_and_confirmed(&mut storage);
    let contracts = storage.get_contracts().expect("Error retrieving contracts");
    assert_eq!(6, contracts.len());
    let signed = contracts.iter().filter(|c| c.state == ContractState::Signed).count();
    assert_eq!(2, signed);
}

#[test]
fn get_offered_channels_only_offered() {
    let mut storage = fresh_store("get_offered_channels_only_offered");
    insert_offered_and_signed_channels(&mut storage);
    let offered_channels = storage.get_offered_channels().expect("Error retrieving offered channels");
    assert_eq!(1, offered_channels.len());
    assert_eq!(offered_channels[0], vec![1u8]);
}

#[test]
fn get_signed_established_channel_only_established() {
    let mut storage = fresh_store("get_signed_established_channel_only_established");
    insert_offered_and_signed_channels(&mut storage);
    let signed_channels = storage
        .get_signed_channels(Some(SignedChannelStateType::Established))
        .expect("Error retrieving offered channels");
    assert_eq!(1, signed_channels.len());
    assert_eq!(signed_channels[0], vec![2u8, 2]);
    let stored = storage.get_channel(&[0x32; 32]).expect("error retrieving channel").expect("channel");
    assert_eq!(stored.state, ChannelState::Signed(SignedChannelStateType::Established));
}

#[test]
fn get_channel_by_id_returns_correct_channel() {
    let mut storage = fresh_store("get_channel_by_id_returns_correct_channel");
    insert_offered_and_signed_channels(&mut storage);
    let accepted_channel = channel(ChannelState::Accepted, 0x34, 0x24, vec![9, 9]);
    let channel_id = accepted_channel.id;
    storage.upsert_channel(accepted_channel, None).expect("Error creating contract");
    let found = storage
        .get_channel(&channel_id)
        .expect("error retrieving previously inserted channel.")
        .expect("to have found the previously inserted channel.");
    assert_eq!(found.state, ChannelState::Accepted);
    assert_eq!(found.payload, vec![9u8, 9]);
}

#[test]
fn delete_channel_is_not_returned() {
    let mut storage = fresh_store("delete_channel_is_not_returned");
    insert_offered_and_signed_channels(&mut storage);
    let accepted_channel = channel(ChannelState::Accepted, 0x34, 0x24, vec![9, 9]);
    let channel_id = accepted_channel.id;
    storage.upsert_channel(accepted_channel, None).expect("Error creating contract");
    storage.get_channel(&channel_id).expect("could not retrieve previously inserted channel.");
    storage.delete_channel(&channel_id).expect("to be able to delete the channel");
    assert!(storage.get_channel(&channel_id).expect("error getting channel.").is_none());
}

#[test]
fn persist_chain_monitor_test() {
    let mut storage = fresh_store("persist_chain_monitor_test");
    let chain_monitor: Vec<u8> = vec![0, 0, 0, 0, 0, 0, 0, 123];
    storage.persist_chain_monitor(&chain_monitor).expect("to be able to persist the chain monistor.");
    let retrieved = storage
        .get_chain_monitor()
        .expect("to be able to retrieve the chain monitor.")
        .expect("to have a persisted chain monitor.");
    assert_eq!(chain_monitor, retrieved);
}

#[test]
fn chain_monitor_is_absent_until_persisted_and_last_write_wins() {
    let mut storage = fresh_store("chain_monitor_last_write_wins");
    assert!(storage.get_chain_monitor().expect("read").is_none());
    storage.persist_chain_monitor(&[1, 2, 3]).expect("first write");
    storage.persist_chain_monitor(&[4, 5]).expect("second write");
    assert_eq!(storage.get_chain_monitor().expect("read"), Some(vec![4u8, 5]));
}

#[test]
fn accepted_contract_is_found_only_under_its_final_id() {
    let mut storage = fresh_store("accepted_contract_final_id");
    let offered = OfferedContract { id: [0xAA; 32], payload: vec![7, 7, 7] };
    storage.create_contract(&offered).expect("create");
    assert!(storage.get_contract(&[0xAA; 32]).expect("read").is_some());

    let accepted = contract(ContractState::Accepted, 0xBB, 0xAA, vec![8, 8]);
    storage.update_contract(&accepted).expect("accept");

    assert!(storage.get_contract(&[0xAA; 32]).expect("read").is_none());
    let found = storage.get_contract(&[0xBB; 32]).expect("read").expect("accepted contract");
    assert_eq!(found.state, ContractState::Accepted);
    assert_eq!(found.payload, vec![8u8, 8]);
    assert_eq!(storage.get_contracts().expect("all").len(), 1);
    assert!(storage.get_contract_offers().expect("offers").is_empty());
}

#[test]
fn signed_contract_leaves_its_temporary_id() {
    let mut storage = fresh_store("signed_contract_leaves_temporary_id");
    storage.create_contract(&OfferedContract { id: [0x0A; 32], payload: vec![1] }).expect("create");
    storage.update_contract(&contract(ContractState::Signed, 0x0B, 0x0A, vec![2])).expect("sign");
    assert!(storage.get_contract(&[0x0A; 32]).expect("read").is_none());
    assert_eq!(storage.get_contracts().expect("all").len(), 1);
    assert_eq!(storage.get_signed_contracts().expect("signed"), vec![vec![2u8]]);
}

#[test]
fn confirmed_contract_keeps_the_record_under_its_temporary_id() {
    let mut storage = fresh_store("confirmed_contract_keeps_temporary");
    storage.create_contract(&OfferedContract { id: [0x0A; 32], payload: vec![1] }).expect("create");
    storage.update_contract(&contract(ContractState::Confirmed, 0x0B, 0x0A, vec![2])).expect("confirm");
    assert!(storage.get_contract(&[0x0A; 32]).expect("read").is_some());
    assert!(storage.get_contract(&[0x0B; 32]).expect("read").is_some());
    assert_eq!(storage.get_contracts().expect("all").len(), 2);
}

#[test]
fn update_contract_replaces_the_record_under_the_same_id() {
    let mut storage = fresh_store("update_contract_replaces");
    storage.update_contract(&contract(ContractState::Signed, 0x0B, 0x0A, vec![2])).expect("sign");
    storage.update_contract(&contract(ContractState::Confirmed, 0x0B, 0x0A, vec![3, 3])).expect("confirm");
    let found = storage.get_contract(&[0x0B; 32]).expect("read").expect("contract");
    assert_eq!(found.state, ContractState::Confirmed);
    assert_eq!(found.payload, vec![3u8, 3]);
    assert_eq!(storage.get_contracts().expect("all").len(), 1);
}

#[test]
fn signed_channels_are_found_by_substate_and_all_together() {
    let mut storage = fresh_store("signed_channels_by_substate");
    storage
        .upsert_channel(channel(ChannelState::Signed(SignedChannelStateType::Established), 0x41, 0x31, vec![5]), None)
        .expect("established");
    storage
        .upsert_channel(channel(ChannelState::Signed(SignedChannelStateType::Settled), 0x42, 0x32, vec![6, 6]), None)
        .expect("settled");

    let established = storage.get_signed_channels(Some(SignedChannelStateType::Established)).expect("established");
    assert_eq!(established, vec![vec![5u8]]);
    let settled = storage.get_signed_channels(Some(SignedChannelStateType::Settled)).expect("settled");
    assert_eq!(settled, vec![vec![6u8, 6]]);
    let renewing = storage.get_signed_channels(Some(SignedChannelStateType::RenewOffered)).expect("renewing");
    assert!(renewing.is_empty());
    let mut all = storage.get_signed_channels(None).expect("all signed");
    all.sort();
    assert_eq!(all, vec![vec![5u8], vec![6u8, 6]]);
}

#[test]
fn upsert_channel_writes_the_channel_and_its_contract() {
    let mut storage = fresh_store("upsert_channel_writes_both");
    storage
        .upsert_channel(
            channel(ChannelState::Offered, 0x51, 0x51, vec![1]),
            Some(contract(ContractState::Offered, 0x61, 0x61, vec![2])),
        )
        .expect("offer");
    storage
        .upsert_channel(
            channel(ChannelState::Accepted, 0x52, 0x51, vec![3]),
            Some(contract(ContractState::Accepted, 0x62, 0x61, vec![4])),
        )
        .expect("accept");

    assert!(storage.get_channel(&[0x51; 32]).expect("read").is_none());
    let stored_channel = storage.get_channel(&[0x52; 32]).expect("read").expect("channel");
    assert_eq!(stored_channel.state, ChannelState::Accepted);
    assert_eq!(stored_channel.payload, vec![3u8]);
    assert!(storage.get_contract(&[0x61; 32]).expect("read").is_none());
    let stored_contract = storage.get_contract(&[0x62; 32]).expect("read").expect("contract");
    assert_eq!(stored_contract.state, ContractState::Accepted);
    assert_eq!(stored_contract.payload, vec![4u8]);
}

#[test]
fn upsert_channel_without_contract_leaves_contracts_alone() {
    let mut storage = fresh_store("upsert_channel_without_contract");
    storage.create_contract(&offered()).expect("create");
    storage.upsert_channel(channel(ChannelState::Closing, 0x71, 0x70, vec![1]), None).expect("closing");
    assert_eq!(storage.get_contracts().expect("all").len(), 1);
    let stored = storage.get_channel(&[0x71; 32]).expect("read").expect("channel");
    assert_eq!(stored.state, ChannelState::Closing);
}

#[test]
fn contracts_and_channels_do_not_share_keys() {
    let mut storage = fresh_store("contracts_and_channels_apart");
    storage.create_contract(&OfferedContract { id: [0x09; 32], payload: vec![1] }).expect("create");
    assert!(storage.get_channel(&[0x09; 32]).expect("read").is_none());
    storage.upsert_channel(channel(ChannelState::Offered, 0x09, 0x09, vec![2]), None).expect("offer");
    assert_eq!(storage.get_contract(&[0x09; 32]).expect("read").expect("contract").payload, vec![1u8]);
    assert_eq!(storage.get_channel(&[0x09; 32]).expect("read").expect("channel").payload, vec![2u8]);
}

#[test]
fn empty_store_has_nothing() {
    let storage = fresh_store("empty_store_has_nothing");
    assert!(storage.get_contracts().expect("all").is_empty());
    assert!(storage.get_contract_offers().expect("offers").is_empty());
    assert!(storage.get_signed_channels(None).expect("signed").is_empty());
    assert!(storage.get_contract(&[0; 32]).expect("read").is_none());
    assert!(storage.read_peers().expect("peers").is_none());
}

#[test]
fn peer_list_is_stored_as_given() {
    let mut storage = fresh_store("peer_list_is_stored_as_given");
    storage.write_peers(b"[]".to_vec()).expect("write");
    storage.write_peers(b"[{\"pubkey\":\"02ab\",\"host\":\"127.0.0.1:1776\"}]".to_vec()).expect("write");
    let blob = storage.read_peers().expect("read").expect("blob");
    assert_eq!(blob, b"[{\"pubkey\":\"02ab\",\"host\":\"127.0.0.1:1776\"}]".to_vec());
    assert!(storage.get_contracts().expect("all").is_empty());
}

#[test]
fn new_fails_where_no_database_can_be() {
    assert!(SledStorageProvider::new("/proc/ddk_no_such_place/db").is_err());
}

#[test]
fn storage_error_messages() {
    assert_eq!(StorageError::UnknownPrefix(0).message(), "Unknown prefix");
    assert_eq!(StorageError::UnknownSubstate(13).message(), "Unknown prefix");
    assert_eq!(StorageError::Truncated.message(), "Record too short");
    assert_eq!(StorageError::Engine("IO error: disk full".to_string()).message(), "IO error: disk full");
}

#[test]
fn store_keeps_its_records_when_reopened() {
    let stamp = std::time::SystemTime::now()
        .duration_since(std::time::UNIX_EPOCH)
        .expect("clock before the epoch")
        .as_nanos();
    let path = format!("/tmp/ddk_store_tests/reopened_{}", stamp);
    {
        let mut storage = SledStorageProvider::new(&path).expect("Error opening sled DB");
        storage.create_contract(&offered()).expect("create");
        storage
            .upsert_channel(channel(ChannelState::Signed(SignedChannelStateType::Settled), 0x42, 0x32, vec![6]), None)
            .expect("channel");
        storage.persist_chain_monitor(&[9, 9]).expect("monitor");
        storage.write_peers(vec![1, 2, 3]).expect("peers");
    }
    let storage = SledStorageProvider::new(&path).expect("Error reopening sled DB");
    let contract = storage.get_contract(&[0x01; 32]).expect("read").expect("contract");
    assert_eq!(contract.state, ContractState::Offered);
    assert_eq!(contract.payload, vec![10u8, 11, 12]);
    let stored = storage.get_channel(&[0x42; 32]).expect("read").expect("channel");
    assert_eq!(stored.state, ChannelState::Signed(SignedChannelStateType::Settled));
    assert_eq!(storage.get_chain_monitor().expect("read"), Some(vec![9u8, 9]));
    assert_eq!(storage.read_peers().expect("read"), Some(vec![1u8, 2, 3]));
}

#[test]
fn filtered_read_fails_on_an_empty_record() {
    let mut storage = fresh_store("filtered_read_fails_on_empty");
    storage.create_contract(&offered()).expect("create");
    assert_eq!(storage.get_contract_offers().expect("offers").len(), 1);
    assert!(matches!(storage.get_contract(&[0x7F; 32]), Ok(None)));
    assert!(matches!(
        ddk::scan::select_payloads_of(&vec![ddk::engine::Entry { key: vec![1], value: vec![] }], &[1], None),
        Err(StorageError::Truncated)
    ));
}
