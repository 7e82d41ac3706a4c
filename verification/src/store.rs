//! The store: contracts, channels, the chain monitor and the peer list of one
//! node, kept in a sled database.
//!
//! Contracts and channels live in a tree each, one record per id. A contract
//! or channel that has just been accepted or signed moves from its temporary
//! id to its final one; the store makes that move in one transaction. When the
//! transaction succeeds, the record is under the final id and no longer under
//! the temporary one. When the database fails, it undoes nothing: each key
//! that the transaction names then holds what it held or what it was to hold,
//! and every other key is as it was.

use vstd::prelude::*;
use vstd::slice::*;
use vstd::string::StringSliceAdditionalSpecFns;
use vstd::string::to_string_from_display_ensures;
use crate::engine::{Entry, Write, WriteView};
use crate::engine::{apply_writes, between, commit, entries_view, is_listing, same_at, stage_all, writes_view};
use crate::engine::{default_tree_name, handed_out, lemma_commit_applies_the_writes, tree_contents, tree_name};
use crate::engine::{default_tree, open_db, open_tree, tree_entries, tree_get, tree_insert};
use crate::engine::{tree_pair_transaction, tree_remove, tree_transaction};
use crate::error::StorageError;
use crate::lifecycle::{ChannelState, ContractState, SignedChannelStateType};
use crate::record::{Channel, ChannelRecord, ChannelView, Contract, ContractRecord, ContractView, OfferedContract};
use crate::record::{ChannelRecordView, ContractRecordView, SIGNED_CHANNEL_PREFIX};
use crate::record::{channel_bytes, contract_bytes, parse_channel, parse_contract};
use crate::record::{deserialize_channel, deserialize_contract, serialize_channel, serialize_contract};
use crate::scan::{consume_count, entry_values, has_prefix, payloads_view, select_payloads, select_payloads_of};

verus! {

/// The name of the tree that holds the contracts.
pub const CONTRACT_TREE: u8 = 1;

/// The name of the tree that holds the channels.
pub const CHANNEL_TREE: u8 = 2;

/// The name of the tree that holds the chain monitor.
pub const CHAIN_MONITOR_TREE: u8 = 3;

/// The one key of the chain monitor's tree.
pub const CHAIN_MONITOR_KEY: u8 = 4;

/// The key of the peer list in the database's default tree.
pub open spec fn peers_key() -> Seq<u8> {
    "peers".spec_bytes()
}

/// A contract and channel store on top of a sled database.
pub struct SledStorageProvider {
    db: sled::Db,
    root: sled::Tree,
    contracts: sled::Tree,
    channels: sled::Tree,
    chain_monitor: sled::Tree,
}

/// What a store holds, tree by tree: the stored bytes under each key.
pub struct StoreView {
    /// Contract records by contract id.
    pub contracts: Map<Seq<u8>, Seq<u8>>,
    /// Channel records by channel id.
    pub channels: Map<Seq<u8>, Seq<u8>>,
    /// The chain monitor, under its one key.
    pub chain_monitor: Map<Seq<u8>, Seq<u8>>,
    /// The database's default tree, which holds the peer list.
    pub root: Map<Seq<u8>, Seq<u8>>,
}

impl SledStorageProvider {
    /// The store's trees go by the store's names: the peer list is in the
    /// database's default tree, the contracts are in the tree named
    /// [`CONTRACT_TREE`], the channels in the tree named [`CHANNEL_TREE`], the
    /// chain monitor in the tree named [`CHAIN_MONITOR_TREE`]. The database
    /// has given out a handle to these four trees and to no other, one to
    /// each. So no two handles of the store are handles to one tree.
    pub closed spec fn wf(&self) -> bool {
        &&& tree_name(self.root) == default_tree_name()
        &&& tree_name(self.contracts) == seq![CONTRACT_TREE]
        &&& tree_name(self.channels) == seq![CHANNEL_TREE]
        &&& tree_name(self.chain_monitor) == seq![CHAIN_MONITOR_TREE]
        &&& handed_out(self.db) == set![
            default_tree_name(),
            seq![CONTRACT_TREE],
            seq![CHANNEL_TREE],
            seq![CHAIN_MONITOR_TREE],
        ]
    }
}

impl View for SledStorageProvider {
    type V = StoreView;

    closed spec fn view(&self) -> StoreView {
        StoreView {
            contracts: tree_contents(self.contracts),
            channels: tree_contents(self.channels),
            chain_monitor: tree_contents(self.chain_monitor),
            root: tree_contents(self.root),
        }
    }
}

/// A contract in this state is stored under a new id: its record under the
/// temporary id has to go.
pub open spec fn contract_rekeys(state: ContractState) -> bool {
    state is Accepted || state is Signed
}

/// A channel in this state is stored under a new id: its record under the
/// temporary id has to go.
pub open spec fn channel_rekeys(state: ChannelState) -> bool {
    state is Accepted || state is Signed
}

/// The contract tree after `contract` has been stored.
pub open spec fn with_contract(contents: Map<Seq<u8>, Seq<u8>>, contract: ContractView) -> Map<Seq<u8>, Seq<u8>> {
    if contract_rekeys(contract.state) {
        contents.remove(contract.temporary_id).insert(contract.id, contract_bytes(contract.record()))
    } else {
        contents.insert(contract.id, contract_bytes(contract.record()))
    }
}

/// The channel tree after `channel` has been stored.
pub open spec fn with_channel(contents: Map<Seq<u8>, Seq<u8>>, channel: ChannelView) -> Map<Seq<u8>, Seq<u8>> {
    if channel_rekeys(channel.state) {
        contents.remove(channel.temporary_id).insert(channel.id, channel_bytes(channel.record()))
    } else {
        contents.insert(channel.id, channel_bytes(channel.record()))
    }
}

/// The contract tree after an optional contract has been stored.
pub open spec fn with_optional_contract(contents: Map<Seq<u8>, Seq<u8>>, contract: Option<Contract>) -> Map<
    Seq<u8>,
    Seq<u8>,
> {
    match contract {
        Some(c) => with_contract(contents, c@),
        None => contents,
    }
}

/// The writes that store a record under `id`: where `rekeys` holds, first the
/// removal of what is under `temporary_id`.
pub open spec fn rekey_writes(rekeys: bool, id: Seq<u8>, temporary_id: Seq<u8>, bytes: Seq<u8>) -> Seq<WriteView> {
    if rekeys {
        seq![WriteView::Remove { key: temporary_id }, WriteView::Insert { key: id, value: bytes }]
    } else {
        seq![WriteView::Insert { key: id, value: bytes }]
    }
}

/// Applying the writes of [`rekey_writes`] removes the temporary id, where
/// asked, and then stores the record.
pub proof fn lemma_rekey_writes_applied(
    contents: Map<Seq<u8>, Seq<u8>>,
    rekeys: bool,
    id: Seq<u8>,
    temporary_id: Seq<u8>,
    bytes: Seq<u8>,
)
    ensures
        apply_writes(contents, rekey_writes(rekeys, id, temporary_id, bytes)) == if rekeys {
            contents.remove(temporary_id).insert(id, bytes)
        } else {
            contents.insert(id, bytes)
        },
        apply_writes(contents, Seq::<WriteView>::empty()) == contents,
{
    let writes = rekey_writes(rekeys, id, temporary_id, bytes);
    reveal_with_fuel(apply_writes, 3);
    if rekeys {
        assert(writes.drop_last() =~= seq![WriteView::Remove { key: temporary_id }]);
        assert(writes.drop_last().drop_last() =~= Seq::<WriteView>::empty());
    } else {
        assert(writes.drop_last() =~= Seq::<WriteView>::empty());
    }
}

/// After a contract that has just been accepted or signed is stored, the
/// logical contract has exactly one record: the one under its final id. The
/// record under its temporary id is gone, and no other key is touched.
pub proof fn lemma_contract_rekey_leaves_one_record(contents: Map<Seq<u8>, Seq<u8>>, contract: ContractView)
    requires
        contract_rekeys(contract.state),
        contract.temporary_id != contract.id,
    ensures
        with_contract(contents, contract).contains_pair(contract.id, contract_bytes(contract.record())),
        !with_contract(contents, contract).contains_key(contract.temporary_id),
        with_contract(contents, contract).dom().intersect(set![contract.temporary_id, contract.id]) == set![
            contract.id,
        ],
        forall|key: Seq<u8>|
            key != contract.id && key != contract.temporary_id ==> (with_contract(contents, contract).contains_key(
                key,
            ) <==> contents.contains_key(key)) && with_contract(contents, contract)[key] == contents[key],
{
    let after = with_contract(contents, contract);
    assert(after.dom().intersect(set![contract.temporary_id, contract.id]) =~= set![contract.id]);
}

/// After a channel that has just been accepted or signed is stored, the
/// logical channel has exactly one record: the one under its final id. The
/// record under its temporary id is gone, and no other key is touched.
pub proof fn lemma_channel_rekey_leaves_one_record(contents: Map<Seq<u8>, Seq<u8>>, channel: ChannelView)
    requires
        channel_rekeys(channel.state),
        channel.temporary_id != channel.id,
    ensures
        with_channel(contents, channel).contains_pair(channel.id, channel_bytes(channel.record())),
        !with_channel(contents, channel).contains_key(channel.temporary_id),
        with_channel(contents, channel).dom().intersect(set![channel.temporary_id, channel.id]) == set![
            channel.id,
        ],
        forall|key: Seq<u8>|
            key != channel.id && key != channel.temporary_id ==> (with_channel(contents, channel).contains_key(
                key,
            ) <==> contents.contains_key(key)) && with_channel(contents, channel)[key] == contents[key],
{
    let after = with_channel(contents, channel);
    assert(after.dom().intersect(set![channel.temporary_id, channel.id]) =~= set![channel.id]);
}

/// Where storing a contract has failed, the damage is confined to the ids of
/// that contract: every record under another id is as it was, and under each
/// of the contract's two ids there is what was there before or what the store
/// was to put there.
pub proof fn lemma_failed_contract_store_is_confined(
    before: Map<Seq<u8>, Seq<u8>>,
    after: Map<Seq<u8>, Seq<u8>>,
    contract: ContractView,
)
    requires
        between(before, after, with_contract(before, contract)),
    ensures
        forall|key: Seq<u8>|
            key != contract.id && key != contract.temporary_id ==> #[trigger] same_at(after, before, key),
        same_at(after, before, contract.id) || after.contains_pair(
            contract.id,
            contract_bytes(contract.record()),
        ),
        same_at(after, before, contract.temporary_id) || same_at(
            after,
            with_contract(before, contract),
            contract.temporary_id,
        ),
{
    let target = with_contract(before, contract);
    assert forall|key: Seq<u8>| key != contract.id && key != contract.temporary_id implies #[trigger] same_at(
        after,
        before,
        key,
    ) by {
        assert(same_at(after, before, key) || same_at(after, target, key));
        assert(same_at(target, before, key));
    }
    assert(same_at(after, before, contract.id) || same_at(after, target, contract.id));
    assert(same_at(after, before, contract.temporary_id) || same_at(after, target, contract.temporary_id));
}

/// Where storing a channel has failed, the damage is confined to the ids of
/// that channel: every record under another id is as it was, and under each
/// of the channel's two ids there is what was there before or what the store
/// was to put there.
pub proof fn lemma_failed_channel_store_is_confined(
    before: Map<Seq<u8>, Seq<u8>>,
    after: Map<Seq<u8>, Seq<u8>>,
    channel: ChannelView,
)
    requires
        between(before, after, with_channel(before, channel)),
    ensures
        forall|key: Seq<u8>|
            key != channel.id && key != channel.temporary_id ==> #[trigger] same_at(after, before, key),
        same_at(after, before, channel.id) || after.contains_pair(channel.id, channel_bytes(channel.record())),
        same_at(after, before, channel.temporary_id) || same_at(
            after,
            with_channel(before, channel),
            channel.temporary_id,
        ),
{
    let target = with_channel(before, channel);
    assert forall|key: Seq<u8>| key != channel.id && key != channel.temporary_id implies #[trigger] same_at(
        after,
        before,
        key,
    ) by {
        assert(same_at(after, before, key) || same_at(after, target, key));
        assert(same_at(target, before, key));
    }
    assert(same_at(after, before, channel.id) || same_at(after, target, channel.id));
    assert(same_at(after, before, channel.temporary_id) || same_at(after, target, channel.temporary_id));
}

/// A stored contract is read back as it was written: after a successful
/// store, the bytes under the contract's id stand for its state and payload.
pub proof fn lemma_stored_contract_reads_back(contents: Map<Seq<u8>, Seq<u8>>, contract: ContractView)
    ensures
        with_contract(contents, contract).contains_key(contract.id),
        parse_contract(with_contract(contents, contract)[contract.id]) == Ok::<ContractRecordView, StorageError>(
            contract.record(),
        ),
{
    crate::record::lemma_contract_round_trip(contract.record());
}

/// A stored channel is read back as it was written: after a successful store,
/// the bytes under the channel's id stand for its state and payload.
pub proof fn lemma_stored_channel_reads_back(contents: Map<Seq<u8>, Seq<u8>>, channel: ChannelView)
    ensures
        with_channel(contents, channel).contains_key(channel.id),
        parse_channel(with_channel(contents, channel)[channel.id]) == Ok::<ChannelRecordView, StorageError>(
            channel.record(),
        ),
{
    crate::record::lemma_channel_round_trip(channel.record());
}

/// `payload` is what follows the leading bytes of some record of `contents`
/// that starts with `prefix`.
pub open spec fn is_tagged_payload(contents: Map<Seq<u8>, Seq<u8>>, prefix: Seq<u8>, skip: nat, payload: Seq<u8>) -> bool {
    exists|key: Seq<u8>|
        contents.contains_key(key) && has_prefix(#[trigger] contents[key], prefix) && contents[key].skip(
            (prefix.len() + skip) as int,
        ) == payload
}

/// A filtered read that succeeds hands out the records of the tree that start
/// with the prefix and no others: each such record of the tree is among the
/// payloads, and each payload comes from such a record.
pub proof fn lemma_selected_are_exactly_the_tagged(
    contents: Map<Seq<u8>, Seq<u8>>,
    listing: Seq<(Seq<u8>, Seq<u8>)>,
    prefix: Seq<u8>,
    skip: nat,
    payloads: Seq<Seq<u8>>,
)
    requires
        is_listing(listing, contents),
        select_payloads(entry_values(listing), prefix, skip) == Ok::<Seq<Seq<u8>>, StorageError>(payloads),
    ensures
        forall|key: Seq<u8>|
            contents.contains_key(key) && has_prefix(#[trigger] contents[key], prefix) ==> payloads.contains(
                contents[key].skip((prefix.len() + skip) as int),
            ),
        forall|i: int| 0 <= i < payloads.len() ==> is_tagged_payload(contents, prefix, skip, #[trigger] payloads[i]),
{
    let values = entry_values(listing);
    let tagged = |v: Seq<u8>| has_prefix(v, prefix);
    let strip = |v: Seq<u8>| v.skip((prefix.len() + skip) as int);
    crate::scan::lemma_select_exactly_tagged(values, prefix, skip);
    let kept = values.filter(tagged);
    assert(payloads == kept.map_values(strip));
    assert forall|key: Seq<u8>|
        contents.contains_key(key) && has_prefix(#[trigger] contents[key], prefix) implies payloads.contains(
        contents[key].skip((prefix.len() + skip) as int),
    ) by {
        let i = choose|i: int| 0 <= i < listing.len() && (#[trigger] listing[i]).0 == key;
        assert(contents.contains_pair(listing[i].0, listing[i].1));
        assert(values[i] == contents[key]);
        assert(values.contains(contents[key]));
        values.lemma_filter_contains(tagged, i);
        assert(kept.contains(contents[key]));
        let j = choose|j: int| 0 <= j < kept.len() && kept[j] == contents[key];
        assert(payloads[j] == strip(kept[j]));
    }
    assert forall|i: int| 0 <= i < payloads.len() implies is_tagged_payload(
        contents,
        prefix,
        skip,
        #[trigger] payloads[i],
    ) by {
        assert(payloads[i] == strip(kept[i]));
        assert(kept.contains(kept[i]));
        values.lemma_filter_contains_rev(tagged, kept[i]);
        let j = choose|j: int| 0 <= j < values.len() && values[j] == kept[i];
        assert(contents.contains_pair(listing[j].0, listing[j].1));
        let key = listing[j].0;
        assert(tagged(kept[i])) by {
            values.lemma_filter_pred(tagged, i);
        }
        assert(contents.contains_key(key) && has_prefix(#[trigger] contents[key], prefix) && contents[key].skip(
            (prefix.len() + skip) as int,
        ) == payloads[i]);
    }
}

/// Builds the writes of [`rekey_writes`].
pub fn rekey_plan(rekeys: bool, id: &[u8; 32], temporary_id: &[u8; 32], bytes: Vec<u8>) -> (plan: Vec<Write>)
    ensures
        writes_view(plan@) == rekey_writes(rekeys, id@, temporary_id@, bytes@),
{
    let mut plan: Vec<Write> = Vec::new();
    if rekeys {
        plan.push(Write::Remove { key: slice_to_vec(temporary_id.as_slice()) });
    }
    plan.push(Write::Insert { key: slice_to_vec(id.as_slice()), value: bytes });
    assert(writes_view(plan@) =~= rekey_writes(rekeys, id@, temporary_id@, bytes@));
    plan
}

/// Tells whether a contract in this state moves to a new id when stored.
pub fn contract_state_rekeys(state: ContractState) -> (b: bool)
    ensures
        b == contract_rekeys(state),
{
    match state {
        ContractState::Accepted => true,
        ContractState::Signed => true,
        _ => false,
    }
}

/// Tells whether a channel in this state moves to a new id when stored.
pub fn channel_state_rekeys(state: ChannelState) -> (b: bool)
    ensures
        b == channel_rekeys(state),
{
    match state {
        ChannelState::Accepted => true,
        ChannelState::Signed(_) => true,
        _ => false,
    }
}

/// The writes that store `contract` in the contract tree.
pub fn insert_contract(contract: &Contract) -> (plan: Vec<Write>)
    ensures
        forall|contents: Map<Seq<u8>, Seq<u8>>| #[trigger]
            apply_writes(contents, writes_view(plan@)) == with_contract(contents, contract@),
{
    let record = ContractRecord { state: contract.state, payload: contract.payload.clone() };
    let bytes = serialize_contract(&record);
    let plan = rekey_plan(contract_state_rekeys(contract.state), &contract.id, &contract.temporary_id, bytes);
    proof {
        assert(record@ == contract@.record());
        assert forall|contents: Map<Seq<u8>, Seq<u8>>| #[trigger]
            apply_writes(contents, writes_view(plan@)) == with_contract(contents, contract@) by {
            lemma_rekey_writes_applied(
                contents,
                contract_rekeys(contract.state),
                contract.id@,
                contract.temporary_id@,
                bytes@,
            );
        }
    }
    plan
}

/// The writes that store `channel` in the channel tree.
pub fn insert_channel(channel: &Channel) -> (plan: Vec<Write>)
    ensures
        forall|contents: Map<Seq<u8>, Seq<u8>>| #[trigger]
            apply_writes(contents, writes_view(plan@)) == with_channel(contents, channel@),
{
    let record = ChannelRecord { state: channel.state, payload: channel.payload.clone() };
    let bytes = serialize_channel(&record);
    let plan = rekey_plan(channel_state_rekeys(channel.state), &channel.id, &channel.temporary_id, bytes);
    proof {
        assert(record@ == channel@.record());
        assert forall|contents: Map<Seq<u8>, Seq<u8>>| #[trigger]
            apply_writes(contents, writes_view(plan@)) == with_channel(contents, channel@) by {
            lemma_rekey_writes_applied(
                contents,
                channel_rekeys(channel.state),
                channel.id@,
                channel.temporary_id@,
                bytes@,
            );
        }
    }
    plan
}

/// Turns a database error into the store's error: an `Engine` error whose
/// text is the one that the database error displays.
pub fn to_storage_error(error: sled::Error) -> (e: StorageError)
    ensures
        e matches StorageError::Engine(text) && to_string_from_display_ensures::<sled::Error>(&error, text),
{
    StorageError::Engine(error.to_string())
}

/// What a lookup of a contract returns for each thing that the database may
/// have found under the id: nothing, or the contract that the bytes stand for,
/// or the reason why they stand for none.
pub fn found_contract(found: Option<Vec<u8>>) -> (r: Result<Option<ContractRecord>, StorageError>)
    ensures
        match r {
            Ok(None) => found is None,
            Ok(Some(record)) => found matches Some(bytes) && parse_contract(bytes@) == Ok::<
                ContractRecordView,
                StorageError,
            >(record@),
            Err(e) => found matches Some(bytes) && parse_contract(bytes@) == Err::<
                ContractRecordView,
                StorageError,
            >(e),
        },
{
    match found {
        None => Ok(None),
        Some(bytes) => match deserialize_contract(bytes.as_slice()) {
            Ok(record) => Ok(Some(record)),
            Err(e) => Err(e),
        },
    }
}

/// What a lookup of a channel returns for each thing that the database may
/// have found under the id: nothing, or the channel that the bytes stand for,
/// or the reason why they stand for none.
pub fn found_channel(found: Option<Vec<u8>>) -> (r: Result<Option<ChannelRecord>, StorageError>)
    ensures
        match r {
            Ok(None) => found is None,
            Ok(Some(record)) => found matches Some(bytes) && parse_channel(bytes@) == Ok::<
                ChannelRecordView,
                StorageError,
            >(record@),
            Err(e) => found matches Some(bytes) && parse_channel(bytes@) == Err::<
                ChannelRecordView,
                StorageError,
            >(e),
        },
{
    match found {
        None => Ok(None),
        Some(bytes) => match deserialize_channel(bytes.as_slice()) {
            Ok(record) => Ok(Some(record)),
            Err(e) => Err(e),
        },
    }
}

/// The tag bytes that a search for signed channels looks for, and the number
/// of bytes it passes over after them: both tags where a substate is asked
/// for; else the first tag alone, passing over the substate's byte.
pub open spec fn signed_channel_filter(channel_state: Option<SignedChannelStateType>) -> (Seq<u8>, Option<u64>) {
    match channel_state {
        Some(state) => (seq![SIGNED_CHANNEL_PREFIX, state.spec_prefix()], None),
        None => (seq![SIGNED_CHANNEL_PREFIX], Some(1u64)),
    }
}

/// The contracts that listed values stand for, in the order of the listing,
/// or the error of the first value that stands for none.
pub open spec fn parse_contracts(values: Seq<Seq<u8>>) -> Result<Seq<ContractRecordView>, StorageError>
    decreases values.len(),
{
    if values.len() == 0 {
        Ok(Seq::empty())
    } else {
        match parse_contracts(values.drop_last()) {
            Err(e) => Err(e),
            Ok(earlier) => match parse_contract(values.last()) {
                Err(e) => Err(e),
                Ok(record) => Ok(earlier.push(record)),
            },
        }
    }
}

/// The contract records of a vector, each with its payload as a sequence.
pub open spec fn records_view(records: Seq<ContractRecord>) -> Seq<ContractRecordView> {
    records.map_values(|r: ContractRecord| r@)
}

/// `r` is what reading every value of `listing` as a contract returns when
/// the database has listed the tree without failure.
pub open spec fn decoded_from(listing: Seq<(Seq<u8>, Seq<u8>)>, r: Result<Vec<ContractRecord>, StorageError>) -> bool {
    match r {
        Ok(records) => parse_contracts(entry_values(listing)) == Ok::<Seq<ContractRecordView>, StorageError>(
            records_view(records@),
        ),
        Err(e) => parse_contracts(entry_values(listing)) == Err::<Seq<ContractRecordView>, StorageError>(e),
    }
}

/// `r` is a possible result of reading every contract of a tree that holds
/// `contents`: a failure of the database, or what the values of some listing
/// of the tree stand for.
pub open spec fn decoded(contents: Map<Seq<u8>, Seq<u8>>, r: Result<Vec<ContractRecord>, StorageError>) -> bool {
    ||| r matches Err(e) && e is Engine
    ||| exists|listing: Seq<(Seq<u8>, Seq<u8>)>| is_listing(listing, contents) && #[trigger] decoded_from(listing, r)
}

/// An error among the first `n` values is the error of the whole listing.
pub proof fn lemma_parse_error_stays(values: Seq<Seq<u8>>, n: int)
    requires
        0 <= n <= values.len(),
        parse_contracts(values.take(n)) is Err,
    ensures
        parse_contracts(values) == parse_contracts(values.take(n)),
    decreases values.len() - n,
{
    if n == values.len() {
        assert(values.take(n) =~= values);
    } else {
        let next = values.take(n + 1);
        assert(next.drop_last() =~= values.take(n));
        lemma_parse_error_stays(values, n + 1);
    }
}

/// Reads every listed value as a contract. Fails on the first value that
/// stands for none.
pub fn decode_contracts(entries: &Vec<Entry>) -> (r: Result<Vec<ContractRecord>, StorageError>)
    ensures
        match r {
            Ok(records) => parse_contracts(entry_values(entries_view(entries@))) == Ok::<
                Seq<ContractRecordView>,
                StorageError,
            >(records_view(records@)),
            Err(e) => parse_contracts(entry_values(entries_view(entries@))) == Err::<
                Seq<ContractRecordView>,
                StorageError,
            >(e),
        },
{
    let ghost values = entry_values(entries_view(entries@));
    let mut records: Vec<ContractRecord> = Vec::new();
    let mut i: usize = 0;
    assert(values.take(0) =~= Seq::<Seq<u8>>::empty());
    assert(records_view(records@) =~= Seq::<ContractRecordView>::empty());
    while i < entries.len()
        invariant
            i <= entries.len(),
            values == entry_values(entries_view(entries@)),
            values.len() == entries.len(),
            parse_contracts(values.take(i as int)) == Ok::<Seq<ContractRecordView>, StorageError>(
                records_view(records@),
            ),
        decreases entries.len() - i,
    {
        let decoded = deserialize_contract(entries[i].value.as_slice());
        proof {
            let upto = values.take(i as int + 1);
            assert(upto.drop_last() =~= values.take(i as int));
            assert(upto.last() == entries@[i as int].value@);
        }
        match decoded {
            Err(e) => {
                proof {
                    lemma_parse_error_stays(values, i as int + 1);
                }
                return Err(e);
            },
            Ok(record) => {
                let ghost before = records@;
                records.push(record);
                assert(records_view(records@) =~= records_view(before).push(record@));
            },
        }
        i = i + 1;
    }
    assert(values.take(i as int) =~= values);
    Ok(records)
}

/// `r` is what a filtered read of `listing` returns when the database has
/// listed the tree without failure.
pub open spec fn selected_from(
    listing: Seq<(Seq<u8>, Seq<u8>)>,
    prefix: Seq<u8>,
    consume: Option<u64>,
    r: Result<Vec<Vec<u8>>, StorageError>,
) -> bool {
    match r {
        Ok(payloads) => select_payloads(entry_values(listing), prefix, consume_count(consume)) == Ok::<
            Seq<Seq<u8>>,
            StorageError,
        >(payloads_view(payloads@)),
        Err(e) => select_payloads(entry_values(listing), prefix, consume_count(consume)) == Err::<
            Seq<Seq<u8>>,
            StorageError,
        >(e),
    }
}

/// `r` is a possible result of a filtered read of a tree that holds
/// `contents`: a failure of the database, or what the search makes of some
/// listing of the tree.
pub open spec fn selected(
    contents: Map<Seq<u8>, Seq<u8>>,
    prefix: Seq<u8>,
    consume: Option<u64>,
    r: Result<Vec<Vec<u8>>, StorageError>,
) -> bool {
    ||| r matches Err(e) && e is Engine
    ||| exists|listing: Seq<(Seq<u8>, Seq<u8>)>|
        is_listing(listing, contents) && #[trigger] selected_from(listing, prefix, consume, r)
}

impl SledStorageProvider {
    /// Opens the store at `path`, creating the database and its trees where
    /// they do not exist yet. The store that comes back has its three trees
    /// open under their names. What it holds is what the database at `path`
    /// held.
    pub fn new(path: &str) -> (r: Result<SledStorageProvider, sled::Error>)
        ensures
            r matches Ok(store) ==> store.wf(),
    {
        let mut db = match open_db(path) {
            Ok(db) => db,
            Err(e) => {
                return Err(e);
            },
        };
        let root = default_tree(&mut db);
        let contracts = match open_tree(&mut db, CONTRACT_TREE) {
            Ok(tree) => tree,
            Err(e) => {
                return Err(e);
            },
        };
        proof {
            assert(default_tree_name().len() == 15);
            assert(seq![CONTRACT_TREE][0] == CONTRACT_TREE);
            assert(seq![CHANNEL_TREE][0] == CHANNEL_TREE);
            assert(seq![CHAIN_MONITOR_TREE][0] == CHAIN_MONITOR_TREE);
            assert(seq![CHANNEL_TREE] != seq![CONTRACT_TREE]);
            assert(seq![CHAIN_MONITOR_TREE] != seq![CONTRACT_TREE]);
            assert(seq![CHAIN_MONITOR_TREE] != seq![CHANNEL_TREE]);
        }
        let channels = match open_tree(&mut db, CHANNEL_TREE) {
            Ok(tree) => tree,
            Err(e) => {
                return Err(e);
            },
        };
        let chain_monitor = match open_tree(&mut db, CHAIN_MONITOR_TREE) {
            Ok(tree) => tree,
            Err(e) => {
                return Err(e);
            },
        };
        assert(handed_out(db) =~= set![
            default_tree_name(),
            seq![CONTRACT_TREE],
            seq![CHANNEL_TREE],
            seq![CHAIN_MONITOR_TREE],
        ]);
        Ok(SledStorageProvider { db, root, contracts, channels, chain_monitor })
    }

    /// The tree that holds the contracts.
    fn contract_tree(&self) -> (tree: &sled::Tree)
        ensures
            tree_contents(*tree) == self@.contracts,
    {
        &self.contracts
    }

    /// The tree that holds the channels.
    fn channel_tree(&self) -> (tree: &sled::Tree)
        ensures
            tree_contents(*tree) == self@.channels,
    {
        &self.channels
    }

    /// Lists a tree and keeps the payloads of the records that start with
    /// `prefix`, passing over `consume` more bytes in each where asked.
    fn get_data_with_prefix(tree: &sled::Tree, prefix: &[u8], consume: Option<u64>) -> (r: Result<
        Vec<Vec<u8>>,
        StorageError,
    >)
        ensures
            selected(tree_contents(*tree), prefix@, consume, r),
    {
        match tree_entries(tree) {
            Err(e) => Err(to_storage_error(e)),
            Ok(entries) => {
                let r = select_payloads_of(&entries, prefix, consume);
                proof {
                    let listing = entries_view(entries@);
                    assert(is_listing(listing, tree_contents(*tree)));
                    assert(selected_from(listing, prefix@, consume, r));
                }
                r
            },
        }
    }

    /// Looks up the contract stored under `contract_id`.
    pub fn get_contract(&self, contract_id: &[u8; 32]) -> (r: Result<Option<ContractRecord>, StorageError>)
        ensures
            match r {
                Ok(None) => !self@.contracts.contains_key(contract_id@),
                Ok(Some(record)) => self@.contracts.contains_key(contract_id@) && parse_contract(
                    self@.contracts[contract_id@],
                ) == Ok::<ContractRecordView, StorageError>(record@),
                Err(e) => e is Engine || (self@.contracts.contains_key(contract_id@) && parse_contract(
                    self@.contracts[contract_id@],
                ) == Err::<ContractRecordView, StorageError>(e)),
            },
    {
        match tree_get(self.contract_tree(), contract_id.as_slice()) {
            Err(e) => Err(to_storage_error(e)),
            Ok(found) => found_contract(found),
        }
    }

    /// Reads every stored contract.
    pub fn get_contracts(&self) -> (r: Result<Vec<ContractRecord>, StorageError>)
        ensures
            decoded(self@.contracts, r),
    {
        match tree_entries(self.contract_tree()) {
            Err(e) => Err(to_storage_error(e)),
            Ok(entries) => {
                let r = decode_contracts(&entries);
                proof {
                    let listing = entries_view(entries@);
                    assert(is_listing(listing, self@.contracts));
                    assert(decoded_from(listing, r));
                }
                r
            },
        }
    }

    /// Stores a newly offered contract under its temporary id. When the
    /// database fails, the contract tree is as it was, or holds the record all
    /// the same.
    pub fn create_contract(&mut self, contract: &OfferedContract) -> (r: Result<(), StorageError>)
        ensures
            old(self).wf() ==> final(self).wf(),
            r is Ok ==> final(self)@.contracts == old(self)@.contracts.insert(
                contract.id@,
                contract_bytes(ContractRecordView { state: ContractState::Offered, payload: contract.payload@ }),
            ),
            r matches Err(e) ==> e is Engine && (final(self)@.contracts == old(self)@.contracts || final(self)@.contracts == old(self)@.contracts.insert(
                contract.id@,
                contract_bytes(ContractRecordView { state: ContractState::Offered, payload: contract.payload@ }),
            )),
            final(self)@.channels == old(self)@.channels,
            final(self)@.chain_monitor == old(self)@.chain_monitor,
            final(self)@.root == old(self)@.root,
    {
        let record = ContractRecord { state: ContractState::Offered, payload: contract.payload.clone() };
        let serialized = serialize_contract(&record);
        match tree_insert(&mut self.contracts, contract.id.as_slice(), serialized) {
            Ok(()) => Ok(()),
            Err(e) => Err(to_storage_error(e)),
        }
    }

    /// Removes the contract stored under `contract_id`, if there is one. When
    /// the database fails, the contract tree is as it was, or has lost the
    /// record all the same.
    pub fn delete_contract(&mut self, contract_id: &[u8; 32]) -> (r: Result<(), StorageError>)
        ensures
            old(self).wf() ==> final(self).wf(),
            r is Ok ==> final(self)@.contracts == old(self)@.contracts.remove(contract_id@),
            r matches Err(e) ==> e is Engine && (final(self)@.contracts == old(self)@.contracts || final(self)@.contracts == old(self)@.contracts.remove(contract_id@)),
            final(self)@.channels == old(self)@.channels,
            final(self)@.chain_monitor == old(self)@.chain_monitor,
            final(self)@.root == old(self)@.root,
    {
        match tree_remove(&mut self.contracts, contract_id.as_slice()) {
            Ok(()) => Ok(()),
            Err(e) => Err(to_storage_error(e)),
        }
    }

    /// Stores a contract under its id, in one transaction. A contract that has
    /// just been accepted or signed leaves its temporary id in that
    /// transaction. When the database fails, it undoes nothing: the record
    /// under each of the two ids is then the old one or the new one, and no
    /// other record is touched.
    pub fn update_contract(&mut self, contract: &Contract) -> (r: Result<(), StorageError>)
        ensures
            old(self).wf() ==> final(self).wf(),
            r is Ok ==> final(self)@.contracts == with_contract(old(self)@.contracts, contract@),
            r matches Err(e) ==> e is Engine && between(
                old(self)@.contracts,
                final(self)@.contracts,
                with_contract(old(self)@.contracts, contract@),
            ),
            final(self)@.channels == old(self)@.channels,
            final(self)@.chain_monitor == old(self)@.chain_monitor,
            final(self)@.root == old(self)@.root,
    {
        let plan = insert_contract(contract);
        proof {
            lemma_commit_applies_the_writes(self@.contracts, writes_view(plan@));
        }
        tree_transaction(&mut self.contracts, &plan)
    }

    /// Reads the payloads of the contracts that have been offered.
    pub fn get_contract_offers(&self) -> (r: Result<Vec<Vec<u8>>, StorageError>)
        ensures
            selected(self@.contracts, seq![ContractState::Offered.spec_prefix()], None, r),
    {
        let mut prefix: Vec<u8> = Vec::new();
        prefix.push(ContractState::Offered.prefix());
        assert(prefix@ =~= seq![ContractState::Offered.spec_prefix()]);
        Self::get_data_with_prefix(self.contract_tree(), prefix.as_slice(), None)
    }

    /// Reads the payloads of the contracts that have been signed.
    pub fn get_signed_contracts(&self) -> (r: Result<Vec<Vec<u8>>, StorageError>)
        ensures
            selected(self@.contracts, seq![ContractState::Signed.spec_prefix()], None, r),
    {
        let mut prefix: Vec<u8> = Vec::new();
        prefix.push(ContractState::Signed.prefix());
        assert(prefix@ =~= seq![ContractState::Signed.spec_prefix()]);
        Self::get_data_with_prefix(self.contract_tree(), prefix.as_slice(), None)
    }

    /// Reads the payloads of the contracts whose funding is confirmed.
    pub fn get_confirmed_contracts(&self) -> (r: Result<Vec<Vec<u8>>, StorageError>)
        ensures
            selected(self@.contracts, seq![ContractState::Confirmed.spec_prefix()], None, r),
    {
        let mut prefix: Vec<u8> = Vec::new();
        prefix.push(ContractState::Confirmed.prefix());
        assert(prefix@ =~= seq![ContractState::Confirmed.spec_prefix()]);
        Self::get_data_with_prefix(self.contract_tree(), prefix.as_slice(), None)
    }

    /// Reads the payloads of the contracts that are about to close.
    pub fn get_preclosed_contracts(&self) -> (r: Result<Vec<Vec<u8>>, StorageError>)
        ensures
            selected(self@.contracts, seq![ContractState::PreClosed.spec_prefix()], None, r),
    {
        let mut prefix: Vec<u8> = Vec::new();
        prefix.push(ContractState::PreClosed.prefix());
        assert(prefix@ =~= seq![ContractState::PreClosed.spec_prefix()]);
        Self::get_data_with_prefix(self.contract_tree(), prefix.as_slice(), None)
    }

    /// Stores a channel under its id and, where one is given, the contract
    /// that goes with it, in one transaction over both trees. When the call
    /// succeeds, both are written, and each has left its temporary id where it
    /// has just been accepted or signed. When the database fails, it undoes
    /// nothing: in each tree the record under each id that the call names is
    /// then the old one or the new one, and no other record is touched.
    pub fn upsert_channel(&mut self, channel: Channel, contract: Option<Contract>) -> (r: Result<(), StorageError>)
        ensures
            old(self).wf() ==> final(self).wf(),
            r is Ok ==> final(self)@.channels == with_channel(old(self)@.channels, channel@) && final(self)@.contracts
                == with_optional_contract(old(self)@.contracts, contract),
            r matches Err(e) ==> e is Engine && between(
                old(self)@.channels,
                final(self)@.channels,
                with_channel(old(self)@.channels, channel@),
            ) && between(
                old(self)@.contracts,
                final(self)@.contracts,
                with_optional_contract(old(self)@.contracts, contract),
            ),
            final(self)@.chain_monitor == old(self)@.chain_monitor,
            final(self)@.root == old(self)@.root,
    {
        let channel_plan = insert_channel(&channel);
        let contract_plan = match &contract {
            Some(c) => insert_contract(c),
            None => {
                proof {
                    lemma_rekey_writes_applied(old(self)@.contracts, false, seq![], seq![], seq![]);
                }
                let none: Vec<Write> = Vec::new();
                assert(writes_view(none@) =~= Seq::<WriteView>::empty());
                none
            },
        };
        proof {
            lemma_commit_applies_the_writes(self@.channels, writes_view(channel_plan@));
            lemma_commit_applies_the_writes(self@.contracts, writes_view(contract_plan@));
        }
        tree_pair_transaction(&mut self.channels, &mut self.contracts, &channel_plan, &contract_plan)
    }

    /// Removes the channel stored under `channel_id`, if there is one. When the
    /// database fails, the channel tree is as it was, or has lost the record
    /// all the same.
    pub fn delete_channel(&mut self, channel_id: &[u8; 32]) -> (r: Result<(), StorageError>)
        ensures
            old(self).wf() ==> final(self).wf(),
            r is Ok ==> final(self)@.channels == old(self)@.channels.remove(channel_id@),
            r matches Err(e) ==> e is Engine && (final(self)@.channels == old(self)@.channels || final(self)@.channels == old(self)@.channels.remove(channel_id@)),
            final(self)@.contracts == old(self)@.contracts,
            final(self)@.chain_monitor == old(self)@.chain_monitor,
            final(self)@.root == old(self)@.root,
    {
        match tree_remove(&mut self.channels, channel_id.as_slice()) {
            Ok(()) => Ok(()),
            Err(e) => Err(to_storage_error(e)),
        }
    }

    /// Looks up the channel stored under `channel_id`.
    pub fn get_channel(&self, channel_id: &[u8; 32]) -> (r: Result<Option<ChannelRecord>, StorageError>)
        ensures
            match r {
                Ok(None) => !self@.channels.contains_key(channel_id@),
                Ok(Some(record)) => self@.channels.contains_key(channel_id@) && parse_channel(
                    self@.channels[channel_id@],
                ) == Ok::<ChannelRecordView, StorageError>(record@),
                Err(e) => e is Engine || (self@.channels.contains_key(channel_id@) && parse_channel(
                    self@.channels[channel_id@],
                ) == Err::<ChannelRecordView, StorageError>(e)),
            },
    {
        match tree_get(self.channel_tree(), channel_id.as_slice()) {
            Err(e) => Err(to_storage_error(e)),
            Ok(found) => found_channel(found),
        }
    }

    /// Reads the payloads of the signed channels: of those in `channel_state`
    /// where one is given, else of all of them.
    pub fn get_signed_channels(&self, channel_state: Option<SignedChannelStateType>) -> (r: Result<
        Vec<Vec<u8>>,
        StorageError,
    >)
        ensures
            selected(
                self@.channels,
                signed_channel_filter(channel_state).0,
                signed_channel_filter(channel_state).1,
                r,
            ),
    {
        let mut prefix: Vec<u8> = Vec::new();
        prefix.push(SIGNED_CHANNEL_PREFIX);
        let consume: Option<u64> = match channel_state {
            Some(state) => {
                prefix.push(state.prefix());
                None
            },
            None => Some(1),
        };
        assert(prefix@ =~= signed_channel_filter(channel_state).0);
        Self::get_data_with_prefix(self.channel_tree(), prefix.as_slice(), consume)
    }

    /// Reads the payloads of the channels that have been offered.
    pub fn get_offered_channels(&self) -> (r: Result<Vec<Vec<u8>>, StorageError>)
        ensures
            selected(self@.channels, seq![ChannelState::Offered.spec_prefix()], None, r),
    {
        let mut prefix: Vec<u8> = Vec::new();
        prefix.push(ChannelState::Offered.prefix());
        assert(prefix@ =~= seq![ChannelState::Offered.spec_prefix()]);
        Self::get_data_with_prefix(self.channel_tree(), prefix.as_slice(), None)
    }

    /// Stores the chain monitor, replacing the one that was stored before. When
    /// the database fails, the old monitor is still there, or the new one is.
    pub fn persist_chain_monitor(&mut self, monitor: &[u8]) -> (r: Result<(), StorageError>)
        ensures
            old(self).wf() ==> final(self).wf(),
            r is Ok ==> final(self)@.chain_monitor == old(self)@.chain_monitor.insert(
                seq![CHAIN_MONITOR_KEY],
                monitor@,
            ),
            r matches Err(e) ==> e is Engine && (final(self)@.chain_monitor == old(self)@.chain_monitor || final(self)@.chain_monitor == old(self)@.chain_monitor.insert(
                seq![CHAIN_MONITOR_KEY],
                monitor@,
            )),
            final(self)@.contracts == old(self)@.contracts,
            final(self)@.channels == old(self)@.channels,
            final(self)@.root == old(self)@.root,
    {
        let mut key: Vec<u8> = Vec::new();
        key.push(CHAIN_MONITOR_KEY);
        assert(key@ =~= seq![CHAIN_MONITOR_KEY]);
        match tree_insert(&mut self.chain_monitor, key.as_slice(), slice_to_vec(monitor)) {
            Ok(()) => Ok(()),
            Err(e) => Err(to_storage_error(e)),
        }
    }

    /// Reads the chain monitor that was stored last, if any was.
    pub fn get_chain_monitor(&self) -> (r: Result<Option<Vec<u8>>, StorageError>)
        ensures
            match r {
                Ok(None) => !self@.chain_monitor.contains_key(seq![CHAIN_MONITOR_KEY]),
                Ok(Some(monitor)) => self@.chain_monitor.contains_pair(seq![CHAIN_MONITOR_KEY], monitor@),
                Err(e) => e is Engine,
            },
    {
        let mut key: Vec<u8> = Vec::new();
        key.push(CHAIN_MONITOR_KEY);
        assert(key@ =~= seq![CHAIN_MONITOR_KEY]);
        match tree_get(&self.chain_monitor, key.as_slice()) {
            Err(e) => Err(to_storage_error(e)),
            Ok(found) => Ok(found),
        }
    }

    /// Reads the stored peer list, as the bytes it was stored as.
    pub fn read_peers(&self) -> (r: Result<Option<Vec<u8>>, StorageError>)
        ensures
            match r {
                Ok(None) => !self@.root.contains_key(peers_key()),
                Ok(Some(blob)) => self@.root.contains_pair(peers_key(), blob@),
                Err(e) => e is Engine,
            },
    {
        match tree_get(&self.root, "peers".as_bytes()) {
            Err(e) => Err(to_storage_error(e)),
            Ok(found) => Ok(found),
        }
    }

    /// Stores the peer list, replacing the one that was stored before. When the
    /// database fails, the old list is still there, or the new one is.
    pub fn write_peers(&mut self, blob: Vec<u8>) -> (r: Result<(), StorageError>)
        ensures
            old(self).wf() ==> final(self).wf(),
            r is Ok ==> final(self)@.root == old(self)@.root.insert(peers_key(), blob@),
            r matches Err(e) ==> e is Engine && (final(self)@.root == old(self)@.root || final(self)@.root == old(self)@.root.insert(peers_key(), blob@)),
            final(self)@.contracts == old(self)@.contracts,
            final(self)@.channels == old(self)@.channels,
            final(self)@.chain_monitor == old(self)@.chain_monitor,
    {
        match tree_insert(&mut self.root, "peers".as_bytes(), blob) {
            Ok(()) => Ok(()),
            Err(e) => Err(to_storage_error(e)),
        }
    }
}

} // verus!
