//! The stored form of contracts and channels.
//!
//! A record is one tag byte that names the state, for a signed channel a
//! second tag byte that names what the channel is doing, and then the payload:
//! the bytes of the contract or channel itself, which this crate carries and
//! never looks into.

use vstd::prelude::*;
use vstd::slice::*;
use crate::error::StorageError;
use crate::lifecycle::{ChannelState, ContractState, SignedChannelStateType};

verus! {

/// The byte that opens the record of a signed channel.
pub const SIGNED_CHANNEL_PREFIX: u8 = 102;

/// A contract as the store holds it: its state and its payload.
#[derive(Debug)]
pub struct ContractRecord {
    pub state: ContractState,
    pub payload: Vec<u8>,
}

/// A [`ContractRecord`] with its payload as a byte sequence.
pub struct ContractRecordView {
    pub state: ContractState,
    pub payload: Seq<u8>,
}

impl View for ContractRecord {
    type V = ContractRecordView;

    open spec fn view(&self) -> ContractRecordView {
        ContractRecordView { state: self.state, payload: self.payload@ }
    }
}

/// A channel as the store holds it: its state and its payload.
#[derive(Debug)]
pub struct ChannelRecord {
    pub state: ChannelState,
    pub payload: Vec<u8>,
}

/// A [`ChannelRecord`] with its payload as a byte sequence.
pub struct ChannelRecordView {
    pub state: ChannelState,
    pub payload: Seq<u8>,
}

impl View for ChannelRecord {
    type V = ChannelRecordView;

    open spec fn view(&self) -> ChannelRecordView {
        ChannelRecordView { state: self.state, payload: self.payload@ }
    }
}

/// A contract as it is handed to the store: its state, the id it goes by now,
/// the id it was offered under, and its payload.
#[derive(Debug)]
pub struct Contract {
    pub state: ContractState,
    pub id: [u8; 32],
    pub temporary_id: [u8; 32],
    pub payload: Vec<u8>,
}

/// A [`Contract`] with its ids and payload as byte sequences.
pub struct ContractView {
    pub state: ContractState,
    pub id: Seq<u8>,
    pub temporary_id: Seq<u8>,
    pub payload: Seq<u8>,
}

impl View for Contract {
    type V = ContractView;

    open spec fn view(&self) -> ContractView {
        ContractView { state: self.state, id: self.id@, temporary_id: self.temporary_id@, payload: self.payload@ }
    }
}

impl ContractView {
    /// The part of the contract that is stored under its id.
    pub open spec fn record(self) -> ContractRecordView {
        ContractRecordView { state: self.state, payload: self.payload }
    }
}

/// A contract that has been offered and not yet answered. Its only id is the
/// temporary one.
#[derive(Debug)]
pub struct OfferedContract {
    pub id: [u8; 32],
    pub payload: Vec<u8>,
}

/// A channel as it is handed to the store: its state, the id it goes by now,
/// the id it was offered under, and its payload.
#[derive(Debug)]
pub struct Channel {
    pub state: ChannelState,
    pub id: [u8; 32],
    pub temporary_id: [u8; 32],
    pub payload: Vec<u8>,
}

/// A [`Channel`] with its ids and payload as byte sequences.
pub struct ChannelView {
    pub state: ChannelState,
    pub id: Seq<u8>,
    pub temporary_id: Seq<u8>,
    pub payload: Seq<u8>,
}

impl View for Channel {
    type V = ChannelView;

    open spec fn view(&self) -> ChannelView {
        ChannelView { state: self.state, id: self.id@, temporary_id: self.temporary_id@, payload: self.payload@ }
    }
}

impl ChannelView {
    /// The part of the channel that is stored under its id.
    pub open spec fn record(self) -> ChannelRecordView {
        ChannelRecordView { state: self.state, payload: self.payload }
    }
}

/// The bytes of a stored contract: the state's tag, then the payload.
pub open spec fn contract_bytes(record: ContractRecordView) -> Seq<u8> {
    seq![record.state.spec_prefix()] + record.payload
}

/// The contract that stored bytes stand for, or why they stand for none.
pub open spec fn parse_contract(bytes: Seq<u8>) -> Result<ContractRecordView, StorageError> {
    if bytes.len() == 0 {
        Err(StorageError::Truncated)
    } else {
        match ContractState::spec_from_prefix(bytes[0]) {
            None => Err(StorageError::UnknownPrefix(bytes[0])),
            Some(state) => Ok(ContractRecordView { state, payload: bytes.skip(1) }),
        }
    }
}

/// The tag bytes of a channel state: one byte, or two for a signed channel.
pub open spec fn channel_tags(state: ChannelState) -> Seq<u8> {
    match state {
        ChannelState::Signed(substate) => seq![state.spec_prefix(), substate.spec_prefix()],
        _ => seq![state.spec_prefix()],
    }
}

/// The bytes of a stored channel: the state's tags, then the payload.
pub open spec fn channel_bytes(record: ChannelRecordView) -> Seq<u8> {
    channel_tags(record.state) + record.payload
}

/// The channel that stored bytes stand for, or why they stand for none.
pub open spec fn parse_channel(bytes: Seq<u8>) -> Result<ChannelRecordView, StorageError> {
    if bytes.len() == 0 {
        Err(StorageError::Truncated)
    } else if bytes[0] == SIGNED_CHANNEL_PREFIX {
        if bytes.len() < 2 {
            Err(StorageError::Truncated)
        } else {
            match SignedChannelStateType::spec_from_prefix(bytes[1]) {
                None => Err(StorageError::UnknownSubstate(bytes[1])),
                Some(substate) => Ok(
                    ChannelRecordView { state: ChannelState::Signed(substate), payload: bytes.skip(2) },
                ),
            }
        }
    } else {
        match ChannelState::spec_from_prefix(bytes[0]) {
            None => Err(StorageError::UnknownPrefix(bytes[0])),
            Some(state) => Ok(ChannelRecordView { state, payload: bytes.skip(1) }),
        }
    }
}

/// Writes a contract as the store keeps it.
pub fn serialize_contract(record: &ContractRecord) -> (bytes: Vec<u8>)
    ensures
        bytes@ == contract_bytes(record@),
{
    let mut res: Vec<u8> = Vec::new();
    res.push(record.state.prefix());
    res.extend_from_slice(record.payload.as_slice());
    res
}

/// Reads a stored contract. Fails on an empty record and on a first byte that
/// tags no contract state.
pub fn deserialize_contract(buff: &[u8]) -> (r: Result<ContractRecord, StorageError>)
    ensures
        match r {
            Ok(record) => parse_contract(buff@) == Ok::<ContractRecordView, StorageError>(record@),
            Err(e) => parse_contract(buff@) == Err::<ContractRecordView, StorageError>(e),
        },
{
    if buff.len() == 0 {
        return Err(StorageError::Truncated);
    }
    let tag: u8 = buff[0];
    match ContractState::from_prefix(tag) {
        None => Err(StorageError::UnknownPrefix(tag)),
        Some(state) => {
            let payload = slice_to_vec(slice_subrange(buff, 1, buff.len()));
            assert(payload@ == buff@.skip(1));
            Ok(ContractRecord { state, payload })
        },
    }
}

/// Writes a channel as the store keeps it.
pub fn serialize_channel(record: &ChannelRecord) -> (bytes: Vec<u8>)
    ensures
        bytes@ == channel_bytes(record@),
{
    let mut res: Vec<u8> = Vec::new();
    res.push(record.state.prefix());
    if let ChannelState::Signed(substate) = record.state {
        res.push(substate.prefix());
    }
    res.extend_from_slice(record.payload.as_slice());
    res
}

/// Reads a stored channel. Fails on an empty record, on a first byte that
/// tags no channel state, and on a signed channel whose second byte is
/// missing or tags no substate.
pub fn deserialize_channel(buff: &[u8]) -> (r: Result<ChannelRecord, StorageError>)
    ensures
        match r {
            Ok(record) => parse_channel(buff@) == Ok::<ChannelRecordView, StorageError>(record@),
            Err(e) => parse_channel(buff@) == Err::<ChannelRecordView, StorageError>(e),
        },
{
    if buff.len() == 0 {
        return Err(StorageError::Truncated);
    }
    let tag: u8 = buff[0];
    if tag == SIGNED_CHANNEL_PREFIX {
        if buff.len() < 2 {
            return Err(StorageError::Truncated);
        }
        let second: u8 = buff[1];
        match SignedChannelStateType::from_prefix(second) {
            None => Err(StorageError::UnknownSubstate(second)),
            Some(substate) => {
                let payload = slice_to_vec(slice_subrange(buff, 2, buff.len()));
                assert(payload@ == buff@.skip(2));
                Ok(ChannelRecord { state: ChannelState::Signed(substate), payload })
            },
        }
    } else {
        match ChannelState::from_prefix(tag) {
            None => Err(StorageError::UnknownPrefix(tag)),
            Some(state) => {
                let payload = slice_to_vec(slice_subrange(buff, 1, buff.len()));
                assert(payload@ == buff@.skip(1));
                Ok(ChannelRecord { state, payload })
            },
        }
    }
}

/// Reading what was written gives the contract back, whatever its state and
/// payload.
pub proof fn lemma_contract_round_trip(record: ContractRecordView)
    ensures
        parse_contract(contract_bytes(record)) == Ok::<ContractRecordView, StorageError>(record),
{
    let bytes = contract_bytes(record);
    assert(bytes[0] == record.state.spec_prefix());
    assert(bytes.skip(1) =~= record.payload);
}

/// Reading what was written gives the channel back, whatever its state, its
/// substate if it is signed, and its payload.
pub proof fn lemma_channel_round_trip(record: ChannelRecordView)
    ensures
        parse_channel(channel_bytes(record)) == Ok::<ChannelRecordView, StorageError>(record),
{
    let bytes = channel_bytes(record);
    assert(bytes[0] == record.state.spec_prefix());
    match record.state {
        ChannelState::Signed(substate) => {
            assert(bytes[1] == substate.spec_prefix());
            assert(bytes.skip(2) =~= record.payload);
        },
        _ => {
            assert(bytes.skip(1) =~= record.payload);
        },
    }
}

/// Bytes that read as a contract are the bytes that writing it gives.
pub proof fn lemma_contract_bytes_unique(bytes: Seq<u8>, record: ContractRecordView)
    requires
        parse_contract(bytes) == Ok::<ContractRecordView, StorageError>(record),
    ensures
        contract_bytes(record) == bytes,
{
    assert(contract_bytes(record) =~= bytes);
}

/// Bytes that read as a channel are the bytes that writing it gives.
pub proof fn lemma_channel_bytes_unique(bytes: Seq<u8>, record: ChannelRecordView)
    requires
        parse_channel(bytes) == Ok::<ChannelRecordView, StorageError>(record),
    ensures
        channel_bytes(record) == bytes,
{
    assert(channel_bytes(record) =~= bytes);
}

} // verus!
