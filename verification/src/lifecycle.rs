//! The states of contracts and channels, the bytes that tag them in stored
//! records, and the moves between states that the protocol allows.

use vstd::prelude::*;

verus! {

/// The state of a contract.
#[derive(Clone, Copy, Debug, PartialEq, Eq, Structural)]
pub enum ContractState {
    Offered,
    Accepted,
    Signed,
    Confirmed,
    PreClosed,
    Closed,
    FailedAccept,
    FailedSign,
    Refunded,
    Rejected,
}

impl ContractState {
    /// The byte that tags a stored contract in this state.
    pub open spec fn spec_prefix(self) -> u8 {
        match self {
            ContractState::Offered => 1,
            ContractState::Accepted => 2,
            ContractState::Signed => 3,
            ContractState::Confirmed => 4,
            ContractState::PreClosed => 5,
            ContractState::Closed => 6,
            ContractState::FailedAccept => 7,
            ContractState::FailedSign => 8,
            ContractState::Refunded => 9,
            ContractState::Rejected => 10,
        }
    }

    /// The state that a tag byte stands for, if any.
    pub open spec fn spec_from_prefix(byte: u8) -> Option<ContractState> {
        if byte == 1 {
            Some(ContractState::Offered)
        } else if byte == 2 {
            Some(ContractState::Accepted)
        } else if byte == 3 {
            Some(ContractState::Signed)
        } else if byte == 4 {
            Some(ContractState::Confirmed)
        } else if byte == 5 {
            Some(ContractState::PreClosed)
        } else if byte == 6 {
            Some(ContractState::Closed)
        } else if byte == 7 {
            Some(ContractState::FailedAccept)
        } else if byte == 8 {
            Some(ContractState::FailedSign)
        } else if byte == 9 {
            Some(ContractState::Refunded)
        } else if byte == 10 {
            Some(ContractState::Rejected)
        } else {
            None
        }
    }

    #[verifier::when_used_as_spec(spec_prefix)]
    pub fn prefix(self) -> (byte: u8)
        ensures
            byte == self.spec_prefix(),
    {
        match self {
            ContractState::Offered => 1,
            ContractState::Accepted => 2,
            ContractState::Signed => 3,
            ContractState::Confirmed => 4,
            ContractState::PreClosed => 5,
            ContractState::Closed => 6,
            ContractState::FailedAccept => 7,
            ContractState::FailedSign => 8,
            ContractState::Refunded => 9,
            ContractState::Rejected => 10,
        }
    }

    /// Reads a tag byte; `None` for a byte that tags no contract state.
    pub fn from_prefix(byte: u8) -> (state: Option<ContractState>)
        ensures
            state == Self::spec_from_prefix(byte),
    {
        match byte {
            1 => Some(ContractState::Offered),
            2 => Some(ContractState::Accepted),
            3 => Some(ContractState::Signed),
            4 => Some(ContractState::Confirmed),
            5 => Some(ContractState::PreClosed),
            6 => Some(ContractState::Closed),
            7 => Some(ContractState::FailedAccept),
            8 => Some(ContractState::FailedSign),
            9 => Some(ContractState::Refunded),
            10 => Some(ContractState::Rejected),
            _ => None,
        }
    }
}


/// What a signed channel is doing: the second tag of its stored record.
#[derive(Clone, Copy, Debug, PartialEq, Eq, Structural)]
pub enum SignedChannelStateType {
    Established,
    SettledOffered,
    SettledReceived,
    SettledAccepted,
    SettledConfirmed,
    Settled,
    Closing,
    CollaborativeCloseOffered,
    RenewAccepted,
    RenewOffered,
    RenewFinalized,
    RenewConfirmed,
}

impl SignedChannelStateType {
    /// The byte that tags a stored signed channel in this substate.
    pub open spec fn spec_prefix(self) -> u8 {
        match self {
            SignedChannelStateType::Established => 1,
            SignedChannelStateType::SettledOffered => 2,
            SignedChannelStateType::SettledReceived => 3,
            SignedChannelStateType::SettledAccepted => 4,
            SignedChannelStateType::SettledConfirmed => 5,
            SignedChannelStateType::Settled => 6,
            SignedChannelStateType::Closing => 7,
            SignedChannelStateType::CollaborativeCloseOffered => 8,
            SignedChannelStateType::RenewAccepted => 9,
            SignedChannelStateType::RenewOffered => 10,
            SignedChannelStateType::RenewFinalized => 11,
            SignedChannelStateType::RenewConfirmed => 12,
        }
    }

    /// The substate that a tag byte stands for, if any.
    pub open spec fn spec_from_prefix(byte: u8) -> Option<SignedChannelStateType> {
        if byte == 1 {
            Some(SignedChannelStateType::Established)
        } else if byte == 2 {
            Some(SignedChannelStateType::SettledOffered)
        } else if byte == 3 {
            Some(SignedChannelStateType::SettledReceived)
        } else if byte == 4 {
            Some(SignedChannelStateType::SettledAccepted)
        } else if byte == 5 {
            Some(SignedChannelStateType::SettledConfirmed)
        } else if byte == 6 {
            Some(SignedChannelStateType::Settled)
        } else if byte == 7 {
            Some(SignedChannelStateType::Closing)
        } else if byte == 8 {
            Some(SignedChannelStateType::CollaborativeCloseOffered)
        } else if byte == 9 {
            Some(SignedChannelStateType::RenewAccepted)
        } else if byte == 10 {
            Some(SignedChannelStateType::RenewOffered)
        } else if byte == 11 {
            Some(SignedChannelStateType::RenewFinalized)
        } else if byte == 12 {
            Some(SignedChannelStateType::RenewConfirmed)
        } else {
            None
        }
    }

    #[verifier::when_used_as_spec(spec_prefix)]
    pub fn prefix(self) -> (byte: u8)
        ensures
            byte == self.spec_prefix(),
    {
        match self {
            SignedChannelStateType::Established => 1,
            SignedChannelStateType::SettledOffered => 2,
            SignedChannelStateType::SettledReceived => 3,
            SignedChannelStateType::SettledAccepted => 4,
            SignedChannelStateType::SettledConfirmed => 5,
            SignedChannelStateType::Settled => 6,
            SignedChannelStateType::Closing => 7,
            SignedChannelStateType::CollaborativeCloseOffered => 8,
            SignedChannelStateType::RenewAccepted => 9,
            SignedChannelStateType::RenewOffered => 10,
            SignedChannelStateType::RenewFinalized => 11,
            SignedChannelStateType::RenewConfirmed => 12,
        }
    }

    /// Reads a tag byte; `None` for a byte that tags no substate.
    pub fn from_prefix(byte: u8) -> (state: Option<SignedChannelStateType>)
        ensures
            state == Self::spec_from_prefix(byte),
    {
        match byte {
            1 => Some(SignedChannelStateType::Established),
            2 => Some(SignedChannelStateType::SettledOffered),
            3 => Some(SignedChannelStateType::SettledReceived),
            4 => Some(SignedChannelStateType::SettledAccepted),
            5 => Some(SignedChannelStateType::SettledConfirmed),
            6 => Some(SignedChannelStateType::Settled),
            7 => Some(SignedChannelStateType::Closing),
            8 => Some(SignedChannelStateType::CollaborativeCloseOffered),
            9 => Some(SignedChannelStateType::RenewAccepted),
            10 => Some(SignedChannelStateType::RenewOffered),
            11 => Some(SignedChannelStateType::RenewFinalized),
            12 => Some(SignedChannelStateType::RenewConfirmed),
            _ => None,
        }
    }
}

/// The state of a channel. A signed channel also says what it is doing.
#[derive(Clone, Copy, Debug, PartialEq, Eq, Structural)]
pub enum ChannelState {
    Offered,
    Accepted,
    Signed(SignedChannelStateType),
    FailedAccept,
    FailedSign,
    Closing,
    Closed,
    CounterClosed,
    ClosedPunished,
    CollaborativelyClosed,
    Cancelled,
}

impl ChannelState {
    /// The byte that tags a stored channel in this state.
    pub open spec fn spec_prefix(self) -> u8 {
        match self {
            ChannelState::Offered => 100,
            ChannelState::Accepted => 101,
            ChannelState::Signed(_) => 102,
            ChannelState::FailedAccept => 103,
            ChannelState::FailedSign => 104,
            ChannelState::Closing => 105,
            ChannelState::Closed => 106,
            ChannelState::CounterClosed => 107,
            ChannelState::ClosedPunished => 108,
            ChannelState::CollaborativelyClosed => 109,
            ChannelState::Cancelled => 110,
        }
    }

    #[verifier::when_used_as_spec(spec_prefix)]
    pub fn prefix(self) -> (byte: u8)
        ensures
            byte == self.spec_prefix(),
    {
        match self {
            ChannelState::Offered => 100,
            ChannelState::Accepted => 101,
            ChannelState::Signed(_) => 102,
            ChannelState::FailedAccept => 103,
            ChannelState::FailedSign => 104,
            ChannelState::Closing => 105,
            ChannelState::Closed => 106,
            ChannelState::CounterClosed => 107,
            ChannelState::ClosedPunished => 108,
            ChannelState::CollaborativelyClosed => 109,
            ChannelState::Cancelled => 110,
        }
    }

    /// The state that a tag byte stands for, if any. The byte of a signed
    /// channel stands for none by itself: its substate is in the next byte.
    pub open spec fn spec_from_prefix(byte: u8) -> Option<ChannelState> {
        if byte == 100 {
            Some(ChannelState::Offered)
        } else if byte == 101 {
            Some(ChannelState::Accepted)
        } else if byte == 103 {
            Some(ChannelState::FailedAccept)
        } else if byte == 104 {
            Some(ChannelState::FailedSign)
        } else if byte == 105 {
            Some(ChannelState::Closing)
        } else if byte == 106 {
            Some(ChannelState::Closed)
        } else if byte == 107 {
            Some(ChannelState::CounterClosed)
        } else if byte == 108 {
            Some(ChannelState::ClosedPunished)
        } else if byte == 109 {
            Some(ChannelState::CollaborativelyClosed)
        } else if byte == 110 {
            Some(ChannelState::Cancelled)
        } else {
            None
        }
    }

    /// Reads the tag byte of a channel that is not signed; `None` for the byte
    /// of a signed channel and for a byte that tags no channel state.
    pub fn from_prefix(byte: u8) -> (state: Option<ChannelState>)
        ensures
            state == Self::spec_from_prefix(byte),
    {
        match byte {
            100 => Some(ChannelState::Offered),
            101 => Some(ChannelState::Accepted),
            103 => Some(ChannelState::FailedAccept),
            104 => Some(ChannelState::FailedSign),
            105 => Some(ChannelState::Closing),
            106 => Some(ChannelState::Closed),
            107 => Some(ChannelState::CounterClosed),
            108 => Some(ChannelState::ClosedPunished),
            109 => Some(ChannelState::CollaborativelyClosed),
            110 => Some(ChannelState::Cancelled),
            _ => None,
        }
    }

    /// The substate of a signed channel; `None` in every other state.
    pub open spec fn spec_signed_state(self) -> Option<SignedChannelStateType> {
        match self {
            ChannelState::Signed(substate) => Some(substate),
            _ => None,
        }
    }

    #[verifier::when_used_as_spec(spec_signed_state)]
    pub fn signed_state(self) -> (substate: Option<SignedChannelStateType>)
        ensures
            substate == self.spec_signed_state(),
    {
        match self {
            ChannelState::Signed(substate) => Some(substate),
            _ => None,
        }
    }
}

impl ContractState {
    /// The protocol lets a contract in this state move to `next`.
    pub open spec fn spec_can_become(self, next: ContractState) -> bool {
        match self {
            ContractState::Offered => next is Accepted || next is FailedAccept || next is Rejected,
            ContractState::Accepted => next is Signed || next is FailedSign,
            ContractState::Signed => next is Confirmed || next is Refunded,
            ContractState::Confirmed => next is PreClosed || next is Refunded,
            ContractState::PreClosed => next is Closed,
            _ => false,
        }
    }

    /// No move leads out of this state.
    pub open spec fn spec_is_terminal(self) -> bool {
        self is Closed || self is FailedAccept || self is FailedSign || self is Refunded || self is Rejected
    }

    /// How far along its life a contract in this state is. Every move goes to
    /// a state that is further along.
    pub open spec fn progress(self) -> nat {
        match self {
            ContractState::Offered => 0,
            ContractState::Accepted => 1,
            ContractState::Signed => 2,
            ContractState::Confirmed => 3,
            ContractState::PreClosed => 4,
            _ => 5,
        }
    }

    /// Tells whether the protocol lets a contract in this state move to `next`.
    #[verifier::when_used_as_spec(spec_can_become)]
    pub fn can_become(self, next: ContractState) -> (allowed: bool)
        ensures
            allowed == self.spec_can_become(next),
    {
        match self {
            ContractState::Offered => match next {
                ContractState::Accepted => true,
                ContractState::FailedAccept => true,
                ContractState::Rejected => true,
                _ => false,
            },
            ContractState::Accepted => match next {
                ContractState::Signed => true,
                ContractState::FailedSign => true,
                _ => false,
            },
            ContractState::Signed => match next {
                ContractState::Confirmed => true,
                ContractState::Refunded => true,
                _ => false,
            },
            ContractState::Confirmed => match next {
                ContractState::PreClosed => true,
                ContractState::Refunded => true,
                _ => false,
            },
            ContractState::PreClosed => match next {
                ContractState::Closed => true,
                _ => false,
            },
            _ => false,
        }
    }

    /// Tells whether no move leads out of this state.
    #[verifier::when_used_as_spec(spec_is_terminal)]
    pub fn is_terminal(self) -> (terminal: bool)
        ensures
            terminal == self.spec_is_terminal(),
    {
        match self {
            ContractState::Closed => true,
            ContractState::FailedAccept => true,
            ContractState::FailedSign => true,
            ContractState::Refunded => true,
            ContractState::Rejected => true,
            _ => false,
        }
    }
}

/// Each contract state has a tag byte of its own, and the byte reads back as
/// the state.
pub proof fn lemma_contract_prefix_table(a: ContractState, b: ContractState, byte: u8)
    ensures
        ContractState::spec_from_prefix(a.spec_prefix()) == Some(a),
        a.spec_prefix() == b.spec_prefix() ==> a == b,
        ContractState::spec_from_prefix(byte) == Some(a) ==> a.spec_prefix() == byte,
        1 <= a.spec_prefix() <= 10,
{
}

/// A contract's terminal states are those that allow no move, and every move
/// goes forward: no run of moves comes back to a state it has left.
pub proof fn lemma_contract_moves(from: ContractState, to: ContractState)
    ensures
        from.spec_is_terminal() <==> forall|next: ContractState| !from.spec_can_become(next),
        from.spec_can_become(to) ==> from.progress() < to.progress(),
        !from.spec_can_become(ContractState::Offered),
{
    if !from.spec_is_terminal() {
        match from {
            ContractState::Offered => {
                assert(from.spec_can_become(ContractState::Accepted));
            },
            ContractState::Accepted => {
                assert(from.spec_can_become(ContractState::Signed));
            },
            ContractState::Signed => {
                assert(from.spec_can_become(ContractState::Confirmed));
            },
            ContractState::Confirmed => {
                assert(from.spec_can_become(ContractState::PreClosed));
            },
            _ => {
                assert(from.spec_can_become(ContractState::Closed));
            },
        }
    }
}

impl ChannelState {
    /// The protocol lets a channel in this state move to `next`. A signed
    /// channel may go from any of its substates to any other.
    pub open spec fn spec_can_become(self, next: ChannelState) -> bool {
        match self {
            ChannelState::Offered => next is Accepted || next is FailedAccept || next is Cancelled,
            ChannelState::Accepted => next is Signed || next is FailedSign || next is Cancelled,
            ChannelState::Signed(_) => next is Signed || next is Closing,
            ChannelState::Closing => next is Closed || next is CollaborativelyClosed || next is CounterClosed
                || next is ClosedPunished,
            _ => false,
        }
    }

    /// No move leads out of this state.
    pub open spec fn spec_is_terminal(self) -> bool {
        self is FailedAccept || self is FailedSign || self is Closed || self is CounterClosed
            || self is ClosedPunished || self is CollaborativelyClosed || self is Cancelled
    }

    /// How far along its life a channel in this state is. No move goes back.
    pub open spec fn progress(self) -> nat {
        match self {
            ChannelState::Offered => 0,
            ChannelState::Accepted => 1,
            ChannelState::Signed(_) => 2,
            ChannelState::Closing => 3,
            _ => 4,
        }
    }

    /// Tells whether the protocol lets a channel in this state move to `next`.
    #[verifier::when_used_as_spec(spec_can_become)]
    pub fn can_become(self, next: ChannelState) -> (allowed: bool)
        ensures
            allowed == self.spec_can_become(next),
    {
        match self {
            ChannelState::Offered => match next {
                ChannelState::Accepted => true,
                ChannelState::FailedAccept => true,
                ChannelState::Cancelled => true,
                _ => false,
            },
            ChannelState::Accepted => match next {
                ChannelState::Signed(_) => true,
                ChannelState::FailedSign => true,
                ChannelState::Cancelled => true,
                _ => false,
            },
            ChannelState::Signed(_) => match next {
                ChannelState::Signed(_) => true,
                ChannelState::Closing => true,
                _ => false,
            },
            ChannelState::Closing => match next {
                ChannelState::Closed => true,
                ChannelState::CollaborativelyClosed => true,
                ChannelState::CounterClosed => true,
                ChannelState::ClosedPunished => true,
                _ => false,
            },
            _ => false,
        }
    }

    /// Tells whether no move leads out of this state.
    #[verifier::when_used_as_spec(spec_is_terminal)]
    pub fn is_terminal(self) -> (terminal: bool)
        ensures
            terminal == self.spec_is_terminal(),
    {
        match self {
            ChannelState::FailedAccept => true,
            ChannelState::FailedSign => true,
            ChannelState::Closed => true,
            ChannelState::CounterClosed => true,
            ChannelState::ClosedPunished => true,
            ChannelState::CollaborativelyClosed => true,
            ChannelState::Cancelled => true,
            _ => false,
        }
    }
}

/// Each channel state has a tag byte of its own, apart from the substate of a
/// signed channel; each substate has a tag byte of its own; the bytes read
/// back as what they tag; and no byte tags both a contract and a channel.
pub proof fn lemma_channel_prefix_table(
    a: ChannelState,
    b: ChannelState,
    x: SignedChannelStateType,
    y: SignedChannelStateType,
    c: ContractState,
    byte: u8,
)
    ensures
        !(a is Signed) ==> ChannelState::spec_from_prefix(a.spec_prefix()) == Some(a),
        a.spec_prefix() == b.spec_prefix() ==> (a == b || (a is Signed && b is Signed)),
        ChannelState::spec_from_prefix(byte) == Some(a) ==> a.spec_prefix() == byte && !(a is Signed),
        100 <= a.spec_prefix() <= 110,
        SignedChannelStateType::spec_from_prefix(x.spec_prefix()) == Some(x),
        x.spec_prefix() == y.spec_prefix() ==> x == y,
        SignedChannelStateType::spec_from_prefix(byte) == Some(x) ==> x.spec_prefix() == byte,
        1 <= x.spec_prefix() <= 12,
        a.spec_prefix() != c.spec_prefix(),
{
}

/// A channel's terminal states are those that allow no move, no move goes
/// back, and only a signed channel can move without leaving its state.
pub proof fn lemma_channel_moves(from: ChannelState, to: ChannelState)
    ensures
        from.spec_is_terminal() <==> forall|next: ChannelState| !from.spec_can_become(next),
        from.spec_can_become(to) ==> from.progress() <= to.progress(),
        from.spec_can_become(to) && from.progress() == to.progress() ==> from is Signed && to is Signed,
        !from.spec_can_become(ChannelState::Offered),
{
    if !from.spec_is_terminal() {
        match from {
            ChannelState::Offered => {
                assert(from.spec_can_become(ChannelState::Accepted));
            },
            ChannelState::Accepted => {
                assert(from.spec_can_become(ChannelState::Cancelled));
            },
            ChannelState::Signed(_) => {
                assert(from.spec_can_become(ChannelState::Closing));
            },
            _ => {
                assert(from.spec_can_become(ChannelState::Closed));
            },
        }
    }
}

} // verus!
