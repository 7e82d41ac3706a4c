//! The decisions of the manager: the one actor that changes the state of
//! contracts and channels.
//!
//! The manager takes one command at a time. What a command needs from the
//! wallet, the oracle or the transport is done outside this crate; the manager
//! says what is to be done next, is told how it went, and decides what follows.
//! [`ManagerCore::handle`] is that decision: from the manager's state and an
//! event to its next state and the actions to perform, in order.

use vstd::prelude::*;

verus! {

/// A command for the manager.
#[derive(Clone, Copy, Debug, PartialEq, Eq)]
pub enum DlcManagerMessage {
    /// Accept the contract that was offered under this temporary id.
    AcceptDlc { contract: [u8; 32] },
    /// Offer a contract to a counterparty.
    OfferDlc,
    /// Apply the messages that the transport has received.
    ProcessMessages,
    /// Stop taking commands.
    Shutdown,
}

/// How applying one received message went.
#[derive(Clone, Copy, Debug, PartialEq, Eq)]
pub enum MessageOutcome {
    /// The message could not be applied.
    Failed,
    /// The message was applied and calls for no answer.
    NoReply,
    /// The message was applied and an answer is ready to be sent.
    Reply,
}

/// What the manager is busy with.
#[derive(Clone, Copy, Debug, PartialEq, Eq)]
pub enum ManagerState {
    /// Waiting for the next command.
    Idle,
    /// An offer is being built.
    Offering,
    /// The acceptance of this contract is being built.
    Accepting { contract: [u8; 32] },
    /// The transport is handing over the messages it has received.
    Draining,
    /// Message `next` of `count` received messages is being applied.
    Applying { next: usize, count: usize },
    /// The transport is being asked whether it holds unsent messages.
    CheckingPending,
    /// The manager has been shut down.
    Stopped,
}

/// What the manager is told.
#[derive(Clone, Copy, Debug, PartialEq, Eq)]
pub enum ManagerEvent {
    /// The next command has come off the queue.
    Command(DlcManagerMessage),
    /// Building the offer has ended, well or not.
    OfferBuilt { ok: bool },
    /// Building the acceptance has ended, well or not.
    AcceptBuilt { ok: bool },
    /// The transport has handed over `count` received messages.
    MessagesTaken { count: usize },
    /// The message that was being applied has been dealt with.
    MessageApplied(MessageOutcome),
    /// The transport has said whether it holds unsent messages.
    PendingChecked { pending: bool },
}

/// What the manager wants done.
#[derive(Clone, Copy, Debug, PartialEq, Eq)]
pub enum ManagerAction {
    /// Build an offer, store the offered contract, and report with `OfferBuilt`.
    BuildOffer,
    /// Build the acceptance of this contract, store the accepted contract, and
    /// report with `AcceptBuilt`.
    BuildAccept { contract: [u8; 32] },
    /// Hand the offer message to the caller who is waiting for it.
    ReplyOffer,
    /// Hand the acceptance of this contract to the caller who is waiting.
    ReplyAccept { contract: [u8; 32] },
    /// Hand the error to the caller who is waiting. The command is not tried
    /// again.
    ReplyError,
    /// Take the received messages from the transport and report their number
    /// with `MessagesTaken`.
    TakeMessages,
    /// Apply the received message at `index` and report with `MessageApplied`.
    ApplyMessage { index: usize },
    /// Send the answer to the message at `index` to the peer it came from.
    SendReply { index: usize },
    /// Log that the message at `index` could not be applied, and drop it.
    DropMessage { index: usize },
    /// Ask the transport whether it holds unsent messages and report with
    /// `PendingChecked`.
    CheckPending,
    /// Have the transport send what it holds.
    Flush,
    /// Leave the command loop.
    Stop,
}

/// Why the manager refused an event.
#[derive(Clone, Copy, Debug, PartialEq, Eq)]
pub enum ProtocolError {
    /// The event does not answer what the manager is busy with.
    UnexpectedEvent,
    /// The manager has been shut down.
    Stopped,
}

/// What is done about a message at `index` once it has been dealt with.
pub open spec fn follow_up(outcome: MessageOutcome, index: usize) -> Seq<ManagerAction> {
    match outcome {
        MessageOutcome::Failed => seq![ManagerAction::DropMessage { index }],
        MessageOutcome::NoReply => seq![],
        MessageOutcome::Reply => seq![ManagerAction::SendReply { index }],
    }
}

/// What follows the message at `index` of `count`: the next message, or the
/// question whether anything is left to send.
pub open spec fn after_message(index: usize, count: usize) -> (ManagerState, Seq<ManagerAction>) {
    if index + 1 < count {
        (
            ManagerState::Applying { next: (index + 1) as usize, count },
            seq![ManagerAction::ApplyMessage { index: (index + 1) as usize }],
        )
    } else {
        (ManagerState::CheckingPending, seq![ManagerAction::CheckPending])
    }
}

/// The manager's decision: the state it goes to and the actions it asks for,
/// in order, or the reason why it refuses the event and stays as it is.
pub open spec fn spec_step(state: ManagerState, event: ManagerEvent) -> Result<
    (ManagerState, Seq<ManagerAction>),
    ProtocolError,
> {
    match (state, event) {
        (ManagerState::Stopped, _) => Err(ProtocolError::Stopped),
        (ManagerState::Idle, ManagerEvent::Command(DlcManagerMessage::OfferDlc)) => Ok(
            (ManagerState::Offering, seq![ManagerAction::BuildOffer]),
        ),
        (ManagerState::Idle, ManagerEvent::Command(DlcManagerMessage::AcceptDlc { contract })) => Ok(
            (ManagerState::Accepting { contract }, seq![ManagerAction::BuildAccept { contract }]),
        ),
        (ManagerState::Idle, ManagerEvent::Command(DlcManagerMessage::ProcessMessages)) => Ok(
            (ManagerState::Draining, seq![ManagerAction::TakeMessages]),
        ),
        (ManagerState::Idle, ManagerEvent::Command(DlcManagerMessage::Shutdown)) => Ok(
            (ManagerState::Stopped, seq![ManagerAction::Stop]),
        ),
        (ManagerState::Offering, ManagerEvent::OfferBuilt { ok }) => Ok(
            (
                ManagerState::Idle,
                if ok {
                    seq![ManagerAction::ReplyOffer]
                } else {
                    seq![ManagerAction::ReplyError]
                },
            ),
        ),
        (ManagerState::Accepting { contract }, ManagerEvent::AcceptBuilt { ok }) => Ok(
            (
                ManagerState::Idle,
                if ok {
                    seq![ManagerAction::ReplyAccept { contract }]
                } else {
                    seq![ManagerAction::ReplyError]
                },
            ),
        ),
        (ManagerState::Draining, ManagerEvent::MessagesTaken { count }) => Ok(
            if count > 0 {
                (ManagerState::Applying { next: 0, count }, seq![ManagerAction::ApplyMessage { index: 0 }])
            } else {
                (ManagerState::CheckingPending, seq![ManagerAction::CheckPending])
            },
        ),
        (ManagerState::Applying { next, count }, ManagerEvent::MessageApplied(outcome)) => Ok(
            (after_message(next, count).0, follow_up(outcome, next) + after_message(next, count).1),
        ),
        (ManagerState::CheckingPending, ManagerEvent::PendingChecked { pending }) => Ok(
            (
                ManagerState::Idle,
                if pending {
                    seq![ManagerAction::Flush]
                } else {
                    seq![]
                },
            ),
        ),
        _ => Err(ProtocolError::UnexpectedEvent),
    }
}

/// The manager's decisions over a run of events: the state it ends in and all
/// the actions it asks for, in order, or the first refusal.
pub open spec fn spec_run(state: ManagerState, events: Seq<ManagerEvent>) -> Result<
    (ManagerState, Seq<ManagerAction>),
    ProtocolError,
>
    decreases events.len(),
{
    if events.len() == 0 {
        Ok((state, Seq::empty()))
    } else {
        match spec_step(state, events[0]) {
            Err(e) => Err(e),
            Ok(first) => match spec_run(first.0, events.drop_first()) {
                Err(e) => Err(e),
                Ok(rest) => Ok((rest.0, first.1 + rest.1)),
            },
        }
    }
}

/// The events that follow the messages from `from` on, when their outcomes
/// are `outcomes`: one for each message, then the transport's word on what is
/// left to send.
pub open spec fn drain_events(outcomes: Seq<MessageOutcome>, from: int, pending: bool) -> Seq<ManagerEvent>
    decreases outcomes.len() - from,
{
    if from >= outcomes.len() {
        seq![ManagerEvent::PendingChecked { pending }]
    } else {
        seq![ManagerEvent::MessageApplied(outcomes[from])] + drain_events(outcomes, from + 1, pending)
    }
}

/// What is done for the messages from `from` on: each is applied and followed
/// up, in order; then the transport is asked what is left to send, and sends
/// it if anything is.
pub open spec fn drain_actions(outcomes: Seq<MessageOutcome>, from: int, pending: bool) -> Seq<ManagerAction>
    decreases outcomes.len() - from,
{
    if from >= outcomes.len() {
        if pending {
            seq![ManagerAction::CheckPending, ManagerAction::Flush]
        } else {
            seq![ManagerAction::CheckPending]
        }
    } else {
        seq![ManagerAction::ApplyMessage { index: from as usize }] + follow_up(outcomes[from], from as usize)
            + drain_actions(outcomes, from + 1, pending)
    }
}

/// The indices of the messages that a run of actions applies, in order.
pub open spec fn applied_indices(actions: Seq<ManagerAction>) -> Seq<usize>
    decreases actions.len(),
{
    if actions.len() == 0 {
        Seq::empty()
    } else {
        match actions[0] {
            ManagerAction::ApplyMessage { index } => seq![index] + applied_indices(actions.drop_first()),
            _ => applied_indices(actions.drop_first()),
        }
    }
}

/// Events are dealt with in the order in which they come: a run over two
/// batches of events is the run over the first, followed from where it ended
/// by the run over the second, and its actions are those of the first batch
/// and then those of the second. A refusal ends the run.
pub proof fn lemma_run_composes(state: ManagerState, first: Seq<ManagerEvent>, second: Seq<ManagerEvent>)
    ensures
        spec_run(state, first + second) == match spec_run(state, first) {
            Err(e) => Err::<(ManagerState, Seq<ManagerAction>), ProtocolError>(e),
            Ok(middle) => match spec_run(middle.0, second) {
                Err(e) => Err(e),
                Ok(end) => Ok((end.0, middle.1 + end.1)),
            },
        },
    decreases first.len(),
{
    let all = first + second;
    if first.len() == 0 {
        assert(all =~= second);
        match spec_run(state, second) {
            Ok(end) => {
                assert(Seq::<ManagerAction>::empty() + end.1 =~= end.1);
            },
            Err(_) => {},
        }
    } else {
        assert(all[0] == first[0]);
        assert(all.drop_first() =~= first.drop_first() + second);
        match spec_step(state, first[0]) {
            Err(_) => {},
            Ok(step) => {
                lemma_run_composes(step.0, first.drop_first(), second);
                match spec_run(step.0, first.drop_first()) {
                    Err(_) => {},
                    Ok(rest) => {
                        match spec_run(rest.0, second) {
                            Err(_) => {},
                            Ok(end) => {
                                assert(step.1 + (rest.1 + end.1) =~= (step.1 + rest.1) + end.1);
                            },
                        }
                    },
                }
            },
        }
    }
}

proof fn lemma_drain_from(outcomes: Seq<MessageOutcome>, from: int, pending: bool)
    requires
        0 <= from < outcomes.len() <= usize::MAX,
    ensures
        spec_run(
            ManagerState::Applying { next: from as usize, count: outcomes.len() as usize },
            drain_events(outcomes, from, pending),
        ) == Ok::<(ManagerState, Seq<ManagerAction>), ProtocolError>(
            (
                ManagerState::Idle,
                follow_up(outcomes[from], from as usize) + drain_actions(outcomes, from + 1, pending),
            ),
        ),
    decreases outcomes.len() - from,
{
    let count = outcomes.len() as usize;
    let state = ManagerState::Applying { next: from as usize, count };
    let events = drain_events(outcomes, from, pending);
    let rest = drain_events(outcomes, from + 1, pending);
    assert(events[0] == ManagerEvent::MessageApplied(outcomes[from]));
    assert(events.drop_first() =~= rest);
    let first = spec_step(state, events[0])->Ok_0;
    if from + 1 < outcomes.len() {
        lemma_drain_from(outcomes, from + 1, pending);
        let tail = spec_run(first.0, rest)->Ok_0;
        assert(first.1 + tail.1 =~= follow_up(outcomes[from], from as usize) + drain_actions(
            outcomes,
            from + 1,
            pending,
        ));
    } else {
        assert(first.0 == ManagerState::CheckingPending);
        assert(rest =~= seq![ManagerEvent::PendingChecked { pending }]);
        assert(rest.drop_first() =~= Seq::<ManagerEvent>::empty());
        let last = spec_step(first.0, rest[0])->Ok_0;
        assert(spec_run(last.0, rest.drop_first()) == Ok::<(ManagerState, Seq<ManagerAction>), ProtocolError>(
            (ManagerState::Idle, Seq::empty()),
        ));
        let tail = spec_run(first.0, rest)->Ok_0;
        assert(tail.1 =~= last.1);
        assert(first.1 + tail.1 =~= follow_up(outcomes[from], from as usize) + drain_actions(
            outcomes,
            from + 1,
            pending,
        ));
    }
}

/// A command to process messages runs to its end whatever happens to the
/// single messages: each of the received messages is applied, in the order in
/// which the transport handed them over; a message that fails is dropped and
/// an answer is sent on, and either way the next message has its turn; at the
/// end the transport is asked whether anything is left to send, and the
/// manager is ready for the next command.
pub proof fn lemma_process_messages_runs_to_the_end(outcomes: Seq<MessageOutcome>, pending: bool)
    requires
        outcomes.len() <= usize::MAX,
    ensures
        spec_run(
            ManagerState::Idle,
            seq![
                ManagerEvent::Command(DlcManagerMessage::ProcessMessages),
                ManagerEvent::MessagesTaken { count: outcomes.len() as usize },
            ] + drain_events(outcomes, 0, pending),
        ) == Ok::<(ManagerState, Seq<ManagerAction>), ProtocolError>(
            (ManagerState::Idle, seq![ManagerAction::TakeMessages] + drain_actions(outcomes, 0, pending)),
        ),
{
    let count = outcomes.len() as usize;
    let tail = drain_events(outcomes, 0, pending);
    let events = seq![
        ManagerEvent::Command(DlcManagerMessage::ProcessMessages),
        ManagerEvent::MessagesTaken { count },
    ] + tail;
    let after_command = events.drop_first();
    assert(after_command =~= seq![ManagerEvent::MessagesTaken { count }] + tail);
    assert(after_command.drop_first() =~= tail);
    let taken = spec_step(ManagerState::Draining, after_command[0])->Ok_0;
    if outcomes.len() > 0 {
        lemma_drain_from(outcomes, 0, pending);
        let rest = spec_run(taken.0, tail)->Ok_0;
        assert(taken.1 + rest.1 =~= drain_actions(outcomes, 0, pending));
    } else {
        assert(tail =~= seq![ManagerEvent::PendingChecked { pending }]);
        assert(tail.drop_first() =~= Seq::<ManagerEvent>::empty());
        let last = spec_step(taken.0, tail[0])->Ok_0;
        assert(spec_run(last.0, tail.drop_first()) == Ok::<(ManagerState, Seq<ManagerAction>), ProtocolError>(
            (ManagerState::Idle, Seq::empty()),
        ));
        let rest = spec_run(taken.0, tail)->Ok_0;
        assert(rest.1 =~= last.1);
        assert(taken.1 + rest.1 =~= drain_actions(outcomes, 0, pending));
    }
    let drained = spec_run(ManagerState::Draining, after_command)->Ok_0;
    assert(drained.1 =~= drain_actions(outcomes, 0, pending));
    assert(seq![ManagerAction::TakeMessages] + drained.1 =~= seq![ManagerAction::TakeMessages] + drain_actions(
        outcomes,
        0,
        pending,
    ));
}

/// The actions of a drain apply every message from `from` on exactly once, in
/// order, and no other.
pub proof fn lemma_drain_applies_each_once(outcomes: Seq<MessageOutcome>, from: int, pending: bool)
    requires
        0 <= from <= outcomes.len() <= usize::MAX,
    ensures
        applied_indices(drain_actions(outcomes, from, pending)) == Seq::new(
            (outcomes.len() - from) as nat,
            |k: int| (from + k) as usize,
        ),
    decreases outcomes.len() - from,
{
    let actions = drain_actions(outcomes, from, pending);
    let expected = Seq::new((outcomes.len() - from) as nat, |k: int| (from + k) as usize);
    if from >= outcomes.len() {
        reveal_with_fuel(applied_indices, 3);
        if pending {
            assert(actions.drop_first() =~= seq![ManagerAction::Flush]);
            assert(actions.drop_first().drop_first() =~= Seq::<ManagerAction>::empty());
        } else {
            assert(actions.drop_first() =~= Seq::<ManagerAction>::empty());
        }
        assert(applied_indices(actions) =~= expected);
    } else {
        lemma_drain_applies_each_once(outcomes, from + 1, pending);
        let rest = drain_actions(outcomes, from + 1, pending);
        let followed = follow_up(outcomes[from], from as usize) + rest;
        assert(actions.drop_first() =~= followed);
        match outcomes[from] {
            MessageOutcome::NoReply => {
                assert(followed =~= rest);
            },
            _ => {
                assert(followed.drop_first() =~= rest);
            },
        }
        assert(applied_indices(followed) == applied_indices(rest));
        assert(applied_indices(actions) =~= expected);
    }
}

/// A command to offer or to accept a contract is answered exactly once: with
/// the message where building it went well, else with the error. Either way
/// the manager is then ready for the next command.
pub proof fn lemma_every_call_is_answered_once(contract: [u8; 32], ok: bool)
    ensures
        spec_run(
            ManagerState::Idle,
            seq![ManagerEvent::Command(DlcManagerMessage::OfferDlc), ManagerEvent::OfferBuilt { ok }],
        ) == Ok::<(ManagerState, Seq<ManagerAction>), ProtocolError>(
            (
                ManagerState::Idle,
                seq![
                    ManagerAction::BuildOffer,
                    if ok {
                        ManagerAction::ReplyOffer
                    } else {
                        ManagerAction::ReplyError
                    },
                ],
            ),
        ),
        spec_run(
            ManagerState::Idle,
            seq![ManagerEvent::Command(DlcManagerMessage::AcceptDlc { contract }), ManagerEvent::AcceptBuilt { ok }],
        ) == Ok::<(ManagerState, Seq<ManagerAction>), ProtocolError>(
            (
                ManagerState::Idle,
                seq![
                    ManagerAction::BuildAccept { contract },
                    if ok {
                        ManagerAction::ReplyAccept { contract }
                    } else {
                        ManagerAction::ReplyError
                    },
                ],
            ),
        ),
{
    reveal_with_fuel(spec_run, 3);
    let offer = seq![ManagerEvent::Command(DlcManagerMessage::OfferDlc), ManagerEvent::OfferBuilt { ok }];
    assert(offer.drop_first() =~= seq![ManagerEvent::OfferBuilt { ok }]);
    assert(offer.drop_first().drop_first() =~= Seq::<ManagerEvent>::empty());
    let offered = spec_run(ManagerState::Idle, offer)->Ok_0;
    assert(offered.1 =~= seq![
        ManagerAction::BuildOffer,
        if ok {
            ManagerAction::ReplyOffer
        } else {
            ManagerAction::ReplyError
        },
    ]);
    let accept = seq![
        ManagerEvent::Command(DlcManagerMessage::AcceptDlc { contract }),
        ManagerEvent::AcceptBuilt { ok },
    ];
    assert(accept.drop_first() =~= seq![ManagerEvent::AcceptBuilt { ok }]);
    assert(accept.drop_first().drop_first() =~= Seq::<ManagerEvent>::empty());
    let accepted = spec_run(ManagerState::Idle, accept)->Ok_0;
    assert(accepted.1 =~= seq![
        ManagerAction::BuildAccept { contract },
        if ok {
            ManagerAction::ReplyAccept { contract }
        } else {
            ManagerAction::ReplyError
        },
    ]);
}

/// One command of the queue and how handling it went: whether the offer or
/// the acceptance could be built, or what became of each received message and
/// whether the transport had anything left to send.
pub enum CommandRun {
    Offer { ok: bool },
    Accept { contract: [u8; 32], ok: bool },
    Process { outcomes: Seq<MessageOutcome>, pending: bool },
}

/// The events that the manager is told while it handles one command.
pub open spec fn command_events(run: CommandRun) -> Seq<ManagerEvent> {
    match run {
        CommandRun::Offer { ok } => seq![
            ManagerEvent::Command(DlcManagerMessage::OfferDlc),
            ManagerEvent::OfferBuilt { ok },
        ],
        CommandRun::Accept { contract, ok } => seq![
            ManagerEvent::Command(DlcManagerMessage::AcceptDlc { contract }),
            ManagerEvent::AcceptBuilt { ok },
        ],
        CommandRun::Process { outcomes, pending } => seq![
            ManagerEvent::Command(DlcManagerMessage::ProcessMessages),
            ManagerEvent::MessagesTaken { count: outcomes.len() as usize },
        ] + drain_events(outcomes, 0, pending),
    }
}

/// The actions that the manager asks for while it handles one command.
pub open spec fn command_actions(run: CommandRun) -> Seq<ManagerAction> {
    match run {
        CommandRun::Offer { ok } => seq![
            ManagerAction::BuildOffer,
            if ok {
                ManagerAction::ReplyOffer
            } else {
                ManagerAction::ReplyError
            },
        ],
        CommandRun::Accept { contract, ok } => seq![
            ManagerAction::BuildAccept { contract },
            if ok {
                ManagerAction::ReplyAccept { contract }
            } else {
                ManagerAction::ReplyError
            },
        ],
        CommandRun::Process { outcomes, pending } => seq![ManagerAction::TakeMessages] + drain_actions(
            outcomes,
            0,
            pending,
        ),
    }
}

/// The command can be handled: a drain holds no more messages than can be
/// counted.
pub open spec fn countable(run: CommandRun) -> bool {
    run matches CommandRun::Process { outcomes, .. } ==> outcomes.len() <= usize::MAX
}

/// The events of a whole queue of commands, in the order of the queue.
pub open spec fn queue_events(runs: Seq<CommandRun>) -> Seq<ManagerEvent>
    decreases runs.len(),
{
    if runs.len() == 0 {
        Seq::empty()
    } else {
        command_events(runs[0]) + queue_events(runs.drop_first())
    }
}

/// The actions of a whole queue of commands, in the order of the queue.
pub open spec fn queue_actions(runs: Seq<CommandRun>) -> Seq<ManagerAction>
    decreases runs.len(),
{
    if runs.len() == 0 {
        Seq::empty()
    } else {
        command_actions(runs[0]) + queue_actions(runs.drop_first())
    }
}

/// How many commands of the queue offer or accept a contract.
pub open spec fn calls_in(runs: Seq<CommandRun>) -> nat
    decreases runs.len(),
{
    if runs.len() == 0 {
        0
    } else {
        (if runs[0] is Process {
            0nat
        } else {
            1nat
        }) + calls_in(runs.drop_first())
    }
}

/// How many received messages the commands of the queue drain, all in all.
pub open spec fn messages_in(runs: Seq<CommandRun>) -> nat
    decreases runs.len(),
{
    if runs.len() == 0 {
        0
    } else {
        (match runs[0] {
            CommandRun::Process { outcomes, .. } => outcomes.len(),
            _ => 0nat,
        }) + messages_in(runs.drop_first())
    }
}

/// The action changes the state of a contract or channel: it builds an offer,
/// builds an acceptance, or applies a received message.
pub open spec fn is_transition(action: ManagerAction) -> bool {
    action is BuildOffer || action is BuildAccept || action is ApplyMessage
}

/// How many of the actions change the state of a contract or channel.
pub open spec fn transitions_in(actions: Seq<ManagerAction>) -> nat
    decreases actions.len(),
{
    if actions.len() == 0 {
        0
    } else {
        (if is_transition(actions[0]) {
            1nat
        } else {
            0nat
        }) + transitions_in(actions.drop_first())
    }
}

/// The transitions of two runs of actions, one after the other, are those of
/// the one and those of the other.
pub proof fn lemma_transitions_add(first: Seq<ManagerAction>, second: Seq<ManagerAction>)
    ensures
        transitions_in(first + second) == transitions_in(first) + transitions_in(second),
    decreases first.len(),
{
    let all = first + second;
    if first.len() == 0 {
        assert(all =~= second);
    } else {
        assert(all[0] == first[0]);
        assert(all.drop_first() =~= first.drop_first() + second);
        lemma_transitions_add(first.drop_first(), second);
    }
}

proof fn lemma_transitions_of_drain(outcomes: Seq<MessageOutcome>, from: int, pending: bool)
    requires
        0 <= from <= outcomes.len(),
    ensures
        transitions_in(drain_actions(outcomes, from, pending)) == outcomes.len() - from,
    decreases outcomes.len() - from,
{
    let actions = drain_actions(outcomes, from, pending);
    reveal_with_fuel(transitions_in, 3);
    if from >= outcomes.len() {
        if pending {
            assert(actions.drop_first() =~= seq![ManagerAction::Flush]);
            assert(actions.drop_first().drop_first() =~= Seq::<ManagerAction>::empty());
        } else {
            assert(actions.drop_first() =~= Seq::<ManagerAction>::empty());
        }
    } else {
        lemma_transitions_of_drain(outcomes, from + 1, pending);
        let apply = seq![ManagerAction::ApplyMessage { index: from as usize }];
        let follow = follow_up(outcomes[from], from as usize);
        let rest = drain_actions(outcomes, from + 1, pending);
        assert(actions =~= apply + (follow + rest));
        lemma_transitions_add(apply, follow + rest);
        lemma_transitions_add(follow, rest);
        assert(apply.drop_first() =~= Seq::<ManagerAction>::empty());
        assert(transitions_in(apply) == 1);
        match outcomes[from] {
            MessageOutcome::NoReply => {
                assert(follow =~= Seq::<ManagerAction>::empty());
            },
            _ => {
                assert(follow.drop_first() =~= Seq::<ManagerAction>::empty());
            },
        }
        assert(transitions_in(follow) == 0);
    }
}

/// Handling one command takes the manager from idle back to idle, whatever
/// the command is and however it goes, and asks for exactly the actions of
/// that command.
pub proof fn lemma_command_runs_to_idle(run: CommandRun)
    requires
        countable(run),
    ensures
        spec_run(ManagerState::Idle, command_events(run)) == Ok::<(ManagerState, Seq<ManagerAction>), ProtocolError>(
            (ManagerState::Idle, command_actions(run)),
        ),
{
    match run {
        CommandRun::Offer { ok } => {
            let any: [u8; 32] = arbitrary();
            lemma_every_call_is_answered_once(any, ok);
        },
        CommandRun::Accept { contract, ok } => {
            lemma_every_call_is_answered_once(contract, ok);
        },
        CommandRun::Process { outcomes, pending } => {
            lemma_process_messages_runs_to_the_end(outcomes, pending);
        },
    }
}

/// A queue of commands is handled in its order, one command at a time: the
/// manager takes up a command only when it is done with the one before, the
/// actions it asks for are those of the first command, then those of the
/// second, and so on, and at the end it is idle again.
pub proof fn lemma_queue_is_handled_in_order(runs: Seq<CommandRun>)
    requires
        forall|i: int| 0 <= i < runs.len() ==> countable(#[trigger] runs[i]),
    ensures
        spec_run(ManagerState::Idle, queue_events(runs)) == Ok::<(ManagerState, Seq<ManagerAction>), ProtocolError>(
            (ManagerState::Idle, queue_actions(runs)),
        ),
    decreases runs.len(),
{
    if runs.len() == 0 {
    } else {
        let rest = runs.drop_first();
        assert forall|i: int| 0 <= i < rest.len() implies countable(#[trigger] rest[i]) by {
            assert(rest[i] == runs[i + 1]);
        }
        lemma_command_runs_to_idle(runs[0]);
        lemma_queue_is_handled_in_order(rest);
        lemma_run_composes(ManagerState::Idle, command_events(runs[0]), queue_events(rest));
    }
}

/// Whatever the queue holds, each command that offers or accepts a contract
/// and each received message leads to exactly one transition: with N such
/// commands and M messages drained, the manager asks for N + M transitions,
/// no more and no fewer.
pub proof fn lemma_one_transition_for_each_call_and_message(runs: Seq<CommandRun>)
    ensures
        transitions_in(queue_actions(runs)) == calls_in(runs) + messages_in(runs),
    decreases runs.len(),
{
    if runs.len() == 0 {
    } else {
        let rest = runs.drop_first();
        lemma_one_transition_for_each_call_and_message(rest);
        lemma_transitions_add(command_actions(runs[0]), queue_actions(rest));
        match runs[0] {
            CommandRun::Process { outcomes, pending } => {
                let take = seq![ManagerAction::TakeMessages];
                lemma_transitions_add(take, drain_actions(outcomes, 0, pending));
                lemma_transitions_of_drain(outcomes, 0, pending);
                reveal_with_fuel(transitions_in, 2);
                assert(take.drop_first() =~= Seq::<ManagerAction>::empty());
            },
            _ => {
                reveal_with_fuel(transitions_in, 3);
                let actions = command_actions(runs[0]);
                assert(actions.drop_first().drop_first() =~= Seq::<ManagerAction>::empty());
            },
        }
    }
}

/// The manager: its state, and nothing else.
pub struct ManagerCore {
    state: ManagerState,
}

impl View for ManagerCore {
    type V = ManagerState;

    closed spec fn view(&self) -> ManagerState {
        self.state
    }
}

impl ManagerCore {
    /// A manager that waits for its first command.
    pub fn new() -> (core: ManagerCore)
        ensures
            core@ == ManagerState::Idle,
    {
        ManagerCore { state: ManagerState::Idle }
    }

    /// What the manager is busy with.
    pub fn state(&self) -> (state: ManagerState)
        ensures
            state == self@,
    {
        self.state
    }

    /// Tells whether the manager is ready for the next command.
    pub fn is_idle(&self) -> (idle: bool)
        ensures
            idle == (self@ is Idle),
    {
        match self.state {
            ManagerState::Idle => true,
            _ => false,
        }
    }

    /// Takes an event and decides what follows: the manager moves to its next
    /// state and returns the actions to perform, in order. An event that does
    /// not answer what the manager is busy with is refused, and the manager
    /// stays as it is.
    pub fn handle(&mut self, event: ManagerEvent) -> (r: Result<Vec<ManagerAction>, ProtocolError>)
        ensures
            match r {
                Ok(actions) => spec_step(old(self)@, event) == Ok::<
                    (ManagerState, Seq<ManagerAction>),
                    ProtocolError,
                >((final(self)@, actions@)),
                Err(e) => spec_step(old(self)@, event) == Err::<(ManagerState, Seq<ManagerAction>), ProtocolError>(e)
                    && final(self)@ == old(self)@,
            },
    {
        let mut actions: Vec<ManagerAction> = Vec::new();
        match (self.state, event) {
            (ManagerState::Stopped, _) => {
                return Err(ProtocolError::Stopped);
            },
            (ManagerState::Idle, ManagerEvent::Command(command)) => match command {
                DlcManagerMessage::OfferDlc => {
                    actions.push(ManagerAction::BuildOffer);
                    self.state = ManagerState::Offering;
                },
                DlcManagerMessage::AcceptDlc { contract } => {
                    actions.push(ManagerAction::BuildAccept { contract });
                    self.state = ManagerState::Accepting { contract };
                },
                DlcManagerMessage::ProcessMessages => {
                    actions.push(ManagerAction::TakeMessages);
                    self.state = ManagerState::Draining;
                },
                DlcManagerMessage::Shutdown => {
                    actions.push(ManagerAction::Stop);
                    self.state = ManagerState::Stopped;
                },
            },
            (ManagerState::Offering, ManagerEvent::OfferBuilt { ok }) => {
                if ok {
                    actions.push(ManagerAction::ReplyOffer);
                } else {
                    actions.push(ManagerAction::ReplyError);
                }
                self.state = ManagerState::Idle;
            },
            (ManagerState::Accepting { contract }, ManagerEvent::AcceptBuilt { ok }) => {
                if ok {
                    actions.push(ManagerAction::ReplyAccept { contract });
                } else {
                    actions.push(ManagerAction::ReplyError);
                }
                self.state = ManagerState::Idle;
            },
            (ManagerState::Draining, ManagerEvent::MessagesTaken { count }) => {
                if count > 0 {
                    actions.push(ManagerAction::ApplyMessage { index: 0 });
                    self.state = ManagerState::Applying { next: 0, count };
                } else {
                    actions.push(ManagerAction::CheckPending);
                    self.state = ManagerState::CheckingPending;
                }
            },
            (ManagerState::Applying { next, count }, ManagerEvent::MessageApplied(outcome)) => {
                match outcome {
                    MessageOutcome::Failed => {
                        actions.push(ManagerAction::DropMessage { index: next });
                    },
                    MessageOutcome::NoReply => {},
                    MessageOutcome::Reply => {
                        actions.push(ManagerAction::SendReply { index: next });
                    },
                }
                assert(actions@ =~= follow_up(outcome, next));
                if count > 0 && next < count - 1 {
                    actions.push(ManagerAction::ApplyMessage { index: next + 1 });
                    self.state = ManagerState::Applying { next: next + 1, count };
                } else {
                    actions.push(ManagerAction::CheckPending);
                    self.state = ManagerState::CheckingPending;
                }
                assert(actions@ =~= follow_up(outcome, next) + after_message(next, count).1);
            },
            (ManagerState::CheckingPending, ManagerEvent::PendingChecked { pending }) => {
                if pending {
                    actions.push(ManagerAction::Flush);
                }
                self.state = ManagerState::Idle;
            },
            _ => {
                return Err(ProtocolError::UnexpectedEvent);
            },
        }
        assert(spec_step(old(self)@, event) matches Ok(step) && step.1 =~= actions@ && step.0 == self@);
        Ok(actions)
    }
}

} // verus!
