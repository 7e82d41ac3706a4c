use ddk::ddk::{DlcDevKit, Network, Task, Tick};
use ddk::error::DdkError;
use ddk::ids::id_text;
use ddk::lifecycle::{ChannelState, ContractState, SignedChannelStateType};
use ddk::manager::{DlcManagerMessage, ManagerAction, ManagerCore, ManagerEvent, ManagerState};
use ddk::manager::{MessageOutcome, ProtocolError};
use ddk::peers::{contains_peer, same_peer, save_peer, PeerInformation};

#[test]
fn start_twice_fails_the_second_time() {
    let mut kit = DlcDevKit::new(Network::Regtest);
    assert!(!kit.is_running());
    let tasks = kit.start().expect("first start");
    assert_eq!(
        tasks,
        vec![
            Task::Worker,
            Task::Listener,
            Task::WalletSync { every_secs: 10 },
            Task::MessageTrigger { every_secs: 5 },
        ]
    );
    assert!(kit.is_running());
    assert!(matches!(kit.start(), Err(DdkError::AlreadyRunning)));
    assert!(kit.is_running());
    assert_eq!(DdkError::AlreadyRunning.message(), "DDK is still running.");
}

#[test]
fn stop_ends_the_worker_once() {
    let mut kit = DlcDevKit::new(Network::Bitcoin);
    assert_eq!(kit.stop(), None);
    kit.start().expect("start");
    assert_eq!(kit.stop(), Some(DlcManagerMessage::Shutdown));
    assert!(!kit.is_running());
    assert_eq!(kit.stop(), None);
    assert!(kit.start().is_ok());
    assert_eq!(kit.network(), Network::Bitcoin);
}

#[test]
fn periodic_tasks_know_their_work() {
    assert_eq!(Task::MessageTrigger { every_secs: 5 }.tick(), Tick::Enqueue(DlcManagerMessage::ProcessMessages));
    assert_eq!(Task::WalletSync { every_secs: 10 }.tick(), Tick::SyncWallet);
    assert_eq!(Task::Worker.tick(), Tick::Nothing);
    assert_eq!(Task::Listener.tick(), Tick::Nothing);
}

#[test]
fn lost_reply_is_an_error_of_its_own() {
    let lost: Option<Result<u8, DdkError>> = None;
    assert!(matches!(DlcDevKit::settle_reply(lost), Err(DdkError::ReplyLost)));
    assert!(matches!(DlcDevKit::settle_reply(Some(Ok(7u8))), Ok(7)));
    let failed: Option<Result<u8, DdkError>> = Some(Err(DdkError::Protocol("not offered".to_string())));
    match DlcDevKit::settle_reply(failed) {
        Err(DdkError::Protocol(text)) => assert_eq!(text, "not offered"),
        _ => unreachable!(),
    }
    assert_eq!(DdkError::ReplyLost.message(), "The manager did not answer.");
    assert_eq!(DdkError::Wallet("no utxo".to_string()).message(), "no utxo");
}

#[test]
fn offer_command_is_built_and_answered() {
    let mut core = ManagerCore::new();
    assert!(core.is_idle());
    let actions = core.handle(ManagerEvent::Command(DlcManagerMessage::OfferDlc)).expect("command");
    assert_eq!(actions, vec![ManagerAction::BuildOffer]);
    assert_eq!(core.state(), ManagerState::Offering);
    let actions = core.handle(ManagerEvent::OfferBuilt { ok: true }).expect("built");
    assert_eq!(actions, vec![ManagerAction::ReplyOffer]);
    assert!(core.is_idle());
}

#[test]
fn failed_accept_is_returned_to_the_caller() {
    let mut core = ManagerCore::new();
    let contract = [0xAA; 32];
    let actions = core.handle(ManagerEvent::Command(DlcManagerMessage::AcceptDlc { contract })).expect("command");
    assert_eq!(actions, vec![ManagerAction::BuildAccept { contract }]);
    assert_eq!(core.state(), ManagerState::Accepting { contract });
    let actions = core.handle(ManagerEvent::AcceptBuilt { ok: false }).expect("built");
    assert_eq!(actions, vec![ManagerAction::ReplyError]);
    assert!(core.is_idle());

    core.handle(ManagerEvent::Command(DlcManagerMessage::AcceptDlc { contract })).expect("command");
    let actions = core.handle(ManagerEvent::AcceptBuilt { ok: true }).expect("built");
    assert_eq!(actions, vec![ManagerAction::ReplyAccept { contract }]);
}

#[test]
fn one_bad_message_does_not_block_the_queue() {
    let mut core = ManagerCore::new();
    let mut all: Vec<ManagerAction> = Vec::new();
    all.extend(core.handle(ManagerEvent::Command(DlcManagerMessage::ProcessMessages)).expect("command"));
    all.extend(core.handle(ManagerEvent::MessagesTaken { count: 3 }).expect("taken"));
    assert_eq!(core.state(), ManagerState::Applying { next: 0, count: 3 });
    all.extend(core.handle(ManagerEvent::MessageApplied(MessageOutcome::Reply)).expect("first"));
    all.extend(core.handle(ManagerEvent::MessageApplied(MessageOutcome::Failed)).expect("second"));
    assert_eq!(core.state(), ManagerState::Applying { next: 2, count: 3 });
    all.extend(core.handle(ManagerEvent::MessageApplied(MessageOutcome::NoReply)).expect("third"));
    assert_eq!(core.state(), ManagerState::CheckingPending);
    all.extend(core.handle(ManagerEvent::PendingChecked { pending: true }).expect("pending"));
    assert!(core.is_idle());
    assert_eq!(
        all,
        vec![
            ManagerAction::TakeMessages,
            ManagerAction::ApplyMessage { index: 0 },
            ManagerAction::SendReply { index: 0 },
            ManagerAction::ApplyMessage { index: 1 },
            ManagerAction::DropMessage { index: 1 },
            ManagerAction::ApplyMessage { index: 2 },
            ManagerAction::CheckPending,
            ManagerAction::Flush,
        ]
    );
}

#[test]
fn empty_drain_still_checks_for_unsent_messages() {
    let mut core = ManagerCore::new();
    core.handle(ManagerEvent::Command(DlcManagerMessage::ProcessMessages)).expect("command");
    let actions = core.handle(ManagerEvent::MessagesTaken { count: 0 }).expect("taken");
    assert_eq!(actions, vec![ManagerAction::CheckPending]);
    let actions = core.handle(ManagerEvent::PendingChecked { pending: false }).expect("pending");
    assert!(actions.is_empty());
    assert!(core.is_idle());
}

#[test]
fn calls_and_messages_are_each_dealt_with_once() {
    let mut core = ManagerCore::new();
    let mut builds = 0;
    let mut replies = 0;
    let mut applied: Vec<usize> = Vec::new();
    let calls = 4;
    let messages = 5;
    for n in 0..calls {
        let command = if n % 2 == 0 {
            DlcManagerMessage::OfferDlc
        } else {
            DlcManagerMessage::AcceptDlc { contract: [n as u8; 32] }
        };
        let mut actions = core.handle(ManagerEvent::Command(command)).expect("command");
        let built = if n % 2 == 0 {
            ManagerEvent::OfferBuilt { ok: true }
        } else {
            ManagerEvent::AcceptBuilt { ok: true }
        };
        actions.extend(core.handle(built).expect("built"));
        for action in actions {
            match action {
                ManagerAction::BuildOffer | ManagerAction::BuildAccept { .. } => builds += 1,
                ManagerAction::ReplyOffer | ManagerAction::ReplyAccept { .. } => replies += 1,
                _ => unreachable!(),
            }
        }
    }
    let mut actions = core.handle(ManagerEvent::Command(DlcManagerMessage::ProcessMessages)).expect("command");
    actions.extend(core.handle(ManagerEvent::MessagesTaken { count: messages }).expect("taken"));
    for _ in 0..messages {
        actions.extend(core.handle(ManagerEvent::MessageApplied(MessageOutcome::NoReply)).expect("applied"));
    }
    actions.extend(core.handle(ManagerEvent::PendingChecked { pending: false }).expect("pending"));
    for action in actions {
        if let ManagerAction::ApplyMessage { index } = action {
            applied.push(index);
        }
    }
    assert_eq!(builds, calls);
    assert_eq!(replies, calls);
    assert_eq!(applied, vec![0, 1, 2, 3, 4]);
    assert_eq!(builds + applied.len(), calls + messages);
}

#[test]
fn events_out_of_turn_are_refused() {
    let mut core = ManagerCore::new();
    assert_eq!(core.handle(ManagerEvent::OfferBuilt { ok: true }), Err(ProtocolError::UnexpectedEvent));
    assert_eq!(core.handle(ManagerEvent::MessagesTaken { count: 1 }), Err(ProtocolError::UnexpectedEvent));
    assert!(core.is_idle());
    core.handle(ManagerEvent::Command(DlcManagerMessage::OfferDlc)).expect("command");
    assert_eq!(
        core.handle(ManagerEvent::Command(DlcManagerMessage::ProcessMessages)),
        Err(ProtocolError::UnexpectedEvent)
    );
    assert_eq!(core.handle(ManagerEvent::AcceptBuilt { ok: true }), Err(ProtocolError::UnexpectedEvent));
    assert_eq!(core.state(), ManagerState::Offering);
}

#[test]
fn shutdown_stops_the_manager_for_good() {
    let mut core = ManagerCore::new();
    let actions = core.handle(ManagerEvent::Command(DlcManagerMessage::Shutdown)).expect("shutdown");
    assert_eq!(actions, vec![ManagerAction::Stop]);
    assert_eq!(core.state(), ManagerState::Stopped);
    assert_eq!(core.handle(ManagerEvent::Command(DlcManagerMessage::OfferDlc)), Err(ProtocolError::Stopped));
    assert_eq!(core.handle(ManagerEvent::PendingChecked { pending: true }), Err(ProtocolError::Stopped));
    assert_eq!(core.state(), ManagerState::Stopped);
}

#[test]
fn contract_lifecycle_follows_the_protocol() {
    type S = ContractState;
    let all = [
        S::Offered,
        S::Accepted,
        S::Signed,
        S::Confirmed,
        S::PreClosed,
        S::Closed,
        S::FailedAccept,
        S::FailedSign,
        S::Refunded,
        S::Rejected,
    ];
    let allowed = [
        (S::Offered, S::Accepted),
        (S::Offered, S::FailedAccept),
        (S::Offered, S::Rejected),
        (S::Accepted, S::Signed),
        (S::Accepted, S::FailedSign),
        (S::Signed, S::Confirmed),
        (S::Signed, S::Refunded),
        (S::Confirmed, S::PreClosed),
        (S::Confirmed, S::Refunded),
        (S::PreClosed, S::Closed),
    ];
    for from in all {
        for to in all {
            assert_eq!(from.can_become(to), allowed.contains(&(from, to)), "{:?} -> {:?}", from, to);
        }
        let terminal =
            matches!(from, S::Closed | S::FailedAccept | S::FailedSign | S::Refunded | S::Rejected);
        assert_eq!(from.is_terminal(), terminal);
    }
}

#[test]
fn channel_lifecycle_follows_the_protocol() {
    type C = ChannelState;
    let established = C::Signed(SignedChannelStateType::Established);
    let settled = C::Signed(SignedChannelStateType::Settled);
    assert!(C::Offered.can_become(C::Accepted));
    assert!(C::Offered.can_become(C::FailedAccept));
    assert!(C::Offered.can_become(C::Cancelled));
    assert!(!C::Offered.can_become(established));
    assert!(C::Accepted.can_become(established));
    assert!(C::Accepted.can_become(C::FailedSign));
    assert!(C::Accepted.can_become(C::Cancelled));
    assert!(!C::Accepted.can_become(C::FailedAccept));
    assert!(established.can_become(settled));
    assert!(settled.can_become(established));
    assert!(established.can_become(C::Closing));
    assert!(!established.can_become(C::Closed));
    assert!(!established.can_become(C::Cancelled));
    assert!(C::Closing.can_become(C::Closed));
    assert!(C::Closing.can_become(C::CollaborativelyClosed));
    assert!(C::Closing.can_become(C::CounterClosed));
    assert!(C::Closing.can_become(C::ClosedPunished));
    assert!(!C::Closing.can_become(established));
    for terminal in [
        C::FailedAccept,
        C::FailedSign,
        C::Closed,
        C::CounterClosed,
        C::ClosedPunished,
        C::CollaborativelyClosed,
        C::Cancelled,
    ] {
        assert!(terminal.is_terminal());
        assert!(!terminal.can_become(C::Offered));
        assert!(!terminal.can_become(C::Closing));
    }
    for live in [C::Offered, C::Accepted, established, C::Closing] {
        assert!(!live.is_terminal());
    }
}

fn peer(pubkey: &str, host: &str) -> PeerInformation {
    PeerInformation { pubkey: pubkey.to_string(), host: host.to_string() }
}

#[test]
fn peers_are_kept_once_in_the_order_met() {
    let mut known: Vec<PeerInformation> = Vec::new();
    assert!(save_peer(&mut known, peer("02aa", "10.0.0.1:9000")));
    assert!(save_peer(&mut known, peer("03bb", "10.0.0.2:9000")));
    assert!(!save_peer(&mut known, peer("02aa", "10.0.0.1:9000")));
    assert!(save_peer(&mut known, peer("02aa", "10.0.0.9:9000")));
    assert_eq!(known.len(), 3);
    assert_eq!(known[0].pubkey, "02aa");
    assert_eq!(known[0].host, "10.0.0.1:9000");
    assert_eq!(known[1].pubkey, "03bb");
    assert_eq!(known[2].host, "10.0.0.9:9000");
    assert!(contains_peer(&known, &peer("03bb", "10.0.0.2:9000")));
    assert!(!contains_peer(&known, &peer("03bb", "10.0.0.3:9000")));
    assert!(same_peer(&known[0], &peer("02aa", "10.0.0.1:9000")));
    assert!(!same_peer(&known[0], &known[2]));
}

#[test]
fn ids_are_shown_as_lower_case_hex() {
    assert_eq!(id_text(&[0xAA; 32]), "aa".repeat(32));
    let mut id = [0u8; 32];
    id[0] = 0x01;
    id[1] = 0xF0;
    id[31] = 0x9c;
    let text = id_text(&id);
    assert_eq!(text.len(), 64);
    assert!(text.starts_with("01f0"));
    assert!(text.ends_with("009c"));
}

#[test]
fn fee_rates_follow_the_table() {
    assert_eq!(ddk::fees::MIN_FEERATE, 253);
    assert_eq!(ddk::fees::get_est_sat_per_1000_weight(ddk::fees::FeeTarget::OnChainSweep), 5000);
    assert_eq!(ddk::fees::get_est_sat_per_1000_weight(ddk::fees::FeeTarget::NonAnchorChannelFee), 2000);
    assert_eq!(ddk::fees::get_est_sat_per_1000_weight(ddk::fees::FeeTarget::AnchorChannelFee), 253);
    assert_eq!(ddk::fees::get_est_sat_per_1000_weight(ddk::fees::FeeTarget::ChannelCloseMinimum), 253);
    assert_eq!(
        ddk::fees::get_est_sat_per_1000_weight(ddk::fees::FeeTarget::MinAllowedAnchorChannelRemoteFee),
        253
    );
    assert_eq!(
        ddk::fees::get_est_sat_per_1000_weight(ddk::fees::FeeTarget::MinAllowedNonAnchorChannelRemoteFee),
        253
    );
}

#[test]
fn secret_key_is_found_by_public_key() {
    let stored = vec![
        ddk::signer::SignerInformation { index: 0, public_key: vec![2, 1], secret_key: vec![10] },
        ddk::signer::SignerInformation { index: 1, public_key: vec![3, 1], secret_key: vec![11] },
        ddk::signer::SignerInformation { index: 2, public_key: vec![3, 1], secret_key: vec![12] },
    ];
    assert_eq!(ddk::signer::get_secret_key(&stored, &[2, 1]), Some(0));
    assert_eq!(ddk::signer::get_secret_key(&stored, &[3, 1]), Some(1));
    assert_eq!(ddk::signer::get_secret_key(&stored, &[3]), None);
    assert_eq!(ddk::signer::get_secret_key(&Vec::new(), &[3, 1]), None);
    assert!(ddk::signer::same_bytes(&[], &[]));
    assert!(ddk::signer::same_bytes(&[1, 2], &[1, 2]));
    assert!(!ddk::signer::same_bytes(&[1, 2], &[1, 3]));
    assert!(!ddk::signer::same_bytes(&[1, 2], &[1]));
}
