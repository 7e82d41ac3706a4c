//! The node as its host sees it: started once, stopped once, and in between a
//! worker that runs the manager and three tasks beside it.

use vstd::prelude::*;
use crate::error::DdkError;
use crate::manager::DlcManagerMessage;

verus! {

/// Seconds between two synchronisations of the wallet with the chain.
pub const WALLET_SYNC_SECS: u64 = 10;

/// Seconds between two commands to process the received messages.
pub const PROCESS_MESSAGES_SECS: u64 = 5;

/// The chain that the node works on.
#[derive(Clone, Copy, Debug, PartialEq, Eq, Structural)]
pub enum Network {
    Bitcoin,
    Testnet,
    Signet,
    Regtest,
}

/// Something that runs from the start of the node to its end.
#[derive(Clone, Copy, Debug, PartialEq, Eq, Structural)]
pub enum Task {
    /// The worker thread: it takes the commands off the queue, one at a time,
    /// and runs the manager on each.
    Worker,
    /// Serves the transport's connections.
    Listener,
    /// Synchronises the wallet every `every_secs` seconds, without going
    /// through the manager.
    WalletSync { every_secs: u64 },
    /// Puts a command to process the received messages on the queue every
    /// `every_secs` seconds.
    MessageTrigger { every_secs: u64 },
}

/// The tasks of a running node, in the order in which they are started.
pub open spec fn node_tasks() -> Seq<Task> {
    seq![
        Task::Worker,
        Task::Listener,
        Task::WalletSync { every_secs: WALLET_SYNC_SECS },
        Task::MessageTrigger { every_secs: PROCESS_MESSAGES_SECS },
    ]
}

/// What a periodic task does when its time has come.
#[derive(Clone, Copy, Debug, PartialEq, Eq)]
pub enum Tick {
    /// Put this command on the manager's queue.
    Enqueue(DlcManagerMessage),
    /// Synchronise the wallet.
    SyncWallet,
    /// Nothing: the task is not periodic.
    Nothing,
}

impl Task {
    /// What the task does each time its period has passed.
    pub open spec fn spec_tick(self) -> Tick {
        match self {
            Task::MessageTrigger { .. } => Tick::Enqueue(DlcManagerMessage::ProcessMessages),
            Task::WalletSync { .. } => Tick::SyncWallet,
            _ => Tick::Nothing,
        }
    }

    /// What the task does each time its period has passed.
    #[verifier::when_used_as_spec(spec_tick)]
    pub fn tick(self) -> (tick: Tick)
        ensures
            tick == self.spec_tick(),
    {
        match self {
            Task::MessageTrigger { .. } => Tick::Enqueue(DlcManagerMessage::ProcessMessages),
            Task::WalletSync { .. } => Tick::SyncWallet,
            _ => Tick::Nothing,
        }
    }
}

/// The node's run state and the chain it works on.
pub struct DlcDevKit {
    running: bool,
    network: Network,
}

/// A [`DlcDevKit`] as plain values.
pub struct DlcDevKitView {
    pub running: bool,
    pub network: Network,
}

impl View for DlcDevKit {
    type V = DlcDevKitView;

    closed spec fn view(&self) -> DlcDevKitView {
        DlcDevKitView { running: self.running, network: self.network }
    }
}

impl DlcDevKit {
    /// A node for `network` that has not been started.
    pub fn new(network: Network) -> (kit: DlcDevKit)
        ensures
            kit@ == (DlcDevKitView { running: false, network }),
    {
        DlcDevKit { running: false, network }
    }

    /// Starts the node: returns the tasks to run, in order. A node that is
    /// running is not started again: the call fails and nothing is to be run.
    pub fn start(&mut self) -> (r: Result<Vec<Task>, DdkError>)
        ensures
            final(self)@.network == old(self)@.network,
            final(self)@.running,
            old(self)@.running ==> r matches Err(DdkError::AlreadyRunning),
            !old(self)@.running ==> (r matches Ok(tasks) && tasks@ == node_tasks()),
    {
        if self.running {
            return Err(DdkError::AlreadyRunning);
        }
        let mut tasks: Vec<Task> = Vec::new();
        tasks.push(Task::Worker);
        tasks.push(Task::Listener);
        tasks.push(Task::WalletSync { every_secs: WALLET_SYNC_SECS });
        tasks.push(Task::MessageTrigger { every_secs: PROCESS_MESSAGES_SECS });
        assert(tasks@ =~= node_tasks());
        self.running = true;
        Ok(tasks)
    }

    /// Stops the node: returns the command that ends the worker, if the node
    /// was running, and nothing if it was not.
    pub fn stop(&mut self) -> (command: Option<DlcManagerMessage>)
        ensures
            final(self)@.network == old(self)@.network,
            !final(self)@.running,
            old(self)@.running ==> command == Some(DlcManagerMessage::Shutdown),
            !old(self)@.running ==> command is None,
    {
        if self.running {
            self.running = false;
            Some(DlcManagerMessage::Shutdown)
        } else {
            None
        }
    }

    /// Tells whether the node has been started and not stopped since.
    pub fn is_running(&self) -> (running: bool)
        ensures
            running == self@.running,
    {
        self.running
    }

    /// The chain that the node works on.
    pub fn network(&self) -> (network: Network)
        ensures
            network == self@.network,
    {
        self.network
    }

    /// What a caller who has waited for the manager's answer gets: the answer,
    /// or `ReplyLost` where the manager went away without giving one.
    pub fn settle_reply<T>(reply: Option<Result<T, DdkError>>) -> (r: Result<T, DdkError>)
        ensures
            reply matches Some(answer) ==> r == answer,
            reply is None ==> r matches Err(DdkError::ReplyLost),
    {
        match reply {
            Some(answer) => answer,
            None => Err(DdkError::ReplyLost),
        }
    }
}

} // verus!
