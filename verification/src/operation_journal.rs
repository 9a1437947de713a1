//! The lifecycle of the operation-journal owner, as published through a byte, the typed reason
//! the journal is unavailable, and the owner's decisions: how it reacts to each attempt to open
//! the journal at startup, whether a command may be queued, and whether a queued command may
//! reach the journal.
//!
//! Paths are held as their UTF-8 text; durations as whole milliseconds.
use vstd::prelude::*;

verus! {

/// Where the journal owner is in its life.
#[derive(Clone, Copy, Debug, PartialEq, Eq, Structural)]
pub enum OwnerLifecycle {
    Initializing,
    Available,
    Unavailable,
    Closing,
    Closed,
}

/// The byte that stands for a lifecycle.
pub open spec fn lifecycle_byte(lifecycle: OwnerLifecycle) -> u8 {
    match lifecycle {
        OwnerLifecycle::Initializing => 0,
        OwnerLifecycle::Available => 1,
        OwnerLifecycle::Unavailable => 2,
        OwnerLifecycle::Closing => 3,
        OwnerLifecycle::Closed => 4,
    }
}

impl OwnerLifecycle {
    /// The byte this lifecycle is published as.
    pub fn as_u8(self) -> (value: u8)
        ensures
            value == lifecycle_byte(self),
    {
        match self {
            OwnerLifecycle::Initializing => 0,
            OwnerLifecycle::Available => 1,
            OwnerLifecycle::Unavailable => 2,
            OwnerLifecycle::Closing => 3,
            OwnerLifecycle::Closed => 4,
        }
    }

    /// Read a published byte back; a byte that stands for no lifecycle reads as
    /// `Initializing`.
    pub fn from_u8(value: u8) -> (lifecycle: Self)
        ensures
            1 <= value <= 4 ==> lifecycle_byte(lifecycle) == value,
            !(1 <= value <= 4) ==> lifecycle == OwnerLifecycle::Initializing,
    {
        match value {
            1 => OwnerLifecycle::Available,
            2 => OwnerLifecycle::Unavailable,
            3 => OwnerLifecycle::Closing,
            4 => OwnerLifecycle::Closed,
            _ => OwnerLifecycle::Initializing,
        }
    }
}

/// A published lifecycle reads back as itself, and distinct lifecycles are published as
/// distinct bytes.
pub proof fn lemma_lifecycle_byte_round_trips(lifecycle: OwnerLifecycle, other: OwnerLifecycle)
    ensures
        lifecycle_byte(lifecycle) <= 4,
        lifecycle_byte(lifecycle) == lifecycle_byte(other) ==> lifecycle == other,
{
}

/// Why opening the operation journal failed.
#[derive(Clone, Debug, PartialEq, Eq)]
pub enum JournalOpenError {
    /// Another process holds the journal lock at `path`.
    OwnedByAnotherProcess { path: String },
    /// Any other failure, as its message.
    Other(String),
}

/// Why the operation journal is unavailable to this process.
#[derive(Clone, Debug, PartialEq, Eq)]
pub enum OperationJournalUnavailable {
    OwnedByAnotherProcess { path: String },
    OpenFailed(String),
    OwnerStartFailed(String),
}

impl OperationJournalUnavailable {
    /// The unavailability an open error causes: another process owning the journal is kept
    /// apart; any other error is an open failure with the error's message.
    pub fn from_error(error: JournalOpenError) -> (unavailable: Self)
        ensures
            match error {
                JournalOpenError::OwnedByAnotherProcess { path } => unavailable
                    == OperationJournalUnavailable::OwnedByAnotherProcess { path },
                JournalOpenError::Other(message) => unavailable
                    == OperationJournalUnavailable::OpenFailed(message),
            },
    {
        match error {
            JournalOpenError::OwnedByAnotherProcess { path } => {
                OperationJournalUnavailable::OwnedByAnotherProcess { path }
            },
            JournalOpenError::Other(message) => OperationJournalUnavailable::OpenFailed(message),
        }
    }
}

/// The text shown for an unavailable journal.
pub open spec fn unavailable_message(unavailable: OperationJournalUnavailable) -> Seq<char> {
    match unavailable {
        OperationJournalUnavailable::OwnedByAnotherProcess { path } => "owned by another process: "@
            + path@,
        OperationJournalUnavailable::OpenFailed(error) => error@,
        OperationJournalUnavailable::OwnerStartFailed(error) => error@,
    }
}

impl OperationJournalUnavailable {
    /// The text shown for this unavailability: the owning process's lock path, or the error.
    pub fn message(&self) -> (text: String)
        ensures
            text@ == unavailable_message(*self),
    {
        match self {
            OperationJournalUnavailable::OwnedByAnotherProcess { path } => {
                let mut text = String::from_str("owned by another process: ");
                text.append(path.as_str());
                text
            },
            OperationJournalUnavailable::OpenFailed(error) => error.clone(),
            OperationJournalUnavailable::OwnerStartFailed(error) => error.clone(),
        }
    }
}

/// The message of an unavailable journal whose reason was never recorded.
pub open spec fn unrecorded_unavailable_message() -> Seq<char> {
    "operation journal coordinator is unavailable"@
}

/// Whether `reason` is how a missing journal is reported: the recorded reason, or an open
/// failure with the generic message when none was recorded.
pub open spec fn reports_recorded_reason(
    recorded: Option<OperationJournalUnavailable>,
    reason: OperationJournalUnavailable,
) -> bool {
    match recorded {
        Some(recorded) => reason == recorded,
        None => match reason {
            OperationJournalUnavailable::OpenFailed(message) => message@
                == unrecorded_unavailable_message(),
            _ => false,
        },
    }
}

/// The reason a missing journal is reported with: the recorded one, or an open failure with the
/// generic message.
pub fn coordinator_unavailable(recorded: Option<OperationJournalUnavailable>) -> (reason:
    OperationJournalUnavailable)
    ensures
        reports_recorded_reason(recorded, reason),
{
    match recorded {
        Some(reason) => reason,
        None => {
            let message = String::from_str("operation journal coordinator is unavailable");
            proof {
                reveal_strlit("operation journal coordinator is unavailable");
            }
            OperationJournalUnavailable::OpenFailed(message)
        },
    }
}

/// Why a command could not be queued for the journal owner.
#[derive(Clone, Debug, PartialEq, Eq)]
pub enum JournalOwnerQueueError {
    Initializing,
    Unavailable(OperationJournalUnavailable),
    Full,
    Closed,
}

/// Whether a command may be queued in the published lifecycle: only an available owner accepts
/// one; an unavailable owner reports its recorded reason (or the generic open failure), and a
/// closing or closed owner reports that it is closed.
pub fn ensure_available(
    lifecycle: OwnerLifecycle,
    recorded: Option<OperationJournalUnavailable>,
) -> (admitted: Result<(), JournalOwnerQueueError>)
    ensures
        match lifecycle {
            OwnerLifecycle::Initializing => admitted == Err::<(), JournalOwnerQueueError>(
                JournalOwnerQueueError::Initializing,
            ),
            OwnerLifecycle::Available => admitted is Ok,
            OwnerLifecycle::Unavailable => match admitted {
                Err(JournalOwnerQueueError::Unavailable(reason)) => reports_recorded_reason(
                    recorded,
                    reason,
                ),
                _ => false,
            },
            OwnerLifecycle::Closing | OwnerLifecycle::Closed => admitted == Err::<
                (),
                JournalOwnerQueueError,
            >(JournalOwnerQueueError::Closed),
        },
{
    match lifecycle {
        OwnerLifecycle::Initializing => Err(JournalOwnerQueueError::Initializing),
        OwnerLifecycle::Available => Ok(()),
        OwnerLifecycle::Unavailable => Err(
            JournalOwnerQueueError::Unavailable(coordinator_unavailable(recorded)),
        ),
        OwnerLifecycle::Closing | OwnerLifecycle::Closed => Err(JournalOwnerQueueError::Closed),
    }
}

/// Whether a shutdown closed a live owner: it held the command sender and the lifecycle it
/// replaced (read back from its byte) was not already closed.
pub fn shutdown_closed_owner(had_sender: bool, previous: u8) -> (closed: bool)
    ensures
        closed == (had_sender && !(previous == lifecycle_byte(OwnerLifecycle::Closed))),
{
    had_sender && OwnerLifecycle::from_u8(previous) != OwnerLifecycle::Closed
}

/// What the owner thread does with a command it received.
#[derive(Clone, Debug, PartialEq, Eq)]
pub enum CommandGate {
    /// Stop was requested: answer that the owner is closed.
    Closed,
    /// There is no journal: answer with the reason.
    Unavailable(OperationJournalUnavailable),
    /// Hand the command to the journal.
    Proceed,
}

/// Decide a received command: a stop request closes it, a missing journal answers with the
/// recorded reason (or the generic open failure), and otherwise it proceeds.
pub fn command_gate(
    stop_requested: bool,
    journal_open: bool,
    recorded: Option<OperationJournalUnavailable>,
) -> (gate: CommandGate)
    ensures
        stop_requested ==> gate == CommandGate::Closed,
        !stop_requested && journal_open ==> gate == CommandGate::Proceed,
        !stop_requested && !journal_open ==> match gate {
            CommandGate::Unavailable(reason) => reports_recorded_reason(recorded, reason),
            _ => false,
        },
{
    if stop_requested {
        CommandGate::Closed
    } else if journal_open {
        CommandGate::Proceed
    } else {
        CommandGate::Unavailable(coordinator_unavailable(recorded))
    }
}

/// Milliseconds the owner waits before its second attempt to open a journal that another
/// process owns.
pub const OWNER_RETRY_INTERVAL_MS: u64 = 25;

/// The longest wait between two attempts, in milliseconds.
pub const OWNER_RETRY_MAX_INTERVAL_MS: u64 = 250;

/// How long, in milliseconds since the first attempt, the owner keeps retrying.
pub const OWNER_RETRY_TIMEOUT_MS: u64 = 2000;

/// What one startup turn of the owner observed.
#[derive(Debug)]
pub enum OwnerStartupEvent {
    /// Stop was requested before the attempt.
    StopRequested,
    /// The journal opened; opening its recovery root gave this.
    Opened { recovery_root: Result<(), JournalOpenError> },
    /// Opening the journal failed.
    OpenFailed(JournalOpenError),
}

/// What the owner does after one startup turn.
#[derive(Clone, Debug, PartialEq, Eq)]
pub enum OwnerStartupStep {
    /// Publish `Closed` and end.
    Closed,
    /// Publish `Available` and serve commands.
    Available,
    /// Record and publish the reason, then serve commands without a journal.
    Unavailable(OperationJournalUnavailable),
    /// Sleep `sleep_ms`, then try again with `next_interval_ms` as the interval.
    Retry { sleep_ms: u64, next_interval_ms: u64 },
}

/// The interval after one that was waited: doubled, at most the longest wait.
pub open spec fn next_retry_interval(interval: u64) -> u64 {
    if 2 * interval <= OWNER_RETRY_MAX_INTERVAL_MS {
        (2 * interval) as u64
    } else {
        OWNER_RETRY_MAX_INTERVAL_MS
    }
}

/// The step a startup turn leads to, `elapsed_ms` after the first attempt with the current
/// retry interval.
pub open spec fn startup_step(event: OwnerStartupEvent, elapsed_ms: u64, interval: u64) -> OwnerStartupStep {
    match event {
        OwnerStartupEvent::StopRequested => OwnerStartupStep::Closed,
        OwnerStartupEvent::Opened { recovery_root: Ok(()) } => OwnerStartupStep::Available,
        OwnerStartupEvent::Opened { recovery_root: Err(JournalOpenError::OwnedByAnotherProcess { path }) } =>
            OwnerStartupStep::Unavailable(OperationJournalUnavailable::OwnedByAnotherProcess { path }),
        OwnerStartupEvent::Opened { recovery_root: Err(JournalOpenError::Other(message)) } =>
            OwnerStartupStep::Unavailable(OperationJournalUnavailable::OpenFailed(message)),
        OwnerStartupEvent::OpenFailed(JournalOpenError::OwnedByAnotherProcess { path }) => if elapsed_ms
            >= OWNER_RETRY_TIMEOUT_MS {
            OwnerStartupStep::Unavailable(OperationJournalUnavailable::OwnedByAnotherProcess { path })
        } else {
            OwnerStartupStep::Retry { sleep_ms: interval, next_interval_ms: next_retry_interval(interval) }
        },
        OwnerStartupEvent::OpenFailed(JournalOpenError::Other(message)) => OwnerStartupStep::Unavailable(
            OperationJournalUnavailable::OpenFailed(message),
        ),
    }
}

/// Decide one startup turn of the owner. Only a journal owned by another process is retried,
/// and only until the timeout; every other failure makes the journal unavailable at once.
pub fn owner_startup_step(event: OwnerStartupEvent, elapsed_ms: u64, interval: u64) -> (step:
    OwnerStartupStep)
    requires
        interval <= OWNER_RETRY_MAX_INTERVAL_MS,
    ensures
        step == startup_step(event, elapsed_ms, interval),
{
    match event {
        OwnerStartupEvent::StopRequested => OwnerStartupStep::Closed,
        OwnerStartupEvent::Opened { recovery_root: Ok(()) } => OwnerStartupStep::Available,
        OwnerStartupEvent::Opened { recovery_root: Err(error) } => OwnerStartupStep::Unavailable(
            OperationJournalUnavailable::from_error(error),
        ),
        OwnerStartupEvent::OpenFailed(JournalOpenError::OwnedByAnotherProcess { path }) => {
            if elapsed_ms >= OWNER_RETRY_TIMEOUT_MS {
                OwnerStartupStep::Unavailable(
                    OperationJournalUnavailable::OwnedByAnotherProcess { path },
                )
            } else {
                let doubled = interval * 2;
                let next = if doubled <= OWNER_RETRY_MAX_INTERVAL_MS {
                    doubled
                } else {
                    OWNER_RETRY_MAX_INTERVAL_MS
                };
                OwnerStartupStep::Retry { sleep_ms: interval, next_interval_ms: next }
            }
        },
        OwnerStartupEvent::OpenFailed(error) => OwnerStartupStep::Unavailable(
            OperationJournalUnavailable::from_error(error),
        ),
    }
}

/// The lifecycle a startup step publishes, if it publishes one.
pub open spec fn step_lifecycle(step: OwnerStartupStep) -> Option<OwnerLifecycle> {
    match step {
        OwnerStartupStep::Closed => Some(OwnerLifecycle::Closed),
        OwnerStartupStep::Available => Some(OwnerLifecycle::Available),
        OwnerStartupStep::Unavailable(_) => Some(OwnerLifecycle::Unavailable),
        OwnerStartupStep::Retry { .. } => None,
    }
}

/// Retry waits grow from the first interval by doubling and never exceed the longest wait; a
/// retry is only ever decided before the timeout, for a journal owned by another process.
pub proof fn lemma_retry_waits_are_bounded(event: OwnerStartupEvent, elapsed_ms: u64, interval: u64)
    requires
        OWNER_RETRY_INTERVAL_MS <= interval <= OWNER_RETRY_MAX_INTERVAL_MS,
    ensures
        startup_step(event, elapsed_ms, interval) matches OwnerStartupStep::Retry {
            sleep_ms,
            next_interval_ms,
        } ==> {
            &&& sleep_ms == interval
            &&& interval <= next_interval_ms <= OWNER_RETRY_MAX_INTERVAL_MS
            &&& elapsed_ms < OWNER_RETRY_TIMEOUT_MS
            &&& event matches OwnerStartupEvent::OpenFailed(
                JournalOpenError::OwnedByAnotherProcess { .. },
            )
        },
{
}

/// At or past the timeout, no startup turn retries: every turn publishes a lifecycle.
pub proof fn lemma_no_retry_after_timeout(event: OwnerStartupEvent, elapsed_ms: u64, interval: u64)
    requires
        elapsed_ms >= OWNER_RETRY_TIMEOUT_MS,
    ensures
        step_lifecycle(startup_step(event, elapsed_ms, interval)) is Some,
{
}


/// The caller's side of the journal owner: whether stop was requested, whether the command
/// sender is still held, the lifecycle byte the owner publishes, the unavailability reason it
/// recorded, and the bounded command queue between them.
pub struct OwnerHandle {
    pub stop_requested: bool,
    pub sender_present: bool,
    pub lifecycle: u8,
    pub recorded: Option<OperationJournalUnavailable>,
    /// Whether the owner thread still holds the receiving end of the command queue.
    pub receiver_present: bool,
    /// Commands queued and not yet taken by the owner thread.
    pub queued_commands: usize,
}

/// Whether the handle sends a command to the owner: the published lifecycle is available and
/// the command sender is still held.
pub open spec fn sends_commands(handle: OwnerHandle) -> bool {
    handle.lifecycle == lifecycle_byte(OwnerLifecycle::Available) && handle.sender_present
}

/// A stop request comes with the sender dropped: a shutdown does both at once.
pub open spec fn stop_drops_sender(handle: OwnerHandle) -> bool {
    handle.stop_requested ==> !handle.sender_present
}

/// The handle after the owner thread publishes `lifecycle`.
pub open spec fn publish_model(handle: OwnerHandle, lifecycle: OwnerLifecycle) -> OwnerHandle {
    OwnerHandle { lifecycle: lifecycle_byte(lifecycle), ..handle }
}

/// The handle after a shutdown, and what the shutdown reports: stop requested, sender dropped,
/// `Closing` published; it reports whether it closed a live owner (it held the sender and the
/// replaced lifecycle was not `Closed`).
pub open spec fn shutdown_model(handle: OwnerHandle) -> (OwnerHandle, bool) {
    (
        OwnerHandle {
            stop_requested: true,
            sender_present: false,
            lifecycle: lifecycle_byte(OwnerLifecycle::Closing),
            ..handle
        },
        handle.sender_present && handle.lifecycle != lifecycle_byte(OwnerLifecycle::Closed),
    )
}

/// The handle after the owner thread publishes each of `published` in turn.
pub open spec fn publish_all(handle: OwnerHandle, published: Seq<OwnerLifecycle>) -> OwnerHandle
    decreases published.len(),
{
    if published.len() == 0 {
        handle
    } else {
        publish_model(publish_all(handle, published.drop_last()), published.last())
    }
}

fn copy_reason(reason: &Option<OperationJournalUnavailable>) -> (copy: Option<OperationJournalUnavailable>)
    ensures
        copy == *reason,
{
    match reason {
        None => None,
        Some(OperationJournalUnavailable::OwnedByAnotherProcess { path }) => Some(
            OperationJournalUnavailable::OwnedByAnotherProcess { path: path.clone() },
        ),
        Some(OperationJournalUnavailable::OpenFailed(error)) => Some(
            OperationJournalUnavailable::OpenFailed(error.clone()),
        ),
        Some(OperationJournalUnavailable::OwnerStartFailed(error)) => Some(
            OperationJournalUnavailable::OwnerStartFailed(error.clone()),
        ),
    }
}

/// The answer to a request to send a command: a command is sent exactly when the handle sends
/// commands; otherwise the published lifecycle decides, as `ensure_available` does (an
/// unavailable owner answers with its recorded reason, or the generic open failure), and an
/// available owner whose sender was dropped is closed.
pub open spec fn admission_answer(handle: OwnerHandle, answer: Result<(), JournalOwnerQueueError>) -> bool {
    &&& answer is Ok <==> sends_commands(handle)
    &&& handle.lifecycle == lifecycle_byte(OwnerLifecycle::Unavailable) ==> match answer {
        Err(JournalOwnerQueueError::Unavailable(reason)) => reports_recorded_reason(
            handle.recorded,
            reason,
        ),
        _ => false,
    }
    &&& handle.lifecycle == lifecycle_byte(OwnerLifecycle::Available) && !handle.sender_present
        ==> answer == Err::<(), JournalOwnerQueueError>(JournalOwnerQueueError::Closed)
    &&& handle.lifecycle == lifecycle_byte(OwnerLifecycle::Closing) || handle.lifecycle
        == lifecycle_byte(OwnerLifecycle::Closed) ==> answer == Err::<(), JournalOwnerQueueError>(
        JournalOwnerQueueError::Closed,
    )
    &&& !(1 <= handle.lifecycle <= 4) ==> answer == Err::<(), JournalOwnerQueueError>(
        JournalOwnerQueueError::Initializing,
    )
}

/// How many commands the queue to the owner holds.
pub const JOURNAL_COMMAND_CAPACITY: usize = 32;

/// What offering a command to the bounded queue gave.
#[derive(Clone, Copy, Debug, PartialEq, Eq, Structural)]
pub enum CommandSendOutcome {
    Sent,
    Full,
    Disconnected,
}

/// The answer for a command offered to the queue: a full queue is reported as such, and a
/// queue whose owner went away as closed.
pub open spec fn send_answer(outcome: CommandSendOutcome) -> Result<(), JournalOwnerQueueError> {
    match outcome {
        CommandSendOutcome::Sent => Ok(()),
        CommandSendOutcome::Full => Err(JournalOwnerQueueError::Full),
        CommandSendOutcome::Disconnected => Err(JournalOwnerQueueError::Closed),
    }
}

/// Answer a command offered to the queue, from what the offer gave.
pub fn command_send_result(outcome: CommandSendOutcome) -> (answer: Result<(), JournalOwnerQueueError>)
    ensures
        answer == send_answer(outcome),
{
    match outcome {
        CommandSendOutcome::Sent => Ok(()),
        CommandSendOutcome::Full => Err(JournalOwnerQueueError::Full),
        CommandSendOutcome::Disconnected => Err(JournalOwnerQueueError::Closed),
    }
}

/// The outcome of offering a command to the queue: refused when the owner dropped its
/// receiving end, full at capacity, and sent otherwise.
pub open spec fn offered_outcome(handle: OwnerHandle) -> CommandSendOutcome {
    if !handle.receiver_present {
        CommandSendOutcome::Disconnected
    } else if handle.queued_commands >= JOURNAL_COMMAND_CAPACITY {
        CommandSendOutcome::Full
    } else {
        CommandSendOutcome::Sent
    }
}

impl OwnerHandle {
    /// Whether a command may be sent to the owner now. The published lifecycle decides first,
    /// as `ensure_available` does (an unavailable owner answers with its recorded reason, or
    /// the generic open failure); an available owner whose sender was dropped is closed.
    pub fn check_admission(&self) -> (admitted: Result<(), JournalOwnerQueueError>)
        ensures
            admission_answer(*self, admitted),
            stop_drops_sender(*self) && self.stop_requested ==> admitted is Err,
    {
        let lifecycle = OwnerLifecycle::from_u8(self.lifecycle);
        match ensure_available(lifecycle, copy_reason(&self.recorded)) {
            Err(error) => Err(error),
            Ok(()) => {
                if self.sender_present {
                    Ok(())
                } else {
                    Err(JournalOwnerQueueError::Closed)
                }
            },
        }
    }

    /// Offer one command to the owner: refused as `check_admission` answers when no command
    /// may be sent, otherwise queued unless the queue is closed or full. Nothing is queued on a
    /// refusal.
    pub fn enqueue_command(&mut self) -> (queued: Result<(), JournalOwnerQueueError>)
        ensures
            !sends_commands(*old(self)) ==> admission_answer(*old(self), queued),
            sends_commands(*old(self)) ==> queued == send_answer(offered_outcome(*old(self))),
            queued is Ok ==> *final(self) == (OwnerHandle {
                queued_commands: (old(self).queued_commands + 1) as usize,
                ..*old(self)
            }),
            queued is Err ==> *final(self) == *old(self),
    {
        match self.check_admission() {
            Err(error) => Err(error),
            Ok(()) => {
                let outcome = if !self.receiver_present {
                    CommandSendOutcome::Disconnected
                } else if self.queued_commands >= JOURNAL_COMMAND_CAPACITY {
                    CommandSendOutcome::Full
                } else {
                    self.queued_commands = self.queued_commands + 1;
                    CommandSendOutcome::Sent
                };
                command_send_result(outcome)
            },
        }
    }

    /// The owner thread takes the oldest queued command, if there is one.
    pub fn take_command(&mut self) -> (taken: bool)
        ensures
            taken == (old(self).queued_commands > 0),
            *final(self) == (OwnerHandle {
                queued_commands: if taken {
                    (old(self).queued_commands - 1) as usize
                } else {
                    0
                },
                ..*old(self)
            }),
    {
        if self.queued_commands > 0 {
            self.queued_commands = self.queued_commands - 1;
            true
        } else {
            false
        }
    }

    /// The owner thread publishes a lifecycle.
    pub fn publish(&mut self, lifecycle: OwnerLifecycle)
        ensures
            *final(self) == publish_model(*old(self), lifecycle),
    {
        self.lifecycle = lifecycle.as_u8();
    }

    /// Signal the owner to stop and drop the command sender, without waiting for the owner.
    /// Reports whether this call closed a live owner.
    pub fn shutdown(&mut self) -> (closed: bool)
        ensures
            (*final(self), closed) == shutdown_model(*old(self)),
            stop_drops_sender(*final(self)),
    {
        let previous = self.lifecycle;
        self.lifecycle = OwnerLifecycle::Closing.as_u8();
        self.stop_requested = true;
        let had_sender = self.sender_present;
        self.sender_present = false;
        shutdown_closed_owner(had_sender, previous)
    }
}

/// The first shutdown of a live owner reports that it closed it; after it, whatever lifecycles
/// the owner thread publishes, no command is sent again and a later shutdown reports false.
pub proof fn lemma_first_shutdown_closes_and_later_ones_do_not(
    handle: OwnerHandle,
    published: Seq<OwnerLifecycle>,
)
    requires
        handle.sender_present,
        handle.lifecycle != lifecycle_byte(OwnerLifecycle::Closed),
    ensures
        ({
            let (closed, first) = shutdown_model(handle);
            let later = publish_all(closed, published);
            let (again, second) = shutdown_model(later);
            &&& first
            &&& closed.stop_requested
            &&& !sends_commands(later)
            &&& !second
            &&& !sends_commands(again)
        }),
{
    lemma_publishing_keeps_the_sender(shutdown_model(handle).0, published);
}

/// Publishing lifecycles never gives the sender back or withdraws a stop request.
proof fn lemma_publishing_keeps_the_sender(handle: OwnerHandle, published: Seq<OwnerLifecycle>)
    ensures
        publish_all(handle, published).sender_present == handle.sender_present,
        publish_all(handle, published).stop_requested == handle.stop_requested,
    decreases published.len(),
{
    if published.len() > 0 {
        lemma_publishing_keeps_the_sender(handle, published.drop_last());
    }
}

} // verus!
