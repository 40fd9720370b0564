//! One chat session per batch: what it does next, given what happened.
//!
//! The session itself (connecting, reading, sending into the shared queue,
//! sleeping) is done by the caller, which reports each outcome as a
//! `SessionEvent` and performs the `WatcherAction` it gets back.
use vstd::prelude::*;
use crate::catalog::names;
use crate::filter::{message_if_matched, pattern_matches, shown_sender, Message, RegexFilter};

verus! {

/// The chat channel of a broadcaster: its name after a `#`.
pub open spec fn chat_channel(name: Seq<char>) -> Seq<char> {
    seq!['#'] + name
}

/// The chat channels to join for a batch of broadcaster names, in order.
pub fn join_targets(batch: &Vec<String>) -> (r: Vec<String>)
    ensures
        names(r@) == names(batch@).map_values(|s: Seq<char>| chat_channel(s)),
{
    let mut r: Vec<String> = Vec::new();
    let mut i: usize = 0;
    while i < batch.len()
        invariant
            i <= batch@.len(),
            r@.len() == i,
            forall|j: int| 0 <= j < i ==> #[trigger] r@[j]@ == chat_channel(batch@[j]@),
        decreases batch@.len() - i,
    {
        let mut target = String::from_str("#");
        target.append(batch[i].as_str());
        proof {
            reveal_strlit("#");
            assert(target@ =~= chat_channel(batch@[i as int]@));
        }
        r.push(target);
        i = i + 1;
    }
    assert(names(r@) =~= names(batch@).map_values(|s: Seq<char>| chat_channel(s)));
    r
}

/// Why a watcher stopped for good.
#[derive(Clone, Copy, Debug, PartialEq, Eq, Structural)]
pub enum TerminationReason {
    ConnectFailed,
    JoinFailed,
    ProtocolParseFailure,
    UnexpectedEvent,
    StreamEnded,
    QueueClosed,
    ReconnectExhausted,
}

/// Where a watcher stands in its session's life.
#[derive(Clone, Copy, Debug, PartialEq, Eq, Structural)]
pub enum WatcherState {
    /// Opening the session and joining the batch's channels.
    Connecting,
    /// Waiting for the next chat event.
    Reading,
    /// Handing a matched message to the shared queue.
    Forwarding,
    /// Re-opening the session; `attempt` counts the failed tries so far.
    Reconnecting { attempt: u32 },
    Terminated(TerminationReason),
}

/// What happened since the last action.
pub enum SessionEvent {
    /// The session is open and every channel of the batch joined.
    Connected,
    ConnectFailed,
    JoinFailed,
    /// A chat line of `channel`, from `sender` when the server named one.
    Chat { channel: String, sender: Option<String>, text: String },
    /// The server asked the client to reconnect.
    ReconnectDirective,
    /// A ping or other housekeeping event.
    Ignorable,
    /// Reading from the connection failed.
    TransportFailure,
    /// A line could not be parsed.
    ParseFailure,
    /// The server closed the event stream.
    StreamEnded,
    /// The message was taken by the shared queue.
    Delivered,
    /// The shared queue is gone.
    QueueClosed,
}

/// What the caller does next.
pub enum WatcherAction {
    /// Open the session and join every channel of the batch.
    Open,
    /// Wait for the next event.
    Receive,
    /// Send the message into the shared queue, waiting while it is full.
    Forward(Message),
    /// Wait `delay_ms` milliseconds, then open the session again and rejoin.
    Reopen { delay_ms: u64 },
    /// Stop; the watcher is done.
    Stop(TerminationReason),
}

/// How often and how patiently a watcher reconnects.
#[derive(Clone, Copy, Debug, PartialEq, Eq, Structural)]
pub struct ReconnectPolicy {
    /// How many reconnections are tried in a row before giving up.
    pub max_attempts: u32,
    /// The wait before the first reconnection.
    pub base_delay_ms: u64,
    /// No wait is longer than this.
    pub max_delay_ms: u64,
}

impl ReconnectPolicy {
    /// Every wait is positive, so a failing session never reconnects in a
    /// tight loop.
    pub open spec fn wf(&self) -> bool {
        self.base_delay_ms > 0 && self.max_delay_ms > 0
    }
}

/// The wait before reconnection number `attempt` (from 0): the base delay,
/// doubled for each earlier attempt, never over the maximum.
pub open spec fn backoff(policy: ReconnectPolicy, attempt: nat) -> u64
    decreases attempt,
{
    if attempt == 0 {
        if policy.base_delay_ms <= policy.max_delay_ms {
            policy.base_delay_ms
        } else {
            policy.max_delay_ms
        }
    } else {
        let before = backoff(policy, (attempt - 1) as nat);
        if before as int * 2 <= policy.max_delay_ms as int {
            (before * 2) as u64
        } else {
            policy.max_delay_ms
        }
    }
}

/// Under a well-formed policy no wait is zero.
pub proof fn lemma_backoff_positive(policy: ReconnectPolicy, attempt: nat)
    requires
        policy.wf(),
    ensures
        backoff(policy, attempt) > 0,
    decreases attempt,
{
    if attempt > 0 {
        lemma_backoff_positive(policy, (attempt - 1) as nat);
    }
}

/// The wait before reconnection number `attempt`.
pub fn backoff_delay(policy: ReconnectPolicy, attempt: u32) -> (r: u64)
    ensures
        r == backoff(policy, attempt as nat),
{
    let mut d: u64 = if policy.base_delay_ms <= policy.max_delay_ms {
        policy.base_delay_ms
    } else {
        policy.max_delay_ms
    };
    let mut k: u32 = 0;
    while k < attempt
        invariant
            k <= attempt,
            d == backoff(policy, k as nat),
            d <= policy.max_delay_ms,
        decreases attempt - k,
    {
        d = if d <= policy.max_delay_ms / 2 {
            d * 2
        } else {
            policy.max_delay_ms
        };
        k = k + 1;
    }
    d
}

/// The state after a failed (re)connection when `attempt` tries had failed
/// before it.
pub open spec fn after_failed_reconnect(policy: ReconnectPolicy, attempt: u32) -> WatcherState {
    if attempt as int + 1 < policy.max_attempts as int {
        WatcherState::Reconnecting { attempt: (attempt + 1) as u32 }
    } else {
        WatcherState::Terminated(TerminationReason::ReconnectExhausted)
    }
}

/// The state that follows `state` on `event`; `matched` says whether the
/// text of a chat line passed the filter.
pub open spec fn next_state(
    policy: ReconnectPolicy,
    state: WatcherState,
    event: SessionEvent,
    matched: bool,
) -> WatcherState {
    match state {
        WatcherState::Connecting => match event {
            SessionEvent::Connected => WatcherState::Reading,
            SessionEvent::ConnectFailed => WatcherState::Terminated(
                TerminationReason::ConnectFailed,
            ),
            SessionEvent::TransportFailure => WatcherState::Terminated(
                TerminationReason::ConnectFailed,
            ),
            SessionEvent::JoinFailed => WatcherState::Terminated(TerminationReason::JoinFailed),
            _ => WatcherState::Terminated(TerminationReason::UnexpectedEvent),
        },
        WatcherState::Reading => match event {
            SessionEvent::Chat { .. } => if matched {
                WatcherState::Forwarding
            } else {
                WatcherState::Reading
            },
            SessionEvent::Ignorable => WatcherState::Reading,
            SessionEvent::ReconnectDirective => WatcherState::Reconnecting { attempt: 0 },
            SessionEvent::TransportFailure => WatcherState::Reconnecting { attempt: 0 },
            SessionEvent::ParseFailure => WatcherState::Terminated(
                TerminationReason::ProtocolParseFailure,
            ),
            SessionEvent::StreamEnded => WatcherState::Terminated(TerminationReason::StreamEnded),
            _ => WatcherState::Terminated(TerminationReason::UnexpectedEvent),
        },
        WatcherState::Forwarding => match event {
            SessionEvent::Delivered => WatcherState::Reading,
            SessionEvent::QueueClosed => WatcherState::Terminated(TerminationReason::QueueClosed),
            _ => WatcherState::Terminated(TerminationReason::UnexpectedEvent),
        },
        WatcherState::Reconnecting { attempt } => match event {
            SessionEvent::Connected => WatcherState::Reading,
            SessionEvent::ConnectFailed => after_failed_reconnect(policy, attempt),
            SessionEvent::JoinFailed => after_failed_reconnect(policy, attempt),
            SessionEvent::TransportFailure => after_failed_reconnect(policy, attempt),
            _ => WatcherState::Terminated(TerminationReason::UnexpectedEvent),
        },
        WatcherState::Terminated(reason) => WatcherState::Terminated(reason),
    }
}

/// The action that a state asks for, for every state but `Forwarding`.
pub open spec fn action_of(policy: ReconnectPolicy, state: WatcherState, action: WatcherAction) -> bool {
    match state {
        WatcherState::Connecting => action is Open,
        WatcherState::Reading => action is Receive,
        WatcherState::Reconnecting { attempt } => action == WatcherAction::Reopen {
            delay_ms: backoff(policy, attempt as nat),
        },
        WatcherState::Terminated(reason) => action == WatcherAction::Stop(reason),
        WatcherState::Forwarding => false,
    }
}

/// The action after a step into `state` on `event`: a `Forward` of the
/// message built from the chat line when the state is `Forwarding`, else the
/// action of the state.
pub open spec fn step_action(
    policy: ReconnectPolicy,
    state: WatcherState,
    event: SessionEvent,
    action: WatcherAction,
) -> bool {
    if state == WatcherState::Forwarding {
        match (event, action) {
            (SessionEvent::Chat { channel, sender, text }, WatcherAction::Forward(m)) => {
                &&& m.channel@ == channel@
                &&& m.nickname@ == shown_sender(sender)
                &&& m.msg@ == text@
            },
            _ => false,
        }
    } else {
        action_of(policy, state, action)
    }
}

/// Whether the text of a chat event matches the pattern; `false` for any
/// other event.
pub open spec fn event_matches(pattern: Seq<char>, event: SessionEvent) -> bool {
    match event {
        SessionEvent::Chat { text, .. } => pattern_matches(pattern, text@),
        _ => false,
    }
}

/// A watcher forwards a message only for a chat line whose text matched the
/// filter, and once terminated it stays terminated and only asks to stop.
pub proof fn lemma_forwards_only_matches(
    policy: ReconnectPolicy,
    state: WatcherState,
    event: SessionEvent,
    matched: bool,
    action: WatcherAction,
)
    requires
        step_action(policy, next_state(policy, state, event, matched), event, action),
    ensures
        action is Forward ==> event is Chat && matched,
        state is Terminated ==> next_state(policy, state, event, matched) == state
            && action == WatcherAction::Stop(state->Terminated_0),
{
}

/// The watcher of one batch of channels.
pub struct ChannelWatcher {
    pub state: WatcherState,
    pub policy: ReconnectPolicy,
}

impl ChannelWatcher {
    /// A watcher about to open its session.
    pub fn new(policy: ReconnectPolicy) -> (r: ChannelWatcher)
        requires
            policy.wf(),
        ensures
            r.state == WatcherState::Connecting,
            r.policy == policy,
    {
        ChannelWatcher { state: WatcherState::Connecting, policy }
    }

    /// The first action: open the session.
    pub fn start(&self) -> (r: WatcherAction)
        requires
            self.state == WatcherState::Connecting,
        ensures
            r is Open,
    {
        WatcherAction::Open
    }

    /// Moves to the next state on `event`, where `matched` says whether the
    /// text of a chat line passed the filter, and returns what to do next.
    pub fn decide(&mut self, event: SessionEvent, matched: bool) -> (r: WatcherAction)
        requires
            old(self).policy.wf(),
        ensures
            r matches WatcherAction::Reopen { delay_ms } ==> delay_ms > 0,
            final(self).policy == old(self).policy,
            final(self).state == next_state(old(self).policy, old(self).state, event, matched),
            step_action(old(self).policy, final(self).state, event, r),
    {
        let policy = self.policy;
        let next = match self.state {
            WatcherState::Connecting => match &event {
                SessionEvent::Connected => WatcherState::Reading,
                SessionEvent::ConnectFailed => WatcherState::Terminated(
                    TerminationReason::ConnectFailed,
                ),
                SessionEvent::TransportFailure => WatcherState::Terminated(
                    TerminationReason::ConnectFailed,
                ),
                SessionEvent::JoinFailed => WatcherState::Terminated(
                    TerminationReason::JoinFailed,
                ),
                _ => WatcherState::Terminated(TerminationReason::UnexpectedEvent),
            },
            WatcherState::Reading => match &event {
                SessionEvent::Chat { .. } => if matched {
                    WatcherState::Forwarding
                } else {
                    WatcherState::Reading
                },
                SessionEvent::Ignorable => WatcherState::Reading,
                SessionEvent::ReconnectDirective => WatcherState::Reconnecting { attempt: 0 },
                SessionEvent::TransportFailure => WatcherState::Reconnecting { attempt: 0 },
                SessionEvent::ParseFailure => WatcherState::Terminated(
                    TerminationReason::ProtocolParseFailure,
                ),
                SessionEvent::StreamEnded => WatcherState::Terminated(
                    TerminationReason::StreamEnded,
                ),
                _ => WatcherState::Terminated(TerminationReason::UnexpectedEvent),
            },
            WatcherState::Forwarding => match &event {
                SessionEvent::Delivered => WatcherState::Reading,
                SessionEvent::QueueClosed => WatcherState::Terminated(
                    TerminationReason::QueueClosed,
                ),
                _ => WatcherState::Terminated(TerminationReason::UnexpectedEvent),
            },
            WatcherState::Reconnecting { attempt } => match &event {
                SessionEvent::Connected => WatcherState::Reading,
                SessionEvent::ConnectFailed | SessionEvent::JoinFailed
                | SessionEvent::TransportFailure => {
                    if attempt < u32::MAX && attempt + 1 < policy.max_attempts {
                        WatcherState::Reconnecting { attempt: attempt + 1 }
                    } else {
                        WatcherState::Terminated(TerminationReason::ReconnectExhausted)
                    }
                },
                _ => WatcherState::Terminated(TerminationReason::UnexpectedEvent),
            },
            WatcherState::Terminated(reason) => WatcherState::Terminated(reason),
        };
        self.state = next;
        match next {
            WatcherState::Connecting => WatcherAction::Open,
            WatcherState::Reading => WatcherAction::Receive,
            WatcherState::Forwarding => match event {
                SessionEvent::Chat { channel, sender, text } => {
                    match message_if_matched(true, channel, sender, text) {
                        Some(m) => WatcherAction::Forward(m),
                        None => WatcherAction::Stop(TerminationReason::UnexpectedEvent),
                    }
                },
                _ => WatcherAction::Stop(TerminationReason::UnexpectedEvent),
            },
            WatcherState::Reconnecting { attempt } => {
                proof {
                    lemma_backoff_positive(policy, attempt as nat);
                }
                WatcherAction::Reopen { delay_ms: backoff_delay(policy, attempt) }
            },
            WatcherState::Terminated(reason) => WatcherAction::Stop(reason),
        }
    }

    /// Handles one event: a chat line is run through `filter`, and a message
    /// is forwarded exactly when the pattern matches its text.
    pub fn step(&mut self, filter: &RegexFilter, event: SessionEvent) -> (r: WatcherAction)
        requires
            old(self).policy.wf(),
        ensures
            r matches WatcherAction::Reopen { delay_ms } ==> delay_ms > 0,
            final(self).policy == old(self).policy,
            final(self).state == next_state(
                old(self).policy,
                old(self).state,
                event,
                event_matches(filter.source(), event),
            ),
            step_action(old(self).policy, final(self).state, event, r),
    {
        let matched = match &event {
            SessionEvent::Chat { text, .. } => filter.matches(text.as_str()),
            _ => false,
        };
        self.decide(event, matched)
    }

    /// Whether the watcher has stopped for good.
    pub fn is_terminated(&self) -> (r: bool)
        ensures
            r == (self.state is Terminated),
    {
        match self.state {
            WatcherState::Terminated(_) => true,
            _ => false,
        }
    }
}

} // verus!
