//! UpdateDispatcher: the per-update state machine that sequences resolver,
//! fetcher, submit strategy and relay.
//!
//! `Classifying -> Fetching -> Submitting -> Relaying -> Idle`, with failure
//! terminals that relay a fixed notice instead. Every reply is emitted as a
//! `SendText` action on the transition that decides it; `Relaying` means the
//! reply is out and the machine only awaits the delivery report, which is
//! never propagated (best-effort notification). The caller performs each
//! action and feeds the result back as the next event.

use vstd::prelude::*;

use crate::fetch::{FetchError, MediaPayload};
use crate::resolver::{resolve, spec_resolve};
use crate::submit::SubmitError;
use crate::update::{AttachmentRef, InboundUpdate};

verus! {

/// Deployment constants of one dispatcher instance.
pub struct DispatcherConfig {
    /// Reply to the recognized start command.
    pub welcome_text: String,
    /// Human-readable notice relayed when fetch or submit fails.
    pub failure_notice: String,
    /// Acknowledgment for updates without command or media: some deployments
    /// send a fixed text, others stay silent.
    pub plain_ack: Option<String>,
}

/// Where one update's handling stands. `Idle` is terminal: nothing of an
/// update outlives its handling.
pub enum DispatchState {
    Classifying,
    Fetching { chat_id: i64 },
    Submitting { chat_id: i64 },
    Relaying { chat_id: i64, text: String },
    Idle,
}

/// What the surrounding runtime reports back to the machine.
#[allow(inconsistent_fields)]
pub enum DispatchEvent {
    Received { update: InboundUpdate },
    Fetched { outcome: Result<MediaPayload, FetchError> },
    Submitted { outcome: Result<String, SubmitError> },
    Relayed,
}

/// What the machine asks the surrounding runtime to do.
pub enum DispatchAction {
    /// Send `text` to the chat: the one reply of this update.
    SendText { chat_id: i64, text: String },
    /// Start the file retrieval protocol for the resolved attachment.
    BeginFetch { chat_id: i64, attachment: AttachmentRef },
    /// Submit the fetched payload to the downstream service.
    SubmitPayload { chat_id: i64, payload: MediaPayload },
    NoAction,
}

/// Which events a state can take; anything else is a runtime fault, not a
/// transition of the machine.
pub open spec fn step_valid(s: DispatchState, e: DispatchEvent) -> bool {
    match (s, e) {
        (DispatchState::Classifying, DispatchEvent::Received { .. }) => true,
        (DispatchState::Fetching { .. }, DispatchEvent::Fetched { .. }) => true,
        (DispatchState::Submitting { .. }, DispatchEvent::Submitted { .. }) => true,
        (DispatchState::Relaying { .. }, DispatchEvent::Relayed) => true,
        _ => false,
    }
}

/// Classification: the start command replies at once; a resolved attachment
/// enters the pipeline; anything else ends the update with the configured
/// acknowledgment or with silence.
pub open spec fn spec_classify(config: DispatcherConfig, u: InboundUpdate) -> (
    DispatchState,
    DispatchAction,
) {
    if u.spec_text() == Some(("/start")@) {
        (
            DispatchState::Idle,
            DispatchAction::SendText { chat_id: u.spec_chat_id(), text: config.welcome_text },
        )
    } else {
        match spec_resolve(&u) {
            Some(att) => (
                DispatchState::Fetching { chat_id: u.spec_chat_id() },
                DispatchAction::BeginFetch { chat_id: u.spec_chat_id(), attachment: att },
            ),
            None => match config.plain_ack {
                Some(t) => (
                    DispatchState::Idle,
                    DispatchAction::SendText { chat_id: u.spec_chat_id(), text: t },
                ),
                None => (DispatchState::Idle, DispatchAction::NoAction),
            },
        }
    }
}

/// The whole transition relation, as a function of the input alone.
pub open spec fn spec_dispatch_step(
    config: DispatcherConfig,
    s: DispatchState,
    e: DispatchEvent,
) -> (DispatchState, DispatchAction) {
    match (s, e) {
        (DispatchState::Classifying, DispatchEvent::Received { update }) => spec_classify(
            config,
            update,
        ),
        (DispatchState::Fetching { chat_id }, DispatchEvent::Fetched { outcome }) => match outcome {
            Ok(payload) => (
                DispatchState::Submitting { chat_id },
                DispatchAction::SubmitPayload { chat_id, payload },
            ),
            Err(_) => (
                DispatchState::Relaying { chat_id, text: config.failure_notice },
                DispatchAction::SendText { chat_id, text: config.failure_notice },
            ),
        },
        (DispatchState::Submitting { chat_id }, DispatchEvent::Submitted { outcome }) => match
        outcome {
            Ok(text) => (
                DispatchState::Relaying { chat_id, text },
                DispatchAction::SendText { chat_id, text },
            ),
            Err(_) => (
                DispatchState::Relaying { chat_id, text: config.failure_notice },
                DispatchAction::SendText { chat_id, text: config.failure_notice },
            ),
        },
        (DispatchState::Relaying { .. }, DispatchEvent::Relayed) => (
            DispatchState::Idle,
            DispatchAction::NoAction,
        ),
        _ => (DispatchState::Idle, DispatchAction::NoAction),
    }
}

fn is_start_command(u: &InboundUpdate) -> (r: bool)
    ensures
        r == (u.spec_text() == Some(("/start")@)),
{
    let t: Option<&String> = match u {
        InboundUpdate::TextMessage { text, .. } => Some(text),
        InboundUpdate::ChannelPost { text: Some(t), .. } => Some(t),
        InboundUpdate::MediaMessage { text: Some(t), .. } => Some(t),
        _ => None,
    };
    match t {
        Some(s) => {
            let cmd = ("/start").to_owned();
            *s == cmd
        },
        None => false,
    }
}

fn classify(config: &DispatcherConfig, update: InboundUpdate) -> (r: (
    DispatchState,
    DispatchAction,
))
    ensures
        r == spec_classify(*config, update),
{
    let chat_id = update.chat_id();
    if is_start_command(&update) {
        (
            DispatchState::Idle,
            DispatchAction::SendText { chat_id, text: config.welcome_text.clone() },
        )
    } else {
        match resolve(&update) {
            Some(att) => (
                DispatchState::Fetching { chat_id },
                DispatchAction::BeginFetch { chat_id, attachment: att },
            ),
            None => match &config.plain_ack {
                Some(t) => (
                    DispatchState::Idle,
                    DispatchAction::SendText { chat_id, text: t.clone() },
                ),
                None => (DispatchState::Idle, DispatchAction::NoAction),
            },
        }
    }
}

/// One transition: take the event the runtime reports, hand back the next
/// state and the action to perform.
pub fn dispatch_step(config: &DispatcherConfig, state: DispatchState, event: DispatchEvent) -> (r: (
    DispatchState,
    DispatchAction,
))
    requires
        step_valid(state, event),
    ensures
        r == spec_dispatch_step(*config, state, event),
{
    match (state, event) {
        (DispatchState::Classifying, DispatchEvent::Received { update }) => classify(
            config,
            update,
        ),
        (DispatchState::Fetching { chat_id }, DispatchEvent::Fetched { outcome }) => match outcome {
            Ok(payload) => (
                DispatchState::Submitting { chat_id },
                DispatchAction::SubmitPayload { chat_id, payload },
            ),
            Err(_) => (
                DispatchState::Relaying { chat_id, text: config.failure_notice.clone() },
                DispatchAction::SendText { chat_id, text: config.failure_notice.clone() },
            ),
        },
        (DispatchState::Submitting { chat_id }, DispatchEvent::Submitted { outcome }) => match
        outcome {
            Ok(text) => {
                let t2 = text.clone();
                (
                    DispatchState::Relaying { chat_id, text },
                    DispatchAction::SendText { chat_id, text: t2 },
                )
            },
            Err(_) => (
                DispatchState::Relaying { chat_id, text: config.failure_notice.clone() },
                DispatchAction::SendText { chat_id, text: config.failure_notice.clone() },
            ),
        },
        (DispatchState::Relaying { .. }, DispatchEvent::Relayed) => (
            DispatchState::Idle,
            DispatchAction::NoAction,
        ),
        _ => (DispatchState::Idle, DispatchAction::NoAction),
    }
}

/// How many replies a state still owes the chat. A pipeline state owes one;
/// `Relaying` owes none, its reply went out on the transition that entered it.
pub open spec fn replies_owed(s: DispatchState) -> nat {
    match s {
        DispatchState::Fetching { .. } => 1,
        DispatchState::Submitting { .. } => 1,
        _ => 0,
    }
}

/// How many replies an action sends.
pub open spec fn replies_of(a: DispatchAction) -> nat {
    match a {
        DispatchAction::SendText { .. } => 1,
        _ => 0,
    }
}

/// Replies are conserved: once an update is past classification, every valid
/// step pays what the state owed, either by sending now or by moving to a
/// state that still owes it.
pub proof fn lemma_reply_accounting(config: DispatcherConfig, s: DispatchState, e: DispatchEvent)
    requires
        step_valid(s, e),
        !(s is Classifying),
    ensures
        ({
            let (s1, a1) = spec_dispatch_step(config, s, e);
            replies_owed(s) == replies_of(a1) + replies_owed(s1)
        }),
{
}

/// A run of the machine: the final state and how many replies went out.
pub open spec fn run(config: DispatcherConfig, s: DispatchState, events: Seq<DispatchEvent>) -> (
    DispatchState,
    nat,
)
    decreases events.len(),
{
    if events.len() == 0 {
        (s, 0nat)
    } else {
        let (s1, a1) = spec_dispatch_step(config, s, events[0]);
        let (sf, n) = run(config, s1, events.skip(1));
        (sf, (replies_of(a1) + n) as nat)
    }
}

/// Whether a run takes only events its states can take.
pub open spec fn trace_valid(
    config: DispatcherConfig,
    s: DispatchState,
    events: Seq<DispatchEvent>,
) -> bool
    decreases events.len(),
{
    events.len() == 0 || (step_valid(s, events[0]) && trace_valid(
        config,
        spec_dispatch_step(config, s, events[0]).0,
        events.skip(1),
    ))
}

proof fn lemma_run_accounting(
    config: DispatcherConfig,
    s: DispatchState,
    events: Seq<DispatchEvent>,
)
    requires
        !(s is Classifying),
        trace_valid(config, s, events),
        run(config, s, events).0 is Idle,
    ensures
        run(config, s, events).1 == replies_owed(s),
    decreases events.len(),
{
    if events.len() == 0 {
        // the final state is s itself: Idle, which owes nothing
    } else {
        let (s1, a1) = spec_dispatch_step(config, s, events[0]);
        lemma_reply_accounting(config, s, events[0]);
        assert(!(s1 is Classifying));
        lemma_run_accounting(config, s1, events.skip(1));
    }
}

/// Single reply: an update that enters `Fetching` produces exactly one
/// `SendText` over any valid run that brings the machine back to `Idle`,
/// whichever state (fetch failure, submit failure, relay) terminated it.
pub proof fn lemma_single_reply(
    config: DispatcherConfig,
    s: DispatchState,
    events: Seq<DispatchEvent>,
)
    requires
        s is Fetching,
        trace_valid(config, s, events),
        run(config, s, events).0 is Idle,
    ensures
        run(config, s, events).1 == 1,
{
    lemma_run_accounting(config, s, events);
}

/// Command shortcut: an update whose text is exactly the start command never
/// reaches resolver or fetcher — classification immediately ends the update
/// with the fixed welcome text as its one reply.
pub proof fn lemma_start_shortcut(config: DispatcherConfig, u: InboundUpdate)
    requires
        u.spec_text() == Some(("/start")@),
    ensures
        ({
            let (s1, a1) = spec_dispatch_step(
                config,
                DispatchState::Classifying,
                DispatchEvent::Received { update: u },
            );
            &&& s1 is Idle
            &&& a1 matches DispatchAction::SendText { chat_id, text } && chat_id
                == u.spec_chat_id() && text == config.welcome_text
            &&& !(a1 is BeginFetch)
            &&& !(a1 is SubmitPayload)
        }),
        run(
            config,
            DispatchState::Classifying,
            seq![DispatchEvent::Received { update: u }],
        ).0 is Idle,
        run(config, DispatchState::Classifying, seq![DispatchEvent::Received { update: u }]).1
            == 1,
{
    reveal_with_fuel(run, 2);
    let e0 = DispatchEvent::Received { update: u };
    let events = seq![DispatchEvent::Received { update: u }];
    assert(events[0] == e0);
    assert(events.skip(1) =~= Seq::<DispatchEvent>::empty());
    let (s1, a1) = spec_dispatch_step(config, DispatchState::Classifying, e0);
    assert(run(config, s1, events.skip(1)) == (s1, 0nat));
}

} // verus!
