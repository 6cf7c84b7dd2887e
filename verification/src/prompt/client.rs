//! Daemon-side prompt client. Asks the user-session agent, over a unix socket,
//! to render a prompt. Any failure (agent unreachable, protocol error, no
//! response) falls back to the default action - the daemon never blocks
//! indefinitely on a missing agent.
use crate::config::DefaultAction;
use crate::path::{text_of_bytes, FilePath};
use crate::policy::rule::Access;
use crate::process::identify::ProcessInfo;
use crate::prompt::protocol::{
    AgentRequest, AgentResponse, ProcessDesc, PromptOutcome, PROTOCOL_VERSION,
};
use crate::prompt::types::{default_choice, fallback, UserChoice};
use crate::text::{chars_of, text_of, trim, trim_chars};
use crate::time::TimeSpan;
use vstd::prelude::*;

verus! {

/// How to reach the agent.
#[derive(Debug)]
pub struct PromptClient {
    pub socket_path: FilePath,
    pub timeout: TimeSpan,
    /// uid the agent is expected to run as (the guarded user). A peer that is
    /// neither this user nor root is rejected - defense in depth on top of the
    /// root-owned socket directory.
    pub expected_uid: u32,
}

/// Why an exchange with the agent failed.
#[derive(Debug, Clone, Copy, PartialEq, Eq, Structural)]
pub enum ExchangeError {
    /// Connecting, sending or receiving failed.
    Io,
    /// The peer is neither the guarded user nor root.
    WrongPeer { uid: u32 },
    /// The agent closed the connection without responding.
    NoReply,
    /// The reply could not be parsed.
    BadReply,
    /// The reply is of another protocol version.
    WrongVersion { v: u32 },
    /// The reply answers another request.
    WrongId { id: u64 },
}

/// Where an exchange with the agent stands.
#[derive(Debug, Clone, Copy, PartialEq, Eq, Structural)]
pub enum Exchange {
    /// The connection is being made.
    Connecting,
    /// The request is being sent.
    Sending,
    /// The reply line is being read.
    Receiving,
    /// The reply is being parsed.
    Parsing,
    /// The exchange is over.
    Done,
}

/// What happened on the connection.
#[derive(Debug)]
pub enum ExchangeEvent {
    /// Connected to a peer with this uid.
    Connected(u32),
    /// The whole request was sent.
    Sent,
    /// A line was read; empty if the peer closed the connection.
    Line(String),
    /// The line's reply.
    Parsed(AgentResponse),
    /// The line is not a reply.
    Unparsable,
    /// Connecting, sending or receiving failed.
    Failed,
    /// The time for the exchange is over.
    TimedOut,
}

/// What to do next on the connection.
#[derive(Debug)]
pub enum ExchangeAction {
    /// Send the request.
    Send,
    /// Read a line.
    Receive,
    /// Parse this text as a reply.
    Parse(String),
    /// Stop, with this result.
    Finish(Result<PromptOutcome, ExchangeError>),
}

/// The contents of an [`ExchangeEvent`].
pub ghost enum EventView {
    Connected(u32),
    Sent,
    Line(Seq<char>),
    Parsed(AgentResponse),
    Unparsable,
    Failed,
    TimedOut,
}

impl View for ExchangeEvent {
    type V = EventView;

    open spec fn view(&self) -> EventView {
        match *self {
            ExchangeEvent::Connected(uid) => EventView::Connected(uid),
            ExchangeEvent::Sent => EventView::Sent,
            ExchangeEvent::Line(s) => EventView::Line(s@),
            ExchangeEvent::Parsed(r) => EventView::Parsed(r),
            ExchangeEvent::Unparsable => EventView::Unparsable,
            ExchangeEvent::Failed => EventView::Failed,
            ExchangeEvent::TimedOut => EventView::TimedOut,
        }
    }
}

/// The contents of an [`ExchangeAction`].
pub ghost enum ActionView {
    Send,
    Receive,
    Parse(Seq<char>),
    Finish(Result<PromptOutcome, ExchangeError>),
}

impl View for ExchangeAction {
    type V = ActionView;

    open spec fn view(&self) -> ActionView {
        match *self {
            ExchangeAction::Send => ActionView::Send,
            ExchangeAction::Receive => ActionView::Receive,
            ExchangeAction::Parse(s) => ActionView::Parse(s@),
            ExchangeAction::Finish(r) => ActionView::Finish(r),
        }
    }
}

/// Whether a peer may answer for the guarded user: it is that user, or root.
pub open spec fn trusted_peer(peer_uid: u32, expected_uid: u32) -> bool {
    peer_uid == expected_uid || peer_uid == 0
}

/// What a parsed reply to the request `id` amounts to.
pub open spec fn reply_outcome(reply: AgentResponse, id: u64) -> Result<
    PromptOutcome,
    ExchangeError,
> {
    if reply.v != PROTOCOL_VERSION {
        Err(ExchangeError::WrongVersion { v: reply.v })
    } else if reply.id != id {
        Err(ExchangeError::WrongId { id: reply.id })
    } else {
        Ok(reply.outcome)
    }
}

/// One step of the exchange for the request `id`.
pub open spec fn exchange_step(
    state: Exchange,
    event: EventView,
    expected_uid: u32,
    id: u64,
) -> (Exchange, ActionView) {
    match (state, event) {
        (_, EventView::TimedOut) => (
            Exchange::Done,
            ActionView::Finish(Ok(PromptOutcome::NoResponse)),
        ),
        (Exchange::Connecting, EventView::Connected(uid)) => if trusted_peer(uid, expected_uid) {
            (Exchange::Sending, ActionView::Send)
        } else {
            (Exchange::Done, ActionView::Finish(Err(ExchangeError::WrongPeer { uid })))
        },
        (Exchange::Sending, EventView::Sent) => (Exchange::Receiving, ActionView::Receive),
        (Exchange::Receiving, EventView::Line(line)) => if line.len() == 0 {
            (Exchange::Done, ActionView::Finish(Err(ExchangeError::NoReply)))
        } else {
            (Exchange::Parsing, ActionView::Parse(trim(line)))
        },
        (Exchange::Parsing, EventView::Parsed(reply)) => (
            Exchange::Done,
            ActionView::Finish(reply_outcome(reply, id)),
        ),
        (Exchange::Parsing, EventView::Unparsable) => (
            Exchange::Done,
            ActionView::Finish(Err(ExchangeError::BadReply)),
        ),
        (_, _) => (Exchange::Done, ActionView::Finish(Err(ExchangeError::Io))),
    }
}

/// The choice that the end of an exchange stands for.
pub open spec fn choice_after(
    result: Result<PromptOutcome, ExchangeError>,
    default_action: DefaultAction,
) -> UserChoice {
    match result {
        Ok(PromptOutcome::Decided(choice)) => choice,
        _ => fallback(default_action),
    }
}

/// Seconds beyond the agent's own timeout before the exchange is given up.
pub const GRACE_SECS: u64 = 5;

impl PromptClient {
    /// A client for the agent at `socket_path`.
    pub fn new(socket_path: FilePath, timeout: TimeSpan, expected_uid: u32) -> (r: PromptClient)
        ensures
            r.socket_path == socket_path,
            r.timeout == timeout,
            r.expected_uid == expected_uid,
    {
        PromptClient { socket_path, timeout, expected_uid }
    }

    /// The choice that an exchange with the agent leads to: the agent's
    /// decision, or `default_action` when the agent does not decide.
    pub fn prompt(
        &self,
        result: Result<PromptOutcome, ExchangeError>,
        default_action: DefaultAction,
    ) -> (r: UserChoice)
        ensures
            r == choice_after(result, default_action),
    {
        match result {
            Ok(PromptOutcome::Decided(choice)) => choice,
            Ok(PromptOutcome::NoResponse) => default_choice(default_action),
            Err(_) => default_choice(default_action),
        }
    }

    /// The request to the agent about `process` accessing `file`.
    pub fn request(&self, id: u64, process: &ProcessInfo, file: &FilePath, access: Access) -> (r:
        AgentRequest)
        ensures
            r.v == PROTOCOL_VERSION,
            r.id == id,
            r.access == access,
            r.file@ == text_of_bytes(file@),
            r.process.describes(process),
            r.timeout_ms == self.timeout.millis() % 0x1_0000_0000_0000_0000,
    {
        AgentRequest {
            v: PROTOCOL_VERSION,
            id,
            access,
            file: file.to_text(),
            process: ProcessDesc::of(process),
            timeout_ms: self.timeout.as_millis(),
        }
    }

    /// The line that a request is sent as: its JSON text and a line feed.
    pub fn request_line(json: Vec<u8>) -> (r: Vec<u8>)
        ensures
            r@ == json@.push(0x0a),
    {
        let mut line = json;
        line.push(0x0a);
        line
    }

    /// Hard upper bound on an exchange: the agent renders for up to the
    /// timeout; a small grace lets its own timeout win over this one.
    pub fn hard_limit(&self) -> (r: TimeSpan)
        requires
            self.timeout.secs + GRACE_SECS <= u64::MAX,
        ensures
            r.secs == self.timeout.secs + GRACE_SECS,
            r.secs == self.timeout.secs + 5,
            r.nanos == self.timeout.nanos,
    {
        self.timeout.plus_secs(GRACE_SECS)
    }

    /// The next step of the exchange for the request `id`, starting from
    /// `Exchange::Connecting`. The agent must be the guarded user or root, and
    /// its reply must be of this protocol version and answer this request.
    pub fn next(&self, state: Exchange, event: ExchangeEvent, id: u64) -> (r: (
        Exchange,
        ExchangeAction,
    ))
        ensures
            (r.0, r.1@) == exchange_step(state, event@, self.expected_uid, id),
    {
        match event {
            ExchangeEvent::TimedOut => (
                Exchange::Done,
                ExchangeAction::Finish(Ok(PromptOutcome::NoResponse)),
            ),
            ExchangeEvent::Connected(uid) => {
                if state != Exchange::Connecting {
                    (Exchange::Done, ExchangeAction::Finish(Err(ExchangeError::Io)))
                } else if uid != self.expected_uid && uid != 0 {
                    (
                        Exchange::Done,
                        ExchangeAction::Finish(Err(ExchangeError::WrongPeer { uid })),
                    )
                } else {
                    (Exchange::Sending, ExchangeAction::Send)
                }
            },
            ExchangeEvent::Sent => {
                if state == Exchange::Sending {
                    (Exchange::Receiving, ExchangeAction::Receive)
                } else {
                    (Exchange::Done, ExchangeAction::Finish(Err(ExchangeError::Io)))
                }
            },
            ExchangeEvent::Line(line) => {
                if state != Exchange::Receiving {
                    (Exchange::Done, ExchangeAction::Finish(Err(ExchangeError::Io)))
                } else {
                    let chars = chars_of(line.as_str());
                    if chars.len() == 0 {
                        (Exchange::Done, ExchangeAction::Finish(Err(ExchangeError::NoReply)))
                    } else {
                        (Exchange::Parsing, ExchangeAction::Parse(text_of(&trim_chars(&chars))))
                    }
                }
            },
            ExchangeEvent::Parsed(reply) => {
                if state != Exchange::Parsing {
                    (Exchange::Done, ExchangeAction::Finish(Err(ExchangeError::Io)))
                } else if reply.v != PROTOCOL_VERSION {
                    (
                        Exchange::Done,
                        ExchangeAction::Finish(Err(ExchangeError::WrongVersion { v: reply.v })),
                    )
                } else if reply.id != id {
                    (
                        Exchange::Done,
                        ExchangeAction::Finish(Err(ExchangeError::WrongId { id: reply.id })),
                    )
                } else {
                    (Exchange::Done, ExchangeAction::Finish(Ok(reply.outcome)))
                }
            },
            ExchangeEvent::Unparsable => {
                if state == Exchange::Parsing {
                    (Exchange::Done, ExchangeAction::Finish(Err(ExchangeError::BadReply)))
                } else {
                    (Exchange::Done, ExchangeAction::Finish(Err(ExchangeError::Io)))
                }
            },
            ExchangeEvent::Failed => (
                Exchange::Done,
                ExchangeAction::Finish(Err(ExchangeError::Io)),
            ),
        }
    }
}

/// The state of an exchange after a series of events, as long as it goes on.
pub open spec fn exchange_run(events: Seq<EventView>, expected_uid: u32, id: u64) -> (
    Exchange,
    Option<ActionView>,
)
    decreases events.len(),
{
    if events.len() == 0 {
        (Exchange::Connecting, None)
    } else {
        let before = exchange_run(events.drop_last(), expected_uid, id);
        if before.0 == Exchange::Done {
            before
        } else {
            let step = exchange_step(before.0, events.last(), expected_uid, id);
            (step.0, Some(step.1))
        }
    }
}

/// Whether some event of the series is a connection to a trusted peer.
pub open spec fn met_trusted_peer(events: Seq<EventView>, expected_uid: u32) -> bool {
    exists|i: int|
        0 <= i < events.len() && (#[trigger] events[i] matches EventView::Connected(uid)
            && trusted_peer(uid, expected_uid))
}

/// The request is not sent, and no decision is taken from a reply, unless the
/// peer is the guarded user or root.
pub proof fn law_only_a_trusted_peer_is_asked(events: Seq<EventView>, expected_uid: u32, id: u64)
    ensures
        ({
            let run = exchange_run(events, expected_uid, id);
            let went_on = run.0 != Exchange::Connecting && run.0 != Exchange::Done;
            let decided = run.1 matches Some(ActionView::Finish(Ok(PromptOutcome::Decided(_))));
            went_on || decided ==> met_trusted_peer(events, expected_uid)
        }),
    decreases events.len(),
{
    if events.len() > 0 {
        let prior = events.drop_last();
        law_only_a_trusted_peer_is_asked(prior, expected_uid, id);
        let before = exchange_run(prior, expected_uid, id);
        if met_trusted_peer(prior, expected_uid) {
            let i = choose|i: int|
                0 <= i < prior.len() && (#[trigger] prior[i] matches EventView::Connected(uid)
                    && trusted_peer(uid, expected_uid));
            assert(events[i] == prior[i]);
        } else if before.0 == Exchange::Connecting {
            assert(events[events.len() - 1] == events.last());
        }
    }
}

/// How many events an exchange in this state can still take.
pub open spec fn events_left(state: Exchange) -> int {
    match state {
        Exchange::Connecting => 4,
        Exchange::Sending => 3,
        Exchange::Receiving => 2,
        Exchange::Parsing => 1,
        Exchange::Done => 0,
    }
}

/// An exchange does not go on forever: every event brings it closer to its end,
/// and after four events it is over, whatever they are.
pub proof fn law_exchanges_end(events: Seq<EventView>, expected_uid: u32, id: u64)
    ensures
        events.len() >= 4 ==> exchange_run(events, expected_uid, id).0 == Exchange::Done,
        events_left(exchange_run(events, expected_uid, id).0) <= 4 - events.len() || exchange_run(
            events,
            expected_uid,
            id,
        ).0 == Exchange::Done,
    decreases events.len(),
{
    if events.len() > 0 {
        law_exchanges_end(events.drop_last(), expected_uid, id);
    }
}

/// A decision comes only from a reply of this protocol version to this request.
pub proof fn law_decisions_answer_the_request(
    state: Exchange,
    event: EventView,
    expected_uid: u32,
    id: u64,
    choice: UserChoice,
)
    requires
        exchange_step(state, event, expected_uid, id).1 == ActionView::Finish(
            Ok(PromptOutcome::Decided(choice)),
        ),
    ensures
        event == EventView::Parsed(
            AgentResponse { v: PROTOCOL_VERSION, id, outcome: PromptOutcome::Decided(choice) },
        ),
{
}

/// Whatever goes wrong with the agent, the outcome is the default action.
pub proof fn law_failures_fall_back_to_the_default(
    state: Exchange,
    event: EventView,
    expected_uid: u32,
    id: u64,
    default_action: DefaultAction,
)
    ensures
        exchange_step(state, event, expected_uid, id).1 matches ActionView::Finish(result) ==> {
            ||| result matches Ok(PromptOutcome::Decided(_))
            ||| choice_after(result, default_action) == fallback(default_action)
        },
{
}

/// A reply of this protocol version to this request is taken as it is: whatever
/// outcome it brings is the outcome of the exchange.
pub proof fn law_replies_are_taken_as_they_are(
    reply: AgentResponse,
    expected_uid: u32,
    id: u64,
    outcome: PromptOutcome,
)
    requires
        reply.v == PROTOCOL_VERSION,
        reply.id == id,
        reply.outcome == outcome,
    ensures
        exchange_step(Exchange::Parsing, EventView::Parsed(reply), expected_uid, id) == (
            Exchange::Done,
            ActionView::Finish(Ok(outcome)),
        ),
{
}

/// A reply of another version, or to another request, is an error that names
/// what it brought; the version is looked at first.
pub proof fn law_foreign_replies_are_refused(reply: AgentResponse, expected_uid: u32, id: u64)
    ensures
        reply.v != PROTOCOL_VERSION ==> exchange_step(
            Exchange::Parsing,
            EventView::Parsed(reply),
            expected_uid,
            id,
        ) == (
            Exchange::Done,
            ActionView::Finish(Err(ExchangeError::WrongVersion { v: reply.v })),
        ),
        reply.v == PROTOCOL_VERSION && reply.id != id ==> exchange_step(
            Exchange::Parsing,
            EventView::Parsed(reply),
            expected_uid,
            id,
        ) == (Exchange::Done, ActionView::Finish(Err(ExchangeError::WrongId { id: reply.id }))),
{
}

/// The guarded user and root are asked; any other peer ends the exchange.
pub proof fn law_peers_are_told_apart(uid: u32, expected_uid: u32, id: u64)
    ensures
        uid == expected_uid || uid == 0 ==> exchange_step(
            Exchange::Connecting,
            EventView::Connected(uid),
            expected_uid,
            id,
        ) == (Exchange::Sending, ActionView::Send),
        uid != expected_uid && uid != 0 ==> exchange_step(
            Exchange::Connecting,
            EventView::Connected(uid),
            expected_uid,
            id,
        ) == (Exchange::Done, ActionView::Finish(Err(ExchangeError::WrongPeer { uid }))),
{
}

/// An exchange with the guarded user or root that is not disturbed ends with the
/// outcome of its reply: the request is sent, one line is read, and that line
/// without the white space around it is what is parsed.
pub proof fn law_undisturbed_exchanges_bring_the_answer(
    uid: u32,
    line: Seq<char>,
    reply: AgentResponse,
    expected_uid: u32,
    id: u64,
)
    requires
        uid == expected_uid || uid == 0,
        line.len() > 0,
        reply.v == PROTOCOL_VERSION,
        reply.id == id,
    ensures
        ({
            let events = seq![
                EventView::Connected(uid),
                EventView::Sent,
                EventView::Line(line),
                EventView::Parsed(reply),
            ];
            &&& exchange_run(events.take(0), expected_uid, id) == (
                Exchange::Connecting,
                None::<ActionView>,
            )
            &&& exchange_run(events.take(1), expected_uid, id) == (
                Exchange::Sending,
                Some(ActionView::Send),
            )
            &&& exchange_run(events.take(2), expected_uid, id) == (
                Exchange::Receiving,
                Some(ActionView::Receive),
            )
            &&& exchange_run(events.take(3), expected_uid, id) == (
                Exchange::Parsing,
                Some(ActionView::Parse(trim(line))),
            )
            &&& exchange_run(events, expected_uid, id) == (
                Exchange::Done,
                Some(ActionView::Finish(Ok(reply.outcome))),
            )
        }),
{
    let events = seq![
        EventView::Connected(uid),
        EventView::Sent,
        EventView::Line(line),
        EventView::Parsed(reply),
    ];
    let started = exchange_run(events.take(0), expected_uid, id);
    assert(started.0 == Exchange::Connecting);
    assert(events.take(1).drop_last() =~= events.take(0));
    assert(events.take(1).last() == EventView::Connected(uid));
    assert(exchange_run(events.take(1), expected_uid, id).0 == Exchange::Sending);
    assert(events.take(2).drop_last() =~= events.take(1));
    assert(events.take(2).last() == EventView::Sent);
    assert(exchange_run(events.take(2), expected_uid, id).0 == Exchange::Receiving);
    assert(events.take(3).drop_last() =~= events.take(2));
    assert(events.take(3).last() == EventView::Line(line));
    assert(exchange_run(events.take(3), expected_uid, id).0 == Exchange::Parsing);
    assert(events.drop_last() =~= events.take(3));
}

/// What disturbs an exchange ends it: running out of time as if nobody had
/// answered, everything else with an error, which tells a closed connection and
/// an unreadable reply from the rest.
pub proof fn law_disturbances_end_the_exchange(
    state: Exchange,
    event: EventView,
    expected_uid: u32,
    id: u64,
)
    ensures
        exchange_step(state, EventView::TimedOut, expected_uid, id) == (
            Exchange::Done,
            ActionView::Finish(Ok(PromptOutcome::NoResponse)),
        ),
        exchange_step(state, EventView::Failed, expected_uid, id) == (
            Exchange::Done,
            ActionView::Finish(Err(ExchangeError::Io)),
        ),
        exchange_step(Exchange::Receiving, EventView::Line(Seq::empty()), expected_uid, id) == (
            Exchange::Done,
            ActionView::Finish(Err(ExchangeError::NoReply)),
        ),
        exchange_step(Exchange::Parsing, EventView::Unparsable, expected_uid, id) == (
            Exchange::Done,
            ActionView::Finish(Err(ExchangeError::BadReply)),
        ),
        ({
            ||| event is Connected && state != Exchange::Connecting
            ||| event is Sent && state != Exchange::Sending
            ||| event is Line && state != Exchange::Receiving
            ||| (event is Parsed || event is Unparsable) && state != Exchange::Parsing
        }) ==> exchange_step(state, event, expected_uid, id) == (
            Exchange::Done,
            ActionView::Finish(Err(ExchangeError::Io)),
        ),
{
}

/// The user's answer is the choice, whichever it is and whatever the default
/// action; where there is none, the default action decides this once.
pub proof fn law_answers_are_the_choice(
    result: Result<PromptOutcome, ExchangeError>,
    choice: UserChoice,
    default_action: DefaultAction,
)
    ensures
        result == Ok::<PromptOutcome, ExchangeError>(PromptOutcome::Decided(choice)) ==> choice_after(
            result,
            default_action,
        ) == choice,
        !(result matches Ok(PromptOutcome::Decided(_))) ==> choice_after(result, default_action) == (
        if default_action == DefaultAction::Allow {
            UserChoice::AllowOnce
        } else {
            UserChoice::DenyOnce
        }),
{
}

/// An event and an action of an exchange are what they hold.
pub proof fn law_exchanges_are_told_what_happened(
    uid: u32,
    line: String,
    reply: AgentResponse,
    result: Result<PromptOutcome, ExchangeError>,
)
    ensures
        ExchangeEvent::Connected(uid)@ == EventView::Connected(uid),
        ExchangeEvent::Sent@ == EventView::Sent,
        ExchangeEvent::Line(line)@ == EventView::Line(line@),
        ExchangeEvent::Parsed(reply)@ == EventView::Parsed(reply),
        ExchangeEvent::Unparsable@ == EventView::Unparsable,
        ExchangeEvent::Failed@ == EventView::Failed,
        ExchangeEvent::TimedOut@ == EventView::TimedOut,
        ExchangeAction::Send@ == ActionView::Send,
        ExchangeAction::Receive@ == ActionView::Receive,
        ExchangeAction::Parse(line)@ == ActionView::Parse(line@),
        ExchangeAction::Finish(result)@ == ActionView::Finish(result),
{
}

} // verus!
