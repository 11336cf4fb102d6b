//! The control channel, on which an agent waits for connection requests.

use crate::json::quote;
use vstd::prelude::*;
use vstd::string::StringExecFns;

verus! {

/// Seconds between two pings on a control channel.
pub const PING_SECS: u64 = 30;

/// How many messages a control channel holds back for a slow agent.
pub const CONTROL_BUFFER: usize = 32;

/// What the relay tells an agent.
#[derive(Debug)]
pub enum ControlMessage {
    /// A manager waits: dial back with a data socket for this session.
    NewConnection { session_id: String },
}

/// The session that a message is about.
pub open spec fn session_of(message: ControlMessage) -> Seq<char> {
    match message {
        ControlMessage::NewConnection { session_id } => session_id@,
    }
}

/// The JSON text of a connection request.
pub open spec fn new_connection_json(session_id: Seq<char>) -> Seq<char> {
    "{\"type\":\"new_connection\",\"session_id\":"@ + crate::json::quoted(session_id) + "}"@
}

impl ControlMessage {
    /// The JSON text of the message.
    pub fn to_json(&self) -> (r: String)
        ensures
            r@ == new_connection_json(session_of(*self)),
    {
        match self {
            ControlMessage::NewConnection { session_id } => {
                let mut text = "{\"type\":\"new_connection\",\"session_id\":".to_owned();
                text.append(quote(session_id.as_str()).as_str());
                text.append("}");
                text
            },
        }
    }
}

/// What happens to the sending side of a control channel.
pub enum ControlEvent {
    /// A message is to go to the agent.
    Message(ControlMessage),
    /// No message will come any more: the registration was replaced.
    NoMoreMessages,
    /// It is time for a ping.
    PingDue,
    /// The last frame was written, or could not be.
    Written(bool),
}

/// What the sending side of a control channel does next.
pub enum ControlAction {
    /// Send a text frame.
    SendText(String),
    /// Send an empty ping.
    SendPing,
    /// Wait for the next event.
    Wait,
    /// End.
    Stop,
}

/// Whether an action is the one that an event calls for. Every message is sent
/// as JSON, a ping when it is due, and the channel ends when messages do or when
/// a frame cannot be written.
pub open spec fn control_reacts(event: ControlEvent, action: ControlAction) -> bool {
    match event {
        ControlEvent::Message(message) => action is SendText && action->SendText_0@
            == new_connection_json(session_of(message)),
        ControlEvent::NoMoreMessages => action is Stop,
        ControlEvent::PingDue => action is SendPing,
        ControlEvent::Written(ok) => if ok {
            action is Wait
        } else {
            action is Stop
        },
    }
}

/// Decides what the sending side of a control channel does on an event.
pub fn control_step(event: ControlEvent) -> (r: ControlAction)
    ensures
        control_reacts(event, r),
{
    match event {
        ControlEvent::Message(message) => ControlAction::SendText(message.to_json()),
        ControlEvent::NoMoreMessages => ControlAction::Stop,
        ControlEvent::PingDue => ControlAction::SendPing,
        ControlEvent::Written(ok) => if ok {
            ControlAction::Wait
        } else {
            ControlAction::Stop
        },
    }
}

/// Whether the receiving side of a control channel goes on listening: it takes
/// and drops whatever the agent sends, until the agent closes the socket or
/// reading fails. `read` is the next frame, a failure, or the end.
pub fn keeps_listening<M, E>(read: &Option<Result<M, E>>) -> (r: bool)
    ensures
        r == (*read is Some && read->0 is Ok),
{
    match read {
        Some(Ok(_)) => true,
        _ => false,
    }
}

/// The messages that a control channel takes before it ends, as JSON.
pub open spec fn texts_due(events: Seq<ControlEvent>) -> Seq<Seq<char>>
    decreases events.len(),
{
    if events.len() == 0 {
        Seq::empty()
    } else {
        match events.first() {
            ControlEvent::Message(message) => seq![new_connection_json(session_of(message))]
                + texts_due(events.drop_first()),
            ControlEvent::PingDue => texts_due(events.drop_first()),
            ControlEvent::Written(true) => texts_due(events.drop_first()),
            _ => Seq::empty(),
        }
    }
}

/// The text frames that a control channel sends before it ends.
pub open spec fn texts_sent(actions: Seq<ControlAction>) -> Seq<Seq<char>>
    decreases actions.len(),
{
    if actions.len() == 0 {
        Seq::empty()
    } else {
        match actions.first() {
            ControlAction::SendText(text) => seq![text@] + texts_sent(actions.drop_first()),
            ControlAction::SendPing => texts_sent(actions.drop_first()),
            ControlAction::Wait => texts_sent(actions.drop_first()),
            ControlAction::Stop => Seq::empty(),
        }
    }
}

/// A control channel sends every message that it takes, in order and each once,
/// however pings fall in between, until it ends.
pub proof fn law_control_channel_sends_in_order(
    events: Seq<ControlEvent>,
    actions: Seq<ControlAction>,
)
    requires
        events.len() == actions.len(),
        forall|i: int| 0 <= i < events.len() ==> control_reacts(events[i], #[trigger] actions[i]),
    ensures
        texts_sent(actions) == texts_due(events),
    decreases events.len(),
{
    if events.len() > 0 {
        assert(control_reacts(events[0], actions[0]));
        let rest = events.drop_first();
        let done = actions.drop_first();
        assert forall|i: int| 0 <= i < rest.len() implies control_reacts(
            rest[i],
            #[trigger] done[i],
        ) by {
            assert(control_reacts(events[i + 1], actions[i + 1]));
        }
        law_control_channel_sends_in_order(rest, done);
    }
}

/// Requests for different sessions read differently, so an agent never takes one
/// session for another.
pub proof fn law_connection_requests_differ(a: Seq<char>, b: Seq<char>)
    requires
        new_connection_json(a) == new_connection_json(b),
    ensures
        a == b,
{
    let head = "{\"type\":\"new_connection\",\"session_id\":"@;
    let x = new_connection_json(a);
    let y = new_connection_json(b);
    reveal_strlit("}");
    assert(x.subrange(head.len() as int, x.len() - 1) =~= crate::json::quoted(a));
    assert(y.subrange(head.len() as int, y.len() - 1) =~= crate::json::quoted(b));
    crate::json::law_quoted_is_injective(a, b);
}

/// A connection request for a session that the relay named reads
/// `{"type":"new_connection","session_id":"..."}` with the identifier as it
/// stands.
pub proof fn law_connection_request_holds_the_session_id(id: u128)
    ensures
        new_connection_json(crate::ids::uuid_text(id))
            == "{\"type\":\"new_connection\",\"session_id\":\""@ + crate::ids::uuid_text(id)
            + "\"}"@,
{
    let text = crate::ids::uuid_text(id);
    crate::ids::lemma_uuid_text_is_plain(id);
    crate::json::law_plain_text_is_quoted_as_it_stands(text);
    reveal_strlit("{\"type\":\"new_connection\",\"session_id\":");
    reveal_strlit("{\"type\":\"new_connection\",\"session_id\":\"");
    reveal_strlit("}");
    reveal_strlit("\"}");
    assert(new_connection_json(text) =~= "{\"type\":\"new_connection\",\"session_id\":\""@ + text
        + "\"}"@);
}

/// What an agent gets to read names the session: a JSON object of type
/// `new_connection` whose `session_id` reads back as the identifier, whatever
/// characters that holds.
pub proof fn law_connection_request_reads_back(
    message: ControlMessage,
    text: String,
    spelling: Seq<char>,
)
    requires
        call_ensures(ControlMessage::to_json, (&message,), text),
        spelling == text@.subrange(
            "{\"type\":\"new_connection\",\"session_id\":\""@.len() as int,
            text@.len() - 2,
        ),
    ensures
        text@ == "{\"type\":\"new_connection\",\"session_id\":\""@ + spelling + "\"}"@,
        message matches ControlMessage::NewConnection { session_id } && crate::json::spelled(
            spelling,
        ) == Some(session_id@),
{
    let id = session_of(message);
    let inside = crate::json::escaped_text(id);
    let head = "{\"type\":\"new_connection\",\"session_id\":\""@;
    reveal_strlit("{\"type\":\"new_connection\",\"session_id\":");
    reveal_strlit("{\"type\":\"new_connection\",\"session_id\":\"");
    reveal_strlit("}");
    reveal_strlit("\"}");
    crate::json::law_written_text_is_read_back(id);
    assert(text@ =~= head + inside + "\"}"@);
    assert(spelling =~= inside);
}

/// A message that is to go to the agent is sent as the very JSON that it is
/// written as, a ping goes out when it is due, and the channel ends when there
/// will be no more messages or a frame could not be written, and not before.
pub proof fn law_control_channel_does_what_is_due(
    event: ControlEvent,
    action: ControlAction,
    written: String,
)
    requires
        call_ensures(control_step, (event,), action),
        event matches ControlEvent::Message(message) ==> call_ensures(
            ControlMessage::to_json,
            (&message,),
            written,
        ),
    ensures
        event is Message ==> action is SendText && action->SendText_0@ == written@,
        event is PingDue ==> action is SendPing,
        event == ControlEvent::Written(true) ==> action is Wait,
        action is Stop <==> event is NoMoreMessages || event == ControlEvent::Written(false),
{
}

/// Control channels are pinged every thirty seconds, and hold thirty-two messages.
pub proof fn law_control_channel_limits()
    ensures
        PING_SECS == 30,
        CONTROL_BUFFER == 32,
{
}

} // verus!
