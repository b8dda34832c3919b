//! The protocol adapter of one connection: it turns what arrives on the
//! socket into requests for the registry, and watches the heartbeat.

use crate::game::clock::Span;
use crate::game::frame::wire_text;
use crate::server::{ClientMessage, ClientMessageType, Disconnect, Intent, Request};
use vstd::prelude::*;

verus! {

/// Seconds between two pings.
pub const HEARTBEAT_SECS: u64 = 5;

/// Seconds without a sign of life after which a connection is closed.
pub const CLIENT_TIMEOUT_SECS: u64 = 10;

/// The kinds of message in the envelope that goes over the wire.
#[allow(non_camel_case_types)]
#[derive(Clone, Copy, Debug, PartialEq, Eq, Structural)]
pub enum ChatType {
    TYPING,
    JOIN,
    TEXT,
    CONNECT,
    DISCONNECT,
    MOVEMENT,
}

/// The envelope that goes over the wire: a kind and a value.
#[derive(Debug)]
pub struct ChatMessage {
    pub chat_type: ChatType,
    pub value: String,
}

/// The state of one connection: its identifier, the time of its last sign of
/// life, and the room that its requests are about.
#[derive(Debug)]
pub struct WsChatSession {
    pub id: usize,
    pub hb: Span,
    pub room: String,
}

/// A connection's state as a mathematical value.
pub struct SessionView {
    pub id: usize,
    pub hb: Span,
    pub room: Seq<char>,
}

/// What can arrive on the socket. A text comes with the envelope that it was
/// decoded to, or with none if it could not be decoded.
#[derive(Debug)]
pub enum SocketEvent {
    Failure,
    Ping,
    Pong,
    Text(Option<ChatMessage>),
    Binary,
    Close,
    Continuation,
    Nop,
}

/// What the connection has to do after an event: nothing, answer a ping,
/// hand a request to the registry, stop, or close the socket and stop.
#[derive(Debug)]
pub enum SocketAction {
    Nothing,
    Pong,
    Forward(ClientMessage),
    Stop,
    CloseAndStop,
}

/// An action as a mathematical value.
pub enum Reaction {
    Nothing,
    Pong,
    Forward(Request),
    Stop,
    CloseAndStop,
}

/// What the heartbeat watchdog has to do: send a ping, or tell the registry
/// that the connection is gone and stop.
#[derive(Debug)]
pub enum HeartbeatAction {
    Ping,
    TimedOut(Disconnect),
}

/// The name of the room that a connection starts in.
pub open spec fn lobby() -> Seq<char> {
    seq!['m', 'a', 'i', 'n']
}

/// The name of the envelope's field that holds the kind.
pub open spec fn kind_field() -> Seq<char> {
    seq!['c', 'h', 'a', 't', '_', 't', 'y', 'p', 'e']
}

/// The name of the envelope's field that holds the value.
pub open spec fn value_field() -> Seq<char> {
    seq!['v', 'a', 'l', 'u', 'e']
}

/// What `serde_json::to_string` makes of the JSON object into which first the
/// field `key1` with the string `value1` and then the field `key2` with the
/// string `value2` was inserted: the characters of the JSON text, or `None`
/// where it reports an error.
pub uninterp spec fn json_of_pair(
    key1: Seq<char>,
    value1: Seq<char>,
    key2: Seq<char>,
    value2: Seq<char>,
) -> Option<Seq<char>>;

/// The envelope of kind `kind` with the value `value`, as it goes over the wire.
pub open spec fn envelope(kind: ChatType, value: Seq<char>) -> Option<Seq<char>> {
    json_of_pair(kind_field(), kind.name(), value_field(), value)
}

impl ChatType {
    /// The kind's name on the wire.
    pub open spec fn name(self) -> Seq<char> {
        match self {
            ChatType::TYPING => seq!['T', 'Y', 'P', 'I', 'N', 'G'],
            ChatType::JOIN => seq!['J', 'O', 'I', 'N'],
            ChatType::TEXT => seq!['T', 'E', 'X', 'T'],
            ChatType::CONNECT => seq!['C', 'O', 'N', 'N', 'E', 'C', 'T'],
            ChatType::DISCONNECT => seq!['D', 'I', 'S', 'C', 'O', 'N', 'N', 'E', 'C', 'T'],
            ChatType::MOVEMENT => seq!['M', 'O', 'V', 'E', 'M', 'E', 'N', 'T'],
        }
    }

    /// The kind's name on the wire.
    pub fn as_str(&self) -> (r: &'static str)
        ensures
            r@ == self.name(),
    {
        proof {
            reveal_strlit("TYPING");
            reveal_strlit("JOIN");
            reveal_strlit("TEXT");
            reveal_strlit("CONNECT");
            reveal_strlit("DISCONNECT");
            reveal_strlit("MOVEMENT");
        }
        match self {
            ChatType::TYPING => {
                "TYPING"
            },
            ChatType::JOIN => {
                "JOIN"
            },
            ChatType::TEXT => {
                "TEXT"
            },
            ChatType::CONNECT => {
                "CONNECT"
            },
            ChatType::DISCONNECT => {
                "DISCONNECT"
            },
            ChatType::MOVEMENT => {
                "MOVEMENT"
            },
        }
    }
}

impl ChatMessage {
    /// The envelope as it goes over the wire; `None` where the encoder gave no text.
    pub fn to_json(&self) -> (r: Option<String>)
        ensures
            wire_text(r) == envelope(self.chat_type, self.value@),
    {
        proof {
            reveal_strlit("chat_type");
            reveal_strlit("value");
            assert("chat_type"@ =~= kind_field());
            assert("value"@ =~= value_field());
        }
        pair_to_json("chat_type", self.chat_type.as_str(), "value", self.value.as_str())
    }
}

impl SocketAction {
    /// The action as a mathematical value.
    pub open spec fn view(&self) -> Reaction {
        match self {
            SocketAction::Nothing => Reaction::Nothing,
            SocketAction::Pong => Reaction::Pong,
            SocketAction::Forward(msg) => Reaction::Forward(msg@),
            SocketAction::Stop => Reaction::Stop,
            SocketAction::CloseAndStop => Reaction::CloseAndStop,
        }
    }
}

impl SessionView {
    /// Whether the connection has gone without a sign of life for longer than
    /// the timeout at time `now`.
    pub open spec fn timed_out(&self, now: Span) -> bool {
        now.total() - self.hb.total() > CLIENT_TIMEOUT_SECS * 1_000_000_000
    }

    /// The request that carries a chat text on to the registry.
    pub open spec fn chat_request(&self, text: Seq<char>) -> Request {
        Request { id: self.id, room: self.room, intent: Intent::Chat(text) }
    }

    /// What the connection does with an envelope's text once it is encoded
    /// again: it hands the text on as a chat request, or does nothing where
    /// there is no text.
    pub open spec fn relayed(&self, encoded: Option<Seq<char>>) -> Reaction {
        match encoded {
            Some(text) => Reaction::Forward(self.chat_request(text)),
            None => Reaction::Nothing,
        }
    }

    /// The room that the connection's requests are about after an event: a
    /// decoded envelope of kind `JOIN` names a new one.
    pub open spec fn room_after(&self, event: SocketEvent) -> Seq<char> {
        match event {
            SocketEvent::Text(Some(envelope)) => if envelope.chat_type == ChatType::JOIN {
                envelope.value@
            } else {
                self.room
            },
            _ => self.room,
        }
    }

    /// The time of the last sign of life after an event at time `now`: a ping
    /// and a pong are signs of life.
    pub open spec fn hb_after(&self, event: SocketEvent, now: Span) -> Span {
        match event {
            SocketEvent::Ping => now,
            SocketEvent::Pong => now,
            _ => self.hb,
        }
    }

    /// The connection after an event at time `now`.
    pub open spec fn after(self, event: SocketEvent, now: Span) -> SessionView {
        SessionView { id: self.id, hb: self.hb_after(event, now), room: self.room_after(event) }
    }

    /// What the connection does about a decoded envelope.
    pub open spec fn reaction_to(&self, kind: ChatType, value: Seq<char>) -> Reaction {
        match kind {
            ChatType::JOIN => Reaction::Forward(
                Request { id: self.id, room: value, intent: Intent::Join },
            ),
            ChatType::MOVEMENT => Reaction::Forward(
                Request { id: self.id, room: self.room, intent: Intent::Move(value) },
            ),
            ChatType::TYPING => self.relayed(envelope(ChatType::TYPING, value)),
            ChatType::TEXT => self.relayed(envelope(ChatType::TEXT, value)),
            _ => Reaction::Nothing,
        }
    }

    /// What the connection does about an event: a failure of the protocol and
    /// a continuation stop it; a close closes the socket and stops it; a ping
    /// is answered; a text that could be decoded is handled by its kind; all
    /// else is passed over.
    pub open spec fn reaction(&self, event: SocketEvent) -> Reaction {
        match event {
            SocketEvent::Failure => Reaction::Stop,
            SocketEvent::Ping => Reaction::Pong,
            SocketEvent::Pong => Reaction::Nothing,
            SocketEvent::Text(Some(envelope)) => self.reaction_to(envelope.chat_type, envelope.value@),
            SocketEvent::Text(None) => Reaction::Nothing,
            SocketEvent::Binary => Reaction::Nothing,
            SocketEvent::Close => Reaction::CloseAndStop,
            SocketEvent::Continuation => Reaction::Stop,
            SocketEvent::Nop => Reaction::Nothing,
        }
    }
}

impl WsChatSession {
    /// The connection's state as a mathematical value.
    pub open spec fn view(&self) -> SessionView {
        SessionView { id: self.id, hb: self.hb, room: self.room@ }
    }

    /// A connection with the provisional identifier `id`, alive at `now`, in
    /// the room `main`.
    pub fn new(id: usize, now: Span) -> (r: WsChatSession)
        ensures
            r@ == (SessionView { id, hb: now, room: lobby() }),
    {
        proof {
            reveal_strlit("main");
            assert("main"@ =~= lobby());
        }
        WsChatSession { id, hb: now, room: "main".to_owned() }
    }

    /// Takes the identifier that the registry granted, and says whether the
    /// connection goes on: without an identifier it has to stop.
    pub fn started(&mut self, granted: Option<usize>) -> (goes_on: bool)
        ensures
            goes_on == granted is Some,
            final(self)@ == (SessionView {
                id: match granted {
                    Some(id) => id,
                    None => old(self).id,
                },
                hb: old(self).hb,
                room: old(self)@.room,
            }),
    {
        match granted {
            Some(id) => {
                self.id = id;
                true
            },
            None => false,
        }
    }

    /// What the registry is told when the connection stops.
    pub fn stopping(&self) -> (r: Disconnect)
        ensures
            r.id == self.id,
    {
        Disconnect { id: self.id }
    }

    /// Hands on the text of an envelope that was encoded again, as a chat
    /// request; without a text there is nothing to do.
    pub fn relay(&self, encoded: Option<String>) -> (action: SocketAction)
        ensures
            action@ == self@.relayed(wire_text(encoded)),
    {
        match encoded {
            Some(text) => SocketAction::Forward(
                ClientMessage {
                    id: self.id,
                    room: self.room.clone(),
                    msg_type: ClientMessageType::MESSAGE(text),
                },
            ),
            None => SocketAction::Nothing,
        }
    }

    /// Handles what arrived on the socket at time `now`, and says what the
    /// connection has to do.
    pub fn handle(&mut self, event: SocketEvent, now: Span) -> (action: SocketAction)
        ensures
            final(self)@ == old(self)@.after(event, now),
            action@ == old(self)@.reaction(event),
    {
        match event {
            SocketEvent::Failure => SocketAction::Stop,
            SocketEvent::Ping => {
                self.hb = now;
                SocketAction::Pong
            },
            SocketEvent::Pong => {
                self.hb = now;
                SocketAction::Nothing
            },
            SocketEvent::Text(Some(input)) => {
                match input.chat_type {
                    ChatType::JOIN => {
                        self.room = input.value;
                        SocketAction::Forward(
                            ClientMessage {
                                id: self.id,
                                room: self.room.clone(),
                                msg_type: ClientMessageType::JOIN,
                            },
                        )
                    },
                    ChatType::MOVEMENT => SocketAction::Forward(
                        ClientMessage {
                            id: self.id,
                            room: self.room.clone(),
                            msg_type: ClientMessageType::MOVEMENT(input.value),
                        },
                    ),
                    ChatType::TYPING => {
                        let chat_msg = ChatMessage { chat_type: ChatType::TYPING, value: input.value };
                        self.relay(chat_msg.to_json())
                    },
                    ChatType::TEXT => {
                        let chat_msg = ChatMessage { chat_type: ChatType::TEXT, value: input.value };
                        self.relay(chat_msg.to_json())
                    },
                    _ => SocketAction::Nothing,
                }
            },
            SocketEvent::Text(None) => SocketAction::Nothing,
            SocketEvent::Binary => SocketAction::Nothing,
            SocketEvent::Close => SocketAction::CloseAndStop,
            SocketEvent::Continuation => SocketAction::Stop,
            SocketEvent::Nop => SocketAction::Nothing,
        }
    }

    /// The heartbeat watchdog at time `now`: a connection that gave no sign of
    /// life for longer than the timeout is reported as gone; any other is pinged.
    pub fn hb(&self, now: Span) -> (action: HeartbeatAction)
        ensures
            match action {
                HeartbeatAction::Ping => !self@.timed_out(now),
                HeartbeatAction::TimedOut(gone) => self@.timed_out(now) && gone.id == self.id,
            },
    {
        let now_nanos: u128 = now.as_nanos();
        let hb_nanos: u128 = self.hb.as_nanos();
        let silent: u128 = if now_nanos >= hb_nanos {
            now_nanos - hb_nanos
        } else {
            0
        };
        if silent > (CLIENT_TIMEOUT_SECS as u128) * 1_000_000_000 {
            HeartbeatAction::TimedOut(Disconnect { id: self.id })
        } else {
            HeartbeatAction::Ping
        }
    }
}

/// Inserts two string fields into a new JSON object with
/// `serde_json::Map::insert` and calls `serde_json::to_string` on the object. The answer depends on the four
/// texts alone and is known here only by name; an error becomes `None`.
#[verifier::external_body]
fn pair_to_json(key1: &str, value1: &str, key2: &str, value2: &str) -> (r: Option<String>)
    ensures
        wire_text(r) == json_of_pair(key1@, value1@, key2@, value2@),
{
    let mut fields = serde_json::Map::new();
    fields.insert(key1.to_owned(), serde_json::Value::String(value1.to_owned()));
    fields.insert(key2.to_owned(), serde_json::Value::String(value2.to_owned()));
    serde_json::to_string(&serde_json::Value::Object(fields)).ok()
}

} // verus!
