//! One connection, from its first bytes to its end.
//!
//! A connection is driven by whoever owns its transport: that side reads,
//! hands each result of a read to [`Connection::handle_event`], and carries
//! out what the outcome names, the reply first and the broadcast after it.
//! Every decision is taken here.

use crate::codec::{decode_websocket_message, frame_message};
use crate::error::ChatError;
use crate::frame::{frame_opcode, opcode_of, OPCODE_CLOSE};
use crate::handshake::{handshake_of, handshake_response};
use crate::message::{MessageView, WebSocketMessage};
use crate::outside::{lossy_text, random_uuid, utf8_lossy_text};
use crate::registry::{
    broadcast_of, distinct_ids, has_session, lemma_broadcast_excludes_sender,
    lemma_insert_adds_one, lemma_insert_keeps_distinct, lemma_remove_forgets_one,
    lemma_remove_keeps_distinct, lemma_removed_session_is_gone, lemma_rename_keeps_distinct,
    lemma_rename_keeps_sessions, recipients_of, renamed, without, Broadcast, BroadcastView,
    ChatClient, ClientView, SessionRegistry,
};
use vstd::prelude::*;
use vstd::utf8::*;

verus! {

/// The display name of a session that has not chosen one.
pub const DEFAULT_USERNAME: &'static str = "Anonymous";

/// Where a connection stands.
#[derive(Clone, Copy, Debug, PartialEq, Eq, Structural)]
pub enum ConnectionState {
    /// Accepted; the opening request has not come yet.
    Connecting,
    /// The handshake is done and the session is in the registry.
    Open,
    /// Over. Nothing follows.
    Closed,
}

/// What one read on the transport gave.
#[derive(Clone, Debug, PartialEq, Eq)]
pub enum TransportEvent {
    /// The bytes that were read.
    Data(Vec<u8>),
    /// The read gave no bytes: the peer has closed its side.
    EndOfStream,
    /// Nothing is there to read yet.
    WouldBlock,
    /// The transport failed: a read in any other way, or a write of a reply.
    Failed,
}

/// What is to be done after an event.
#[derive(Clone, Debug, PartialEq, Eq)]
pub struct Outcome {
    /// Bytes to write to the connection's own transport.
    pub reply: Option<Vec<u8>>,
    /// A frame to write to the transport of each recipient. A recipient whose
    /// transport fails does not stop the others from being served.
    pub broadcast: Option<Broadcast>,
    /// Why the connection ended, where a failure ended it.
    pub error: Option<ChatError>,
}

/// What an outcome is to the contracts.
pub struct OutcomeView {
    pub reply: Option<Seq<u8>>,
    pub broadcast: Option<BroadcastView>,
    pub error: Option<ChatError>,
}

impl View for Outcome {
    type V = OutcomeView;

    open spec fn view(&self) -> OutcomeView {
        OutcomeView {
            reply: match self.reply {
                Some(bytes) => Some(bytes@),
                None => None,
            },
            broadcast: match self.broadcast {
                Some(broadcast) => Some(broadcast@),
                None => None,
            },
            error: self.error,
        }
    }
}

/// One connection: the identifier and display name of its session, and its
/// state.
#[derive(Clone, Debug, PartialEq, Eq)]
pub struct Connection {
    /// The identifier under which the session is known in the registry.
    pub uuid: u128,
    /// The display name under which the session speaks.
    pub username: String,
    /// Where the connection stands.
    pub state: ConnectionState,
}

/// What a connection is to the contracts.
pub struct ConnectionView {
    pub uuid: u128,
    pub username: Seq<char>,
    pub state: ConnectionState,
}

impl View for Connection {
    type V = ConnectionView;

    open spec fn view(&self) -> ConnectionView {
        ConnectionView { uuid: self.uuid, username: self.username@, state: self.state }
    }
}

/// A connection and the registry after an event, and what is to be done.
pub struct Step {
    pub connection: ConnectionView,
    pub sessions: Seq<ClientView>,
    pub outcome: OutcomeView,
}

/// The outcome that asks for nothing.
pub open spec fn nothing() -> OutcomeView {
    OutcomeView { reply: None, broadcast: None, error: None }
}

/// The step that changes nothing.
pub open spec fn unchanged(connection: ConnectionView, sessions: Seq<ClientView>) -> Step {
    Step { connection, sessions, outcome: nothing() }
}

/// The end of a connection: an open one leaves the registry. `error` says
/// why, where a failure is the reason. A connection that has ended already
/// stays as it is.
pub open spec fn closed(
    connection: ConnectionView,
    sessions: Seq<ClientView>,
    error: Option<ChatError>,
) -> Step {
    if connection.state == ConnectionState::Closed {
        unchanged(connection, sessions)
    } else {
        Step {
            connection: ConnectionView { state: ConnectionState::Closed, ..connection },
            sessions: if connection.state == ConnectionState::Open {
                without(sessions, connection.uuid)
            } else {
                sessions
            },
            outcome: OutcomeView { reply: None, broadcast: None, error },
        }
    }
}

/// The notice that tells the others of a session that joined.
pub open spec fn join_notice(username: Seq<char>) -> MessageView {
    MessageView { action: "join"@, data: username + " has joined the chat"@ }
}

/// What a session says, under its display name.
pub open spec fn chat_notice(username: Seq<char>, text: Seq<char>) -> MessageView {
    MessageView { action: "message"@, data: username + ": "@ + text }
}

/// The notice that tells the others of a session's new display name.
pub open spec fn rename_notice(old_name: Seq<char>, new_name: Seq<char>) -> MessageView {
    MessageView {
        action: "username"@,
        data: old_name + " changed their username to "@ + new_name,
    }
}

/// What follows the handshake. A response is sent as it is. With the first
/// one the connection opens: its session joins the registry and the others
/// are told. Without a response the connection ends. On a connection that
/// has ended nothing follows.
pub open spec fn after_handshake(
    connection: ConnectionView,
    sessions: Seq<ClientView>,
    response: Result<Seq<char>, ChatError>,
) -> Step {
    match response {
        _ if connection.state == ConnectionState::Closed => unchanged(connection, sessions),
        Err(e) => closed(connection, sessions, Some(e)),
        Ok(text) => if connection.state == ConnectionState::Connecting {
            let joined = sessions.push(
                ClientView { uuid: connection.uuid, username: connection.username },
            );
            Step {
                connection: ConnectionView { state: ConnectionState::Open, ..connection },
                sessions: joined,
                outcome: OutcomeView {
                    reply: Some(encode_utf8(text)),
                    broadcast: Some(
                        broadcast_of(joined, join_notice(connection.username), connection.uuid),
                    ),
                    error: None,
                },
            }
        } else {
            Step {
                connection,
                sessions,
                outcome: OutcomeView {
                    reply: Some(encode_utf8(text)),
                    broadcast: None,
                    error: None,
                },
            }
        },
    }
}

/// What follows a frame that was read on an open connection. The action
/// `message` is passed on to the others under the sender's name; the action
/// `username` tells the others and then changes the name; any other action
/// is passed over. A frame that gave no message ends the connection. On a
/// connection that is not open nothing follows.
pub open spec fn after_message(
    connection: ConnectionView,
    sessions: Seq<ClientView>,
    message: Result<MessageView, ChatError>,
) -> Step {
    match message {
        _ if connection.state != ConnectionState::Open => unchanged(connection, sessions),
        Err(e) => closed(connection, sessions, Some(e)),
        Ok(m) => if m.action == "message"@ {
            Step {
                connection,
                sessions,
                outcome: OutcomeView {
                    reply: None,
                    broadcast: Some(
                        broadcast_of(
                            sessions,
                            chat_notice(connection.username, m.data),
                            connection.uuid,
                        ),
                    ),
                    error: None,
                },
            }
        } else if m.action == "username"@ {
            Step {
                connection: ConnectionView { username: m.data, ..connection },
                sessions: renamed(sessions, connection.uuid, m.data),
                outcome: OutcomeView {
                    reply: None,
                    broadcast: Some(
                        broadcast_of(
                            sessions,
                            rename_notice(connection.username, m.data),
                            connection.uuid,
                        ),
                    ),
                    error: None,
                },
            }
        } else {
            unchanged(connection, sessions)
        },
    }
}

/// True when `data` starts as an HTTP request does: with the letters `GET`.
pub open spec fn is_http_request(data: Seq<u8>) -> bool {
    data.len() >= 3 && data[0] == 0x47 && data[1] == 0x45 && data[2] == 0x54
}

/// True when `data` starts a frame with the opcode that closes.
pub open spec fn is_close_frame(data: Seq<u8>) -> bool {
    data.len() >= 1 && opcode_of(data) == OPCODE_CLOSE
}

/// The response that the request in `data` is owed, or the failure of the
/// handshake.
pub open spec fn handshake_result(data: Seq<u8>) -> Result<Seq<char>, ChatError> {
    match handshake_of(lossy_text(data)) {
        Some(text) => Ok(text),
        None => Err(ChatError::HandshakeMalformed),
    }
}

/// What follows bytes that were read.
pub open spec fn after_data(
    connection: ConnectionView,
    sessions: Seq<ClientView>,
    data: Seq<u8>,
) -> Step {
    if is_http_request(data) {
        after_handshake(connection, sessions, handshake_result(data))
    } else if connection.state == ConnectionState::Connecting {
        closed(connection, sessions, Some(ChatError::HandshakeMalformed))
    } else if is_close_frame(data) {
        closed(connection, sessions, None)
    } else {
        after_message(connection, sessions, frame_message(data))
    }
}

/// What follows an event: bytes are acted on, the end of the stream and a
/// failed transport end the connection, and a read that would block changes
/// nothing.
pub open spec fn after_event(
    connection: ConnectionView,
    sessions: Seq<ClientView>,
    event: TransportEvent,
) -> Step {
    match event {
        TransportEvent::Data(bytes) => after_data(connection, sessions, bytes@),
        TransportEvent::EndOfStream => closed(connection, sessions, None),
        TransportEvent::WouldBlock => unchanged(connection, sessions),
        TransportEvent::Failed => closed(connection, sessions, Some(ChatError::TransportFatal)),
    }
}

/// What the result of a handshake is to the contracts.
pub open spec fn response_view(response: Result<String, ChatError>) -> Result<
    Seq<char>,
    ChatError,
> {
    match response {
        Ok(text) => Ok(text@),
        Err(e) => Err(e),
    }
}

/// What the result of decoding a frame is to the contracts.
pub open spec fn message_view(message: Result<WebSocketMessage, ChatError>) -> Result<
    MessageView,
    ChatError,
> {
    match message {
        Ok(m) => Ok(m@),
        Err(e) => Err(e),
    }
}

impl Connection {
    /// A connection that was just accepted, under the identifier `uuid`.
    pub fn with_uuid(uuid: u128) -> (connection: Connection)
        ensures
            connection@ == (ConnectionView {
                uuid,
                username: DEFAULT_USERNAME@,
                state: ConnectionState::Connecting,
            }),
    {
        Connection {
            uuid,
            username: String::from_str(DEFAULT_USERNAME),
            state: ConnectionState::Connecting,
        }
    }

    /// A connection that was just accepted, under a random identifier: one
    /// with the version and variant bits of a random UUID.
    pub fn new() -> (connection: Connection)
        ensures
            connection@.username == DEFAULT_USERNAME@,
            connection@.state == ConnectionState::Connecting,
            connection@.uuid & 0xF000_C000_0000_0000_0000 == 0x4000_8000_0000_0000_0000,
    {
        Connection::with_uuid(random_uuid())
    }

    /// Ends the connection: an open one leaves the registry.
    pub fn close(&mut self, registry: &mut SessionRegistry, error: Option<ChatError>) -> (outcome:
        Outcome)
        ensures
            final(self)@ == closed(old(self)@, old(registry)@, error).connection,
            final(registry)@ == closed(old(self)@, old(registry)@, error).sessions,
            outcome@ == closed(old(self)@, old(registry)@, error).outcome,
    {
        if self.state == ConnectionState::Closed {
            return Outcome { reply: None, broadcast: None, error: None };
        }
        if self.state == ConnectionState::Open {
            registry.remove(self.uuid);
        }
        self.state = ConnectionState::Closed;
        Outcome { reply: None, broadcast: None, error }
    }

    /// Acts on the result of the handshake.
    pub fn handle_handshake(
        &mut self,
        registry: &mut SessionRegistry,
        response: Result<String, ChatError>,
    ) -> (outcome: Outcome)
        ensures
            final(self)@ == after_handshake(
                old(self)@,
                old(registry)@,
                response_view(response),
            ).connection,
            final(registry)@ == after_handshake(
                old(self)@,
                old(registry)@,
                response_view(response),
            ).sessions,
            outcome@ == after_handshake(
                old(self)@,
                old(registry)@,
                response_view(response),
            ).outcome,
    {
        if self.state == ConnectionState::Closed {
            return Outcome { reply: None, broadcast: None, error: None };
        }
        match response {
            Err(e) => self.close(registry, Some(e)),
            Ok(text) => {
                let reply = text.as_str().as_bytes_vec();
                if self.state == ConnectionState::Connecting {
                    registry.insert(ChatClient::new(self.uuid, self.username.clone()));
                    self.state = ConnectionState::Open;
                    let notice = WebSocketMessage::new(
                        String::from_str("join"),
                        self.username.clone().concat(" has joined the chat"),
                    );
                    let broadcast = registry.broadcast_message(notice, self.uuid);
                    Outcome { reply: Some(reply), broadcast: Some(broadcast), error: None }
                } else {
                    Outcome { reply: Some(reply), broadcast: None, error: None }
                }
            },
        }
    }

    /// Acts on what a frame gave, on an open connection.
    pub fn handle_message(
        &mut self,
        registry: &mut SessionRegistry,
        message: Result<WebSocketMessage, ChatError>,
    ) -> (outcome: Outcome)
        ensures
            final(self)@ == after_message(
                old(self)@,
                old(registry)@,
                message_view(message),
            ).connection,
            final(registry)@ == after_message(
                old(self)@,
                old(registry)@,
                message_view(message),
            ).sessions,
            outcome@ == after_message(old(self)@, old(registry)@, message_view(message)).outcome,
    {
        if self.state != ConnectionState::Open {
            return Outcome { reply: None, broadcast: None, error: None };
        }
        let message = match message {
            Ok(message) => message,
            Err(e) => {
                return self.close(registry, Some(e));
            },
        };
        if message.action == String::from_str("message") {
            let notice = WebSocketMessage::new(
                String::from_str("message"),
                self.username.clone().concat(": ").concat(message.data.as_str()),
            );
            let broadcast = registry.broadcast_message(notice, self.uuid);
            Outcome { reply: None, broadcast: Some(broadcast), error: None }
        } else if message.action == String::from_str("username") {
            let notice = WebSocketMessage::new(
                String::from_str("username"),
                self.username.clone().concat(" changed their username to ").concat(
                    message.data.as_str(),
                ),
            );
            let broadcast = registry.broadcast_message(notice, self.uuid);
            registry.rename(self.uuid, message.data.as_str());
            self.username = message.data;
            Outcome { reply: None, broadcast: Some(broadcast), error: None }
        } else {
            Outcome { reply: None, broadcast: None, error: None }
        }
    }

    /// Acts on bytes that were read.
    ///
    /// Bytes that start with `GET` are an opening request: it is answered,
    /// and with the first answer the connection opens. Before that nothing
    /// else is taken. On an open connection a frame with the closing opcode
    /// ends the connection, unread; any other frame is decoded and acted on.
    pub fn handle_data(&mut self, registry: &mut SessionRegistry, data: &[u8]) -> (outcome:
        Outcome)
        ensures
            final(self)@ == after_data(old(self)@, old(registry)@, data@).connection,
            final(registry)@ == after_data(old(self)@, old(registry)@, data@).sessions,
            outcome@ == after_data(old(self)@, old(registry)@, data@).outcome,
    {
        if data.len() >= 3 && data[0] == 0x47 && data[1] == 0x45 && data[2] == 0x54 {
            let request = utf8_lossy_text(data);
            let response = handshake_response(request.as_str());
            return self.handle_handshake(registry, response);
        }
        if self.state == ConnectionState::Connecting {
            return self.close(registry, Some(ChatError::HandshakeMalformed));
        }
        match frame_opcode(data) {
            Some(opcode) => {
                if opcode == OPCODE_CLOSE {
                    return self.close(registry, None);
                }
            },
            None => {},
        }
        let message = decode_websocket_message(data);
        self.handle_message(registry, message)
    }

    /// Acts on what one read on the transport gave.
    pub fn handle_event(&mut self, registry: &mut SessionRegistry, event: TransportEvent) -> (
        outcome: Outcome)
        ensures
            final(self)@ == after_event(old(self)@, old(registry)@, event).connection,
            final(registry)@ == after_event(old(self)@, old(registry)@, event).sessions,
            outcome@ == after_event(old(self)@, old(registry)@, event).outcome,
    {
        match event {
            TransportEvent::Data(bytes) => self.handle_data(registry, bytes.as_slice()),
            TransportEvent::EndOfStream => self.close(registry, None),
            TransportEvent::WouldBlock => Outcome { reply: None, broadcast: None, error: None },
            TransportEvent::Failed => self.close(registry, Some(ChatError::TransportFatal)),
        }
    }
}

/// True when the registry knows the session of `connection` exactly while
/// the connection is open.
pub open spec fn registered_while_open(
    connection: ConnectionView,
    sessions: Seq<ClientView>,
) -> bool {
    has_session(sessions, connection.uuid) <==> connection.state == ConnectionState::Open
}

/// The session under which a connection joins the registry.
spec fn own_session(connection: ConnectionView) -> ClientView {
    ClientView { uuid: connection.uuid, username: connection.username }
}

/// A connection that has ended stays ended: no event changes it or the
/// registry, and none asks for anything.
pub proof fn lemma_closed_is_final(
    connection: ConnectionView,
    sessions: Seq<ClientView>,
    event: TransportEvent,
)
    requires
        connection.state == ConnectionState::Closed,
    ensures
        after_event(connection, sessions, event) == unchanged(connection, sessions),
{
}

/// A connection moves forward only: from connecting to open or closed, from
/// open to closed; and it keeps its identifier.
pub proof fn lemma_states_move_forward(
    connection: ConnectionView,
    sessions: Seq<ClientView>,
    event: TransportEvent,
)
    ensures
        after_event(connection, sessions, event).connection.uuid == connection.uuid,
        after_event(connection, sessions, event).connection.state
            == ConnectionState::Connecting ==> connection.state == ConnectionState::Connecting,
        after_event(connection, sessions, event).connection.state == ConnectionState::Open
            ==> connection.state != ConnectionState::Closed,
{
}

/// The registry knows a session exactly while its connection is open: an
/// event on the connection keeps that so, and so does an event on any
/// connection under another identifier.
pub proof fn lemma_registered_while_open(
    connection: ConnectionView,
    other: ConnectionView,
    sessions: Seq<ClientView>,
    event: TransportEvent,
)
    requires
        registered_while_open(connection, sessions),
    ensures
        registered_while_open(
            after_event(connection, sessions, event).connection,
            after_event(connection, sessions, event).sessions,
        ),
        other.uuid != connection.uuid ==> (has_session(
            after_event(connection, sessions, event).sessions,
            other.uuid,
        ) <==> has_session(sessions, other.uuid)),
{
    let step = after_event(connection, sessions, event);
    let own = own_session(connection);
    lemma_insert_adds_one(sessions, own, connection.uuid);
    lemma_insert_adds_one(sessions, own, other.uuid);
    lemma_remove_forgets_one(sessions, connection.uuid, connection.uuid);
    lemma_remove_forgets_one(sessions, connection.uuid, other.uuid);
    lemma_rename_keeps_sessions(
        sessions,
        connection.uuid,
        step.connection.username,
        connection.uuid,
    );
}

/// No event lets two sessions share an identifier, as long as the registry
/// knows each session exactly while its connection is open.
pub proof fn lemma_identifiers_stay_distinct(
    connection: ConnectionView,
    sessions: Seq<ClientView>,
    event: TransportEvent,
)
    requires
        registered_while_open(connection, sessions),
        distinct_ids(sessions),
    ensures
        distinct_ids(after_event(connection, sessions, event).sessions),
{
    let step = after_event(connection, sessions, event);
    if connection.state == ConnectionState::Connecting {
        lemma_insert_keeps_distinct(sessions, own_session(connection));
    }
    lemma_remove_keeps_distinct(sessions, connection.uuid);
    lemma_rename_keeps_distinct(sessions, connection.uuid, step.connection.username);
}

/// What a session says goes to every other session and never back to
/// itself.
pub proof fn lemma_message_reaches_the_others(
    connection: ConnectionView,
    sessions: Seq<ClientView>,
    text: Seq<char>,
    other: u128,
)
    requires
        connection.state == ConnectionState::Open,
    ensures
        after_message(
            connection,
            sessions,
            Ok(MessageView { action: "message"@, data: text }),
        ).outcome.broadcast == Some(
            broadcast_of(sessions, chat_notice(connection.username, text), connection.uuid),
        ),
        !recipients_of(sessions, connection.uuid).contains(connection.uuid),
        recipients_of(sessions, connection.uuid).contains(other) <==> has_session(sessions, other)
            && other != connection.uuid,
{
    lemma_broadcast_excludes_sender(sessions, connection.uuid, other);
}

/// After a session has taken a new name, what it says goes out under that
/// name, to the same sessions as before.
pub proof fn lemma_rename_propagates(
    connection: ConnectionView,
    sessions: Seq<ClientView>,
    new_name: Seq<char>,
    text: Seq<char>,
)
    requires
        connection.state == ConnectionState::Open,
    ensures
        ({
            let named = after_message(
                connection,
                sessions,
                Ok(MessageView { action: "username"@, data: new_name }),
            );
            let said = after_message(
                named.connection,
                named.sessions,
                Ok(MessageView { action: "message"@, data: text }),
            );
            &&& named.connection.username == new_name
            &&& named.sessions == renamed(sessions, connection.uuid, new_name)
            &&& said.outcome.broadcast == Some(
                broadcast_of(sessions, chat_notice(new_name, text), connection.uuid),
            )
        }),
{
    reveal_strlit("message");
    reveal_strlit("username");
    assert("username"@.len() != "message"@.len());
    lemma_rename_keeps_sessions(sessions, connection.uuid, new_name, connection.uuid);
}

/// A frame with the closing opcode ends an open connection without being
/// decoded: the session leaves the registry, receives no broadcast from
/// then on, whoever sends it, and whatever comes on the connection
/// afterwards is passed over.
pub proof fn lemma_close_cleans_up(
    connection: ConnectionView,
    sessions: Seq<ClientView>,
    data: Seq<u8>,
    sender: u128,
    later: TransportEvent,
)
    requires
        connection.state == ConnectionState::Open,
        is_close_frame(data),
        !is_http_request(data),
    ensures
        ({
            let step = after_data(connection, sessions, data);
            &&& step.connection.state == ConnectionState::Closed
            &&& step.sessions == without(sessions, connection.uuid)
            &&& step.outcome == nothing()
            &&& !has_session(step.sessions, connection.uuid)
            &&& !recipients_of(step.sessions, sender).contains(connection.uuid)
            &&& after_event(step.connection, step.sessions, later) == unchanged(
                step.connection,
                step.sessions,
            )
        }),
{
    lemma_removed_session_is_gone(sessions, connection.uuid, sender);
}

} // verus!
