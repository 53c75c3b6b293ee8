//! The registry of connected sessions, and what a broadcast sends to whom.
//!
//! The registry holds the sessions in the order in which they joined. It
//! knows each session by its identifier and display name; the transport of a
//! session stays with whoever reads and writes it, under the same identifier.

use crate::codec::generate_websocket_response;
use crate::frame::server_frame;
use crate::message::{wire_text, MessageView, WebSocketMessage};
use vstd::prelude::*;
use vstd::utf8::*;

verus! {

/// One connected session: its identifier and its display name.
#[derive(Clone, Debug, PartialEq, Eq)]
pub struct ChatClient {
    /// The identifier, which the session keeps as long as it lives.
    pub uuid: u128,
    /// The display name, which the session may change.
    pub username: String,
}

/// What a session is to the contracts.
pub struct ClientView {
    pub uuid: u128,
    pub username: Seq<char>,
}

impl View for ChatClient {
    type V = ClientView;

    open spec fn view(&self) -> ClientView {
        ClientView { uuid: self.uuid, username: self.username@ }
    }
}

impl ChatClient {
    /// The session known as `uuid`, under the display name `username`.
    pub fn new(uuid: u128, username: String) -> (client: ChatClient)
        ensures
            client.uuid == uuid,
            client.username == username,
    {
        ChatClient { uuid, username }
    }
}

/// The test that a session is another than `uuid`.
pub open spec fn is_other(uuid: u128) -> spec_fn(ClientView) -> bool {
    |client: ClientView| client.uuid != uuid
}

/// The sessions without those known as `uuid`, in their order.
pub open spec fn without(sessions: Seq<ClientView>, uuid: u128) -> Seq<ClientView> {
    sessions.filter(is_other(uuid))
}

/// The sessions with every one known as `uuid` called `username`.
pub open spec fn renamed(sessions: Seq<ClientView>, uuid: u128, username: Seq<char>) -> Seq<
    ClientView,
> {
    Seq::new(
        sessions.len(),
        |i: int|
            if sessions[i].uuid == uuid {
                ClientView { uuid, username }
            } else {
                sessions[i]
            },
    )
}

/// The identifiers of the sessions, in their order.
pub open spec fn ids_of(sessions: Seq<ClientView>) -> Seq<u128> {
    Seq::new(sessions.len(), |i: int| sessions[i].uuid)
}

/// Those to whom a broadcast from `sender` goes: every session but the
/// sender's, in the order of the registry.
pub open spec fn recipients_of(sessions: Seq<ClientView>, sender: u128) -> Seq<u128> {
    ids_of(without(sessions, sender))
}

/// True when a session is known as `uuid`.
pub open spec fn has_session(sessions: Seq<ClientView>, uuid: u128) -> bool {
    ids_of(sessions).contains(uuid)
}

/// The display name of the first session known as `uuid`.
pub open spec fn name_of(sessions: Seq<ClientView>, uuid: u128) -> Option<Seq<char>>
    decreases sessions.len(),
{
    if sessions.len() == 0 {
        None
    } else if sessions[0].uuid == uuid {
        Some(sessions[0].username)
    } else {
        name_of(sessions.drop_first(), uuid)
    }
}

/// True when no two sessions share an identifier.
pub open spec fn distinct_ids(sessions: Seq<ClientView>) -> bool {
    forall|i: int, j: int|
        0 <= i < j < sessions.len() ==> (#[trigger] ids_of(sessions)[i]) != (#[trigger] ids_of(
            sessions,
        )[j])
}

/// One frame and the sessions that are to receive it.
#[derive(Clone, Debug, PartialEq, Eq)]
pub struct Broadcast {
    /// The bytes to write to each recipient's transport.
    pub frame: Vec<u8>,
    /// The recipients, in the order of the registry.
    pub recipients: Vec<u128>,
}

/// What a broadcast is to the contracts.
pub struct BroadcastView {
    pub frame: Seq<u8>,
    pub recipients: Seq<u128>,
}

impl View for Broadcast {
    type V = BroadcastView;

    open spec fn view(&self) -> BroadcastView {
        BroadcastView { frame: self.frame@, recipients: self.recipients@ }
    }
}

/// The broadcast of `message` from `sender` to the sessions `sessions`: the
/// frame of the message, for every session but the sender's.
pub open spec fn broadcast_of(
    sessions: Seq<ClientView>,
    message: MessageView,
    sender: u128,
) -> BroadcastView {
    BroadcastView {
        frame: server_frame(encode_utf8(wire_text(message))),
        recipients: recipients_of(sessions, sender),
    }
}

/// The connected sessions, in the order in which they joined.
pub struct SessionRegistry {
    clients: Vec<ChatClient>,
}

impl View for SessionRegistry {
    type V = Seq<ClientView>;

    closed spec fn view(&self) -> Seq<ClientView> {
        Seq::new(self.clients@.len(), |i: int| self.clients@[i]@)
    }
}

impl SessionRegistry {
    /// A registry without sessions.
    pub fn new() -> (registry: SessionRegistry)
        ensures
            registry@ == Seq::<ClientView>::empty(),
    {
        SessionRegistry { clients: Vec::new() }
    }

    /// The number of sessions.
    pub fn len(&self) -> (count: usize)
        ensures
            count == self@.len(),
    {
        self.clients.len()
    }

    /// True when a session is known as `uuid`.
    pub fn contains(&self, uuid: u128) -> (known: bool)
        ensures
            known == has_session(self@, uuid),
    {
        let mut i: usize = 0;
        while i < self.clients.len()
            invariant
                0 <= i <= self.clients@.len(),
                forall|j: int| 0 <= j < i ==> ids_of(self@)[j] != uuid,
            decreases self.clients@.len() - i,
        {
            if self.clients[i].uuid == uuid {
                assert(ids_of(self@)[i as int] == uuid);
                return true;
            }
            i = i + 1;
        }
        false
    }

    /// The display name of the first session known as `uuid`.
    pub fn username_of(&self, uuid: u128) -> (username: Option<String>)
        ensures
            username is Some <==> name_of(self@, uuid) is Some,
            username matches Some(name) ==> name_of(self@, uuid) == Some(name@),
    {
        let mut i: usize = 0;
        assert(self@.skip(0) =~= self@);
        while i < self.clients.len()
            invariant
                0 <= i <= self.clients@.len(),
                name_of(self@, uuid) == name_of(self@.skip(i as int), uuid),
            decreases self.clients@.len() - i,
        {
            assert(self@.skip(i as int).drop_first() =~= self@.skip(i + 1));
            if self.clients[i].uuid == uuid {
                return Some(self.clients[i].username.clone());
            }
            i = i + 1;
        }
        None
    }

    /// Appends a session. Whether its identifier is already known is not
    /// looked at.
    pub fn insert(&mut self, client: ChatClient)
        ensures
            final(self)@ == old(self)@.push(client@),
    {
        self.clients.push(client);
    }

    /// Removes every session known as `uuid`; none where there is none.
    pub fn remove(&mut self, uuid: u128)
        ensures
            final(self)@ == without(old(self)@, uuid),
    {
        let ghost before = self@;
        let ghost mut seen: int = 0;
        let mut i: usize = 0;
        proof {
            reveal(Seq::filter);
        }
        while i < self.clients.len()
            invariant
                0 <= i <= self.clients@.len(),
                0 <= seen <= before.len(),
                self@.len() - i == before.len() - seen,
                self@.take(i as int) == before.take(seen).filter(is_other(uuid)),
                self@.skip(i as int) == before.skip(seen),
            decreases self.clients@.len() - i,
        {
            proof {
                assert(before[seen] == before.skip(seen)[0]);
                assert(before.take(seen + 1) =~= before.take(seen).push(before[seen]));
                assert(before.skip(seen + 1) =~= before.skip(seen).skip(1));
                before.take(seen).lemma_filter_push(before[seen], is_other(uuid));
                seen = seen + 1;
            }
            if self.clients[i].uuid == uuid {
                let _ = self.clients.remove(i);
            } else {
                i = i + 1;
            }
        }
        assert(before.take(seen) =~= before);
    }

    /// Gives every session known as `uuid` the display name `username`.
    pub fn rename(&mut self, uuid: u128, username: &str)
        ensures
            final(self)@ == renamed(old(self)@, uuid, username@),
    {
        let ghost before = self@;
        let mut i: usize = 0;
        while i < self.clients.len()
            invariant
                0 <= i <= self.clients@.len(),
                self@.len() == before.len(),
                self@ == renamed(before.take(i as int), uuid, username@) + before.skip(i as int),
            decreases self.clients@.len() - i,
        {
            let ghost current = self@;
            assert(current[i as int] == before.skip(i as int)[0]);
            if self.clients[i].uuid == uuid {
                self.clients[i].username = String::from_str(username);
            }
            let ghost target = renamed(before.take(i + 1), uuid, username@) + before.skip(i + 1);
            assert forall|j: int| 0 <= j < target.len() implies self@[j] == target[j] by {
                if j < i {
                    assert(current[j] == renamed(before.take(i as int), uuid, username@)[j]);
                } else if j > i {
                    assert(current[j] == before.skip(i as int)[j - i]);
                }
            }
            i = i + 1;
        }
    }

    /// Those to whom a broadcast from `sender` goes.
    pub fn recipients(&self, sender: u128) -> (ids: Vec<u128>)
        ensures
            ids@ == recipients_of(self@, sender),
    {
        let mut ids: Vec<u128> = Vec::new();
        let mut i: usize = 0;
        proof {
            reveal(Seq::filter);
        }
        while i < self.clients.len()
            invariant
                0 <= i <= self.clients@.len(),
                ids@ == recipients_of(self@.take(i as int), sender),
            decreases self.clients@.len() - i,
        {
            let ghost done = self@.take(i as int);
            proof {
                assert(self@.take(i + 1) =~= done.push(self@[i as int]));
                done.lemma_filter_push(self@[i as int], is_other(sender));
            }
            if self.clients[i].uuid != sender {
                ids.push(self.clients[i].uuid);
            }
            i = i + 1;
        }
        assert(self@.take(i as int) =~= self@);
        ids
    }

    /// Frames `message` once and names those who are to receive the frame:
    /// every session but the sender's.
    pub fn broadcast_message(&self, message: WebSocketMessage, sender_uuid: u128) -> (broadcast:
        Broadcast)
        ensures
            broadcast@ == broadcast_of(self@, message@, sender_uuid),
    {
        let frame = generate_websocket_response(message);
        let recipients = self.recipients(sender_uuid);
        Broadcast { frame, recipients }
    }
}

/// A session that joins is known from then on, and who else is known stays
/// as it was.
pub proof fn lemma_insert_adds_one(sessions: Seq<ClientView>, client: ClientView, other: u128)
    ensures
        has_session(sessions.push(client), other) <==> has_session(sessions, other) || other
            == client.uuid,
{
    let joined = ids_of(sessions.push(client));
    assert(joined =~= ids_of(sessions).push(client.uuid));
    if has_session(sessions, other) {
        let i = choose|i: int| 0 <= i < sessions.len() && ids_of(sessions)[i] == other;
        assert(joined[i] == other);
    }
    if other == client.uuid {
        assert(joined[sessions.len() as int] == other);
    }
}

/// A removal takes away the identifier it names, and no other.
pub proof fn lemma_remove_forgets_one(sessions: Seq<ClientView>, uuid: u128, other: u128)
    ensures
        has_session(without(sessions, uuid), other) <==> has_session(sessions, other) && other
            != uuid,
    decreases sessions.len(),
{
    if sessions.len() == 0 {
        reveal(Seq::filter);
    } else {
        let front = sessions.drop_last();
        let last = sessions.last();
        assert(sessions =~= front.push(last));
        front.lemma_filter_push(last, is_other(uuid));
        lemma_remove_forgets_one(front, uuid, other);
        lemma_insert_adds_one(front, last, other);
        lemma_insert_adds_one(without(front, uuid), last, other);
    }
}

/// To remove a session that is not known leaves the registry as it is.
pub proof fn lemma_remove_unknown(sessions: Seq<ClientView>, uuid: u128)
    requires
        !has_session(sessions, uuid),
    ensures
        without(sessions, uuid) == sessions,
    decreases sessions.len(),
{
    if sessions.len() == 0 {
        reveal(Seq::filter);
    } else {
        let front = sessions.drop_last();
        let last = sessions.last();
        assert(sessions =~= front.push(last));
        front.lemma_filter_push(last, is_other(uuid));
        lemma_insert_adds_one(front, last, uuid);
        lemma_remove_unknown(front, uuid);
    }
}

/// A broadcast goes to every session that is not the sender's, to no other
/// identifier, and never back to the sender.
pub proof fn lemma_broadcast_excludes_sender(sessions: Seq<ClientView>, sender: u128, other: u128)
    ensures
        !recipients_of(sessions, sender).contains(sender),
        recipients_of(sessions, sender).contains(other) <==> has_session(sessions, other) && other
            != sender,
{
    lemma_remove_forgets_one(sessions, sender, sender);
    lemma_remove_forgets_one(sessions, sender, other);
}

/// A session that was removed is known no more and receives no broadcast,
/// whoever sends it; to remove it once more changes nothing.
pub proof fn lemma_removed_session_is_gone(sessions: Seq<ClientView>, uuid: u128, sender: u128)
    ensures
        !has_session(without(sessions, uuid), uuid),
        !recipients_of(without(sessions, uuid), sender).contains(uuid),
        without(without(sessions, uuid), uuid) == without(sessions, uuid),
{
    lemma_remove_forgets_one(sessions, uuid, uuid);
    lemma_broadcast_excludes_sender(without(sessions, uuid), sender, uuid);
    lemma_remove_unknown(without(sessions, uuid), uuid);
}

/// A new name changes neither who is connected nor in what order, nor who
/// receives a broadcast; and it changes the name of the sessions known as
/// `uuid` alone.
pub proof fn lemma_rename_keeps_sessions(
    sessions: Seq<ClientView>,
    uuid: u128,
    username: Seq<char>,
    sender: u128,
)
    ensures
        ids_of(renamed(sessions, uuid, username)) == ids_of(sessions),
        recipients_of(renamed(sessions, uuid, username), sender) == recipients_of(
            sessions,
            sender,
        ),
        forall|i: int|
            0 <= i < sessions.len() ==> (#[trigger] renamed(sessions, uuid, username)[i]).username
                == (if sessions[i].uuid == uuid {
                username
            } else {
                sessions[i].username
            }),
    decreases sessions.len(),
{
    let named = renamed(sessions, uuid, username);
    if sessions.len() > 0 {
        let front = sessions.drop_last();
        let named_front = renamed(front, uuid, username);
        assert(sessions =~= front.push(sessions.last()));
        assert(named =~= named_front.push(named.last()));
        front.lemma_filter_push(sessions.last(), is_other(sender));
        named_front.lemma_filter_push(named.last(), is_other(sender));
        lemma_rename_keeps_sessions(front, uuid, username, sender);
        let kept = without(front, sender);
        let kept_named = without(named_front, sender);
        assert(ids_of(kept.push(sessions.last())) =~= ids_of(kept).push(sessions.last().uuid));
        assert(ids_of(kept_named.push(named.last())) =~= ids_of(kept_named).push(
            sessions.last().uuid,
        ));
    }
}

/// After a new name the registry shows it for the session that took it, and
/// for every other session the name it had.
pub proof fn lemma_rename_is_seen(
    sessions: Seq<ClientView>,
    uuid: u128,
    username: Seq<char>,
    other: u128,
)
    ensures
        name_of(renamed(sessions, uuid, username), uuid) == (if has_session(sessions, uuid) {
            Some(username)
        } else {
            None
        }),
        other != uuid ==> name_of(renamed(sessions, uuid, username), other) == name_of(
            sessions,
            other,
        ),
    decreases sessions.len(),
{
    if sessions.len() > 0 {
        let rest = sessions.drop_first();
        assert(renamed(sessions, uuid, username).drop_first() =~= renamed(rest, uuid, username));
        assert(sessions =~= seq![sessions[0]] + rest);
        lemma_rename_is_seen(rest, uuid, username, other);
        if sessions[0].uuid == uuid {
            assert(ids_of(sessions)[0] == uuid);
        } else if has_session(sessions, uuid) {
            let i = choose|i: int| 0 <= i < sessions.len() && ids_of(sessions)[i] == uuid;
            assert(ids_of(rest)[i - 1] == uuid);
        } else if has_session(rest, uuid) {
            let i = choose|i: int| 0 <= i < rest.len() && ids_of(rest)[i] == uuid;
            assert(ids_of(sessions)[i + 1] == uuid);
        }
    }
}

/// The sessions but the last have distinct identifiers where all have, and
/// none of them is known as the last is.
proof fn lemma_distinct_front(sessions: Seq<ClientView>)
    requires
        distinct_ids(sessions),
        sessions.len() > 0,
    ensures
        distinct_ids(sessions.drop_last()),
        !has_session(sessions.drop_last(), sessions.last().uuid),
{
    let front = sessions.drop_last();
    assert(ids_of(front) =~= ids_of(sessions).drop_last());
    if has_session(front, sessions.last().uuid) {
        let i = choose|i: int| 0 <= i < front.len() && ids_of(front)[i] == sessions.last().uuid;
        assert(ids_of(sessions)[i] != ids_of(sessions)[sessions.len() - 1]);
    }
}

/// A session that joins under an identifier that is not yet known leaves
/// the identifiers distinct.
pub proof fn lemma_insert_keeps_distinct(sessions: Seq<ClientView>, client: ClientView)
    requires
        distinct_ids(sessions),
        !has_session(sessions, client.uuid),
    ensures
        distinct_ids(sessions.push(client)),
{
    assert(ids_of(sessions.push(client)) =~= ids_of(sessions).push(client.uuid));
}

/// A removal leaves the identifiers distinct.
pub proof fn lemma_remove_keeps_distinct(sessions: Seq<ClientView>, uuid: u128)
    requires
        distinct_ids(sessions),
    ensures
        distinct_ids(without(sessions, uuid)),
    decreases sessions.len(),
{
    if sessions.len() == 0 {
        reveal(Seq::filter);
    } else {
        let front = sessions.drop_last();
        let last = sessions.last();
        assert(sessions =~= front.push(last));
        front.lemma_filter_push(last, is_other(uuid));
        lemma_distinct_front(sessions);
        lemma_remove_keeps_distinct(front, uuid);
        lemma_remove_forgets_one(front, uuid, last.uuid);
        lemma_insert_keeps_distinct(without(front, uuid), last);
    }
}

/// A new name leaves the identifiers distinct.
pub proof fn lemma_rename_keeps_distinct(sessions: Seq<ClientView>, uuid: u128, username: Seq<char>)
    requires
        distinct_ids(sessions),
    ensures
        distinct_ids(renamed(sessions, uuid, username)),
{
    assert(ids_of(renamed(sessions, uuid, username)) =~= ids_of(sessions));
}

} // verus!
