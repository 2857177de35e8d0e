use std::collections::HashMap;
use std::collections::HashSet;
use vstd::prelude::*;
use vstd::std_specs::iter::IteratorSpec;

use crate::ids::format_id;
use crate::ids::lemma_uuid_text_len;
use crate::ids::lemma_uuid_text_parses;
use crate::ids::parse_id;
use crate::ids::parsed_uuid;
use crate::ids::uuid_text;
use crate::messages::ClientActorMessage;
use crate::messages::Connect;
use crate::messages::Disconnect;
use crate::messages::WsMessage;
use crate::text::is_whisper;
use crate::text::second_word;
use crate::text::second_word_of;
use crate::text::whisper_prefix;

verus! {

broadcast use vstd::std_specs::hash::group_hash_axioms;

/// What the lobby hands to a connection, or the notice that it has none.
#[derive(Debug, Clone)]
pub enum Outgoing {
    /// `message` goes to the connection of user `to`.
    Deliver { to: u128, message: WsMessage },
    /// User `to` has no connection in the lobby; nothing can be sent.
    Unknown { to: u128 },
}

impl Outgoing {
    /// The user that this outgoing item is addressed to.
    pub open spec fn recipient(self) -> u128 {
        match self {
            Outgoing::Deliver { to, .. } => to,
            Outgoing::Unknown { to } => to,
        }
    }
}

/// `o` is what sending `text` from `from` to its recipient gives when the
/// users in `present` have connections: a delivery where the recipient has
/// one, the notice that it has none otherwise.
pub open spec fn sends(o: Outgoing, present: Set<u128>, from: u128, text: Seq<char>) -> bool {
    match o {
        Outgoing::Deliver { to, message } => {
            &&& present.contains(to)
            &&& message.user_id == from
            &&& message.message@ == text
        },
        Outgoing::Unknown { to } => !present.contains(to),
    }
}

/// `out` sends `text` from `from` to every user of `members`, once each, and
/// to no one else, in some order.
pub open spec fn announces(
    out: Seq<Outgoing>,
    members: Set<u128>,
    present: Set<u128>,
    from: u128,
    text: Seq<char>,
) -> bool {
    &&& forall|i: int|
        0 <= i < out.len() ==> members.contains(#[trigger] out[i].recipient()) && sends(
            out[i],
            present,
            from,
            text,
        )
    &&& forall|i: int, j: int|
        0 <= i < j < out.len() ==> #[trigger] out[i].recipient() != #[trigger] out[j].recipient()
    &&& forall|m: u128|
        #[trigger] members.contains(m) ==> exists|i: int|
            0 <= i < out.len() && #[trigger] out[i].recipient() == m
}

/// `out` is a whisper of `text` from `from` to `target`: one item where there
/// is a target, none where there is not.
pub open spec fn whispers(
    out: Seq<Outgoing>,
    target: Option<u128>,
    present: Set<u128>,
    from: u128,
    text: Seq<char>,
) -> bool {
    match target {
        Some(to) => {
            &&& out.len() == 1
            &&& out[0].recipient() == to
            &&& sends(out[0], present, from, text)
        },
        None => out.len() == 0,
    }
}

/// The user that a whisper text is addressed to: its second word, read as an
/// identifier.
pub open spec fn whisper_target(message: Seq<char>) -> Option<u128> {
    match second_word(message) {
        Some(w) => parsed_uuid(w),
        None => None,
    }
}

/// The notice to the others of a room that `user` has joined it.
pub open spec fn joined_text(user: u128) -> Seq<char> {
    "User: ["@ + uuid_text(user) + "] has joined the room"@
}

/// The notice to the others of a room that `user` has left it.
pub open spec fn left_text(user: u128) -> Seq<char> {
    "User: ["@ + uuid_text(user) + "] has left the room"@
}

/// The notice to every member of a room that someone has connected to it.
pub open spec fn connected_text(room: u128) -> Seq<char> {
    "Connected Lobby: "@ + uuid_text(room)
}

/// A whispered text as its addressee reads it.
pub open spec fn whisper_text(from: u128, message: Seq<char>) -> Seq<char> {
    "Whisper from ["@ + uuid_text(from) + "]: "@ + message
}

/// The members of `s` but `skip`.
pub open spec fn excluding(s: Set<u128>, skip: Option<u128>) -> Set<u128> {
    match skip {
        Some(u) => s.remove(u),
        None => s,
    }
}

/// The state of a lobby: the connection of each user, and the users of each room.
pub struct LobbyView<S> {
    pub sessions: Map<u128, S>,
    pub rooms: Map<u128, Set<u128>>,
}

impl<S> LobbyView<S> {
    /// The users of a room; none where the room does not exist.
    pub open spec fn members(self, room: u128) -> Set<u128> {
        if self.rooms.contains_key(room) {
            self.rooms[room]
        } else {
            Set::empty()
        }
    }

    /// Every room has finitely many users, and at least one.
    pub open spec fn well_formed(self) -> bool {
        forall|r: u128|
            #[trigger] self.rooms.contains_key(r) ==> self.rooms[r].finite() && self.rooms[r].len()
                > 0
    }

    /// User `u` is a member of room `r`.
    pub open spec fn in_room(self, u: u128, r: u128) -> bool {
        self.rooms.contains_key(r) && self.rooms[r].contains(u)
    }

    /// The lobby as its handlers keep it: every room is finite and non-empty,
    /// the users with a connection are exactly the members of the rooms, and
    /// each of them is in one room only.
    pub open spec fn consistent(self) -> bool {
        &&& self.well_formed()
        &&& forall|u: u128| #[trigger]
            self.sessions.contains_key(u) ==> exists|r: u128| self.in_room(u, r)
        &&& forall|u: u128, r: u128| #[trigger] self.in_room(u, r) ==> self.sessions.contains_key(u)
        &&& forall|u: u128, r1: u128, r2: u128|
            #[trigger] self.in_room(u, r1) && #[trigger] self.in_room(u, r2) ==> r1 == r2
    }

    /// The lobby once `user` has joined `room` with connection `address`.
    pub open spec fn after_connect(self, room: u128, user: u128, address: S) -> Self {
        LobbyView {
            sessions: self.sessions.insert(user, address),
            rooms: self.rooms.insert(room, self.members(room).insert(user)),
        }
    }

    /// The lobby once `user` has left `room`: nothing changes unless the user
    /// has a connection; then the connection goes, and the user leaves the room,
    /// which goes too where it held at most one user.
    pub open spec fn after_disconnect(self, room: u128, user: u128) -> Self {
        if !self.sessions.contains_key(user) {
            self
        } else {
            LobbyView {
                sessions: self.sessions.remove(user),
                rooms: if self.rooms[room].len() > 1 {
                    self.rooms.insert(room, self.rooms[room].remove(user))
                } else {
                    self.rooms.remove(room)
                },
            }
        }
    }
}

/// The chat lobby: the connection of each user, and the users of each room.
/// `S` is how a connection is reached; the lobby only keeps it.
#[derive(Clone)]
pub struct Lobby<S> {
    sessions: HashMap<u128, S>,
    rooms: HashMap<u128, HashSet<u128>>,
}

/// The rooms of a lobby as sets.
pub closed spec fn rooms_view(m: Map<u128, HashSet<u128>>) -> Map<u128, Set<u128>> {
    Map::new(|r: u128| m.contains_key(r), |r: u128| m[r]@)
}

proof fn lemma_rooms_view_insert(m: Map<u128, HashSet<u128>>, k: u128, v: HashSet<u128>)
    ensures
        rooms_view(m.insert(k, v)) == rooms_view(m).insert(k, v@),
{
    assert(rooms_view(m.insert(k, v)) =~= rooms_view(m).insert(k, v@));
}

proof fn lemma_rooms_view_remove(m: Map<u128, HashSet<u128>>, k: u128)
    ensures
        rooms_view(m.remove(k)) == rooms_view(m).remove(k),
{
    assert(rooms_view(m.remove(k)) =~= rooms_view(m).remove(k));
}

proof fn lemma_rooms_view_index(m: Map<u128, HashSet<u128>>, k: u128)
    ensures
        rooms_view(m).contains_key(k) == m.contains_key(k),
        m.contains_key(k) ==> rooms_view(m)[k] == m[k]@,
{
}

impl<S> View for Lobby<S> {
    type V = LobbyView<S>;

    closed spec fn view(&self) -> LobbyView<S> {
        LobbyView { sessions: self.sessions@, rooms: rooms_view(self.rooms@) }
    }
}

impl<S> Default for Lobby<S> {
    fn default() -> (lobby: Self)
        ensures
            lobby@.sessions == Map::<u128, S>::empty(),
            lobby@.rooms == Map::<u128, Set<u128>>::empty(),
    {
        let lobby = Lobby { sessions: HashMap::new(), rooms: HashMap::new() };
        assert(lobby@.rooms =~= Map::<u128, Set<u128>>::empty());
        lobby
    }
}

/// Reading through the references of a sequence keeps it free of duplicates.
proof fn lemma_unref_no_duplicates(keys: Seq<&u128>)
    requires
        keys.no_duplicates(),
    ensures
        keys.unref().no_duplicates(),
{
    assert forall|i: int, j: int|
        0 <= i < keys.len() && 0 <= j < keys.len() && i != j implies keys.unref()[i]
        != keys.unref()[j] by {
        assert(keys[i] != keys[j]);
    }
}

/// The members of a room, each once, in the order in which the set walks them.
fn members_of(set: &HashSet<u128>) -> (v: Vec<u128>)
    ensures
        v@.no_duplicates(),
        v@.to_set() == set@,
{
    let mut v: Vec<u128> = Vec::new();
    for m in it: set.iter()
        invariant
            v@ == it.seq().take(it.index()).unref(),
            it.seq() == vstd::std_specs::hash::spec_hash_keys_iter(set).remaining(),
    {
        v.push(*m);
    }
    let ghost keys = vstd::std_specs::hash::spec_hash_keys_iter(set).remaining();
    assert(keys.take(keys.len() as int) =~= keys);
    assert(v@ =~= keys.unref());
    proof {
        lemma_unref_no_duplicates(keys);
    }
    v
}

/// Sending `text` from `from` to one user, as the lobby does for every text.
fn send_one<S>(sessions: &HashMap<u128, S>, from: u128, to: u128, text: &str) -> (o: Outgoing)
    ensures
        o.recipient() == to,
        sends(o, sessions@.dom(), from, text@),
{
    if sessions.contains_key(&to) {
        Outgoing::Deliver { to, message: WsMessage::new(from, String::from_str(text)) }
    } else {
        Outgoing::Unknown { to }
    }
}

/// Sending `text` from `from` to every user of `order` but `skip`.
fn announce<S>(
    sessions: &HashMap<u128, S>,
    from: u128,
    order: &Vec<u128>,
    skip: Option<u128>,
    text: &str,
) -> (out: Vec<Outgoing>)
    requires
        order@.no_duplicates(),
    ensures
        announces(out@, excluding(order@.to_set(), skip), sessions@.dom(), from, text@),
{
    let mut out: Vec<Outgoing> = Vec::new();
    let n = order.len();
    let ghost mut pos: Seq<int> = Seq::empty();
    let ghost mut back: Seq<int> = Seq::empty();
    for i in 0..n
        invariant
            n == order@.len(),
            order@.no_duplicates(),
            pos.len() == out@.len(),
            back.len() == i,
            forall|k: int|
                0 <= k < out@.len() ==> 0 <= #[trigger] pos[k] < i && order@[pos[k]]
                    == out@[k].recipient(),
            forall|k: int|
                0 <= k < out@.len() ==> sends(#[trigger] out@[k], sessions@.dom(), from, text@)
                    && skip != Some(out@[k].recipient()),
            forall|k1: int, k2: int|
                0 <= k1 < k2 < out@.len() ==> #[trigger] out@[k1].recipient()
                    != #[trigger] out@[k2].recipient(),
            forall|j: int|
                0 <= j < i && skip != Some(#[trigger] order@[j]) ==> 0 <= back[j] < out@.len()
                    && out@[back[j]].recipient() == order@[j],
    {
        let to = order[i];
        let is_skipped = match skip {
            Some(u) => u == to,
            None => false,
        };
        if !is_skipped {
            let o = send_one(sessions, from, to, text);
            let ghost before = out@;
            out.push(o);
            proof {
                assert forall|k: int| 0 <= k < before.len() implies before[k].recipient()
                    != o.recipient() by {
                    assert(order@[pos[k]] != order@[i as int]);
                }
                back = back.push(before.len() as int);
                pos = pos.push(i as int);
                assert(forall|k: int| 0 <= k < before.len() ==> out@[k] == before[k]);
            }
        } else {
            proof {
                back = back.push(-1);
            }
        }
    }
    proof {
        let members = excluding(order@.to_set(), skip);
        assert forall|m: u128| #[trigger] members.contains(m) implies exists|k: int|
            0 <= k < out@.len() && #[trigger] out@[k].recipient() == m by {
            assert(order@.contains(m));
            let j = choose|j: int| 0 <= j < order@.len() && order@[j] == m;
            assert(skip != Some(order@[j]));
            assert(out@[back[j]].recipient() == m);
        }
        assert forall|k: int| 0 <= k < out@.len() implies members.contains(
            #[trigger] out@[k].recipient(),
        ) by {
            assert(order@.contains(order@[pos[k]]));
        }
    }
    out
}

/// An announcement stays one when the connections change only for users
/// outside its audience.
proof fn lemma_announces_other_presence(
    out: Seq<Outgoing>,
    members: Set<u128>,
    p1: Set<u128>,
    p2: Set<u128>,
    from: u128,
    text: Seq<char>,
)
    requires
        announces(out, members, p1, from, text),
        forall|m: u128| #[trigger] members.contains(m) ==> (p1.contains(m) == p2.contains(m)),
    ensures
        announces(out, members, p2, from, text),
{
    assert forall|i: int| 0 <= i < out.len() implies members.contains(
        #[trigger] out[i].recipient(),
    ) && sends(out[i], p2, from, text) by {
        assert(members.contains(out[i].recipient()));
    }
}

fn joined_notice(user: u128) -> (s: String)
    ensures
        s@ == joined_text(user),
{
    let mut s = String::from_str("User: [");
    let id = format_id(user);
    s.append(id.as_str());
    s.append("] has joined the room");
    s
}

fn left_notice(user: u128) -> (s: String)
    ensures
        s@ == left_text(user),
{
    let mut s = String::from_str("User: [");
    let id = format_id(user);
    s.append(id.as_str());
    s.append("] has left the room");
    s
}

fn connected_notice(room: u128) -> (s: String)
    ensures
        s@ == connected_text(room),
{
    let mut s = String::from_str("Connected Lobby: ");
    let id = format_id(room);
    s.append(id.as_str());
    s
}

fn whisper_notice(from: u128, message: &str) -> (s: String)
    ensures
        s@ == whisper_text(from, message@),
{
    let mut s = String::from_str("Whisper from [");
    let id = format_id(from);
    s.append(id.as_str());
    s.append("]: ");
    s.append(message);
    s
}

impl<S> Lobby<S> {
    /// Sends `message` from `from_id` to `to_id`: a delivery where `to_id` has
    /// a connection, the notice that it has none otherwise.
    pub fn send_message(&self, from_id: u128, to_id: u128, message: &str) -> (o: Outgoing)
        ensures
            o.recipient() == to_id,
            sends(o, self@.sessions.dom(), from_id, message@),
    {
        send_one(&self.sessions, from_id, to_id, message)
    }

    /// The whisper of `message` from `from_id` to `target`, where a target was
    /// read from it; nothing where none was.
    pub fn whisper(&self, from_id: u128, target: Option<u128>, message: &str) -> (out: Vec<Outgoing>)
        ensures
            whispers(out@, target, self@.sessions.dom(), from_id, whisper_text(from_id, message@)),
    {
        let mut out: Vec<Outgoing> = Vec::new();
        match target {
            Some(to_id) => {
                let text = whisper_notice(from_id, message);
                let o = self.send_message(from_id, to_id, text.as_str());
                out.push(o);
            },
            None => {},
        }
        out
    }

    /// A user joins a room: the room is made where it does not exist, the
    /// others of the room hear that the user joined (the first list), the
    /// user's connection is kept, and then every member of the room, the user
    /// too, hears that someone connected to it (the second list).
    pub fn handle_connect(&mut self, msg: Connect<S>) -> (out: (Vec<Outgoing>, Vec<Outgoing>))
        ensures
            final(self)@ == old(self)@.after_connect(msg.room_id, msg.user_id, msg.address),
            announces(
                out.0@,
                final(self)@.members(msg.room_id).remove(msg.user_id),
                final(self)@.sessions.dom(),
                msg.user_id,
                joined_text(msg.user_id),
            ),
            announces(
                out.1@,
                final(self)@.members(msg.room_id),
                final(self)@.sessions.dom(),
                msg.user_id,
                connected_text(msg.room_id),
            ),
            old(self)@.well_formed() ==> final(self)@.well_formed(),
    {
        let ghost before = self@;
        let Connect { address, room_id, user_id } = msg;
        let mut members = match self.rooms.remove(&room_id) {
            Some(s) => s,
            None => HashSet::new(),
        };
        proof {
            lemma_rooms_view_index(old(self).rooms@, room_id);
            assert(members@ == before.members(room_id));
        }
        members.insert(user_id);
        let order = members_of(&members);
        let joined = joined_notice(user_id);
        let joined_out = announce(&self.sessions, user_id, &order, Some(user_id), joined.as_str());
        let ghost old_present = self.sessions@.dom();
        self.sessions.insert(user_id, address);
        proof {
            lemma_announces_other_presence(
                joined_out@,
                members@.remove(user_id),
                old_present,
                self.sessions@.dom(),
                user_id,
                joined_text(user_id),
            );
        }
        let connected = connected_notice(room_id);
        let connected_out = announce(&self.sessions, user_id, &order, None, connected.as_str());
        let ghost rooms_before = self.rooms@;
        self.rooms.insert(room_id, members);
        proof {
            lemma_rooms_view_insert(rooms_before, room_id, members);
            lemma_rooms_view_remove(old(self).rooms@, room_id);
            assert(rooms_view(rooms_before) == before.rooms.remove(room_id));
            assert(self@.rooms =~= before.rooms.insert(room_id, before.members(room_id).insert(user_id)));
            assert(self@ == before.after_connect(room_id, user_id, address));
        }
        proof {
            if before.well_formed() {
                assert forall|r: u128| #[trigger] self@.rooms.contains_key(r) implies self@.rooms[r].finite()
                    && self@.rooms[r].len() > 0 by {
                    if r == room_id {
                        assert(self@.rooms[r].contains(user_id));
                    }
                }
            }
        }
        (joined_out, connected_out)
    }

    /// A user leaves a room. Where the user has a connection, it goes, the
    /// others of the room hear that the user left, and the user leaves the
    /// room, which goes too where it held at most one user. Nothing happens
    /// where the user has no connection.
    pub fn handle_disconnect(&mut self, msg: Disconnect) -> (out: Vec<Outgoing>)
        requires
            old(self)@.sessions.contains_key(msg.user_id) ==> old(self)@.rooms.contains_key(
                msg.room_id,
            ),
        ensures
            final(self)@ == old(self)@.after_disconnect(msg.room_id, msg.user_id),
            old(self)@.sessions.contains_key(msg.user_id) ==> announces(
                out@,
                old(self)@.rooms[msg.room_id].remove(msg.user_id),
                final(self)@.sessions.dom(),
                msg.user_id,
                left_text(msg.user_id),
            ),
            !old(self)@.sessions.contains_key(msg.user_id) ==> out@.len() == 0,
            old(self)@.well_formed() ==> final(self)@.well_formed(),
    {
        let ghost before = self@;
        let user_id = msg.user_id;
        let room_id = msg.room_id;
        let mut out: Vec<Outgoing> = Vec::new();
        if self.sessions.remove(&user_id).is_some() {
            proof {
                lemma_rooms_view_index(self.rooms@, room_id);
            }
            let members = self.rooms.remove(&room_id).unwrap();
            let ghost rooms_removed = self.rooms@;
            let order = members_of(&members);
            let left = left_notice(user_id);
            out = announce(&self.sessions, user_id, &order, Some(user_id), left.as_str());
            proof {
                lemma_rooms_view_remove(old(self).rooms@, room_id);
            }
            if members.len() > 1 {
                let mut rest = members;
                rest.remove(&user_id);
                self.rooms.insert(room_id, rest);
                proof {
                    lemma_rooms_view_insert(rooms_removed, room_id, rest);
                    assert(self@.rooms =~= before.rooms.insert(room_id, before.rooms[room_id].remove(user_id)));
                }
            }
            proof {
                assert(self@ == before.after_disconnect(room_id, user_id));
                if before.well_formed() {
                    assert forall|r: u128| #[trigger] self@.rooms.contains_key(r) implies self@.rooms[r].finite()
                        && self@.rooms[r].len() > 0 by {
                        assert(before.rooms.contains_key(r));
                        if r == room_id {
                            assert(before.rooms[r].len() > 1);
                            if before.rooms[r].contains(user_id) {
                                assert(self@.rooms[r].len() == before.rooms[r].len() - 1);
                            } else {
                                assert(self@.rooms[r] =~= before.rooms[r]);
                            }
                        }
                    }
                }
            }
        } else {
            proof {
                assert(self.sessions@ =~= before.sessions);
                assert(self@ == before);
            }
        }
        out
    }

    /// A chat text from a user. One that begins with `\w` is a whisper to the
    /// user whose identifier is its second word: it goes to that user alone,
    /// and nowhere where the word is missing or is no identifier. Any other
    /// text goes to every member of the room, the sender too.
    pub fn handle_message(&self, msg: ClientActorMessage) -> (out: Vec<Outgoing>)
        requires
            !whisper_prefix(msg.message@) ==> self@.rooms.contains_key(msg.room_id),
        ensures
            whisper_prefix(msg.message@) ==> whispers(
                out@,
                whisper_target(msg.message@),
                self@.sessions.dom(),
                msg.user_id,
                whisper_text(msg.user_id, msg.message@),
            ),
            whisper_prefix(msg.message@) ==> forall|to: u128|
                second_word(msg.message@) == Some(uuid_text(to)) ==> out@.len() == 1
                    && #[trigger] out@[0].recipient() == to,
            !whisper_prefix(msg.message@) ==> announces(
                out@,
                self@.rooms[msg.room_id],
                self@.sessions.dom(),
                msg.user_id,
                msg.message@,
            ),
    {
        if is_whisper(msg.message.as_str()) {
            let target = match second_word_of(msg.message.as_str()) {
                Some(word) => parse_id(word),
                None => None,
            };
            let out = self.whisper(msg.user_id, target, msg.message.as_str());
            proof {
                assert forall|to: u128|
                    second_word(msg.message@) == Some(uuid_text(to)) implies out@.len() == 1
                    && #[trigger] out@[0].recipient() == to by {
                    lemma_uuid_text_parses(to);
                }
            }
            out
        } else {
            proof {
                lemma_rooms_view_index(self.rooms@, msg.room_id);
            }
            let members = self.rooms.get(&msg.room_id).unwrap();
            let order = members_of(members);
            announce(&self.sessions, msg.user_id, &order, None, msg.message.as_str())
        }
    }
}

impl<S> Lobby<S> {
    /// The connection of a user, where it has one.
    pub fn session(&self, user_id: u128) -> (s: Option<&S>)
        ensures
            match s {
                Some(x) => self@.sessions.contains_key(user_id) && *x == self@.sessions[user_id],
                None => !self@.sessions.contains_key(user_id),
            },
    {
        self.sessions.get(&user_id)
    }

    /// Whether a user has a connection.
    pub fn has_session(&self, user_id: u128) -> (b: bool)
        ensures
            b == self@.sessions.contains_key(user_id),
    {
        self.sessions.contains_key(&user_id)
    }

    /// Whether a room exists.
    pub fn has_room(&self, room_id: u128) -> (b: bool)
        ensures
            b == self@.rooms.contains_key(room_id),
    {
        proof {
            lemma_rooms_view_index(self.rooms@, room_id);
        }
        self.rooms.contains_key(&room_id)
    }

    /// The users that have a connection, each once.
    pub fn user_ids(&self) -> (v: Vec<u128>)
        ensures
            v@.no_duplicates(),
            v@.to_set() == self@.sessions.dom(),
    {
        let mut v: Vec<u128> = Vec::new();
        for k in it: self.sessions.keys()
            invariant
                v@ == it.seq().take(it.index()).unref(),
                it.seq() == vstd::std_specs::hash::spec_keys_iter(&self.sessions).remaining(),
        {
            v.push(*k);
        }
        let ghost keys = vstd::std_specs::hash::spec_keys_iter(&self.sessions).remaining();
        assert(keys.take(keys.len() as int) =~= keys);
        assert(v@ =~= keys.unref());
        proof {
            lemma_unref_no_duplicates(keys);
        }
        v
    }
}

/// A user that joins a room it was not in, with no connection before, and
/// then leaves it, leaves the lobby as it found it.
pub proof fn law_disconnect_undoes_connect<S>(before: LobbyView<S>, room: u128, user: u128, address: S)
    requires
        before.well_formed(),
        !before.sessions.contains_key(user),
        !before.members(room).contains(user),
    ensures
        before.after_connect(room, user, address).after_disconnect(room, user) == before,
{
    let mid = before.after_connect(room, user, address);
    let after = mid.after_disconnect(room, user);
    assert(mid.sessions.contains_key(user));
    assert(after.sessions =~= before.sessions);
    if before.rooms.contains_key(room) {
        let m = before.rooms[room];
        assert(m.finite() && m.len() > 0);
        assert(mid.rooms[room] == m.insert(user));
        assert(mid.rooms[room].len() == m.len() + 1);
        assert(m.insert(user).remove(user) =~= m);
        assert(after.rooms =~= before.rooms);
    } else {
        assert(mid.rooms[room] =~= Set::<u128>::empty().insert(user));
        assert(mid.rooms[room].len() == 1);
        assert(after.rooms =~= before.rooms);
    }
}

/// After a user joins a room, a chat text that it sends to the room comes
/// back to it: announced to the room, it reaches the user's own connection.
pub proof fn law_chat_reaches_sender<S>(
    before: LobbyView<S>,
    room: u128,
    user: u128,
    address: S,
    out: Seq<Outgoing>,
    text: Seq<char>,
)
    requires
        ({
            let after = before.after_connect(room, user, address);
            announces(out, after.rooms[room], after.sessions.dom(), user, text)
        }),
    ensures
        exists|i: int|
            0 <= i < out.len() && (#[trigger] out[i] matches Outgoing::Deliver { to, message }
                && to == user && message.user_id == user && message.message@ == text),
{
    let after = before.after_connect(room, user, address);
    assert(after.rooms[room].contains(user));
    let i = choose|i: int| 0 <= i < out.len() && #[trigger] out[i].recipient() == user;
    assert(sends(out[i], after.sessions.dom(), user, text));
    assert(after.sessions.dom().contains(user));
}

/// The empty lobby, as `Lobby::default` makes it, is consistent.
pub proof fn law_empty_lobby_is_consistent<S>()
    ensures
        (LobbyView { sessions: Map::<u128, S>::empty(), rooms: Map::<u128, Set<u128>>::empty() }).consistent(),
{
}

/// A user without a connection that joins a room keeps the lobby consistent.
pub proof fn law_connect_keeps_consistent<S>(before: LobbyView<S>, room: u128, user: u128, address: S)
    requires
        before.consistent(),
        !before.sessions.contains_key(user),
    ensures
        before.after_connect(room, user, address).consistent(),
{
    let after = before.after_connect(room, user, address);
    assert forall|r: u128| #[trigger] after.rooms.contains_key(r) implies after.rooms[r].finite()
        && after.rooms[r].len() > 0 by {
        if r == room {
            assert(after.rooms[r].contains(user));
        } else {
            assert(before.rooms.contains_key(r));
        }
    }
    assert forall|u: u128| #[trigger] after.sessions.contains_key(u) implies exists|r: u128|
        after.in_room(u, r) by {
        if u == user {
            assert(after.in_room(u, room));
        } else {
            assert(before.sessions.contains_key(u));
            let r0 = choose|r: u128| before.in_room(u, r);
            assert(after.in_room(u, r0));
        }
    }
    assert forall|u: u128, r: u128| #[trigger] after.in_room(u, r) implies after.sessions.contains_key(u) by {
        if u != user {
            assert(before.in_room(u, r));
        }
    }
    assert forall|u: u128, r1: u128, r2: u128|
        #[trigger] after.in_room(u, r1) && #[trigger] after.in_room(u, r2) implies r1 == r2 by {
        if u == user {
            if r1 != room {
                assert(before.in_room(u, r1));
            }
            if r2 != room {
                assert(before.in_room(u, r2));
            }
        } else {
            assert(before.in_room(u, r1));
            assert(before.in_room(u, r2));
        }
    }
}

/// A user that leaves the room it is in, or that has no connection, keeps
/// the lobby consistent.
pub proof fn law_disconnect_keeps_consistent<S>(before: LobbyView<S>, room: u128, user: u128)
    requires
        before.consistent(),
        before.sessions.contains_key(user) ==> before.in_room(user, room),
    ensures
        before.after_disconnect(room, user).consistent(),
{
    let after = before.after_disconnect(room, user);
    if before.sessions.contains_key(user) {
        let m = before.rooms[room];
        assert(m.finite() && m.len() > 0);
        if m.len() <= 1 {
            assert(m =~= set![user]) by {
                assert forall|w: u128| m.contains(w) implies w == user by {
                    if w != user {
                        assert(m.remove(user).contains(w));
                        assert(m.remove(user).len() == m.len() - 1);
                    }
                }
            }
        }
        assert forall|r: u128| #[trigger] after.rooms.contains_key(r) implies after.rooms[r].finite()
            && after.rooms[r].len() > 0 by {
            assert(before.rooms.contains_key(r));
            if r == room {
                assert(after.rooms[r].len() == m.len() - 1);
            }
        }
        assert forall|u: u128| #[trigger] after.sessions.contains_key(u) implies exists|r: u128|
            after.in_room(u, r) by {
            assert(before.sessions.contains_key(u));
            let r0 = choose|r: u128| before.in_room(u, r);
            if r0 == room {
                assert(u != user);
                assert(m.contains(u));
                assert(after.in_room(u, r0));
            } else {
                assert(after.in_room(u, r0));
            }
        }
        assert forall|u: u128, r: u128| #[trigger] after.in_room(u, r) implies after.sessions.contains_key(
            u,
        ) by {
            assert(before.in_room(u, r));
            if u == user {
                assert(r != room);
            }
        }
        assert forall|u: u128, r1: u128, r2: u128|
            #[trigger] after.in_room(u, r1) && #[trigger] after.in_room(u, r2) implies r1 == r2 by {
            assert(before.in_room(u, r1));
            assert(before.in_room(u, r2));
        }
    }
}

/// Handling the same leave twice is handling it once: after the first, the
/// user has no connection, so the second changes nothing (and, by
/// `handle_disconnect`, sends nothing and cannot fail).
pub proof fn law_disconnect_is_idempotent<S>(before: LobbyView<S>, room: u128, user: u128)
    requires
        before.sessions.contains_key(user) ==> before.rooms.contains_key(room),
    ensures
        !before.after_disconnect(room, user).sessions.contains_key(user),
        before.after_disconnect(room, user).after_disconnect(room, user) == before.after_disconnect(
            room,
            user,
        ),
{
}

/// For every user, the join notice is `User: [`, then the user's identifier,
/// which reads back as that user, then `] has joined the room`; it is never
/// the leave notice.
pub proof fn law_join_notice_names_the_user(user: u128)
    ensures
        joined_text(user).len() == 64,
        joined_text(user).take(7) == "User: ["@,
        joined_text(user).subrange(7, 43) == uuid_text(user),
        parsed_uuid(joined_text(user).subrange(7, 43)) == Some(user),
        joined_text(user).skip(43) == "] has joined the room"@,
        joined_text(user) != left_text(user),
{
    reveal_strlit("User: [");
    reveal_strlit("] has joined the room");
    reveal_strlit("] has left the room");
    lemma_uuid_text_len(user);
    lemma_uuid_text_parses(user);
    let t = joined_text(user);
    assert(t.take(7) =~= "User: ["@);
    assert(t.subrange(7, 43) =~= uuid_text(user));
    assert(t.skip(43) =~= "] has joined the room"@);
    assert(left_text(user).len() == 62);
}

/// For every user, the leave notice is `User: [`, then the user's
/// identifier, which reads back as that user, then `] has left the room`.
pub proof fn law_leave_notice_names_the_user(user: u128)
    ensures
        left_text(user).len() == 62,
        left_text(user).take(7) == "User: ["@,
        left_text(user).subrange(7, 43) == uuid_text(user),
        parsed_uuid(left_text(user).subrange(7, 43)) == Some(user),
        left_text(user).skip(43) == "] has left the room"@,
{
    reveal_strlit("User: [");
    reveal_strlit("] has left the room");
    lemma_uuid_text_len(user);
    lemma_uuid_text_parses(user);
    let t = left_text(user);
    assert(t.take(7) =~= "User: ["@);
    assert(t.subrange(7, 43) =~= uuid_text(user));
    assert(t.skip(43) =~= "] has left the room"@);
}

/// For every room, the connected notice is `Connected Lobby: ` followed by
/// the room's identifier, which reads back as the room.
pub proof fn law_connected_notice_names_the_room(room: u128)
    ensures
        connected_text(room).len() == 53,
        connected_text(room).take(17) == "Connected Lobby: "@,
        parsed_uuid(connected_text(room).skip(17)) == Some(room),
{
    reveal_strlit("Connected Lobby: ");
    lemma_uuid_text_len(room);
    lemma_uuid_text_parses(room);
    let t = connected_text(room);
    assert(t.take(17) =~= "Connected Lobby: "@);
    assert(t.skip(17) =~= uuid_text(room));
}

/// For every sender and text, a whisper reads `Whisper from [`, then the
/// sender's identifier, which reads back as the sender, then `]: ` and the
/// whole text as it was sent.
pub proof fn law_whisper_names_the_sender(from: u128, message: Seq<char>)
    ensures
        whisper_text(from, message).take(14) == "Whisper from ["@,
        parsed_uuid(whisper_text(from, message).subrange(14, 50)) == Some(from),
        whisper_text(from, message).subrange(50, 53) == "]: "@,
        whisper_text(from, message).skip(53) == message,
{
    reveal_strlit("Whisper from [");
    reveal_strlit("]: ");
    lemma_uuid_text_len(from);
    lemma_uuid_text_parses(from);
    let t = whisper_text(from, message);
    assert(t.take(14) =~= "Whisper from ["@);
    assert(t.subrange(14, 50) =~= uuid_text(from));
    assert(t.subrange(50, 53) =~= "]: "@);
    assert(t.skip(53) =~= message);
}

} // verus!
