//! The connection registry: the table of connections with their sinks, the
//! chat rooms, the game rooms and the list of games that are going. It routes
//! what clients ask for and fans out what rooms publish.

use crate::game::clock::Span;
use crate::game::frame::{json_of_grid, lemma_blank_grid_sized, wire_text};
use crate::game_session::{GameSessionMessage, GameStateType, Report};
use crate::room::{lemma_room_invariant_is_kept, Room, RoomView};
use crate::tables::{
    active_games_drop, active_games_has, active_games_new, active_games_of, active_games_put,
    chat_rooms_members, chat_rooms_names, chat_rooms_new, chat_rooms_of, chat_rooms_put,
    chat_rooms_take, game_rooms_new, game_rooms_of, game_rooms_put, game_rooms_take, lists_once,
    members_of,
};
use dashmap::DashMap;
use rand::Rng;
use std::collections::{HashMap, HashSet};
use vstd::prelude::*;
use vstd::set_lib::lemma_len_subset;

verus! {

broadcast use vstd::std_specs::hash::group_hash_axioms;

/// A text on its way to a connection.
#[derive(Debug)]
pub struct Message(pub String);

/// A new connection, with the sink for what is sent to it.
pub struct Connect<S> {
    pub addr: S,
}

/// The end of a connection.
#[derive(Debug)]
pub struct Disconnect {
    pub id: usize,
}

/// What a client can ask for: to relay a chat text, to move or fire, or to
/// join a game room.
#[allow(non_camel_case_types)]
#[derive(Debug)]
pub enum ClientMessageType {
    MESSAGE(String),
    MOVEMENT(String),
    JOIN,
}

/// What connection `id` asks for, and the room it is about.
#[derive(Debug)]
pub struct ClientMessage {
    pub id: usize,
    pub room: String,
    pub msg_type: ClientMessageType,
}

/// A text to push into the sink of connection `to`.
#[derive(Debug)]
pub struct Delivery {
    pub to: usize,
    pub message: Message,
}

/// A delivery as a mathematical value.
pub struct Parcel {
    pub to: usize,
    pub text: Seq<char>,
}

/// What a client asks for, as a mathematical value.
pub enum Intent {
    Chat(Seq<char>),
    Move(Seq<char>),
    Join,
}

/// A client's message as a mathematical value.
pub struct Request {
    pub id: usize,
    pub room: Seq<char>,
    pub intent: Intent,
}

impl ClientMessageType {
    /// What is asked for, as a mathematical value.
    pub open spec fn view(&self) -> Intent {
        match self {
            ClientMessageType::MESSAGE(text) => Intent::Chat(text@),
            ClientMessageType::MOVEMENT(command) => Intent::Move(command@),
            ClientMessageType::JOIN => Intent::Join,
        }
    }
}

impl ClientMessage {
    /// The message as a mathematical value.
    pub open spec fn view(&self) -> Request {
        Request { id: self.id, room: self.room@, intent: self.msg_type@ }
    }
}

/// The connections that a list of deliveries goes to, in order.
pub open spec fn targets(deliveries: Seq<Delivery>) -> Seq<usize> {
    Seq::new(deliveries.len(), |i: int| deliveries[i].to)
}

/// The deliveries as mathematical values, in order.
pub open spec fn parcels(deliveries: Seq<Delivery>) -> Seq<Parcel> {
    Seq::new(deliveries.len(), |i: int| deliveries[i]@)
}

/// The delivery of `text` to connection `to` if `reachable`, and none if not.
pub open spec fn parcel_if(reachable: bool, to: usize, text: Seq<char>) -> Seq<Parcel> {
    if reachable {
        seq![Parcel { to, text }]
    } else {
        Seq::empty()
    }
}

impl Delivery {
    /// The delivery as a mathematical value.
    pub open spec fn view(&self) -> Parcel {
        Parcel { to: self.to, text: self.message.0@ }
    }
}

/// The registry. `S` is the type of a connection's sink; the registry keeps
/// the sinks and never looks into them.
pub struct ChatServer<S> {
    pub sessions: HashMap<usize, S>,
    pub rooms: DashMap<String, HashSet<usize>>,
    pub game_rooms: DashMap<String, Room>,
    pub active_games: DashMap<String, bool>,
}

/// A registry as a mathematical value.
pub struct Registry<S> {
    pub sessions: Map<usize, S>,
    pub chat: Map<Seq<char>, Set<usize>>,
    pub games: Map<Seq<char>, RoomView>,
    pub active: Map<Seq<char>, bool>,
}

/// The name of the chat room that every registry starts with.
pub open spec fn main_room() -> Seq<char> {
    seq!['m', 'a', 'i', 'n']
}

/// Whether `id` can be given to a new connection: it is not 0, which stands
/// for an empty slot, and no connection has it.
pub open spec fn usable(taken: Set<usize>, id: usize) -> bool {
    id != 0 && !taken.contains(id)
}

/// Whether `id` is the identifier that a new connection gets when `candidate`
/// is proposed for it: the candidate itself if it is usable, else the least
/// usable identifier.
pub open spec fn grants(taken: Set<usize>, candidate: usize, id: usize) -> bool {
    if usable(taken, candidate) {
        id == candidate
    } else {
        usable(taken, id) && forall|k: usize| 0 < k < id ==> taken.contains(k)
    }
}

/// The views of the game rooms of a table.
pub open spec fn room_views(rooms: Map<Seq<char>, Room>) -> Map<Seq<char>, RoomView> {
    rooms.map_values(|room: Room| room@)
}

/// Every chat room without the member `id`.
pub open spec fn without_member(chat: Map<Seq<char>, Set<usize>>, id: usize) -> Map<
    Seq<char>,
    Set<usize>,
> {
    chat.map_values(|members: Set<usize>| members.remove(id))
}

impl<S> Registry<S> {
    /// Every game room is filed under its own name and keeps its invariant,
    /// and no connection has the identifier 0.
    pub open spec fn wf(&self) -> bool {
        &&& forall|name: Seq<char>| #[trigger]
            self.games.dom().contains(name) ==> self.games[name].inv() && self.games[name].name
                == name
        &&& !self.sessions.dom().contains(0)
    }

    /// The connections that a chat text for the chat room `room` goes to: the
    /// members of the room that have a sink.
    pub open spec fn audience(&self, room: Seq<char>) -> Set<usize> {
        members_of(self.chat, room).intersect(self.sessions.dom())
    }

    /// The registry after a client's message. A chat text changes nothing. A
    /// command goes to the game room of that name, if there is one. A join
    /// goes to the game room of that name; where there is none, a new room is
    /// made for it and its game is marked as going.
    pub open spec fn routed(self, request: Request) -> Registry<S> {
        match request.intent {
            Intent::Chat(_) => self,
            Intent::Move(command) => if self.games.dom().contains(request.room) {
                Registry {
                    games: self.games.insert(
                        request.room,
                        self.games[request.room].commanded(request.id, command),
                    ),
                    ..self
                }
            } else {
                self
            },
            Intent::Join => if self.games.dom().contains(request.room) {
                Registry {
                    games: self.games.insert(
                        request.room,
                        self.games[request.room].joined(request.id),
                    ),
                    ..self
                }
            } else {
                Registry {
                    games: self.games.insert(
                        request.room,
                        RoomView::fresh(request.room).joined(request.id),
                    ),
                    active: self.active.insert(request.room, true),
                    ..self
                }
            },
        }
    }

    /// Whether connection `id` stands in a slot but has no sink any more.
    pub open spec fn lost(&self, id: usize) -> bool {
        id != 0 && !self.sessions.dom().contains(id)
    }

    /// The game room of a report after the report was handled: a report of an
    /// ended session stops the scheduler, and each slot whose connection has
    /// no sink any more is emptied, the first before the second.
    pub open spec fn room_after(&self, report: Report) -> RoomView {
        let room = self.games[report.room_id];
        let halted = if report.state.is_terminal() {
            room.scheduler_stopped()
        } else {
            room
        };
        let first = if self.lost(report.player1_sessionid) {
            halted.left(report.player1_sessionid)
        } else {
            halted
        };
        if self.lost(report.player2_sessionid) {
            first.left(report.player2_sessionid)
        } else {
            first
        }
    }

    /// Whether a report leaves the game of its room marked as going: the
    /// session has not ended and one of the two connections has a sink.
    pub open spec fn stays_active(&self, report: Report) -> bool {
        !report.state.is_terminal() && (self.sessions.dom().contains(report.player1_sessionid)
            || self.sessions.dom().contains(report.player2_sessionid))
    }

    /// The registry after a report of a game room. A report for a room that
    /// the registry does not hold changes nothing. A report in state `START`
    /// marks the game as going and does no more. Any other report is handled
    /// by the room, and the mark of the game goes unless the game stays active.
    pub open spec fn delivered(self, report: Report) -> Registry<S> {
        if !self.games.dom().contains(report.room_id) {
            self
        } else if report.state == GameStateType::START {
            Registry { active: self.active.insert(report.room_id, true), ..self }
        } else {
            Registry {
                games: self.games.insert(report.room_id, self.room_after(report)),
                active: if self.stays_active(report) {
                    self.active
                } else {
                    self.active.remove(report.room_id)
                },
                ..self
            }
        }
    }

    /// What a report sends out, given the text of its frame: the text to the
    /// first slot's connection and then to the second's, each only if it has a
    /// sink. Nothing goes out for a room that the registry does not hold, for
    /// a report in state `START`, or without a text.
    pub open spec fn frame_parcels(&self, report: Report, text: Option<Seq<char>>) -> Seq<Parcel> {
        if !self.games.dom().contains(report.room_id) || report.state == GameStateType::START {
            Seq::empty()
        } else {
            match text {
                Some(t) => parcel_if(
                    self.sessions.dom().contains(report.player1_sessionid),
                    report.player1_sessionid,
                    t,
                ) + parcel_if(
                    self.sessions.dom().contains(report.player2_sessionid),
                    report.player2_sessionid,
                    t,
                ),
                None => Seq::empty(),
            }
        }
    }

    /// Whether a report claims no more of its room than holds of it: it says
    /// that the session has ended only if it has.
    pub open spec fn fits(&self, report: Report) -> bool {
        self.games.dom().contains(report.room_id) && report.state.is_terminal()
            ==> self.games[report.room_id].game.state.is_terminal()
    }

    /// Whether the scheduler of the game room `name` runs.
    pub open spec fn runs(&self, name: Seq<char>) -> bool {
        self.games.dom().contains(name) && self.games[name].ticking
    }

    /// The registry after the scheduler of the game room `name` fired, before
    /// the report of that tick is handled.
    pub open spec fn stepped(self, name: Seq<char>, delta: Span) -> Registry<S> {
        if self.runs(name) {
            Registry { games: self.games.insert(name, self.games[name].ticked(delta)), ..self }
        } else {
            self
        }
    }

    /// The registry after the scheduler of the game room `name` fired and the
    /// report of that tick was handled. Without a running scheduler nothing
    /// changes.
    pub open spec fn ticked(self, name: Seq<char>, delta: Span) -> Registry<S> {
        if self.runs(name) {
            self.stepped(name, delta).delivered(self.tick_report(name, delta))
        } else {
            self
        }
    }

    /// What the game room `name` publishes when its scheduler fires.
    pub open spec fn tick_report(self, name: Seq<char>, delta: Span) -> Report {
        self.stepped(name, delta).games[name].game.report()
    }

    /// The registry with a new connection `id` and its sink.
    pub open spec fn connected(self, id: usize, sink: S) -> Registry<S> {
        Registry { sessions: self.sessions.insert(id, sink), ..self }
    }

    /// The registry without connection `id`: its sink is gone, and so is its
    /// membership of every chat room. Without such a connection nothing changes.
    pub open spec fn disconnected(self, id: usize) -> Registry<S> {
        if self.sessions.dom().contains(id) {
            Registry {
                sessions: self.sessions.remove(id),
                chat: without_member(self.chat, id),
                ..self
            }
        } else {
            self
        }
    }
}

/// Every operation of the registry keeps it well formed: a new connection
/// under an identifier other than 0, the end of a connection, a client's
/// message, the report of a room that claims no more than holds of the room,
/// and a tick of a room. So every game room keeps its invariant, whatever is
/// done to the registry.
pub proof fn lemma_registry_invariant_is_kept<S>(
    registry: Registry<S>,
    id: usize,
    sink: S,
    request: Request,
    report: Report,
    name: Seq<char>,
    delta: Span,
)
    requires
        registry.wf(),
    ensures
        id != 0 ==> registry.connected(id, sink).wf(),
        registry.disconnected(id).wf(),
        registry.routed(request).wf(),
        registry.fits(report) ==> registry.delivered(report).wf(),
        registry.ticked(name, delta).wf(),
{
    match request.intent {
        Intent::Chat(_) => {},
        Intent::Move(command) => {
            if registry.games.dom().contains(request.room) {
                lemma_room_invariant_is_kept(registry.games[request.room], request.id, command, delta);
            }
        },
        Intent::Join => {
            if registry.games.dom().contains(request.room) {
                lemma_room_invariant_is_kept(
                    registry.games[request.room],
                    request.id,
                    Seq::empty(),
                    delta,
                );
            } else {
                lemma_room_invariant_is_kept(
                    RoomView::fresh(request.room),
                    request.id,
                    Seq::empty(),
                    delta,
                );
                lemma_fresh_room(request.room);
            }
        },
    }
    if registry.fits(report) {
        lemma_report_keeps_room(registry, report);
    }
    if registry.runs(name) {
        lemma_room_invariant_is_kept(registry.games[name], id, Seq::empty(), delta);
        let stepped = registry.stepped(name, delta);
        lemma_report_keeps_room(stepped, registry.tick_report(name, delta));
    }
}

/// A new room keeps the invariant of a room.
pub proof fn lemma_fresh_room(name: Seq<char>)
    ensures
        RoomView::fresh(name).inv(),
        RoomView::fresh(name).name == name,
{
    lemma_blank_grid_sized();
}

/// The report of a room that claims no more than holds of the room leaves a
/// well-formed registry well formed.
pub proof fn lemma_report_keeps_room<S>(registry: Registry<S>, report: Report)
    requires
        registry.wf(),
        registry.fits(report),
    ensures
        registry.delivered(report).wf(),
{
    if registry.games.dom().contains(report.room_id) {
        let room = registry.games[report.room_id];
        let halted = if report.state.is_terminal() {
            room.scheduler_stopped()
        } else {
            room
        };
        let span = Span { secs: 0, nanos: 0 };
        lemma_room_invariant_is_kept(halted, report.player1_sessionid, Seq::empty(), span);
        let first = if registry.lost(report.player1_sessionid) {
            halted.left(report.player1_sessionid)
        } else {
            halted
        };
        lemma_room_invariant_is_kept(first, report.player2_sessionid, Seq::empty(), span);
    }
}

impl<S> ChatServer<S> {
    /// The registry as a mathematical value.
    pub open spec fn view(&self) -> Registry<S> {
        Registry {
            sessions: self.sessions@,
            chat: chat_rooms_of(self.rooms),
            games: room_views(game_rooms_of(self.game_rooms)),
            active: active_games_of(self.active_games),
        }
    }

    /// A registry without connections and without game rooms, with the one
    /// chat room `main`, which has no members.
    pub fn new() -> (r: ChatServer<S>)
        ensures
            r@.sessions == Map::<usize, S>::empty(),
            r@.chat == Map::<Seq<char>, Set<usize>>::empty().insert(main_room(), Set::empty()),
            r@.games == Map::<Seq<char>, RoomView>::empty(),
            r@.active == Map::<Seq<char>, bool>::empty(),
            r@.wf(),
    {
        let mut rooms: DashMap<String, HashSet<usize>> = chat_rooms_new();
        let members: HashSet<usize> = HashSet::new();
        proof {
            reveal_strlit("main");
            assert("main"@ =~= main_room());
        }
        chat_rooms_put(&mut rooms, "main".to_owned(), members);
        let r = ChatServer {
            sessions: HashMap::new(),
            rooms,
            game_rooms: game_rooms_new(),
            active_games: active_games_new(),
        };
        proof {
            assert(r@.chat =~= Map::<Seq<char>, Set<usize>>::empty().insert(
                main_room(),
                Set::empty(),
            ));
        }
        r
    }

    /// The identifier for a new connection when `candidate` is proposed for it.
    pub fn fresh_id(&self, candidate: usize) -> (id: usize)
        requires
            self@.sessions.dom().len() < usize::MAX,
        ensures
            grants(self@.sessions.dom(), candidate, id),
            usable(self@.sessions.dom(), id),
    {
        if candidate != 0 && !self.sessions.contains_key(&candidate) {
            return candidate;
        }
        let ghost taken = self.sessions@.dom();
        let ghost mut seen: Set<usize> = Set::empty();
        let mut id: usize = 1;
        loop
            invariant
                taken == self.sessions@.dom(),
                taken.finite(),
                taken.len() < usize::MAX,
                !usable(taken, candidate),
                1 <= id,
                seen.finite(),
                seen.len() == id - 1,
                forall|k: usize| seen.contains(k) <==> 0 < k < id,
                forall|k: usize| 0 < k < id ==> taken.contains(k),
            decreases taken.len() + 1 - id,
        {
            proof {
                lemma_len_subset(seen, taken);
            }
            if !self.sessions.contains_key(&id) {
                return id;
            }
            proof {
                let more = seen.insert(id);
                lemma_len_subset(more, taken);
                seen = more;
            }
            id += 1;
        }
    }

    /// Takes a new connection in under the identifier that `candidate` gets
    /// it, and returns the identifier.
    pub fn connect_as(&mut self, msg: Connect<S>, candidate: usize) -> (id: usize)
        requires
            old(self)@.sessions.dom().len() < usize::MAX,
        ensures
            grants(old(self)@.sessions.dom(), candidate, id),
            usable(old(self)@.sessions.dom(), id),
            final(self)@ == old(self)@.connected(id, msg.addr),
            old(self)@.wf() ==> final(self)@.wf(),
    {
        let id: usize = self.fresh_id(candidate);
        self.sessions.insert(id, msg.addr);
        id
    }

    /// Takes a new connection in under an identifier that no connection has,
    /// and returns the identifier. A random number is proposed for it.
    pub fn connect(&mut self, msg: Connect<S>) -> (id: usize)
        requires
            old(self)@.sessions.dom().len() < usize::MAX,
        ensures
            usable(old(self)@.sessions.dom(), id),
            final(self)@ == old(self)@.connected(id, msg.addr),
            old(self)@.wf() ==> final(self)@.wf(),
    {
        let candidate: usize = random_id();
        self.connect_as(msg, candidate)
    }

    /// Forgets a connection: its sink, and its membership of every chat room.
    /// Without such a connection nothing changes.
    pub fn disconnect(&mut self, msg: Disconnect)
        ensures
            final(self)@ == old(self)@.disconnected(msg.id),
            old(self)@.wf() ==> final(self)@.wf(),
    {
        let id: usize = msg.id;
        let removed: Option<S> = self.sessions.remove(&id);
        if removed.is_some() {
            let names: Vec<String> = chat_rooms_names(&self.rooms);
            let ghost before = chat_rooms_of(self.rooms);
            let mut i: usize = 0;
            while i < names.len()
                invariant
                    i <= names@.len(),
                    lists_once(names@, before.dom()),
                    self.game_rooms == old(self).game_rooms,
                    self.active_games == old(self).active_games,
                    self.sessions@ == old(self).sessions@.remove(id),
                    chat_rooms_of(self.rooms).dom() == before.dom(),
                    forall|j: int|
                        0 <= j < i ==> chat_rooms_of(self.rooms)[#[trigger] names@[j]@]
                            == before[names@[j]@].remove(id),
                    forall|j: int|
                        i <= j < names@.len() ==> chat_rooms_of(self.rooms)[#[trigger] names@[j]@]
                            == before[names@[j]@],
                decreases names@.len() - i,
            {
                let name: &String = &names[i];
                let taken: Option<HashSet<usize>> = chat_rooms_take(&mut self.rooms, name.as_str());
                match taken {
                    Some(members) => {
                        let mut members: HashSet<usize> = members;
                        members.remove(&id);
                        chat_rooms_put(&mut self.rooms, name.clone(), members);
                    },
                    None => {},
                }
                i += 1;
            }
            proof {
                assert forall|key: Seq<char>| #[trigger] before.dom().contains(key) implies chat_rooms_of(
                    self.rooms,
                )[key] == before[key].remove(id) by {
                    let j = choose|j: int| 0 <= j < names@.len() && names@[j]@ == key;
                    assert(chat_rooms_of(self.rooms)[names@[j]@] == before[names@[j]@].remove(id));
                }
                assert(chat_rooms_of(self.rooms) =~= without_member(before, id));
            }
        } else {
            assert(self.sessions@ =~= old(self).sessions@);
        }
    }

    /// The deliveries of a chat text to the chat room `room`: one to each
    /// member of the room that has a sink.
    pub fn send_message(&self, room: &str, message: &str) -> (out: Vec<Delivery>)
        ensures
            targets(out@).to_set() == self@.audience(room@),
            targets(out@).no_duplicates(),
            forall|i: int| 0 <= i < out@.len() ==> (#[trigger] out@[i])@.text == message@,
    {
        let members: Vec<usize> = chat_rooms_members(&self.rooms, room);
        let mut out: Vec<Delivery> = Vec::new();
        let mut i: usize = 0;
        while i < members.len()
            invariant
                i <= members@.len(),
                members@.no_duplicates(),
                forall|k: int|
                    0 <= k < out@.len() ==> self.sessions@.dom().contains((#[trigger] out@[k]).to)
                        && exists|j: int| 0 <= j < i && members@[j] == out@[k].to,
                forall|j: int|
                    0 <= j < i && self.sessions@.dom().contains(#[trigger] members@[j])
                        ==> exists|k: int| 0 <= k < out@.len() && out@[k].to == members@[j],
                forall|k: int, l: int| 0 <= k < l < out@.len() ==> out@[k].to != out@[l].to,
                forall|k: int| 0 <= k < out@.len() ==> (#[trigger] out@[k])@.text == message@,
            decreases members@.len() - i,
        {
            let id: usize = members[i];
            if self.sessions.contains_key(&id) {
                let ghost before = out@;
                out.push(Delivery { to: id, message: Message(message.to_owned()) });
                proof {
                    assert forall|j: int|
                        0 <= j < i + 1 && self.sessions@.dom().contains(
                            #[trigger] members@[j],
                        ) implies exists|k: int| 0 <= k < out@.len() && out@[k].to == members@[j] by {
                        if j < i {
                            let k = choose|k: int| 0 <= k < before.len() && before[k].to == members@[j];
                            assert(out@[k].to == members@[j]);
                        } else {
                            assert(out@[out@.len() - 1].to == members@[j]);
                        }
                    }
                }
            }
            i += 1;
        }
        proof {
            let reached = targets(out@);
            assert forall|id: usize| reached.to_set().contains(id) == self@.audience(room@).contains(
                id,
            ) by {
                if reached.to_set().contains(id) {
                    let k = choose|k: int| 0 <= k < reached.len() && reached[k] == id;
                    let j = choose|j: int| 0 <= j < i && members@[j] == out@[k].to;
                    assert(members@.to_set().contains(members@[j]));
                }
                if self@.audience(room@).contains(id) {
                    let j = choose|j: int| 0 <= j < members@.len() && members@[j] == id;
                    let k = choose|k: int| 0 <= k < out@.len() && out@[k].to == members@[j];
                    assert(reached[k] == id);
                }
            }
            assert(reached.to_set() =~= self@.audience(room@));
        }
        out
    }

    /// Handles what a client asks for and returns what has to be sent out:
    /// for a chat text the deliveries to the chat room, else nothing.
    pub fn handle_client_message(&mut self, msg: ClientMessage) -> (out: Vec<Delivery>)
        requires
            old(self)@.wf(),
        ensures
            final(self)@ == old(self)@.routed(msg@),
            final(self)@.wf(),
            match msg@.intent {
                Intent::Chat(text) => {
                    &&& targets(out@).to_set() == old(self)@.audience(msg@.room)
                    &&& targets(out@).no_duplicates()
                    &&& forall|i: int| 0 <= i < out@.len() ==> (#[trigger] out@[i])@.text == text
                },
                _ => out@.len() == 0,
            },
    {
        match msg.msg_type {
            ClientMessageType::MESSAGE(text) => self.send_message(msg.room.as_str(), text.as_str()),
            ClientMessageType::MOVEMENT(command) => {
                let taken: Option<Room> = game_rooms_take(&mut self.game_rooms, msg.room.as_str());
                match taken {
                    Some(room) => {
                        let mut room: Room = room;
                        assert(old(self)@.games.dom().contains(msg.room@));
                        room.handle_player_input(&msg.id, command.as_str());
                        game_rooms_put(&mut self.game_rooms, msg.room, room);
                    },
                    None => {},
                }
                proof {
                    assert(self@.games =~= old(self)@.routed(msg@).games);
                }
                Vec::new()
            },
            ClientMessageType::JOIN => {
                let taken: Option<Room> = game_rooms_take(&mut self.game_rooms, msg.room.as_str());
                match taken {
                    Some(room) => {
                        let mut room: Room = room;
                        room.join(msg.id);
                        game_rooms_put(&mut self.game_rooms, msg.room, room);
                    },
                    None => {
                        let mut room: Room = Room::new(msg.room.clone());
                        room.join(msg.id);
                        game_rooms_put(&mut self.game_rooms, msg.room.clone(), room);
                        active_games_put(&mut self.active_games, msg.room, true);
                    },
                }
                proof {
                    assert(self@.games =~= old(self)@.routed(msg@).games);
                }
                Vec::new()
            },
        }
    }

    /// Handles the report of a game room, given the text that its frame was
    /// encoded to, and returns what has to be sent out.
    pub fn deliver_encoded(&mut self, msg: &GameSessionMessage, text: Option<String>) -> (out: Vec<
        Delivery,
    >)
        ensures
            final(self)@ == old(self)@.delivered(msg@),
            parcels(out@) == old(self)@.frame_parcels(msg@, wire_text(text)),
            old(self)@.wf() && old(self)@.fits(msg@) ==> final(self)@.wf(),
    {
        let taken: Option<Room> = game_rooms_take(&mut self.game_rooms, msg.room_id.as_str());
        let mut out: Vec<Delivery> = Vec::new();
        match taken {
            Some(room) => {
                let mut room: Room = room;
                match msg.state {
                    GameStateType::START => {
                        game_rooms_put(&mut self.game_rooms, msg.room_id.clone(), room);
                        active_games_put(&mut self.active_games, msg.room_id.clone(), true);
                        proof {
                            assert(game_rooms_of(self.game_rooms) =~= game_rooms_of(
                                old(self).game_rooms,
                            ));
                        }
                        return out;
                    },
                    _ => {},
                }
                let ended: bool = msg.state.terminal();
                if ended {
                    room.stop_update_loop();
                }
                let reachable1: bool = self.sessions.contains_key(&msg.player1_sessionid);
                let reachable2: bool = self.sessions.contains_key(&msg.player2_sessionid);
                if reachable1 {
                    match &text {
                        Some(t) => {
                            out.push(Delivery { to: msg.player1_sessionid, message: Message(t.clone()) });
                        },
                        None => {},
                    }
                } else if msg.player1_sessionid != 0 {
                    room.disconnect_player(msg.player1_sessionid);
                }
                if reachable2 {
                    match &text {
                        Some(t) => {
                            out.push(Delivery { to: msg.player2_sessionid, message: Message(t.clone()) });
                        },
                        None => {},
                    }
                } else if msg.player2_sessionid != 0 {
                    room.disconnect_player(msg.player2_sessionid);
                }
                if ended || !(reachable1 || reachable2) {
                    active_games_drop(&mut self.active_games, msg.room_id.as_str());
                }
                game_rooms_put(&mut self.game_rooms, msg.room_id.clone(), room);
                proof {
                    assert(self@.games =~= old(self)@.delivered(msg@).games);
                }
            },
            None => {
                proof {
                    assert(game_rooms_of(self.game_rooms) =~= game_rooms_of(old(self).game_rooms));
                }
            },
        }
        out
    }

    /// Handles the report of a game room: encodes its frame once and returns
    /// what has to be sent out.
    pub fn deliver_frame(&mut self, msg: GameSessionMessage) -> (out: Vec<Delivery>)
        ensures
            final(self)@ == old(self)@.delivered(msg@),
            parcels(out@) == old(self)@.frame_parcels(msg@, json_of_grid(msg@.frame)),
            old(self)@.wf() && old(self)@.fits(msg@) ==> final(self)@.wf(),
    {
        let text: Option<String> = msg.frame.to_json();
        self.deliver_encoded(&msg, text)
    }

    /// One firing of the scheduler of the game room `name`, `delta` after the
    /// last: the room's session advances, and its report is handled. Returns
    /// what has to be sent out. Without a running scheduler nothing happens.
    pub fn tick(&mut self, name: &str, delta: Span) -> (out: Vec<Delivery>)
        requires
            old(self)@.wf(),
            delta.wf(),
        ensures
            final(self)@ == old(self)@.ticked(name@, delta),
            final(self)@.wf(),
            old(self)@.runs(name@) ==> parcels(out@) == old(self)@.stepped(name@, delta).frame_parcels(
                old(self)@.tick_report(name@, delta),
                json_of_grid(old(self)@.tick_report(name@, delta).frame),
            ),
            !old(self)@.runs(name@) ==> out@.len() == 0,
    {
        let taken: Option<Room> = game_rooms_take(&mut self.game_rooms, name);
        match taken {
            Some(room) => {
                let mut room: Room = room;
                if room.ticking {
                    let report: GameSessionMessage = room.tick(delta);
                    game_rooms_put(&mut self.game_rooms, name.to_owned(), room);
                    proof {
                        assert(self@.games =~= old(self)@.stepped(name@, delta).games);
                    }
                    self.deliver_frame(report)
                } else {
                    game_rooms_put(&mut self.game_rooms, name.to_owned(), room);
                    proof {
                        assert(game_rooms_of(self.game_rooms) =~= game_rooms_of(old(self).game_rooms));
                    }
                    Vec::new()
                }
            },
            None => {
                proof {
                    assert(game_rooms_of(self.game_rooms) =~= game_rooms_of(old(self).game_rooms));
                }
                Vec::new()
            },
        }
    }

    /// Whether the scheduler of the game room `name` runs.
    pub fn scheduler_runs(&mut self, name: &str) -> (r: bool)
        ensures
            r == old(self)@.runs(name@),
            final(self)@ == old(self)@,
    {
        let taken: Option<Room> = game_rooms_take(&mut self.game_rooms, name);
        match taken {
            Some(room) => {
                let r: bool = room.ticking;
                game_rooms_put(&mut self.game_rooms, name.to_owned(), room);
                proof {
                    assert(game_rooms_of(self.game_rooms) =~= game_rooms_of(old(self).game_rooms));
                }
                r
            },
            None => {
                proof {
                    assert(game_rooms_of(self.game_rooms) =~= game_rooms_of(old(self).game_rooms));
                }
                false
            },
        }
    }

    /// Whether the game of the room `name` is marked as going.
    pub fn is_active(&self, name: &str) -> (r: bool)
        ensures
            r == self@.active.dom().contains(name@),
    {
        active_games_has(&self.active_games, name)
    }

    /// The sink of connection `id`, if there is such a connection.
    pub fn sink(&self, id: usize) -> (r: Option<&S>)
        ensures
            r is Some == self@.sessions.dom().contains(id),
            r is Some ==> *r->0 == self@.sessions[id],
    {
        self.sessions.get(&id)
    }
}

/// Calls `rand::thread_rng` and draws a `usize` from it with `Rng::gen`.
/// Nothing is known of the number.
#[verifier::external_body]
fn random_id() -> usize {
    rand::thread_rng().gen::<usize>()
}

} // verus!
