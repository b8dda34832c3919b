//! The registry's three tables, each a concurrent map keyed by a room's name.
//! The maps are not verified: this file states what the registry relies on.

use crate::room::Room;
use dashmap::DashMap;
use std::collections::HashSet;
use vstd::prelude::*;

verus! {

/// `dashmap::DashMap`, a concurrent hash map. Nothing inside it is visible
/// here: what a table holds is known by the three names below.
#[verifier::external_type_specification]
#[verifier::external_body]
#[verifier::reject_recursive_types(K)]
#[verifier::reject_recursive_types(V)]
#[verifier::reject_recursive_types(S)]
pub struct ExDashMap<K, V, S>(DashMap<K, V, S>);

/// The game rooms that a table holds, by name.
pub uninterp spec fn game_rooms_of(table: DashMap<String, Room>) -> Map<Seq<char>, Room>;

/// Calls `DashMap::new`: the table holds nothing.
#[verifier::external_body]
pub(crate) fn game_rooms_new() -> (r: DashMap<String, Room>)
    ensures
        game_rooms_of(r).dom() == Set::<Seq<char>>::empty(),
{
    DashMap::new()
}

/// Calls `DashMap::insert`: the table holds `room` under `name`, in place of
/// what it held under that name, and everything else as before.
#[verifier::external_body]
pub(crate) fn game_rooms_put(table: &mut DashMap<String, Room>, name: String, room: Room)
    ensures
        game_rooms_of(*final(table)) == game_rooms_of(*old(table)).insert(name@, room),
{
    table.insert(name, room);
}

/// Calls `DashMap::remove`: hands out the room that the table held under
/// `name`, if any, and the table holds everything else as before.
#[verifier::external_body]
pub(crate) fn game_rooms_take(table: &mut DashMap<String, Room>, name: &str) -> (room: Option<Room>)
    ensures
        game_rooms_of(*final(table)) == game_rooms_of(*old(table)).remove(name@),
        room == if game_rooms_of(*old(table)).dom().contains(name@) {
            Some(game_rooms_of(*old(table))[name@])
        } else {
            None
        },
{
    table.remove(name).map(|(_, room)| room)
}

/// The names of the rooms whose game is marked as going, each with its mark.
pub uninterp spec fn active_games_of(table: DashMap<String, bool>) -> Map<Seq<char>, bool>;

/// Calls `DashMap::new`: the table holds nothing.
#[verifier::external_body]
pub(crate) fn active_games_new() -> (r: DashMap<String, bool>)
    ensures
        active_games_of(r).dom() == Set::<Seq<char>>::empty(),
{
    DashMap::new()
}

/// Calls `DashMap::insert`: the table holds `mark` under `name`, in place of
/// what it held under that name, and everything else as before.
#[verifier::external_body]
pub(crate) fn active_games_put(table: &mut DashMap<String, bool>, name: String, mark: bool)
    ensures
        active_games_of(*final(table)) == active_games_of(*old(table)).insert(name@, mark),
{
    table.insert(name, mark);
}

/// Calls `DashMap::remove`: the table holds nothing under `name`, and
/// everything else as before.
#[verifier::external_body]
pub(crate) fn active_games_drop(table: &mut DashMap<String, bool>, name: &str)
    ensures
        active_games_of(*final(table)) == active_games_of(*old(table)).remove(name@),
{
    table.remove(name);
}

/// Calls `DashMap::contains_key`: whether the table holds a mark under `name`.
#[verifier::external_body]
pub(crate) fn active_games_has(table: &DashMap<String, bool>, name: &str) -> (r: bool)
    ensures
        r == active_games_of(*table).dom().contains(name@),
{
    table.contains_key(name)
}

/// The chat rooms that a table holds, by name, each with its members.
pub uninterp spec fn chat_rooms_of(table: DashMap<String, HashSet<usize>>) -> Map<Seq<char>, Set<usize>>;

/// Whether `names` lists every name of `keys` once, and nothing else.
pub open spec fn lists_once(names: Seq<String>, keys: Set<Seq<char>>) -> bool {
    &&& forall|i: int| 0 <= i < names.len() ==> keys.contains(#[trigger] names[i]@)
    &&& forall|key: Seq<char>| #[trigger]
        keys.contains(key) ==> exists|i: int| 0 <= i < names.len() && names[i]@ == key
    &&& forall|i: int, j: int| 0 <= i < j < names.len() ==> names[i]@ != names[j]@
}

/// The members of the chat room `name`; none where there is no such room.
pub open spec fn members_of(rooms: Map<Seq<char>, Set<usize>>, name: Seq<char>) -> Set<usize> {
    if rooms.dom().contains(name) {
        rooms[name]
    } else {
        Set::empty()
    }
}

/// Calls `DashMap::new`: the table holds nothing.
#[verifier::external_body]
pub(crate) fn chat_rooms_new() -> (r: DashMap<String, HashSet<usize>>)
    ensures
        chat_rooms_of(r).dom() == Set::<Seq<char>>::empty(),
{
    DashMap::new()
}

/// Calls `DashMap::insert`: the table holds `members` under `name`, in place
/// of what it held under that name, and everything else as before.
#[verifier::external_body]
pub(crate) fn chat_rooms_put(
    table: &mut DashMap<String, HashSet<usize>>,
    name: String,
    members: HashSet<usize>,
)
    ensures
        chat_rooms_of(*final(table)) == chat_rooms_of(*old(table)).insert(name@, members@),
{
    table.insert(name, members);
}

/// Calls `DashMap::remove`: hands out the members that the table held under
/// `name`, if any, and the table holds everything else as before.
#[verifier::external_body]
pub(crate) fn chat_rooms_take(table: &mut DashMap<String, HashSet<usize>>, name: &str) -> (r: Option<
    HashSet<usize>,
>)
    ensures
        chat_rooms_of(*final(table)) == chat_rooms_of(*old(table)).remove(name@),
        r is Some == chat_rooms_of(*old(table)).dom().contains(name@),
        r is Some ==> r->0@ == chat_rooms_of(*old(table))[name@],
{
    table.remove(name).map(|(_, members)| members)
}

/// Calls `DashMap::iter` and copies each entry's key: every name under which
/// the table holds something, once, in no order that can be relied on.
#[verifier::external_body]
pub(crate) fn chat_rooms_names(table: &DashMap<String, HashSet<usize>>) -> (r: Vec<String>)
    ensures
        lists_once(r@, chat_rooms_of(*table).dom()),
{
    table.iter().map(|entry| entry.key().clone()).collect()
}

/// Calls `DashMap::get` and copies the members out: every member of the chat
/// room `name` once, in no order that can be relied on; nothing where the
/// table holds no such room.
#[verifier::external_body]
pub(crate) fn chat_rooms_members(table: &DashMap<String, HashSet<usize>>, name: &str) -> (r: Vec<usize>)
    ensures
        r@.to_set() == members_of(chat_rooms_of(*table), name@),
        r@.no_duplicates(),
{
    table.get(name).map(|members| members.iter().copied().collect()).unwrap_or_default()
}

} // verus!
