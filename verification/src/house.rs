//! The rooms that are open, by name.

use vstd::hash_map::*;
use vstd::prelude::*;

use crate::messages::{
    reply_view, RoomCommand, RoomCommandView, RoomMessage, RoomMessageView,
};

verus! {

/// The rooms that are open. `S` is what leads to a room.
#[verifier::reject_recursive_types(S)]
pub struct House<S> {
    rooms: StringHashMap<S>,
}

impl<S> View for House<S> {
    type V = Map<Seq<char>, S>;

    closed spec fn view(&self) -> Map<Seq<char>, S> {
        self.rooms@
    }
}

/// Whether an answer says that the room is empty.
pub open spec fn says_empty(answer: Option<RoomCommandView>) -> bool {
    answer == Some(RoomCommandView::PlayerNumQueryResponse(0))
}

/// What leads to the room of a name, if there is one.
pub open spec fn found<S>(house: Map<Seq<char>, S>, room_name: Seq<char>) -> Option<S> {
    if house.contains_key(room_name) {
        Some(house[room_name])
    } else {
        None
    }
}

/// The rooms with one more, in the place of one of the same name.
pub open spec fn with_room<S>(house: Map<Seq<char>, S>, room_name: Seq<char>, room: S) -> Map<
    Seq<char>,
    S,
> {
    house.insert(room_name, room)
}

/// The rooms without the one of this name, if its answer says that it is empty.
pub open spec fn retired<S>(
    house: Map<Seq<char>, S>,
    room_name: Seq<char>,
    answer: Option<RoomCommandView>,
) -> Map<Seq<char>, S> {
    if says_empty(answer) {
        house.remove(room_name)
    } else {
        house
    }
}

impl<S> House<S> {
    /// No rooms.
    pub fn new() -> (house: Self)
        ensures
            house@ == Map::<Seq<char>, S>::empty(),
    {
        House { rooms: StringHashMap::new() }
    }

    /// Whether there is a room of this name.
    pub fn contains(&self, room_name: &str) -> (res: bool)
        ensures
            res == found(self@, room_name@) is Some,
    {
        self.rooms.contains_key(room_name)
    }

    /// What leads to the room of this name, if there is one.
    pub fn get(&self, room_name: &str) -> (res: Option<&S>)
        ensures
            match res {
                Some(room) => found(self@, room_name@) == Some(*room),
                None => found(self@, room_name@) is None,
            },
    {
        self.rooms.get(room_name)
    }

    /// Adds a room. It takes the place of a room of the same name.
    pub fn open(&mut self, room_name: String, room: S)
        ensures
            final(self)@ == with_room(old(self)@, room_name@, room),
    {
        self.rooms.insert(room_name, room);
    }

    /// Takes a room out if its answer, after a player has gone, says that it is empty, and
    /// says whether it does.
    pub fn retire(&mut self, room_name: &str, answer: &Option<RoomCommand>) -> (res: bool)
        ensures
            res == says_empty(reply_view(*answer)),
            final(self)@ == retired(old(self)@, room_name@, reply_view(*answer)),
    {
        let empty = is_empty(answer);
        if empty {
            self.rooms.remove(room_name);
        }
        empty
    }
}

/// Whether an answer says that the room is empty.
pub fn is_empty(answer: &Option<RoomCommand>) -> (res: bool)
    ensures
        res == says_empty(reply_view(*answer)),
{
    match answer {
        Some(RoomCommand::PlayerNumQueryResponse(number)) => *number == 0,
        _ => false,
    }
}

/// The question to a room how many players it has.
pub open spec fn count_question(asker: u64) -> RoomMessageView {
    RoomMessageView::RoomCommand(RoomCommandView::PlayerNumQuery(asker))
}

/// Asks a room how many players it has. The answer is for [`House::retire`], or for
/// [`after_timeout`].
pub fn ask_count(asker: u64) -> (res: RoomMessage)
    ensures
        res@ == count_question(asker),
{
    RoomMessage::RoomCommand(RoomCommand::PlayerNumQuery(asker))
}

/// How many seconds after its opening a room is asked whether anybody has entered it.
pub const ENTRY_SECONDS: u64 = 15;

/// What becomes of a room that nobody has entered in time.
#[derive(Clone, Copy, Debug, PartialEq, Eq, Structural)]
pub enum Timeout {
    /// The room is empty, and is shut down.
    Abort,
    /// There are players, and the room stays.
    Keep,
    /// What came was no number of players; the room stays.
    Invalid,
}

/// Decides what becomes of a room, [`ENTRY_SECONDS`] after it was opened, by its answer to
/// how many players it has.
pub fn after_timeout(answer: &Option<RoomCommand>) -> (res: Timeout)
    ensures
        res == match reply_view(*answer) {
            Some(RoomCommandView::PlayerNumQueryResponse(number)) => if number == 0 {
                Timeout::Abort
            } else {
                Timeout::Keep
            },
            _ => Timeout::Invalid,
        },
{
    match answer {
        Some(RoomCommand::PlayerNumQueryResponse(number)) => {
            if *number == 0 {
                Timeout::Abort
            } else {
                Timeout::Keep
            }
        },
        _ => Timeout::Invalid,
    }
}

/// A room that was opened is found, and the other rooms are where they were.
pub proof fn law_an_opened_room_is_found<S>(
    house: Map<Seq<char>, S>,
    room_name: Seq<char>,
    room: S,
    other: Seq<char>,
)
    requires
        other != room_name,
    ensures
        found(with_room(house, room_name, room), room_name) == Some(room),
        found(with_room(house, room_name, room), other) == found(house, other),
{
}

/// A room that says it is empty is not found once it was retired; any other answer leaves
/// it where it was, and so does either to the other rooms.
pub proof fn law_a_retired_name_is_free<S>(
    house: Map<Seq<char>, S>,
    room_name: Seq<char>,
    answer: Option<RoomCommandView>,
    other: Seq<char>,
)
    requires
        other != room_name,
    ensures
        says_empty(answer) ==> found(retired(house, room_name, answer), room_name) is None,
        !says_empty(answer) ==> found(retired(house, room_name, answer), room_name) == found(
            house,
            room_name,
        ),
        found(retired(house, room_name, answer), other) == found(house, other),
{
}

/// A room is found exactly where the house holds its name, and what is found is what the
/// house holds under it. In an empty house nothing is found.
pub proof fn law_rooms_are_found_by_name<S>(house: Map<Seq<char>, S>, room_name: Seq<char>)
    ensures
        found(house, room_name) is Some <==> house.dom().contains(room_name),
        found(house, room_name) matches Some(room) ==> house.contains_pair(room_name, room),
        found(Map::<Seq<char>, S>::empty(), room_name) is None,
{
}

/// A house gains exactly the name of the room that is opened.
pub proof fn law_opening_adds_one_name<S>(
    house: Map<Seq<char>, S>,
    room_name: Seq<char>,
    room: S,
    other: Seq<char>,
)
    ensures
        with_room(house, room_name, room).dom().contains(other) <==> other == room_name
            || house.dom().contains(other),
        with_room(house, room_name, room)[room_name] == room,
        other != room_name ==> with_room(house, room_name, room)[other] == house[other],
{
}

/// Only an answer that gives the number of players, and gives it as none, takes a room out of
/// the house, and no other room with it.
pub proof fn law_only_the_empty_are_retired<S>(
    house: Map<Seq<char>, S>,
    room_name: Seq<char>,
    number: u8,
    answer: Option<RoomCommandView>,
    other: Seq<char>,
)
    ensures
        ({
            let count = Some(RoomCommandView::PlayerNumQueryResponse(number));
            let rest = retired(house, room_name, count);
            &&& says_empty(count) <==> number == 0
            &&& number > 0 ==> rest == house
            &&& number == 0 ==> (rest.dom().contains(other) <==> other != room_name
                && house.dom().contains(other))
            &&& rest.dom().contains(other) ==> rest[other] == house[other]
        }),
        !(answer matches Some(RoomCommandView::PlayerNumQueryResponse(_))) ==> !says_empty(answer)
            && retired(house, room_name, answer) == house,
{
}

} // verus!
