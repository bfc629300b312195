//! How logins and the opening of rooms end, told by the rooms that there are.

use vstd::prelude::*;

use crate::conduct::is_absent;
use crate::house::found;
use crate::login::{
    advanced, answer_to, begun, FrameView, SessionActionView, SessionEventView, SessionView,
};
use crate::messages::{
    ClientMessageView, LoginErrorView, RoomCommandView, RoomCreateError, RoomMessageView,
};
use crate::model::{handled_step, names, ActionView, RoomState, StepView};

verus! {

/// What a house with these rooms has happen to a connection that asks for this action: it
/// looks for the room of the name that is looked for, and has the room that is asked answer
/// the question that it is asked.
pub open spec fn served<B>(
    house: Map<Seq<char>, RoomState<B>>,
    asker: u64,
    action: SessionActionView,
) -> SessionEventView {
    match action {
        SessionActionView::FindRoom(sought) => SessionEventView::Found(found(house, sought) is Some),
        SessionActionView::AskName { room_name, username } => SessionEventView::Answer(
            answer_to(house[room_name], RoomCommandView::PlayerQuery(asker, username)),
        ),
        SessionActionView::AskFull { room_name } => SessionEventView::Answer(
            answer_to(house[room_name], RoomCommandView::FullQuery(asker)),
        ),
        SessionActionView::Open { .. } => SessionEventView::Opened,
        _ => SessionEventView::Ended,
    }
}

/// A connection after the house has served it once more.
pub open spec fn served_once<B>(
    house: Map<Seq<char>, RoomState<B>>,
    asker: u64,
    state: (SessionView, SessionActionView),
) -> (SessionView, SessionActionView) {
    advanced(state.0, served(house, asker, state.1))
}

/// A connection after its request and all that the house serves it until the request is
/// answered: to a login at most three times.
pub open spec fn answered<B>(
    house: Map<Seq<char>, RoomState<B>>,
    asker: u64,
    request: ClientMessageView,
    times: nat,
) -> (SessionView, SessionActionView)
    decreases times,
{
    if times == 0 {
        begun(request)
    } else {
        let before = answered(house, asker, request, (times - 1) as nat);
        if before.0 is Idle || before.0 is Over {
            before
        } else {
            served_once(house, asker, before)
        }
    }
}

/// A request to enter or to open a room whose names are short enough looks for the room of
/// the very name that it gives.
pub proof fn law_requests_look_for_the_room_they_name(
    username: Seq<char>,
    room_name: Seq<char>,
    capacity: u8,
    size_x: u8,
    size_y: u8,
)
    requires
        room_name.len() <= 16,
    ensures
        username.len() <= 16 ==> begun(ClientMessageView::Login(username, room_name)).1
            == SessionActionView::FindRoom(room_name),
        begun(ClientMessageView::RoomCreate(room_name, capacity, size_x, size_y)).1
            == SessionActionView::FindRoom(room_name),
{
}

/// A name of more than sixteen characters is refused at once, a username before the name of
/// a room, and the client may ask again.
pub proof fn law_long_names_are_refused_at_once(
    username: Seq<char>,
    room_name: Seq<char>,
    capacity: u8,
    size_x: u8,
    size_y: u8,
)
    ensures
        username.len() > 16 ==> begun(ClientMessageView::Login(username, room_name)) == (
            SessionView::Idle,
            SessionActionView::RefuseLogin(LoginErrorView::UsernameTooLong),
        ),
        username.len() <= 16 && room_name.len() > 16 ==> begun(
            ClientMessageView::Login(username, room_name),
        ) == (
            SessionView::Idle,
            SessionActionView::RefuseLogin(LoginErrorView::RoomNameTooLong),
        ),
        room_name.len() > 16 ==> begun(
            ClientMessageView::RoomCreate(room_name, capacity, size_x, size_y),
        ) == (
            SessionView::Idle,
            SessionActionView::AnswerCreate(Err(RoomCreateError::RoomNameTooLong)),
        ),
{
}

/// Whether a name for a new room is refused as taken depends on whether the house holds a
/// room of that name, and on nothing else. Where it is free, the room that is opened is the
/// one that was asked for, and the client hears that it was.
pub proof fn law_the_house_decides_on_new_rooms<B>(
    house: Map<Seq<char>, RoomState<B>>,
    asker: u64,
    room_name: Seq<char>,
    capacity: u8,
    size_x: u8,
    size_y: u8,
)
    requires
        room_name.len() <= 16,
    ensures
        ({
            let request = ClientMessageView::RoomCreate(room_name, capacity, size_x, size_y);
            let looked = answered(house, asker, request, 1);
            &&& house.contains_key(room_name) ==> looked == (
                SessionView::Idle,
                SessionActionView::AnswerCreate(Err(RoomCreateError::RoomNameTaken)),
            )
            &&& !house.contains_key(room_name) ==> looked.1 == SessionActionView::Open {
                room_name,
                capacity,
                size_x,
                size_y,
            }
            &&& !house.contains_key(room_name) ==> answered(house, asker, request, 2) == (
                SessionView::Idle,
                SessionActionView::AnswerCreate(Ok(())),
            )
        }),
{
    reveal_with_fuel(answered, 3);
}

/// Where the house holds the room of a login, the login is refused because the name is taken
/// exactly if a player of that very room has it, else because the room is full exactly if it
/// has as many players as it holds; and else the player enters that room under that name.
/// Where it does not, the login is refused with the name of the room that is missing.
pub proof fn law_the_house_decides_on_logins<B>(
    house: Map<Seq<char>, RoomState<B>>,
    asker: u64,
    username: Seq<char>,
    room_name: Seq<char>,
)
    requires
        username.len() <= 16,
        room_name.len() <= 16,
    ensures
        ({
            let request = ClientMessageView::Login(username, room_name);
            let end = answered(house, asker, request, 3);
            let room = house[room_name];
            let taken = exists|i: int|
                0 <= i < room.players.len() && (#[trigger] room.players[i]).username == username;
            &&& !house.contains_key(room_name) ==> end == (
                SessionView::Idle,
                SessionActionView::RefuseLogin(LoginErrorView::RoomDoesNotExist(room_name)),
            )
            &&& house.contains_key(room_name) && taken ==> end == (
                SessionView::Idle,
                SessionActionView::RefuseLogin(LoginErrorView::UsernameTaken),
            )
            &&& house.contains_key(room_name) && !taken && room.players.len() == room.capacity
                ==> end == (
                SessionView::Idle,
                SessionActionView::RefuseLogin(LoginErrorView::RoomFull),
            )
            &&& house.contains_key(room_name) && !taken && room.players.len() != room.capacity
                ==> end == (SessionView::Over, SessionActionView::Enter { room_name, username })
        }),
{
    reveal_with_fuel(answered, 4);
    let room = house[room_name];
    assert(names(room.players).contains(username) <==> !is_absent(room, username)) by {
        let all = names(room.players);
        if !is_absent(room, username) {
            let i = choose|i: int|
                0 <= i < room.players.len() && (#[trigger] room.players[i]).username == username;
            assert(all[i] == username);
        }
        if all.contains(username) {
            let i = all.index_of(username);
            assert(room.players[i].username == username);
        }
    }
}

/// The answer that a room is taken to have given is the one that it gives, to the asker.
pub proof fn law_answers_are_the_rooms_own<B>(
    room: RoomState<B>,
    question: RoomCommandView,
    asker: u64,
    username: Seq<char>,
)
    requires
        question == RoomCommandView::PlayerQuery(asker, username) || question
            == RoomCommandView::FullQuery(asker) || question == RoomCommandView::PlayerNumQuery(
            asker,
        ),
    ensures
        answer_to(room, question) matches Some(answer) && handled_step::<B, (), ()>(
            room,
            RoomMessageView::RoomCommand(question),
        ) == StepView::<B, (), ()>::Done(seq![ActionView::Reply(asker, answer)]),
{
}

/// Whatever a room answers to whether a username is taken, the login is refused exactly where
/// it says so, and else goes on to ask the same room whether it is full; and whatever it
/// answers to that, the player enters it under that name unless it says so.
pub proof fn law_a_room_refuses_in_so_many_words(
    username: Seq<char>,
    room_name: Seq<char>,
    answer: Option<RoomCommandView>,
)
    ensures
        ({
            let named = advanced(
                SessionView::NameQuery { username, room_name },
                SessionEventView::Answer(answer),
            );
            let filled = advanced(
                SessionView::FullQuery { username, room_name },
                SessionEventView::Answer(answer),
            );
            &&& answer == Some(RoomCommandView::PlayerQueryResponse(true)) ==> named == (
                SessionView::Idle,
                SessionActionView::RefuseLogin(LoginErrorView::UsernameTaken),
            )
            &&& answer != Some(RoomCommandView::PlayerQueryResponse(true)) ==> named == (
                SessionView::FullQuery { username, room_name },
                SessionActionView::AskFull { room_name },
            )
            &&& answer == Some(RoomCommandView::FullQueryResponse(true)) ==> filled == (
                SessionView::Idle,
                SessionActionView::RefuseLogin(LoginErrorView::RoomFull),
            )
            &&& answer != Some(RoomCommandView::FullQueryResponse(true)) ==> filled == (
                SessionView::Over,
                SessionActionView::Enter { room_name, username },
            )
        }),
{
}

/// A connection keeps the names and sizes of its request until the request is answered.
pub proof fn law_lookups_keep_what_was_asked(
    username: Seq<char>,
    room_name: Seq<char>,
    capacity: u8,
    size_x: u8,
    size_y: u8,
)
    ensures
        ({
            let login = SessionView::LoginLookup { username, room_name };
            let create = SessionView::CreateLookup { room_name, capacity, size_x, size_y };
            &&& advanced(login, SessionEventView::Found(true)) == (
                SessionView::NameQuery { username, room_name },
                SessionActionView::AskName { room_name, username },
            )
            &&& advanced(login, SessionEventView::Found(false)) == (
                SessionView::Idle,
                SessionActionView::RefuseLogin(LoginErrorView::RoomDoesNotExist(room_name)),
            )
            &&& advanced(create, SessionEventView::Found(true)) == (
                SessionView::Idle,
                SessionActionView::AnswerCreate(Err(RoomCreateError::RoomNameTaken)),
            )
            &&& advanced(create, SessionEventView::Found(false)) == (
                SessionView::Opening,
                SessionActionView::Open { room_name, capacity, size_x, size_y },
            )
            &&& username.len() <= 16 && room_name.len() <= 16 ==> begun(
                ClientMessageView::Login(username, room_name),
            ).0 == login
            &&& room_name.len() <= 16 ==> begun(
                ClientMessageView::RoomCreate(room_name, capacity, size_x, size_y),
            ).0 == create
        }),
{
}

/// Whether an event is one that a connection waits for.
pub open spec fn is_awaited(session: SessionView, event: SessionEventView) -> bool {
    match session {
        SessionView::Idle => event is Ended || event matches SessionEventView::Frame(
            FrameView::Binary(Some(_)),
        ),
        SessionView::LoginLookup { .. } | SessionView::CreateLookup { .. } => event is Found,
        SessionView::NameQuery { .. } | SessionView::FullQuery { .. } => event is Answer,
        SessionView::Opening => event is Opened,
        SessionView::Over => false,
    }
}

/// An event that a connection does not wait for leaves it as it is, but for a failure to
/// send; and the end of the client is the end of a connection that waits for a frame.
pub proof fn law_stray_events_are_passed_over(session: SessionView, event: SessionEventView)
    requires
        !(event is SendFailed),
    ensures
        !is_awaited(session, event) ==> advanced(session, event) == (
            session,
            SessionActionView::Wait,
        ),
        advanced(SessionView::Idle, SessionEventView::Ended) == (
            SessionView::Over,
            SessionActionView::HangUp,
        ),
{
}

} // verus!
