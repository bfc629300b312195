//! What the models of messages, rooms and connections tell of them: every part, each in its
//! place.

use vstd::prelude::*;

use crate::login::{
    Frame, FrameView, Session, SessionAction, SessionActionView, SessionEvent, SessionEventView,
    SessionView,
};
use crate::messages::{
    reply_view, roster_view, ClientMessage, ClientMessageView, InvalidMove, LoginError,
    LoginErrorView, Move, MoveView, Player, Position, Room, RoomCommand, RoomCommandView,
    RoomCreateError, RoomMessage, RoomMessageView, ServerMessage, ServerMessageView, Stone,
};
use crate::model::{outcome_view, ActionView, StepView};
use crate::relay::{StayAction, StayActionView};
use crate::room::{
    actions_view, messages_view, seats_view, Action, RoomStep, ServerRoom,
};

verus! {

/// The model of a client's request tells which request it is, and each of its parts.
pub proof fn law_requests_are_told_in_full(
    first: String,
    second: String,
    capacity: u8,
    size_x: u8,
    size_y: u8,
    action: Option<Position>,
)
    ensures
        ClientMessage::Login(first, second)@ == ClientMessageView::Login(first@, second@),
        ClientMessage::RoomCreate(first, capacity, size_x, size_y)@
            == ClientMessageView::RoomCreate(first@, capacity, size_x, size_y),
        ClientMessage::Place(action)@ == ClientMessageView::Place(action),
        ClientMessage::Chat(first)@ == ClientMessageView::Chat(first@),
        ClientMessage::Other@ == ClientMessageView::Other,
{
}

/// The model of what the server says to a client tells which message it is, and each of its
/// parts.
pub proof fn law_messages_are_told_in_full<B, D, E>(
    text: String,
    player: Player,
    room: Room<B>,
    error: LoginError,
    opened: Result<(), RoomCreateError>,
    accepted: Move,
    refused: InvalidMove<E>,
    delta: D,
)
    ensures
        ServerMessage::<B, D, E>::LoginResponse(Ok(room))@ == ServerMessageView::<
            B,
            D,
            E,
        >::LoginResponse(Ok(room@)),
        ServerMessage::<B, D, E>::LoginResponse(Err(error))@ == ServerMessageView::<
            B,
            D,
            E,
        >::LoginResponse(Err(error@)),
        ServerMessage::<B, D, E>::RoomCreateResponse(opened)@ == ServerMessageView::<
            B,
            D,
            E,
        >::RoomCreateResponse(opened),
        ServerMessage::<B, D, E>::AlreadyLoggedIn@ == ServerMessageView::<
            B,
            D,
            E,
        >::AlreadyLoggedIn,
        ServerMessage::<B, D, E>::PlayerAdd(player)@ == ServerMessageView::<B, D, E>::PlayerAdd(
            player@,
        ),
        ServerMessage::<B, D, E>::PlayerRemove(text)@ == ServerMessageView::<
            B,
            D,
            E,
        >::PlayerRemove(text@),
        ServerMessage::<B, D, E>::NextTurn(text)@ == ServerMessageView::<B, D, E>::NextTurn(text@),
        ServerMessage::<B, D, E>::Chat(text)@ == ServerMessageView::<B, D, E>::Chat(text@),
        ServerMessage::<B, D, E>::PlaceResponse(Ok(accepted))@ == ServerMessageView::<
            B,
            D,
            E,
        >::PlaceResponse(Ok(accepted@)),
        ServerMessage::<B, D, E>::PlaceResponse(Err(refused))@ == ServerMessageView::<
            B,
            D,
            E,
        >::PlaceResponse(Err(refused)),
        ServerMessage::<B, D, E>::BoardDelta(delta)@ == ServerMessageView::<B, D, E>::BoardDelta(
            delta,
        ),
{
}

/// The models of what messages hold tell each of its parts: of a refused login, of a move, of
/// a player, and of a room with all of its players in order.
pub proof fn law_contents_are_told_in_full<B>(
    name: String,
    position: Option<Position>,
    player: Player,
    room: Room<B>,
)
    ensures
        LoginError::UsernameTooLong@ == LoginErrorView::UsernameTooLong,
        LoginError::RoomNameTooLong@ == LoginErrorView::RoomNameTooLong,
        LoginError::UsernameTaken@ == LoginErrorView::UsernameTaken,
        LoginError::RoomFull@ == LoginErrorView::RoomFull,
        LoginError::RoomDoesNotExist(name)@ == LoginErrorView::RoomDoesNotExist(name@),
        Move(position, Some(name))@ == MoveView(position, Some(name@)),
        Move(position, None)@ == MoveView(position, None),
        player@.username == player.username@,
        player@.score == player.score,
        player@.stone == player.stone,
        room@.current_player == room.current_player@,
        room@.self_player == room.self_player@,
        room@.board == room.board,
        room@.players == roster_view(room.players@),
        room@.players.len() == room.players@.len(),
        forall|i: int|
            0 <= i < room.players@.len() ==> #[trigger] room@.players[i] == (
                room.players@[i].0@,
                room.players@[i].1@,
            ),
{
}

/// The model of what a room receives tells which message it is, and each of its parts.
pub proof fn law_commands_are_told_in_full(
    channel: u64,
    name: String,
    says: bool,
    number: u8,
    request: ClientMessage,
    command: RoomCommand,
)
    ensures
        RoomCommand::PlayerQuery(channel, name)@ == RoomCommandView::PlayerQuery(channel, name@),
        RoomCommand::PlayerQueryResponse(says)@ == RoomCommandView::PlayerQueryResponse(says),
        RoomCommand::PlayerNumQuery(channel)@ == RoomCommandView::PlayerNumQuery(channel),
        RoomCommand::PlayerNumQueryResponse(number)@ == RoomCommandView::PlayerNumQueryResponse(
            number,
        ),
        RoomCommand::FullQuery(channel)@ == RoomCommandView::FullQuery(channel),
        RoomCommand::FullQueryResponse(says)@ == RoomCommandView::FullQueryResponse(says),
        RoomCommand::PlayerAdd(name, channel)@ == RoomCommandView::PlayerAdd(name@, channel),
        RoomCommand::PlayerRemove(name)@ == RoomCommandView::PlayerRemove(name@),
        RoomMessage::ClientMessage(name, request)@ == RoomMessageView::ClientMessage(
            name@,
            request@,
        ),
        RoomMessage::RoomCommand(command)@ == RoomMessageView::RoomCommand(command@),
        reply_view(Some(command)) == Some(command@),
        reply_view(None) is None,
{
}

/// The model of a room tells its capacity, its board, its turn, and every seat in order with
/// each of its parts.
pub proof fn law_rooms_are_told_in_full<B>(room: ServerRoom<B>)
    ensures
        room@.capacity == room.capacity,
        room@.board == room.board,
        room@.current_player == room.current_player@,
        room@.players == seats_view(room.players@),
        room@.players.len() == room.players@.len(),
        forall|i: int|
            0 <= i < room.players@.len() ==> {
                &&& (#[trigger] room@.players[i]).username == room.players@[i].username@
                &&& room@.players[i].channel == room.players@[i].channel
                &&& room@.players[i].player == room.players@[i].player@
                &&& room@.players[i].passed == room.players@[i].passed
            },
{
}

/// The model of what a room asks to be done tells which it is, and each of its parts, lists
/// with every entry in order.
pub proof fn law_steps_are_told_in_full<B, D, E>(
    name: String,
    channel: u64,
    command: RoomCommand,
    to: Vec<u64>,
    messages: Vec<ServerMessage<B, D, E>>,
    actions: Vec<Action<B, D, E>>,
    last: Option<Stone>,
    position: Position,
    stone: Stone,
)
    ensures
        Action::<B, D, E>::Reply(channel, command)@ == ActionView::<B, D, E>::Reply(
            channel,
            command@,
        ),
        Action::<B, D, E>::Deliver(to, messages)@ == ActionView::<B, D, E>::Deliver(
            to@,
            messages_view(messages@),
        ),
        Action::<B, D, E>::Close(channel)@ == ActionView::<B, D, E>::Close(channel),
        messages_view(messages@).len() == messages@.len(),
        forall|i: int|
            0 <= i < messages@.len() ==> #[trigger] messages_view(messages@)[i] == messages@[i]@,
        RoomStep::<B, D, E>::Done(actions)@ == StepView::<B, D, E>::Done(actions_view(actions@)),
        actions_view(actions@).len() == actions@.len(),
        forall|i: int|
            0 <= i < actions@.len() ==> #[trigger] actions_view(actions@)[i] == actions@[i]@,
        (RoomStep::<B, D, E>::Join { username: name, channel, last })@ == (StepView::<
            B,
            D,
            E,
        >::Join { username: name@, channel, last }),
        (RoomStep::<B, D, E>::Play { username: name, channel, position, stone })@ == (StepView::<
            B,
            D,
            E,
        >::Play { username: name@, channel, position, stone }),
{
}

/// The model of the board's answer tells whether it is an error, whether there is news, and
/// the news in order.
pub proof fn law_outcomes_are_told_in_full<D, E>(deltas: Vec<D>, error: E)
    ensures
        outcome_view::<D, E>(Err(error)) == Err::<Option<Seq<D>>, E>(error),
        outcome_view::<D, E>(Ok(None)) == Ok::<Option<Seq<D>>, E>(None),
        outcome_view::<D, E>(Ok(Some(deltas))) == Ok::<Option<Seq<D>>, E>(Some(deltas@)),
{
}

/// The models of what happens to a connection, and of what it waits for, tell which it is, and
/// each of its parts.
pub proof fn law_connections_are_told_in_full(
    username: String,
    room_name: String,
    capacity: u8,
    size_x: u8,
    size_y: u8,
    request: ClientMessage,
    frame: Frame,
    exists_room: bool,
    answer: Option<RoomCommand>,
)
    ensures
        Frame::Failed@ == FrameView::Failed,
        Frame::Binary(Some(request))@ == FrameView::Binary(Some(request@)),
        Frame::Binary(None)@ == FrameView::Binary(None),
        Frame::Other@ == FrameView::Other,
        SessionEvent::Frame(frame)@ == SessionEventView::Frame(frame@),
        SessionEvent::Ended@ == SessionEventView::Ended,
        SessionEvent::Found(exists_room)@ == SessionEventView::Found(exists_room),
        SessionEvent::Answer(answer)@ == SessionEventView::Answer(reply_view(answer)),
        SessionEvent::Opened@ == SessionEventView::Opened,
        SessionEvent::SendFailed@ == SessionEventView::SendFailed,
        Session::Idle@ == SessionView::Idle,
        (Session::LoginLookup { username, room_name })@ == (SessionView::LoginLookup {
            username: username@,
            room_name: room_name@,
        }),
        (Session::NameQuery { username, room_name })@ == (SessionView::NameQuery {
            username: username@,
            room_name: room_name@,
        }),
        (Session::FullQuery { username, room_name })@ == (SessionView::FullQuery {
            username: username@,
            room_name: room_name@,
        }),
        (Session::CreateLookup { room_name, capacity, size_x, size_y })@ == (
        SessionView::CreateLookup { room_name: room_name@, capacity, size_x, size_y }),
        Session::Opening@ == SessionView::Opening,
        Session::Over@ == SessionView::Over,
{
}

/// The models of what a connection asks to be done tell which it is, and each of its parts.
pub proof fn law_wishes_are_told_in_full(
    username: String,
    room_name: String,
    capacity: u8,
    size_x: u8,
    size_y: u8,
    error: LoginError,
    opened: Result<(), RoomCreateError>,
    message: RoomMessage,
)
    ensures
        SessionAction::Wait@ == SessionActionView::Wait,
        SessionAction::FindRoom(room_name)@ == SessionActionView::FindRoom(room_name@),
        (SessionAction::AskName { room_name, username })@ == (SessionActionView::AskName {
            room_name: room_name@,
            username: username@,
        }),
        (SessionAction::AskFull { room_name })@ == (SessionActionView::AskFull {
            room_name: room_name@,
        }),
        SessionAction::RefuseLogin(error)@ == SessionActionView::RefuseLogin(error@),
        (SessionAction::Enter { room_name, username })@ == (SessionActionView::Enter {
            room_name: room_name@,
            username: username@,
        }),
        (SessionAction::Open { room_name, capacity, size_x, size_y })@ == (SessionActionView::Open {
            room_name: room_name@,
            capacity,
            size_x,
            size_y,
        }),
        SessionAction::AnswerCreate(opened)@ == SessionActionView::AnswerCreate(opened),
        SessionAction::HangUp@ == SessionActionView::HangUp,
        SessionAction::Fail@ == SessionActionView::Fail,
        StayAction::Send(message)@ == StayActionView::Send(message@),
        StayAction::Relay@ == StayActionView::Relay,
        StayAction::Await@ == StayActionView::Await,
        StayAction::Fail@ == StayActionView::Fail,
        StayAction::Wait@ == StayActionView::Wait,
{
}

} // verus!
