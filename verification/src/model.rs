//! The mathematical model of a room: its state, and what each message does to it.

use vstd::prelude::*;

use crate::messages::{
    ClientMessageView, InvalidMove, MoveView, PlayerView, Position, RoomCommandView,
    RoomMessageView, RoomView, ServerMessageView, Stone,
};

verus! {

/// A player at the table: the name that the room knows the player by, the channel that
/// leads to the player, what the other clients are told, and whether the player has passed.
#[verifier::ext_equal]
pub struct SeatView {
    pub username: Seq<char>,
    pub channel: u64,
    pub player: PlayerView,
    pub passed: bool,
}

/// The state of a room. Players sit in the order in which they came.
#[verifier::ext_equal]
pub struct RoomState<B> {
    pub capacity: u8,
    pub board: B,
    pub current_player: Seq<char>,
    pub players: Seq<SeatView>,
}

/// Something that a room asks to be done.
#[verifier::ext_equal]
pub enum ActionView<B, D, E> {
    /// Answer a question on the channel that it came with.
    Reply(u64, RoomCommandView),
    /// On each of the channels in turn, send each of the messages in turn.
    Deliver(Seq<u64>, Seq<ServerMessageView<B, D, E>>),
    /// Close a channel.
    Close(u64),
}

/// What is left to do after a room has taken a message.
#[verifier::ext_equal]
pub enum StepView<B, D, E> {
    /// Perform the actions, in order; the message is dealt with.
    Done(Seq<ActionView<B, D, E>>),
    /// Find the opposite of the last player's colour, and seat the newcomer.
    Join { username: Seq<char>, channel: u64, last: Option<Stone> },
    /// Play the stone on the board, and settle the move with the outcome.
    Play { username: Seq<char>, channel: u64, position: Position, stone: Stone },
}

/// The usernames, in seating order.
pub open spec fn names(players: Seq<SeatView>) -> Seq<Seq<char>> {
    players.map_values(|seat: SeatView| seat.username)
}

/// The players' channels, in seating order.
pub open spec fn channels(players: Seq<SeatView>) -> Seq<u64> {
    players.map_values(|seat: SeatView| seat.channel)
}

/// The players as a newcomer is shown them, in seating order.
pub open spec fn roster(players: Seq<SeatView>) -> Seq<(Seq<char>, PlayerView)> {
    players.map_values(|seat: SeatView| (seat.username, seat.player))
}

/// The seat of a player: of those with this name, the one taken last.
pub open spec fn seat_of(players: Seq<SeatView>, username: Seq<char>) -> Option<int> {
    names(players).index_of_last(username)
}

/// Who is on turn after `username`: the player in the next seat, and the first player after
/// the last one or where nobody has this name.
pub open spec fn successor(players: Seq<SeatView>, username: Seq<char>) -> Seq<char>
    recommends
        players.len() > 0,
{
    match names(players).index_of_first(username) {
        Some(seat) if seat + 1 < players.len() => players[seat + 1].username,
        _ => players[0].username,
    }
}

/// Whether every player has passed.
pub open spec fn all_passed(players: Seq<SeatView>) -> bool {
    forall|i: int| 0 <= i < players.len() ==> (#[trigger] players[i]).passed
}

/// An empty room.
pub open spec fn opened<B>(capacity: u8, board: B) -> RoomState<B> {
    RoomState { capacity, board, current_player: Seq::empty(), players: Seq::empty() }
}

/// The colour of the last player's stones, if there is a player.
pub open spec fn last_stone(players: Seq<SeatView>) -> Option<Stone> {
    if players.len() > 0 {
        Some(players.last().player.stone)
    } else {
        None
    }
}

/// A player who has just come, and who plays black unless another colour is given.
pub open spec fn newcomer(username: Seq<char>, opposite: Option<Stone>) -> PlayerView {
    PlayerView {
        username,
        score: 0,
        stone: match opposite {
            Some(stone) => stone,
            None => Stone::Black,
        },
    }
}

/// A room after a player has come: the newcomer sits last, and is on turn in a room that
/// was empty.
pub open spec fn joined<B>(
    room: RoomState<B>,
    username: Seq<char>,
    channel: u64,
    opposite: Option<Stone>,
) -> RoomState<B> {
    RoomState {
        current_player: if room.players.len() == 0 {
            username
        } else {
            room.current_player
        },
        players: room.players.push(
            SeatView { username, channel, player: newcomer(username, opposite), passed: false },
        ),
        ..room
    }
}

/// What the room says of a player who has come.
pub open spec fn greeting(username: Seq<char>) -> Seq<char> {
    "`"@ + username + "` has joined the room"@
}

/// What the room says of a player who has gone.
pub open spec fn farewell(username: Seq<char>) -> Seq<char> {
    "`"@ + username + "` has left the room"@
}

/// What is done when a player comes: those who were there hear of it, and then the newcomer
/// is shown the room, with this copy of the board.
pub open spec fn join_actions<B, D, E>(
    room: RoomState<B>,
    username: Seq<char>,
    channel: u64,
    opposite: Option<Stone>,
    board: B,
) -> Seq<ActionView<B, D, E>> {
    let after = joined(room, username, channel, opposite);
    seq![
        ActionView::Deliver(
            channels(room.players),
            seq![
                ServerMessageView::PlayerAdd(newcomer(username, opposite)),
                ServerMessageView::Chat(greeting(username)),
            ],
        ),
        ActionView::Deliver(
            seq![channel],
            seq![
                ServerMessageView::LoginResponse(
                    Ok(
                        RoomView {
                            players: roster(after.players),
                            current_player: after.current_player,
                            self_player: username,
                            board,
                        },
                    ),
                ),
            ],
        ),
    ]
}

/// A room after a player has gone: the turn passes on if it was this player's.
pub open spec fn left<B>(room: RoomState<B>, username: Seq<char>) -> RoomState<B> {
    match seat_of(room.players, username) {
        Some(seat) => RoomState {
            current_player: if username == room.current_player {
                successor(room.players, username)
            } else {
                room.current_player
            },
            players: room.players.remove(seat),
            ..room
        },
        None => room,
    }
}

/// What is done when a player goes: the player's channel is closed, and those who stay hear
/// of it and of whose turn it is.
pub open spec fn leave_actions<B, D, E>(room: RoomState<B>, username: Seq<char>) -> Seq<
    ActionView<B, D, E>,
> {
    let after = left(room, username);
    match seat_of(room.players, username) {
        Some(seat) => seq![
            ActionView::Close(room.players[seat].channel),
            ActionView::Deliver(
                channels(after.players),
                seq![
                    ServerMessageView::PlayerRemove(username),
                    ServerMessageView::NextTurn(after.current_player),
                    ServerMessageView::Chat(farewell(username)),
                ],
            ),
        ],
        None => seq![],
    }
}

/// A room after the player on turn has passed.
pub open spec fn passed<B>(room: RoomState<B>, username: Seq<char>) -> RoomState<B> {
    if room.players.len() == 0 {
        room
    } else {
        RoomState {
            current_player: successor(room.players, username),
            players: match seat_of(room.players, username) {
                Some(seat) => room.players.update(
                    seat,
                    SeatView { passed: true, ..room.players[seat] },
                ),
                None => room.players,
            },
            ..room
        }
    }
}

/// What is done when the player on turn passes: everybody hears of it, and once all have
/// passed every channel is closed.
pub open spec fn pass_actions<B, D, E>(room: RoomState<B>, username: Seq<char>) -> Seq<
    ActionView<B, D, E>,
> {
    let after = passed(room, username);
    match seat_of(room.players, username) {
        Some(_) => seq![
            ActionView::Deliver(
                channels(after.players),
                seq![ServerMessageView::PlaceResponse(Ok(MoveView(None, Some(username))))],
            ),
        ] + if all_passed(after.players) {
            channels(after.players).map_values(|channel: u64| ActionView::Close(channel))
        } else {
            seq![]
        },
        None => seq![],
    }
}

/// The board's answer to a move: an error, or the news of the move, if there is any.
pub open spec fn outcome_view<D, E>(outcome: Result<Option<Vec<D>>, E>) -> Result<
    Option<Seq<D>>,
    E,
> {
    match outcome {
        Ok(Some(deltas)) => Ok(Some(deltas@)),
        Ok(None) => Ok(None),
        Err(error) => Err(error),
    }
}

/// A room after the board has answered to a move of the player on turn: the turn passes on
/// if there is news.
pub open spec fn settled<B, D, E>(
    room: RoomState<B>,
    username: Seq<char>,
    outcome: Result<Option<Seq<D>>, E>,
) -> RoomState<B> {
    match outcome {
        Ok(Some(_)) if room.players.len() > 0 => RoomState {
            current_player: successor(room.players, username),
            ..room
        },
        _ => room,
    }
}

/// What is done when the board has answered to a move: the mover hears of an error, and
/// everybody of the news and of whose turn it is.
pub open spec fn settle_actions<B, D, E>(
    room: RoomState<B>,
    username: Seq<char>,
    channel: u64,
    outcome: Result<Option<Seq<D>>, E>,
) -> Seq<ActionView<B, D, E>> {
    match outcome {
        Err(error) => seq![
            ActionView::Deliver(
                seq![channel],
                seq![ServerMessageView::PlaceResponse(Err(InvalidMove::Board(error)))],
            ),
        ],
        Ok(Some(deltas)) if room.players.len() > 0 => seq![
            ActionView::Deliver(
                channels(room.players),
                deltas.map_values(|delta: D| ServerMessageView::BoardDelta(delta)).push(
                    ServerMessageView::NextTurn(settled(room, username, outcome).current_player),
                ),
            ),
        ],
        _ => seq![],
    }
}

/// One message to one player, if the player is there.
pub open spec fn tell<B, D, E>(
    players: Seq<SeatView>,
    username: Seq<char>,
    message: ServerMessageView<B, D, E>,
) -> Seq<ActionView<B, D, E>> {
    match seat_of(players, username) {
        Some(seat) => seq![ActionView::Deliver(seq![players[seat].channel], seq![message])],
        None => seq![],
    }
}

/// A room after a message. Only a player's going and the pass of the player on turn change
/// it at once: see [`joined`] and [`settled`] for the other changes.
pub open spec fn handled<B>(room: RoomState<B>, message: RoomMessageView) -> RoomState<B> {
    match message {
        RoomMessageView::RoomCommand(RoomCommandView::PlayerRemove(username)) => left(
            room,
            username,
        ),
        RoomMessageView::ClientMessage(
            username,
            ClientMessageView::Place(None),
        ) if username == room.current_player => passed(room, username),
        _ => room,
    }
}

/// What is left to do after a command.
pub open spec fn command_step<B, D, E>(room: RoomState<B>, command: RoomCommandView) -> StepView<
    B,
    D,
    E,
> {
    match command {
        RoomCommandView::FullQuery(asker) => StepView::Done(
            seq![
                ActionView::Reply(
                    asker,
                    RoomCommandView::FullQueryResponse(room.players.len() == room.capacity),
                ),
            ],
        ),
        RoomCommandView::PlayerNumQuery(asker) => StepView::Done(
            seq![
                ActionView::Reply(
                    asker,
                    RoomCommandView::PlayerNumQueryResponse((room.players.len() % 256) as u8),
                ),
            ],
        ),
        RoomCommandView::PlayerQuery(asker, username) => StepView::Done(
            seq![
                ActionView::Reply(
                    asker,
                    RoomCommandView::PlayerQueryResponse(names(room.players).contains(username)),
                ),
            ],
        ),
        RoomCommandView::PlayerAdd(username, channel) => StepView::Join {
            username,
            channel,
            last: last_stone(room.players),
        },
        RoomCommandView::PlayerRemove(username) => StepView::Done(leave_actions(room, username)),
        _ => StepView::Done(seq![]),
    }
}

/// What is left to do after a client's request.
pub open spec fn request_step<B, D, E>(
    room: RoomState<B>,
    username: Seq<char>,
    request: ClientMessageView,
) -> StepView<B, D, E> {
    match request {
        ClientMessageView::Place(action) => if username != room.current_player {
            StepView::Done(
                tell(
                    room.players,
                    username,
                    ServerMessageView::PlaceResponse(Err(InvalidMove::InvalidTurn)),
                ),
            )
        } else {
            match (action, seat_of(room.players, username)) {
                (None, _) => StepView::Done(pass_actions(room, username)),
                (Some(position), Some(seat)) => StepView::Play {
                    username,
                    channel: room.players[seat].channel,
                    position,
                    stone: room.players[seat].player.stone,
                },
                (Some(_), None) => StepView::Done(seq![]),
            }
        },
        ClientMessageView::Chat(message) => StepView::Done(
            seq![
                ActionView::Deliver(channels(room.players), seq![ServerMessageView::Chat(message)]),
            ],
        ),
        _ => StepView::Done(tell(room.players, username, ServerMessageView::AlreadyLoggedIn)),
    }
}

/// What is left to do after a message.
pub open spec fn handled_step<B, D, E>(room: RoomState<B>, message: RoomMessageView) -> StepView<
    B,
    D,
    E,
> {
    match message {
        RoomMessageView::ClientMessage(username, request) => request_step(room, username, request),
        RoomMessageView::RoomCommand(command) => command_step(room, command),
    }
}

} // verus!
