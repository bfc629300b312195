//! What a room does with each message, told seat by seat.

use vstd::prelude::*;

use crate::messages::{
    ClientMessageView, InvalidMove, MoveView, Position, RoomCommandView, RoomMessageView,
    ServerMessageView, Stone,
};
use crate::model::{
    all_passed, channels, handled, handled_step, join_actions, joined, last_stone, names, opened,
    roster, seat_of, settle_actions, settled, successor, ActionView, RoomState, SeatView, StepView,
};

verus! {

/// Whether this is the seat that counts as the player's: of those with the name, the last.
pub open spec fn sits_at<B>(room: RoomState<B>, username: Seq<char>, seat: int) -> bool {
    &&& 0 <= seat < room.players.len()
    &&& room.players[seat].username == username
    &&& forall|i: int|
        seat < i < room.players.len() ==> (#[trigger] room.players[i]).username != username
}

/// Whether this is the first seat of a player of this name.
pub open spec fn first_sits_at<B>(room: RoomState<B>, username: Seq<char>, seat: int) -> bool {
    &&& 0 <= seat < room.players.len()
    &&& room.players[seat].username == username
    &&& forall|i: int| 0 <= i < seat ==> (#[trigger] room.players[i]).username != username
}

/// Whether nobody in the room has this name.
pub open spec fn is_absent<B>(room: RoomState<B>, username: Seq<char>) -> bool {
    forall|i: int|
        0 <= i < room.players.len() ==> (#[trigger] room.players[i]).username != username
}

/// The seat after this one, going round the table.
pub open spec fn seat_after<B>(room: RoomState<B>, seat: int) -> int {
    if seat + 1 < room.players.len() {
        seat + 1
    } else {
        0
    }
}

/// Whether these are the channels of everybody in the room, in seating order.
pub open spec fn reaches_everybody<B>(room: RoomState<B>, to: Seq<u64>) -> bool {
    &&& to.len() == room.players.len()
    &&& forall|i: int|
        0 <= i < room.players.len() ==> to[i] == (#[trigger] room.players[i]).channel
}

proof fn lemma_seat<B>(room: RoomState<B>, username: Seq<char>)
    ensures
        forall|seat: int|
            #[trigger] sits_at(room, username, seat) ==> seat_of(room.players, username) == Some(
                seat,
            ),
        is_absent(room, username) ==> seat_of(room.players, username) is None,
        forall|seat: int|
            #[trigger] first_sits_at(room, username, seat) ==> successor(room.players, username)
                == room.players[seat_after(room, seat)].username,
        is_absent(room, username) ==> successor(room.players, username)
            == room.players[0].username,
        reaches_everybody(room, channels(room.players)),
        is_absent(room, username) <==> !names(room.players).contains(username),
{
    let all = names(room.players);
    all.index_of_last_ensures(username);
    all.index_of_first_ensures(username);
    assert forall|i: int| 0 <= i < room.players.len() implies all[i] == (
    #[trigger] room.players[i]).username by {}
    assert forall|seat: int| #[trigger] sits_at(room, username, seat) implies seat_of(
        room.players,
        username,
    ) == Some(seat) by {
        assert(all[seat] == username);
        let found = all.index_of_last(username).unwrap();
        assert(room.players[found].username == username);
    }
    assert forall|seat: int| #[trigger] first_sits_at(room, username, seat) implies successor(
        room.players,
        username,
    ) == room.players[seat_after(room, seat)].username by {
        assert(all[seat] == username);
        let found = all.index_of_first(username).unwrap();
        assert(room.players[found].username == username);
    }
    if is_absent(room, username) {
        assert forall|i: int| 0 <= i < all.len() implies all[i] != username by {
            assert(room.players[i].username != username);
        }
    } else {
        let i = choose|i: int|
            0 <= i < room.players.len() && (#[trigger] room.players[i]).username == username;
        assert(all[i] == username);
    }
}

/// The lists of a room hold one entry for each seat, in order, and say of it what the seat
/// says.
pub proof fn law_lists_follow_the_seats<B>(room: RoomState<B>)
    ensures
        names(room.players).len() == room.players.len(),
        channels(room.players).len() == room.players.len(),
        roster(room.players).len() == room.players.len(),
        forall|i: int|
            0 <= i < room.players.len() ==> {
                &&& names(room.players)[i] == (#[trigger] room.players[i]).username
                &&& channels(room.players)[i] == room.players[i].channel
                &&& roster(room.players)[i] == (room.players[i].username, room.players[i].player)
            },
{
}

/// Looking for a player finds the last seat of the name, and nothing exactly where nobody
/// has the name.
pub proof fn law_players_are_found<B>(room: RoomState<B>, username: Seq<char>)
    ensures
        match seat_of(room.players, username) {
            Some(seat) => sits_at(room, username, seat),
            None => is_absent(room, username),
        },
{
    let all = names(room.players);
    all.index_of_last_ensures(username);
    assert forall|i: int| 0 <= i < room.players.len() implies all[i] == (
    #[trigger] room.players[i]).username by {}
}

/// The turn goes from the first seat of a name to the next, from the last to the first, and
/// from a stranger to the first.
pub proof fn law_turns_are_passed_on<B>(room: RoomState<B>, username: Seq<char>, seat: int)
    requires
        room.players.len() > 0,
    ensures
        first_sits_at(room, username, seat) ==> successor(room.players, username)
            == room.players[seat_after(room, seat)].username,
        is_absent(room, username) ==> successor(room.players, username)
            == room.players[0].username,
{
    lemma_seat(room, username);
}

/// Everybody has passed exactly where there is no seat that has not.
pub proof fn law_all_have_passed_or_one_has_not<B>(room: RoomState<B>)
    ensures
        all_passed(room.players) <==> !exists|seat: int|
            0 <= seat < room.players.len() && !(#[trigger] room.players[seat]).passed,
{
}

/// A room opens without players, with the capacity and the board that it was given.
pub proof fn law_rooms_open_empty<B>(capacity: u8, board: B)
    ensures
        opened(capacity, board).players.len() == 0,
        opened(capacity, board).current_player.len() == 0,
        opened(capacity, board).capacity == capacity,
        opened(capacity, board).board == board,
{
}

/// A stone of the player on turn is played where the player wants it, in the player's
/// colour, whatever else is true of the player; and the room waits for the board.
pub proof fn law_stones_on_turn_are_played<B, D, E>(
    room: RoomState<B>,
    seat: int,
    position: Position,
)
    requires
        sits_at(room, room.current_player, seat),
    ensures
        ({
            let message = RoomMessageView::ClientMessage(
                room.current_player,
                ClientMessageView::Place(Some(position)),
            );
            &&& handled(room, message) == room
            &&& handled_step::<B, D, E>(room, message) == StepView::<B, D, E>::Play {
                username: room.current_player,
                channel: room.players[seat].channel,
                position,
                stone: room.players[seat].player.stone,
            }
        }),
{
    lemma_seat(room, room.current_player);
}

/// Where the turn is left to somebody who has gone, a stone of that name is not played, and
/// neither is anything else done.
pub proof fn law_no_stone_without_a_player<B, D, E>(room: RoomState<B>, position: Position)
    requires
        is_absent(room, room.current_player),
    ensures
        ({
            let message = RoomMessageView::ClientMessage(
                room.current_player,
                ClientMessageView::Place(Some(position)),
            );
            &&& handled(room, message) == room
            &&& handled_step::<B, D, E>(room, message) == StepView::<B, D, E>::Done(Seq::empty())
        }),
{
    lemma_seat(room, room.current_player);
}

/// A stone or a pass out of turn changes nothing; the player is told so, alone, and nobody is
/// told where there is no such player.
pub proof fn law_moves_out_of_turn_are_refused<B, D, E>(
    room: RoomState<B>,
    username: Seq<char>,
    action: Option<Position>,
    seat: int,
)
    requires
        username != room.current_player,
    ensures
        ({
            let message = RoomMessageView::ClientMessage(
                username,
                ClientMessageView::Place(action),
            );
            let step = handled_step::<B, D, E>(room, message);
            &&& handled(room, message) == room
            &&& sits_at(room, username, seat) ==> step == StepView::<B, D, E>::Done(
                seq![
                    ActionView::Deliver(
                        seq![room.players[seat].channel],
                        seq![ServerMessageView::PlaceResponse(Err(InvalidMove::InvalidTurn))],
                    ),
                ],
            )
            &&& is_absent(room, username) ==> step == StepView::<B, D, E>::Done(Seq::empty())
        }),
{
    lemma_seat(room, username);
}

/// The pass of the player on turn marks that seat and no other, and gives the turn to the
/// next. Everybody hears of it; and if everybody else had passed before, every channel is
/// closed, and otherwise none is.
pub proof fn law_passes_on_turn_are_taken<B, D, E>(room: RoomState<B>, seat: int, first: int)
    requires
        sits_at(room, room.current_player, seat),
        first_sits_at(room, room.current_player, first),
    ensures
        ({
            let username = room.current_player;
            let message = RoomMessageView::ClientMessage(username, ClientMessageView::Place(None));
            let now = handled(room, message);
            let others_passed = forall|i: int|
                0 <= i < room.players.len() && i != seat ==> (#[trigger] room.players[i]).passed;
            &&& now.capacity == room.capacity
            &&& now.board == room.board
            &&& now.current_player == room.players[seat_after(room, first)].username
            &&& now.players.len() == room.players.len()
            &&& now.players[seat].passed
            &&& now.players[seat].username == room.players[seat].username
            &&& now.players[seat].channel == room.players[seat].channel
            &&& now.players[seat].player == room.players[seat].player
            &&& forall|i: int|
                0 <= i < room.players.len() && i != seat ==> now.players[i]
                    == #[trigger] room.players[i]
            &&& handled_step::<B, D, E>(room, message) matches StepView::Done(actions)
            &&& actions.len() == (if others_passed {
                1 + room.players.len()
            } else {
                1
            })
            &&& forall|i: int|
                1 <= i < actions.len() ==> #[trigger] actions[i] == ActionView::<B, D, E>::Close(
                    room.players[i - 1].channel,
                )
            &&& actions[0] matches ActionView::Deliver(to, messages)
            &&& reaches_everybody(room, to)
            &&& messages == seq![
                ServerMessageView::<B, D, E>::PlaceResponse(Ok(MoveView(None, Some(username)))),
            ]
        }),
{
    let username = room.current_player;
    let message = RoomMessageView::ClientMessage(username, ClientMessageView::Place(None));
    let now = handled(room, message);
    lemma_seat(room, username);
    assert(channels(now.players) =~= channels(room.players));
    let others_passed = forall|i: int|
        0 <= i < room.players.len() && i != seat ==> (#[trigger] room.players[i]).passed;
    assert(all_passed(now.players) == others_passed) by {
        if others_passed {
            assert forall|i: int| 0 <= i < now.players.len() implies (
            #[trigger] now.players[i]).passed by {
                assert(i != seat ==> room.players[i].passed);
            }
        } else {
            let i = choose|i: int|
                0 <= i < room.players.len() && i != seat && !(#[trigger] room.players[i]).passed;
            assert(!now.players[i].passed);
        }
    }
}

/// Where the turn is left to somebody who has gone, a pass of that name gives it to the first
/// seat; nothing else changes, and nobody hears of it.
pub proof fn law_an_absent_turn_is_passed_on<B, D, E>(room: RoomState<B>)
    requires
        room.players.len() > 0,
        is_absent(room, room.current_player),
    ensures
        ({
            let message = RoomMessageView::ClientMessage(
                room.current_player,
                ClientMessageView::Place(None),
            );
            let now = handled(room, message);
            &&& now.capacity == room.capacity
            &&& now.board == room.board
            &&& now.players == room.players
            &&& now.current_player == room.players[0].username
            &&& handled_step::<B, D, E>(room, message) == StepView::<B, D, E>::Done(Seq::empty())
        }),
{
    lemma_seat(room, room.current_player);
}

/// In an empty room a pass does nothing.
pub proof fn law_no_pass_in_an_empty_room<B, D, E>(room: RoomState<B>, username: Seq<char>)
    requires
        room.players.len() == 0,
    ensures
        ({
            let message = RoomMessageView::ClientMessage(username, ClientMessageView::Place(None));
            &&& handled(room, message) == room
            &&& handled_step::<B, D, E>(room, message) == StepView::<B, D, E>::Done(Seq::empty())
        }),
{
    lemma_seat(room, username);
}

/// What a player says goes to everybody as it was said, whoever says it, and changes nothing.
pub proof fn law_chat_goes_to_everybody<B, D, E>(
    room: RoomState<B>,
    username: Seq<char>,
    text: Seq<char>,
)
    ensures
        ({
            let message = RoomMessageView::ClientMessage(username, ClientMessageView::Chat(text));
            &&& handled(room, message) == room
            &&& handled_step::<B, D, E>(room, message) matches StepView::Done(actions)
            &&& actions.len() == 1
            &&& actions[0] matches ActionView::Deliver(to, messages)
            &&& reaches_everybody(room, to)
            &&& messages == seq![ServerMessageView::<B, D, E>::Chat(text)]
        }),
{
    lemma_seat(room, username);
}

/// Any other request of somebody who is here is answered, to that player alone, with the news
/// that the player is here already, and changes nothing.
pub proof fn law_players_cannot_log_in_again<B, D, E>(
    room: RoomState<B>,
    username: Seq<char>,
    request: ClientMessageView,
    seat: int,
)
    requires
        !(request is Place),
        !(request is Chat),
    ensures
        ({
            let message = RoomMessageView::ClientMessage(username, request);
            let step = handled_step::<B, D, E>(room, message);
            &&& handled(room, message) == room
            &&& sits_at(room, username, seat) ==> step == StepView::<B, D, E>::Done(
                seq![
                    ActionView::Deliver(
                        seq![room.players[seat].channel],
                        seq![ServerMessageView::AlreadyLoggedIn],
                    ),
                ],
            )
            &&& is_absent(room, username) ==> step == StepView::<B, D, E>::Done(Seq::empty())
        }),
{
    lemma_seat(room, username);
}

/// A room answers, to whoever asks, whether there are exactly as many players as it holds,
/// how many there are modulo 256, and whether one of them has a name; and asking changes
/// nothing.
pub proof fn law_questions_are_answered_truly<B, D, E>(
    room: RoomState<B>,
    asker: u64,
    username: Seq<char>,
    number: u8,
)
    requires
        (room.players.len() - number) % 256 == 0,
    ensures
        ({
            let full = RoomMessageView::RoomCommand(RoomCommandView::FullQuery(asker));
            let count = RoomMessageView::RoomCommand(RoomCommandView::PlayerNumQuery(asker));
            let taken = RoomMessageView::RoomCommand(RoomCommandView::PlayerQuery(asker, username));
            &&& handled(room, full) == room
            &&& handled(room, count) == room
            &&& handled(room, taken) == room
            &&& handled_step::<B, D, E>(room, full) == StepView::<B, D, E>::Done(
                seq![
                    ActionView::Reply(
                        asker,
                        RoomCommandView::FullQueryResponse(room.players.len() == room.capacity),
                    ),
                ],
            )
            &&& handled_step::<B, D, E>(room, count) == StepView::<B, D, E>::Done(
                seq![ActionView::Reply(asker, RoomCommandView::PlayerNumQueryResponse(number))],
            )
            &&& handled_step::<B, D, E>(room, taken) == StepView::<B, D, E>::Done(
                seq![
                    ActionView::Reply(
                        asker,
                        RoomCommandView::PlayerQueryResponse(!is_absent(room, username)),
                    ),
                ],
            )
        }),
{
    lemma_seat(room, username);
    assert(room.players.len() % 256 == number);
}

/// An answer that is put to a room does nothing.
pub proof fn law_answers_do_nothing<B, D, E>(room: RoomState<B>, command: RoomCommandView)
    requires
        command is FullQueryResponse || command is PlayerNumQueryResponse
            || command is PlayerQueryResponse,
    ensures
        handled(room, RoomMessageView::RoomCommand(command)) == room,
        handled_step::<B, D, E>(room, RoomMessageView::RoomCommand(command)) == StepView::<
            B,
            D,
            E,
        >::Done(Seq::empty()),
{
}

/// A newcomer is about to be seated under the name and the channel that came with the
/// command, and is to have another colour than the player in the last seat has; the room
/// stays as it is until then.
pub proof fn law_newcomers_are_announced<B, D, E>(
    room: RoomState<B>,
    username: Seq<char>,
    channel: u64,
)
    ensures
        ({
            let message = RoomMessageView::RoomCommand(
                RoomCommandView::PlayerAdd(username, channel),
            );
            let step = handled_step::<B, D, E>(room, message);
            &&& handled(room, message) == room
            &&& room.players.len() == 0 ==> step == StepView::<B, D, E>::Join {
                username,
                channel,
                last: None,
            }
            &&& room.players.len() > 0 ==> step == StepView::<B, D, E>::Join {
                username,
                channel,
                last: Some(room.players[room.players.len() - 1].player.stone),
            }
        }),
{
}

/// A newcomer takes the seat after the last, with nothing scored and not passed, in the
/// colour that is given or in black; everybody else stays as they were. The turn is the
/// newcomer's in an empty room, and else stays.
pub proof fn law_newcomers_sit_last<B>(
    room: RoomState<B>,
    username: Seq<char>,
    channel: u64,
    opposite: Option<Stone>,
)
    ensures
        ({
            let now = joined(room, username, channel, opposite);
            let seat = room.players.len() as int;
            let player = now.players[seat].player;
            &&& now.capacity == room.capacity
            &&& now.board == room.board
            &&& now.players.len() == seat + 1
            &&& forall|i: int| 0 <= i < seat ==> now.players[i] == #[trigger] room.players[i]
            &&& now.players[seat].username == username
            &&& now.players[seat].channel == channel
            &&& !now.players[seat].passed
            &&& player.username == username
            &&& player.score == 0
            &&& opposite is None ==> player.stone == Stone::Black
            &&& opposite is Some ==> Some(player.stone) == opposite
            &&& seat == 0 ==> now.current_player == username
            &&& seat > 0 ==> now.current_player == room.current_player
        }),
{
}

/// Everybody who was there is told of a newcomer, and that in the chat; and then the newcomer,
/// alone, is shown everybody who is there now, whose turn it is, their own name and the
/// board.
pub proof fn law_newcomers_are_greeted<B, D, E>(
    room: RoomState<B>,
    username: Seq<char>,
    channel: u64,
    opposite: Option<Stone>,
    board: B,
)
    ensures
        ({
            let now = joined(room, username, channel, opposite);
            let actions = join_actions::<B, D, E>(room, username, channel, opposite, board);
            &&& actions.len() == 2
            &&& actions[0] matches ActionView::Deliver(to, messages)
            &&& reaches_everybody(room, to)
            &&& messages == seq![
                ServerMessageView::<B, D, E>::PlayerAdd(
                    now.players[room.players.len() as int].player,
                ),
                ServerMessageView::Chat("`"@ + username + "` has joined the room"@),
            ]
            &&& actions[1] matches ActionView::Deliver(own, answers)
            &&& own == seq![channel]
            &&& answers.len() == 1
            &&& answers[0] matches ServerMessageView::LoginResponse(Ok(shown))
            &&& shown.current_player == now.current_player
            &&& shown.self_player == username
            &&& shown.board == board
            &&& shown.players.len() == now.players.len()
            &&& forall|i: int|
                0 <= i < now.players.len() ==> shown.players[i] == (
                    (#[trigger] now.players[i]).username,
                    now.players[i].player,
                )
        }),
{
    lemma_seat(room, username);
}

/// Whoever leaves, on turn or not, leaves the others in their seats, in order. The turn goes
/// to the next seat if it was the leaver's, and else stays. The leaver's channel is closed,
/// and everybody who stays is told who has left and whose turn it is, and the first in the
/// chat as well.
pub proof fn law_leavers_are_seen_off<B, D, E>(
    room: RoomState<B>,
    username: Seq<char>,
    seat: int,
    first: int,
)
    requires
        sits_at(room, username, seat),
        first_sits_at(room, username, first),
    ensures
        ({
            let message = RoomMessageView::RoomCommand(RoomCommandView::PlayerRemove(username));
            let now = handled(room, message);
            &&& now.capacity == room.capacity
            &&& now.board == room.board
            &&& now.players.len() == room.players.len() - 1
            &&& forall|i: int| 0 <= i < seat ==> #[trigger] now.players[i] == room.players[i]
            &&& forall|i: int|
                seat <= i < now.players.len() ==> #[trigger] now.players[i] == room.players[i + 1]
            &&& username != room.current_player ==> now.current_player == room.current_player
            &&& username == room.current_player ==> now.current_player
                == room.players[seat_after(room, first)].username
            &&& handled_step::<B, D, E>(room, message) matches StepView::Done(actions)
            &&& actions.len() == 2
            &&& actions[0] == ActionView::<B, D, E>::Close(room.players[seat].channel)
            &&& actions[1] matches ActionView::Deliver(to, messages)
            &&& reaches_everybody(now, to)
            &&& messages == seq![
                ServerMessageView::<B, D, E>::PlayerRemove(username),
                ServerMessageView::NextTurn(now.current_player),
                ServerMessageView::Chat("`"@ + username + "` has left the room"@),
            ]
        }),
{
    let message = RoomMessageView::RoomCommand(RoomCommandView::PlayerRemove(username));
    lemma_seat(room, username);
    lemma_seat(handled(room, message), username);
}

/// A stranger cannot leave.
pub proof fn law_strangers_cannot_leave<B, D, E>(room: RoomState<B>, username: Seq<char>)
    requires
        is_absent(room, username),
    ensures
        ({
            let message = RoomMessageView::RoomCommand(RoomCommandView::PlayerRemove(username));
            &&& handled(room, message) == room
            &&& handled_step::<B, D, E>(room, message) == StepView::<B, D, E>::Done(Seq::empty())
        }),
{
    lemma_seat(room, username);
}

/// A move that the board took goes to everybody, in all its pieces and in order, and then
/// whose turn it is: the next seat's, or the first where the mover has gone. Nobody's seat
/// changes.
pub proof fn law_moves_are_settled<B, D, E>(
    room: RoomState<B>,
    username: Seq<char>,
    channel: u64,
    deltas: Seq<D>,
    first: int,
)
    requires
        room.players.len() > 0,
    ensures
        ({
            let now = settled::<B, D, E>(room, username, Ok(Some(deltas)));
            let actions = settle_actions::<B, D, E>(room, username, channel, Ok(Some(deltas)));
            &&& now.capacity == room.capacity
            &&& now.board == room.board
            &&& now.players == room.players
            &&& first_sits_at(room, username, first) ==> now.current_player
                == room.players[seat_after(room, first)].username
            &&& is_absent(room, username) ==> now.current_player == room.players[0].username
            &&& actions.len() == 1
            &&& actions[0] matches ActionView::Deliver(to, messages)
            &&& reaches_everybody(room, to)
            &&& messages.len() == deltas.len() + 1
            &&& messages[deltas.len() as int] == ServerMessageView::<B, D, E>::NextTurn(
                now.current_player,
            )
            &&& forall|i: int|
                0 <= i < deltas.len() ==> #[trigger] messages[i] == ServerMessageView::<
                    B,
                    D,
                    E,
                >::BoardDelta(deltas[i])
        }),
{
    lemma_seat(room, username);
}

/// A move that the board refused is answered to the mover alone, with the board's error; one
/// of which it has no news is not answered. Neither changes anything, and neither does a
/// move in an empty room.
pub proof fn law_other_moves_change_nothing<B, D, E>(
    room: RoomState<B>,
    username: Seq<char>,
    channel: u64,
    error: E,
    deltas: Seq<D>,
)
    ensures
        settled::<B, D, E>(room, username, Err(error)) == room,
        settle_actions::<B, D, E>(room, username, channel, Err(error)) == seq![
            ActionView::<B, D, E>::Deliver(
                seq![channel],
                seq![ServerMessageView::PlaceResponse(Err(InvalidMove::Board(error)))],
            ),
        ],
        settled::<B, D, E>(room, username, Ok(None)) == room,
        settle_actions::<B, D, E>(room, username, channel, Ok(None)).len() == 0,
        room.players.len() == 0 ==> settled::<B, D, E>(room, username, Ok(Some(deltas))) == room,
        room.players.len() == 0 ==> settle_actions::<B, D, E>(
            room,
            username,
            channel,
            Ok(Some(deltas)),
        ).len() == 0,
{
}

/// The colour that a newcomer's is held against is the one in the last seat.
pub proof fn law_the_last_colour_is_the_last_seats<B>(room: RoomState<B>, seat: SeatView)
    ensures
        last_stone(room.players.push(seat)) == Some(seat.player.stone),
        room.players.len() == 0 ==> last_stone(room.players) is None,
{
}

} // verus!
