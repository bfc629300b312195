//! What holds of a room over any course of events.

use vstd::prelude::*;

use crate::house::says_empty;
use crate::login::answer_to;
use crate::messages::{
    ClientMessageView, InvalidMove, RoomCommandView, RoomMessageView, ServerMessageView, Stone,
};
use crate::model::{
    all_passed, channels, command_step, handled, handled_step, joined, left, names, opened,
    pass_actions, passed, seat_of, settle_actions, settled, successor, ActionView, RoomState,
    SeatView, StepView,
};

verus! {

/// Something that happens to a room.
pub enum RoomEvent<B, D, E> {
    /// The room takes a message.
    Message(RoomMessageView),
    /// A newcomer is seated.
    Join(Seq<char>, u64, Option<Stone>),
    /// Somebody plays on the board.
    Board(B),
    /// A move is settled.
    Settle(Seq<char>, Result<Option<Seq<D>>, E>),
}

/// A room after an event.
pub open spec fn after<B, D, E>(room: RoomState<B>, event: RoomEvent<B, D, E>) -> RoomState<B> {
    match event {
        RoomEvent::Message(message) => handled(room, message),
        RoomEvent::Join(username, channel, opposite) => joined(room, username, channel, opposite),
        RoomEvent::Board(board) => RoomState { board, ..room },
        RoomEvent::Settle(username, outcome) => settled(room, username, outcome),
    }
}

/// A room after a course of events.
pub open spec fn run<B, D, E>(room: RoomState<B>, events: Seq<RoomEvent<B, D, E>>) -> RoomState<B>
    decreases events.len(),
{
    if events.len() == 0 {
        room
    } else {
        after(run(room, events.drop_last()), events.last())
    }
}

/// Whether it is somebody's turn: in a room with players, the one on turn is one of them.
pub open spec fn turn_held<B>(room: RoomState<B>) -> bool {
    room.players.len() > 0 ==> names(room.players).contains(room.current_player)
}

/// Whether the clients are told of each player by the name that the room knows.
pub open spec fn named_alike<B>(room: RoomState<B>) -> bool {
    forall|i: int|
        0 <= i < room.players.len() ==> (#[trigger] room.players[i]).username
            == room.players[i].player.username
}

/// The turn belongs to somebody who is there: every event keeps it so. Every event also
/// keeps the names alike, and the capacity.
pub proof fn law_events_keep_the_turn_held<B, D, E>(
    room: RoomState<B>,
    event: RoomEvent<B, D, E>,
)
    ensures
        turn_held(room) ==> turn_held(after(room, event)),
        named_alike(room) ==> named_alike(after(room, event)),
        after(room, event).capacity == room.capacity,
{
    match event {
        RoomEvent::Message(message) => {
            match message {
                RoomMessageView::RoomCommand(RoomCommandView::PlayerRemove(username)) => {
                    lemma_left_keeps_turn(room, username);
                },
                RoomMessageView::ClientMessage(
                    username,
                    ClientMessageView::Place(None),
                ) if username == room.current_player => {
                    lemma_passed_keeps_turn(room, username);
                },
                _ => {},
            }
        },
        RoomEvent::Join(username, channel, opposite) => {
            let joint = joined(room, username, channel, opposite);
            if room.players.len() == 0 {
                assert(names(joint.players)[0] == username);
            } else if turn_held(room) {
                let i = names(room.players).index_of(room.current_player);
                assert(names(joint.players)[i] == names(room.players)[i]);
            }
        },
        RoomEvent::Board(_) => {},
        RoomEvent::Settle(username, outcome) => {
            if room.players.len() > 0 {
                lemma_successor_is_seated(room.players, username);
            }
        },
    }
}

/// In a room that was opened empty, the turn belongs to somebody who is there, whatever has
/// happened since; and the room is as large as it was opened.
pub proof fn law_turn_is_held_in_every_room<B, D, E>(
    capacity: u8,
    board: B,
    events: Seq<RoomEvent<B, D, E>>,
)
    ensures
        turn_held(run(opened(capacity, board), events)),
        named_alike(run(opened(capacity, board), events)),
        run(opened(capacity, board), events).capacity == capacity,
    decreases events.len(),
{
    if events.len() > 0 {
        law_turn_is_held_in_every_room(capacity, board, events.drop_last());
        law_events_keep_the_turn_held(
            run(opened(capacity, board), events.drop_last()),
            events.last(),
        );
    }
}

proof fn lemma_successor_is_seated(players: Seq<SeatView>, username: Seq<char>)
    requires
        players.len() > 0,
    ensures
        names(players).contains(successor(players, username)),
{
    names(players).index_of_first_ensures(username);
    match names(players).index_of_first(username) {
        Some(seat) if seat + 1 < players.len() => {
            assert(names(players)[seat + 1] == successor(players, username));
        },
        _ => {
            assert(names(players)[0] == successor(players, username));
        },
    }
}

proof fn lemma_passed_keeps_turn<B>(room: RoomState<B>, username: Seq<char>)
    ensures
        turn_held(passed(room, username)),
        named_alike(room) ==> named_alike(passed(room, username)),
{
    names(room.players).index_of_last_ensures(username);
    if room.players.len() > 0 {
        assert(names(passed(room, username).players) =~= names(room.players));
        lemma_successor_is_seated(room.players, username);
    }
}

proof fn lemma_left_keeps_turn<B>(room: RoomState<B>, username: Seq<char>)
    ensures
        turn_held(room) ==> turn_held(left(room, username)),
        named_alike(room) ==> named_alike(left(room, username)),
{
    let all = names(room.players);
    all.index_of_last_ensures(username);
    all.index_of_first_ensures(username);
    let rest = left(room, username);
    match seat_of(room.players, username) {
        Some(seat) => {
            assert(names(rest.players) =~= all.remove(seat));
            // Whoever is on turn now had a seat before, and not only the one that is gone.
            let holder = if username != room.current_player {
                all.index_of(room.current_player)
            } else {
                let first = all.index_of_first(username).unwrap();
                let next = if first + 1 < all.len() {
                    first + 1
                } else {
                    0
                };
                if next == seat {
                    first
                } else {
                    next
                }
            };
            if rest.players.len() > 0 && turn_held(room) {
                assert(all[holder] == rest.current_player);
                let kept = if holder < seat {
                    holder
                } else {
                    holder - 1
                };
                assert(names(rest.players)[kept] == all[holder]);
            }
        },
        None => {},
    }
}

/// The turn goes from each seat to the next, and from the last to the first, unless an
/// earlier player has the same name.
pub proof fn law_turn_goes_round<B>(room: RoomState<B>, seat: int)
    requires
        0 <= seat < room.players.len(),
        forall|i: int|
            0 <= i < seat ==> (#[trigger] room.players[i]).username
                != room.players[seat].username,
    ensures
        successor(room.players, room.players[seat].username) == room.players[if seat + 1
            < room.players.len() {
            seat + 1
        } else {
            0
        }].username,
{
    let all = names(room.players);
    let username = room.players[seat].username;
    assert(all[seat] == username);
    all.index_of_first_ensures(username);
    let first = all.index_of_first(username).unwrap();
    assert(room.players[first].username == username);
}

/// Only the player on turn can move: a request to place a stone or to pass from anybody
/// else changes nothing, and is answered to that player alone.
pub proof fn law_no_move_out_of_turn<B, D, E>(
    room: RoomState<B>,
    username: Seq<char>,
    request: ClientMessageView,
)
    requires
        request is Place,
        username != room.current_player,
    ensures
        handled(room, RoomMessageView::ClientMessage(username, request)) == room,
        handled_step::<B, D, E>(room, RoomMessageView::ClientMessage(username, request))
            == StepView::<B, D, E>::Done(
            match seat_of(room.players, username) {
                Some(seat) => seq![
                    ActionView::Deliver(
                        seq![room.players[seat].channel],
                        seq![ServerMessageView::PlaceResponse(Err(InvalidMove::InvalidTurn))],
                    ),
                ],
                None => seq![],
            },
        ),
{
}

/// A move that the board refuses leaves the room and the turn as they were, and only the
/// mover hears of it.
pub proof fn law_refused_move_changes_nothing<B, D, E>(
    room: RoomState<B>,
    username: Seq<char>,
    channel: u64,
    error: E,
)
    ensures
        settled::<B, D, E>(room, username, Err(error)) == room,
        settle_actions::<B, D, E>(room, username, channel, Err(error)) == seq![
            ActionView::<B, D, E>::Deliver(
                seq![channel],
                seq![ServerMessageView::PlaceResponse(Err(InvalidMove::Board(error)))],
            ),
        ],
{
}

/// A stone is only ever played for the player on turn, and in that player's own colour.
pub proof fn law_stones_are_the_movers<B, D, E>(room: RoomState<B>, message: RoomMessageView)
    ensures
        handled_step::<B, D, E>(room, message) matches StepView::Play {
            username,
            channel,
            position,
            stone,
        } ==> {
            &&& username == room.current_player
            &&& message == RoomMessageView::ClientMessage(
                username,
                ClientMessageView::Place(Some(position)),
            )
            &&& exists|seat: int|
                0 <= seat < room.players.len() && (#[trigger] room.players[seat]).username
                    == username && room.players[seat].channel == channel
                    && room.players[seat].player.stone == stone
        },
{
    if let StepView::Play { username, channel, position, stone } = handled_step::<B, D, E>(
        room,
        message,
    ) {
        names(room.players).index_of_last_ensures(username);
        let seat = seat_of(room.players, username).unwrap();
        assert(room.players[seat].username == username);
    }
}

/// Who has passed stays so: an event that leaves the seats alone takes no pass back, and
/// keeps every player's name, channel and colour.
pub proof fn law_passes_stand<B, D, E>(room: RoomState<B>, event: RoomEvent<B, D, E>, seat: int)
    requires
        0 <= seat < room.players.len(),
        !(event matches RoomEvent::Message(RoomMessageView::RoomCommand(command))
            && command is PlayerRemove),
    ensures
        seat < after(room, event).players.len(),
        after(room, event).players[seat].username == room.players[seat].username,
        after(room, event).players[seat].channel == room.players[seat].channel,
        after(room, event).players[seat].player == room.players[seat].player,
        room.players[seat].passed ==> after(room, event).players[seat].passed,
{
    if let RoomEvent::Message(RoomMessageView::ClientMessage(username, _)) = event {
        names(room.players).index_of_last_ensures(username);
    }
}

/// Leaving undoes coming: a player who leaves at once leaves the players as they were; and
/// the whole room, where others were there and the turn was not that of a namesake.
pub proof fn law_leaving_undoes_joining<B>(
    room: RoomState<B>,
    username: Seq<char>,
    channel: u64,
    opposite: Option<Stone>,
)
    ensures
        left(joined(room, username, channel, opposite), username).players == room.players,
        room.players.len() > 0 && username != room.current_player ==> left(
            joined(room, username, channel, opposite),
            username,
        ) == room,
{
    let joint = joined(room, username, channel, opposite);
    let all = names(joint.players);
    let last = room.players.len() as int;
    assert(all[last] == username);
    all.index_of_last_ensures(username);
    assert(joint.players.remove(last) =~= room.players);
}

/// A player who is seated only after the room has answered that the name is free and that
/// it is not full keeps the names distinct and the room within its capacity.
pub proof fn law_admission_keeps_the_bounds<B, D, E>(
    room: RoomState<B>,
    username: Seq<char>,
    channel: u64,
    opposite: Option<Stone>,
    asker: u64,
)
    requires
        names(room.players).no_duplicates(),
        room.players.len() <= room.capacity,
        command_step::<B, D, E>(room, RoomCommandView::PlayerQuery(asker, username))
            == StepView::<B, D, E>::Done(
            seq![ActionView::Reply(asker, RoomCommandView::PlayerQueryResponse(false))],
        ),
        command_step::<B, D, E>(room, RoomCommandView::FullQuery(asker)) == StepView::<
            B,
            D,
            E,
        >::Done(seq![ActionView::Reply(asker, RoomCommandView::FullQueryResponse(false))]),
    ensures
        names(joined(room, username, channel, opposite).players).no_duplicates(),
        joined(room, username, channel, opposite).players.len() <= room.capacity,
{
    let free = command_step::<B, D, E>(room, RoomCommandView::PlayerQuery(asker, username));
    assert(free->Done_0[0] == ActionView::<B, D, E>::Reply(
        asker,
        RoomCommandView::PlayerQueryResponse(false),
    ));
    let room_left = command_step::<B, D, E>(room, RoomCommandView::FullQuery(asker));
    assert(room_left->Done_0[0] == ActionView::<B, D, E>::Reply(
        asker,
        RoomCommandView::FullQueryResponse(false),
    ));
    assert(names(joined(room, username, channel, opposite).players) =~= names(room.players).push(
        username,
    ));
}

/// A room after `k` passes in a row, each by the player on turn.
pub open spec fn after_passes<B>(room: RoomState<B>, k: nat) -> RoomState<B>
    decreases k,
{
    if k == 0 {
        room
    } else {
        let before = after_passes(room, (k - 1) as nat);
        passed(before, before.current_player)
    }
}

/// How many seats after `start` the seat `i` is, going round the table.
pub open spec fn seats_after(players: Seq<SeatView>, start: int, i: int) -> int {
    if i >= start {
        i - start
    } else {
        i - start + players.len()
    }
}

proof fn lemma_passes_go_round<B>(room: RoomState<B>, start: int, k: nat)
    requires
        names(room.players).no_duplicates(),
        0 <= start < room.players.len(),
        room.current_player == room.players[start].username,
        k <= room.players.len(),
    ensures
        after_passes(room, k).players.len() == room.players.len(),
        names(after_passes(room, k).players) == names(room.players),
        channels(after_passes(room, k).players) == channels(room.players),
        after_passes(room, k).current_player == room.players[if start + k < room.players.len() {
            start + k
        } else {
            start + k - room.players.len()
        }].username,
        forall|i: int|
            0 <= i < room.players.len() ==> ((#[trigger] after_passes(room, k).players[i]).passed
                <==> room.players[i].passed || seats_after(room.players, start, i) < k),
    decreases k,
{
    if k > 0 {
        let j = (k - 1) as nat;
        lemma_passes_go_round(room, start, j);
        let before = after_passes(room, j);
        let now = after_passes(room, k);
        let n = room.players.len();
        let seat = if start + j < n {
            start + j
        } else {
            start + j - n
        };
        let all = names(room.players);
        assert(all[seat] == before.current_player);
        assert(names(before.players)[seat] == before.players[seat].username);
        all.index_of_last_ensures(before.current_player);
        assert(seat_of(before.players, before.current_player) == Some(seat));
        assert forall|i: int| 0 <= i < seat implies (#[trigger] before.players[i]).username
            != before.players[seat].username by {
            assert(names(before.players)[i] == before.players[i].username);
        }
        law_turn_goes_round(before, seat);
        assert(names(now.players) =~= all);
        assert(channels(now.players) =~= channels(before.players));
        let next = if seat + 1 < n {
            seat + 1
        } else {
            0
        };
        assert(names(before.players)[next] == all[next]);
        assert(now.current_player == all[next]);
        assert forall|i: int| 0 <= i < n implies ((#[trigger] now.players[i]).passed
            <==> room.players[i].passed || seats_after(room.players, start, i) < k) by {
            assert(before.players[i].passed <==> room.players[i].passed || seats_after(
                room.players,
                start,
                i,
            ) < j);
        }
    }
}

/// The game ends when all have passed: where no two players have the same name, one pass
/// each, going round from the player on turn, has everybody passed and closes every
/// channel, and the turn is back where it was.
pub proof fn law_a_round_of_passes_ends_the_game<B, D, E>(room: RoomState<B>)
    requires
        names(room.players).no_duplicates(),
        turn_held(room),
        room.players.len() > 0,
    ensures
        all_passed(after_passes(room, room.players.len()).players),
        after_passes(room, room.players.len()).current_player == room.current_player,
        ({
            let before = after_passes(room, (room.players.len() - 1) as nat);
            pass_actions::<B, D, E>(before, before.current_player).skip(1) == channels(
                room.players,
            ).map_values(|channel: u64| ActionView::<B, D, E>::Close(channel))
        }),
{
    let n = room.players.len();
    let start = names(room.players).index_of(room.current_player);
    assert(room.players[start].username == room.current_player);
    lemma_passes_go_round(room, start, n);
    lemma_passes_go_round(room, start, (n - 1) as nat);
    let before = after_passes(room, (n - 1) as nat);
    let end = after_passes(room, n);
    assert(end == passed(before, before.current_player));
    assert forall|i: int| 0 <= i < end.players.len() implies (#[trigger] end.players[i]).passed by {
        assert(seats_after(room.players, start, i) < n);
    }
    let all = names(before.players);
    let seat = if start + n - 1 < n {
        start + n - 1
    } else {
        start - 1
    };
    assert(all[seat] == before.current_player);
    all.index_of_last_ensures(before.current_player);
    assert(pass_actions::<B, D, E>(before, before.current_player).skip(1) =~= channels(
        room.players,
    ).map_values(|channel: u64| ActionView::<B, D, E>::Close(channel)));
}

/// The game does not end before: as long as somebody else has not passed, no pass closes a
/// channel.
pub proof fn law_no_game_ends_early<B, D, E>(room: RoomState<B>, username: Seq<char>, seat: int)
    requires
        0 <= seat < room.players.len(),
        !room.players[seat].passed,
        seat_of(room.players, username) != Some(seat),
    ensures
        forall|i: int|
            0 <= i < pass_actions::<B, D, E>(room, username).len() ==> !((
            #[trigger] pass_actions::<B, D, E>(room, username)[i]) is Close),
{
    names(room.players).index_of_last_ensures(username);
    let now = passed(room, username);
    assert(!now.players[seat].passed);
}

/// Whoever leaves is gone, unless another player has the same name; and names that are
/// distinct stay so.
pub proof fn law_leaving_frees_the_name<B>(room: RoomState<B>, username: Seq<char>)
    requires
        forall|i: int, j: int|
            0 <= i < room.players.len() && 0 <= j < room.players.len() && (
            #[trigger] room.players[i]).username == username && (
            #[trigger] room.players[j]).username == username ==> i == j,
    ensures
        !names(left(room, username).players).contains(username),
        names(room.players).no_duplicates() ==> names(
            left(room, username).players,
        ).no_duplicates(),
{
    let all = names(room.players);
    all.index_of_last_ensures(username);
    match seat_of(room.players, username) {
        Some(seat) => {
            let rest = names(left(room, username).players);
            assert(rest =~= all.remove(seat));
            assert(room.players[seat].username == username);
            assert forall|i: int| 0 <= i < rest.len() implies rest[i] != username by {
                if i < seat {
                    assert(rest[i] == room.players[i].username);
                } else {
                    assert(rest[i] == room.players[i + 1].username);
                }
            }
        },
        None => {},
    }
}

/// When the last player leaves, the room's next answer to how many players it has is such
/// that its name is taken out of the house.
pub proof fn law_an_empty_room_is_retired<B>(room: RoomState<B>, username: Seq<char>, asker: u64)
    requires
        room.players.len() == 1,
        names(room.players).contains(username),
    ensures
        says_empty(answer_to(left(room, username), RoomCommandView::PlayerNumQuery(asker))),
{
    names(room.players).index_of_last_ensures(username);
}

/// A room with players is not taken out of the house, unless their number is one that the
/// answer, which is a byte, cannot tell from none.
pub proof fn law_a_room_with_players_stays<B>(room: RoomState<B>, asker: u64)
    requires
        room.players.len() % 256 != 0,
    ensures
        !says_empty(answer_to(room, RoomCommandView::PlayerNumQuery(asker))),
{
}

/// When the player on turn leaves and others stay, the turn goes to the next seat, and from
/// the last to the first, unless an earlier player has the same name.
pub proof fn law_leaving_passes_the_turn_on<B>(room: RoomState<B>, seat: int)
    requires
        0 <= seat < room.players.len(),
        room.players[seat].username == room.current_player,
        forall|i: int|
            0 <= i < seat ==> (#[trigger] room.players[i]).username != room.current_player,
    ensures
        left(room, room.current_player).current_player == room.players[if seat + 1
            < room.players.len() {
            seat + 1
        } else {
            0
        }].username,
{
    law_turn_goes_round(room, seat);
    assert(names(room.players)[seat] == room.current_player);
    names(room.players).index_of_last_ensures(room.current_player);
}

/// When anybody else leaves, the turn stays where it is.
pub proof fn law_leaving_out_of_turn_keeps_the_turn<B>(room: RoomState<B>, username: Seq<char>)
    requires
        username != room.current_player,
    ensures
        left(room, username).current_player == room.current_player,
{
}

/// Questions, answers, chat and requests that a room does not serve leave it as it is, and
/// none of them is cause for a stone or for a closed channel.
pub proof fn law_talk_changes_nothing<B, D, E>(room: RoomState<B>, message: RoomMessageView)
    requires
        match message {
            RoomMessageView::ClientMessage(_, request) => !(request is Place),
            RoomMessageView::RoomCommand(command) => !(command is PlayerAdd) && !(
            command is PlayerRemove),
        },
    ensures
        handled(room, message) == room,
        handled_step::<B, D, E>(room, message) matches StepView::Done(actions) && forall|i: int|
            0 <= i < actions.len() ==> !((#[trigger] actions[i]) is Close),
{
}

/// What is said to a room goes to every player, once each and in seating order, the speaker
/// among them.
pub proof fn law_chat_reaches_everybody<B, D, E>(
    room: RoomState<B>,
    username: Seq<char>,
    text: Seq<char>,
)
    ensures
        handled_step::<B, D, E>(
            room,
            RoomMessageView::ClientMessage(username, ClientMessageView::Chat(text)),
        ) == StepView::<B, D, E>::Done(
            seq![ActionView::Deliver(channels(room.players), seq![ServerMessageView::Chat(text)])],
        ),
        channels(room.players).len() == room.players.len(),
        forall|i: int|
            0 <= i < room.players.len() ==> channels(room.players)[i] == (
            #[trigger] room.players[i]).channel,
{
}

/// Whether an action only concerns channels among these.
pub open spec fn stays_among<B, D, E>(action: ActionView<B, D, E>, among: Seq<u64>) -> bool {
    match action {
        ActionView::Reply(_, _) => true,
        ActionView::Deliver(to, _) => forall|i: int|
            0 <= i < to.len() ==> among.contains(#[trigger] to[i]),
        ActionView::Close(channel) => among.contains(channel),
    }
}

/// A room speaks to its players and to those who ask it, and to nobody else: whatever it is
/// told, it sends only on the channels of its players, and closes no others.
pub proof fn law_rooms_speak_to_their_players<B, D, E>(
    room: RoomState<B>,
    message: RoomMessageView,
)
    ensures
        handled_step::<B, D, E>(room, message) matches StepView::Done(actions) ==> forall|i: int|
            0 <= i < actions.len() ==> stays_among(
                #[trigger] actions[i],
                channels(room.players),
            ),
{
    let among = channels(room.players);
    assert forall|seat: int| 0 <= seat < room.players.len() implies among.contains(
        (#[trigger] room.players[seat]).channel,
    ) by {
        assert(among[seat] == room.players[seat].channel);
    }
    assert forall|i: int| 0 <= i < among.len() implies among.contains(#[trigger] among[i]) by {}
    match message {
        RoomMessageView::RoomCommand(RoomCommandView::PlayerRemove(username)) => {
            names(room.players).index_of_last_ensures(username);
            if let Some(seat) = seat_of(room.players, username) {
                let rest = channels(left(room, username).players);
                assert forall|i: int| 0 <= i < rest.len() implies among.contains(
                    #[trigger] rest[i],
                ) by {
                    if i < seat {
                        assert(rest[i] == among[i]);
                    } else {
                        assert(rest[i] == among[i + 1]);
                    }
                }
            }
        },
        RoomMessageView::ClientMessage(username, request) => {
            names(room.players).index_of_last_ensures(username);
            if request == ClientMessageView::Place(None) && username == room.current_player {
                assert(channels(passed(room, username).players) =~= among);
                let actions = pass_actions::<B, D, E>(room, username);
                assert forall|i: int| 0 <= i < actions.len() implies stays_among(
                    #[trigger] actions[i],
                    among,
                ) by {
                    if i > 0 {
                        assert(actions[i] == ActionView::<B, D, E>::Close(among[i - 1]));
                    }
                }
            }
        },
        _ => {},
    }
}

/// Whether an action announces no other turn than this player's.
pub open spec fn announces<B, D, E>(action: ActionView<B, D, E>, username: Seq<char>) -> bool {
    action matches ActionView::Deliver(_, messages) ==> forall|i: int|
        0 <= i < messages.len() ==> ((#[trigger] messages[i]) matches ServerMessageView::NextTurn(
            next,
        ) ==> next == username)
}

/// Whose turn a room announces, that player's turn it is.
pub proof fn law_announced_turns_are_true<B, D, E>(
    room: RoomState<B>,
    message: RoomMessageView,
    username: Seq<char>,
    channel: u64,
    outcome: Result<Option<Seq<D>>, E>,
)
    ensures
        handled_step::<B, D, E>(room, message) matches StepView::Done(actions) ==> forall|i: int|
            0 <= i < actions.len() ==> announces(
                #[trigger] actions[i],
                handled(room, message).current_player,
            ),
        forall|i: int|
            0 <= i < settle_actions(room, username, channel, outcome).len() ==> announces(
                #[trigger] settle_actions(room, username, channel, outcome)[i],
                settled(room, username, outcome).current_player,
            ),
{
}

} // verus!
