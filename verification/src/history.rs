//! What a room's course of events says of its players.

use vstd::prelude::*;

use crate::laws::{after, law_turn_is_held_in_every_room, run, RoomEvent};
use crate::messages::{ClientMessageView, RoomCommandView, RoomMessageView, Stone};
use crate::model::{
    all_passed, channels, handled_step, last_stone, names, opened, pass_actions, passed, seat_of,
    ActionView, RoomState, SeatView, StepView,
};

verus! {

/// A room after the first `k` of the events.
pub open spec fn room_at<B, D, E>(
    start: RoomState<B>,
    events: Seq<RoomEvent<B, D, E>>,
    k: int,
) -> RoomState<B> {
    run(start, events.take(k))
}

/// Whether a player of this name is in the room.
pub open spec fn is_present<B>(room: RoomState<B>, username: Seq<char>) -> bool {
    names(room.players).contains(username)
}

/// Whether at no time two players have had the same name.
pub open spec fn names_stay_distinct<B, D, E>(
    start: RoomState<B>,
    events: Seq<RoomEvent<B, D, E>>,
) -> bool {
    forall|k: int|
        0 <= k <= events.len() ==> names(
            (#[trigger] room_at(start, events, k)).players,
        ).no_duplicates()
}

/// The request of a player to pass.
pub open spec fn pass_of<B, D, E>(username: Seq<char>) -> RoomEvent<B, D, E> {
    RoomEvent::Message(RoomMessageView::ClientMessage(username, ClientMessageView::Place(None)))
}

/// Whether an event is a player's pass, while the player is there and on turn.
pub open spec fn is_pass_in_turn<B, D, E>(
    room: RoomState<B>,
    event: RoomEvent<B, D, E>,
    username: Seq<char>,
) -> bool {
    &&& event == pass_of::<B, D, E>(username)
    &&& username == room.current_player
    &&& is_present(room, username)
}

/// Whether a player has been in the room from the event `k` on.
pub open spec fn present_from<B, D, E>(
    start: RoomState<B>,
    events: Seq<RoomEvent<B, D, E>>,
    username: Seq<char>,
    k: int,
) -> bool {
    forall|j: int|
        k <= j <= events.len() ==> is_present(#[trigger] room_at(start, events, j), username)
}

/// Whether a player has passed in turn, and has not left since.
pub open spec fn passed_since_joining<B, D, E>(
    start: RoomState<B>,
    events: Seq<RoomEvent<B, D, E>>,
    username: Seq<char>,
) -> bool {
    exists|k: int|
        0 <= k < events.len() && is_pass_in_turn(room_at(start, events, k), events[k], username)
            && #[trigger] present_from(start, events, username, k)
}

proof fn lemma_room_at<B, D, E>(
    start: RoomState<B>,
    events: Seq<RoomEvent<B, D, E>>,
    event: RoomEvent<B, D, E>,
)
    ensures
        forall|k: int|
            0 <= k <= events.len() ==> #[trigger] room_at(start, events.push(event), k) == room_at(
                start,
                events,
                k,
            ),
        room_at(start, events, events.len() as int) == run(start, events),
        room_at(start, events.push(event), events.len() as int + 1) == after(run(start, events), event),
        run(start, events.push(event)) == after(run(start, events), event),
{
    let longer = events.push(event);
    assert forall|k: int| 0 <= k <= events.len() implies #[trigger] room_at(start, longer, k)
        == room_at(start, events, k) by {
        assert(longer.take(k) =~= events.take(k));
    }
    assert(events.take(events.len() as int) =~= events);
    assert(longer.take(events.len() as int + 1) =~= longer);
    assert(longer.drop_last() =~= events);
}

/// One more event adds one pass at most to what is known of a player.
proof fn lemma_one_more_event<B, D, E>(
    start: RoomState<B>,
    events: Seq<RoomEvent<B, D, E>>,
    event: RoomEvent<B, D, E>,
    username: Seq<char>,
)
    requires
        is_present(after(run(start, events), event), username),
    ensures
        passed_since_joining(start, events.push(event), username) <==> is_present(
            run(start, events),
            username,
        ) && (passed_since_joining(start, events, username) || is_pass_in_turn(
            run(start, events),
            event,
            username,
        )),
{
    let longer = events.push(event);
    let n = events.len() as int;
    lemma_room_at(start, events, event);
    if passed_since_joining(start, longer, username) {
        let k = choose|k: int|
            0 <= k < longer.len() && is_pass_in_turn(room_at(start, longer, k), longer[k], username)
                && #[trigger] present_from(start, longer, username, k);
        assert(is_present(room_at(start, longer, n), username));
        if k < n {
            assert forall|j: int| k <= j <= n implies is_present(
                #[trigger] room_at(start, events, j),
                username,
            ) by {
                assert(is_present(room_at(start, longer, j), username));
            }
            assert(present_from(start, events, username, k));
            assert(longer[k] == events[k]);
        }
    }
    if is_present(run(start, events), username) {
        if passed_since_joining(start, events, username) {
            let k = choose|k: int|
                0 <= k < events.len() && is_pass_in_turn(
                    room_at(start, events, k),
                    events[k],
                    username,
                ) && #[trigger] present_from(start, events, username, k);
            assert forall|j: int| k <= j <= longer.len() implies is_present(
                #[trigger] room_at(start, longer, j),
                username,
            ) by {
                if j <= n {
                    assert(is_present(room_at(start, events, j), username));
                }
            }
            assert(present_from(start, longer, username, k));
            assert(longer[k] == events[k]);
        } else if is_pass_in_turn(run(start, events), event, username) {
            assert(present_from(start, longer, username, n));
        }
    }
}

/// What an event does to the flag of a player who is there after it, where names are
/// distinct.
proof fn lemma_flag_after_event<B, D, E>(
    room: RoomState<B>,
    event: RoomEvent<B, D, E>,
    seat: int,
)
    requires
        names(room.players).no_duplicates(),
        names(after(room, event).players).no_duplicates(),
        0 <= seat < after(room, event).players.len(),
    ensures
        ({
            let now = after(room, event).players[seat];
            now.passed <==> exists|i: int|
                0 <= i < room.players.len() && (#[trigger] room.players[i]).username == now.username
                    && (room.players[i].passed || is_pass_in_turn(room, event, now.username))
        }),
{
    let later = after(room, event);
    let now = later.players[seat];
    let all = names(room.players);
    assert forall|i: int| 0 <= i < room.players.len() implies all[i] == (
    #[trigger] room.players[i]).username by {}
    match event {
        RoomEvent::Message(RoomMessageView::RoomCommand(RoomCommandView::PlayerRemove(username))) => {
            all.index_of_last_ensures(username);
            let before = match seat_of(room.players, username) {
                Some(gone) if seat >= gone => seat + 1,
                _ => seat,
            };
            assert(room.players[before] == now);
        },
        RoomEvent::Message(RoomMessageView::ClientMessage(username, request)) => {
            all.index_of_last_ensures(username);
            assert(room.players[seat].username == now.username);
            if is_pass_in_turn(room, event, now.username) {
                assert(seat_of(room.players, now.username) == Some(seat));
            }
        },
        RoomEvent::Join(username, _, _) => {
            if seat < room.players.len() {
                assert(room.players[seat] == now);
            } else {
                assert forall|i: int| 0 <= i < room.players.len() implies (
                #[trigger] room.players[i]).username != now.username by {
                    assert(names(later.players)[i] != names(later.players)[seat]);
                }
            }
        },
        _ => {
            assert(room.players[seat] == now);
        },
    }
}

/// A room remembers who has passed: where names stay distinct, a player is marked exactly if
/// the player has passed in turn since joining.
pub proof fn law_passes_are_remembered<B, D, E>(
    capacity: u8,
    board: B,
    events: Seq<RoomEvent<B, D, E>>,
)
    requires
        names_stay_distinct(opened(capacity, board), events),
    ensures
        forall|seat: int|
            0 <= seat < run(opened(capacity, board), events).players.len() ==> ((
            #[trigger] run(opened(capacity, board), events).players[seat]).passed
                <==> passed_since_joining(
                opened(capacity, board),
                events,
                run(opened(capacity, board), events).players[seat].username,
            )),
    decreases events.len(),
{
    let start = opened(capacity, board);
    if events.len() > 0 {
        let earlier = events.drop_last();
        let event = events.last();
        assert(events =~= earlier.push(event));
        lemma_room_at(start, earlier, event);
        assert forall|k: int| 0 <= k <= earlier.len() implies names(
            (#[trigger] room_at(start, earlier, k)).players,
        ).no_duplicates() by {
            assert(names(room_at(start, events, k).players).no_duplicates());
        }
        law_passes_are_remembered(capacity, board, earlier);
        let room = run(start, earlier);
        let later = run(start, events);
        assert(names(room_at(start, events, earlier.len() as int).players).no_duplicates());
        assert(names(room_at(start, events, events.len() as int).players).no_duplicates());
        assert forall|seat: int| 0 <= seat < later.players.len() implies ((
        #[trigger] later.players[seat]).passed <==> passed_since_joining(
            start,
            events,
            later.players[seat].username,
        )) by {
            let username = later.players[seat].username;
            assert(names(later.players)[seat] == username);
            lemma_one_more_event(start, earlier, event, username);
            lemma_flag_after_event(room, event, seat);
            if is_present(room, username) {
                let i = names(room.players).index_of(username);
                assert(room.players[i].username == username);
                assert forall|j: int|
                    0 <= j < room.players.len() && (#[trigger] room.players[j]).username
                        == username implies j == i by {
                    assert(names(room.players)[j] == names(room.players)[i]);
                }
            } else {
                assert forall|j: int| 0 <= j < room.players.len() implies (
                #[trigger] room.players[j]).username != username by {
                    assert(names(room.players)[j] == room.players[j].username);
                }
            }
        }
    }
}

/// The game ends when all have passed: where names stay distinct, the pass of the player on
/// turn closes every channel if every player who is there has passed in turn since joining,
/// this pass counted, and closes none if not.
pub proof fn law_channels_close_once_all_have_passed<B, D, E>(
    capacity: u8,
    board: B,
    events: Seq<RoomEvent<B, D, E>>,
)
    requires
        names_stay_distinct(opened(capacity, board), events),
        run(opened(capacity, board), events).players.len() > 0,
    ensures
        ({
            let start = opened(capacity, board);
            let room = run(start, events);
            let pass = pass_of::<B, D, E>(room.current_player);
            let closings = if forall|seat: int|
                0 <= seat < room.players.len() ==> passed_since_joining(
                    start,
                    events.push(pass),
                    (#[trigger] room.players[seat]).username,
                ) {
                channels(room.players).map_values(
                    |channel: u64| ActionView::<B, D, E>::Close(channel),
                )
            } else {
                Seq::empty()
            };
            handled_step::<B, D, E>(room, pass->Message_0) matches StepView::Done(actions)
                && actions.len() > 0 && !(actions[0] is Close) && actions.skip(1) == closings
        }),
{
    let start = opened(capacity, board);
    let room = run(start, events);
    let username = room.current_player;
    let pass = pass_of::<B, D, E>(username);
    let longer = events.push(pass);
    law_turn_is_held_in_every_room(capacity, board, events);
    lemma_room_at(start, events, pass);
    let later = passed(room, username);
    assert(run(start, longer) == later);
    names(room.players).index_of_last_ensures(username);
    assert(names(later.players) =~= names(room.players));
    assert(channels(later.players) =~= channels(room.players));
    assert forall|k: int| 0 <= k <= longer.len() implies names(
        (#[trigger] room_at(start, longer, k)).players,
    ).no_duplicates() by {
        let j = if k <= events.len() {
            k
        } else {
            events.len() as int
        };
        assert(names(room_at(start, events, j).players).no_duplicates());
    }
    law_passes_are_remembered(capacity, board, longer);
    assert forall|seat: int| 0 <= seat < room.players.len() implies (
    #[trigger] later.players[seat]).username == room.players[seat].username by {
        assert(names(later.players)[seat] == names(room.players)[seat]);
    }
    if all_passed(later.players) {
        assert forall|seat: int| 0 <= seat < room.players.len() implies passed_since_joining(
            start,
            longer,
            (#[trigger] room.players[seat]).username,
        ) by {
            assert(later.players[seat].passed);
        }
    } else {
        let seat = choose|seat: int|
            0 <= seat < later.players.len() && !(#[trigger] later.players[seat]).passed;
        assert(!passed_since_joining(start, longer, room.players[seat].username));
    }
    let actions = pass_actions::<B, D, E>(room, username);
    assert(actions.skip(1) =~= if all_passed(later.players) {
        channels(room.players).map_values(|channel: u64| ActionView::<B, D, E>::Close(channel))
    } else {
        Seq::empty()
    });
}

/// The other colour.
pub open spec fn opposite_of(stone: Stone) -> Stone {
    match stone {
        Stone::Black => Stone::White,
        Stone::White => Stone::Black,
    }
}

/// Whether an event keeps everybody seated, and gives a newcomer the opposite of the last
/// player's colour.
pub open spec fn seats_in_colours<B, D, E>(room: RoomState<B>, event: RoomEvent<B, D, E>) -> bool {
    match event {
        RoomEvent::Join(_, _, opposite) => opposite == match last_stone(room.players) {
            Some(stone) => Some(opposite_of(stone)),
            None => None,
        },
        RoomEvent::Message(RoomMessageView::RoomCommand(command)) => !(command is PlayerRemove),
        _ => true,
    }
}

/// Whether the first player is black and neighbours differ.
pub open spec fn alternate(players: Seq<SeatView>) -> bool {
    &&& players.len() > 0 ==> players[0].player.stone == Stone::Black
    &&& forall|i: int, j: int|
        #![trigger players[i], players[j]]
        0 <= i < players.len() && 0 <= j < players.len() && j == i + 1 ==> players[i].player.stone
            != players[j].player.stone
}

/// One more event keeps the colours alternating.
proof fn lemma_event_keeps_colours<B, D, E>(room: RoomState<B>, event: RoomEvent<B, D, E>)
    requires
        alternate(room.players),
        seats_in_colours(room, event),
    ensures
        alternate(after(room, event).players),
{
    let now = after(room, event).players;
    match event {
        RoomEvent::Join(_, _, _) => {
            assert forall|i: int, j: int|
                #![trigger now[i], now[j]]
                0 <= i < now.len() && 0 <= j < now.len() && j == i
                    + 1 implies now[i].player.stone != now[j].player.stone by {
                assert(now[i] == room.players[i]);
                if j < room.players.len() {
                    assert(now[j] == room.players[j]);
                }
            }
        },
        RoomEvent::Message(RoomMessageView::ClientMessage(username, _)) => {
            names(room.players).index_of_last_ensures(username);
            assert(now.len() == room.players.len());
            assert forall|i: int| 0 <= i < now.len() implies (#[trigger] now[i]).player
                == room.players[i].player by {}
        },
        _ => {},
    }
}

/// In a room that was opened empty and that nobody has left, where each newcomer was given
/// the opposite of the last player's colour, the first player is black and neighbours
/// differ.
pub proof fn law_colours_alternate<B, D, E>(
    capacity: u8,
    board: B,
    events: Seq<RoomEvent<B, D, E>>,
)
    requires
        forall|k: int|
            0 <= k < events.len() ==> seats_in_colours(
                room_at(opened(capacity, board), events, k),
                #[trigger] events[k],
            ),
    ensures
        alternate(run(opened(capacity, board), events).players),
    decreases events.len(),
{
    let start = opened(capacity, board);
    if events.len() > 0 {
        let earlier = events.drop_last();
        let event = events.last();
        assert(events =~= earlier.push(event));
        lemma_room_at(start, earlier, event);
        assert forall|k: int| 0 <= k < earlier.len() implies seats_in_colours(
            room_at(start, earlier, k),
            #[trigger] earlier[k],
        ) by {
            assert(earlier[k] == events[k]);
        }
        law_colours_alternate(capacity, board, earlier);
        assert(seats_in_colours(run(start, earlier), events[events.len() - 1]));
        lemma_event_keeps_colours(run(start, earlier), event);
    }
}

} // verus!
