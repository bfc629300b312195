//! A connection whose player has entered a room: what the room hears of it.

use vstd::prelude::*;

use crate::house::{ask_count, count_question};
use crate::login::{Frame, FrameView};
use crate::messages::{RoomCommand, RoomCommandView, RoomMessage, RoomMessageView};

verus! {

/// What the room hears of a frame: the request that it holds, under the player's name.
pub open spec fn relayed_frame(username: Seq<char>, frame: FrameView) -> Option<RoomMessageView> {
    match frame {
        FrameView::Binary(Some(request)) => Some(
            RoomMessageView::ClientMessage(username, request),
        ),
        _ => None,
    }
}

/// What the room hears first: that the player has come, and by which channel the player is
/// reached.
pub open spec fn entry(username: Seq<char>, channel: u64) -> RoomMessageView {
    RoomMessageView::RoomCommand(RoomCommandView::PlayerAdd(username, channel))
}

/// What the room hears when the connection ends: that the player has gone.
pub open spec fn parting(username: Seq<char>) -> RoomMessageView {
    RoomMessageView::RoomCommand(RoomCommandView::PlayerRemove(username))
}

/// What the room hears of these frames.
pub open spec fn relayed_frames(username: Seq<char>, frames: Seq<FrameView>) -> Seq<
    RoomMessageView,
>
    decreases frames.len(),
{
    if frames.len() == 0 {
        Seq::empty()
    } else {
        let before = relayed_frames(username, frames.drop_last());
        match relayed_frame(username, frames.last()) {
            Some(message) => before.push(message),
            None => before,
        }
    }
}

/// What the room hears of a connection, from its first frame after the player has entered to
/// its end.
pub open spec fn relayed(username: Seq<char>, frames: Seq<FrameView>) -> Seq<RoomMessageView> {
    relayed_frames(username, frames).push(parting(username))
}

/// All that the room hears of a player's stay: that the player has come, the connection to
/// its end, and at last the question how many players are left.
pub open spec fn heard(
    username: Seq<char>,
    channel: u64,
    frames: Seq<FrameView>,
    asker: u64,
) -> Seq<RoomMessageView> {
    seq![entry(username, channel)] + relayed(username, frames) + seq![count_question(asker)]
}

/// How far a player's stay in a room has come.
#[derive(Clone, Copy, Debug, PartialEq, Eq, Structural)]
pub enum Stay {
    /// The room is told that the player has come.
    Entering,
    /// What the client sends goes to the room, and what the room sends to the client.
    Relaying,
    /// The room is asked how many players are left.
    Asking,
    /// Nothing more is sent.
    Over,
}

/// What happens in the course of a stay.
#[derive(Clone, Copy, Debug, PartialEq, Eq, Structural)]
pub enum StayEvent {
    /// The message was sent.
    Sent,
    /// The message could not be sent.
    NotSent,
    /// Both directions have come to their end, and an answer can come by this channel.
    Relayed(u64),
}

/// What is to be done in the course of a stay.
#[derive(Debug, PartialEq, Eq)]
pub enum StayAction {
    /// Send the room a message.
    Send(RoomMessage),
    /// Relay in both directions, until both have come to their end.
    Relay,
    /// Wait for the room's answer, and have the house retire the room by it.
    Await,
    /// Give up: the stay has failed.
    Fail,
    /// Go on waiting.
    Wait,
}

/// The model of a [`StayAction`].
#[verifier::ext_equal]
pub enum StayActionView {
    Send(RoomMessageView),
    Relay,
    Await,
    Fail,
    Wait,
}

impl View for StayAction {
    type V = StayActionView;

    open spec fn view(&self) -> StayActionView {
        match *self {
            StayAction::Send(message) => StayActionView::Send(message@),
            StayAction::Relay => StayActionView::Relay,
            StayAction::Await => StayActionView::Await,
            StayAction::Fail => StayActionView::Fail,
            StayAction::Wait => StayActionView::Wait,
        }
    }
}

/// What an event does to a stay, and what is to be done. An event that the stay does not wait
/// for leaves it as it is.
pub open spec fn stay_after(stay: Stay, event: StayEvent) -> (Stay, StayActionView) {
    match (stay, event) {
        (Stay::Entering, StayEvent::Sent) => (Stay::Relaying, StayActionView::Relay),
        (Stay::Relaying, StayEvent::Relayed(asker)) => (
            Stay::Asking,
            StayActionView::Send(count_question(asker)),
        ),
        (Stay::Asking, StayEvent::Sent) => (Stay::Over, StayActionView::Await),
        (Stay::Entering, StayEvent::NotSent) | (Stay::Asking, StayEvent::NotSent) => (
            Stay::Over,
            StayActionView::Fail,
        ),
        _ => (stay, StayActionView::Wait),
    }
}

impl Stay {
    /// Begins a stay: the room is told that the player has come.
    pub fn enter(username: &String, channel: u64) -> (res: (Stay, StayAction))
        ensures
            res.0 == Stay::Entering,
            res.1@ == StayActionView::Send(entry(username@, channel)),
    {
        let message = RoomMessage::RoomCommand(RoomCommand::PlayerAdd(username.clone(), channel));
        (Stay::Entering, StayAction::Send(message))
    }

    /// Takes an event, and says how far the stay has come and what is to be done.
    pub fn advance(self, event: StayEvent) -> (res: (Stay, StayAction))
        ensures
            (res.0, res.1@) == stay_after(self, event),
    {
        match (self, event) {
            (Stay::Entering, StayEvent::Sent) => (Stay::Relaying, StayAction::Relay),
            (Stay::Relaying, StayEvent::Relayed(asker)) => (
                Stay::Asking,
                StayAction::Send(ask_count(asker)),
            ),
            (Stay::Asking, StayEvent::Sent) => (Stay::Over, StayAction::Await),
            (Stay::Entering, StayEvent::NotSent) | (Stay::Asking, StayEvent::NotSent) => (
                Stay::Over,
                StayAction::Fail,
            ),
            (stay, _) => (stay, StayAction::Wait),
        }
    }
}

/// Turns a frame into what the room hears of it.
pub fn relay_frame(username: &String, frame: Frame) -> (res: Option<RoomMessage>)
    ensures
        match (res, relayed_frame(username@, frame@)) {
            (Some(message), Some(expected)) => message@ == expected,
            (None, None) => true,
            _ => false,
        },
{
    match frame {
        Frame::Binary(Some(request)) => Some(
            RoomMessage::ClientMessage(username.clone(), request),
        ),
        _ => None,
    }
}

/// What the room hears when the connection ends.
pub fn relay_end(username: &String) -> (res: RoomMessage)
    ensures
        res@ == parting(username@),
{
    RoomMessage::RoomCommand(RoomCommand::PlayerRemove(username.clone()))
}

/// Whatever a client sends, the room hears requests under the player's own name only, and
/// at the end, once, that the player has gone.
pub proof fn law_a_connection_ends_with_parting(username: Seq<char>, frames: Seq<FrameView>)
    ensures
        relayed(username, frames).last() == parting(username),
        forall|i: int|
            0 <= i < relayed(username, frames).len() - 1 ==> ((#[trigger] relayed(
                username,
                frames,
            )[i]) matches RoomMessageView::ClientMessage(name, _) && name == username),
    decreases frames.len(),
{
    if frames.len() > 0 {
        law_a_connection_ends_with_parting(username, frames.drop_last());
        let before = relayed_frames(username, frames.drop_last());
        assert forall|i: int| 0 <= i < before.len() implies ((#[trigger] before[i]) matches
            RoomMessageView::ClientMessage(name, _) && name == username) by {
            assert(relayed(username, frames.drop_last())[i] == before[i]);
        }
    }
}

/// A stay is heard from its beginning to its end: first that the player has come, then
/// requests under the player's own name only, then once that the player has gone, at last
/// the question how many players are left, and nothing else.
pub proof fn law_a_stay_is_heard_in_order(
    username: Seq<char>,
    channel: u64,
    frames: Seq<FrameView>,
    asker: u64,
)
    ensures
        ({
            let all = heard(username, channel, frames, asker);
            let end = all.len() - 1;
            &&& all.len() == relayed_frames(username, frames).len() + 3
            &&& all[0] == entry(username, channel)
            &&& all.subrange(1, end - 1) == relayed_frames(username, frames)
            &&& forall|i: int|
                0 < i < end - 1 ==> ((#[trigger] all[i]) matches RoomMessageView::ClientMessage(
                    name,
                    _,
                ) && name == username)
            &&& all[end - 1] == parting(username)
            &&& all[end] == count_question(asker)
        }),
{
    let all = heard(username, channel, frames, asker);
    let middle = relayed(username, frames);
    let end = all.len() - 1;
    law_a_connection_ends_with_parting(username, frames);
    assert(all.subrange(1, end - 1) =~= relayed_frames(username, frames));
    assert forall|i: int| 0 < i < end - 1 implies ((#[trigger] all[i]) matches
        RoomMessageView::ClientMessage(name, _) && name == username) by {
        assert(all[i] == middle[i - 1]);
    }
}

/// A stay goes its way, from the coming to the question, and fails exactly where one of these
/// two could not be sent: nothing is relayed where the coming was not, and no answer is
/// waited for where the question was not.
pub proof fn law_a_stay_fails_with_its_sends(entered: StayEvent, asked: StayEvent, asker: u64)
    requires
        entered is Sent || entered is NotSent,
        asked is Sent || asked is NotSent,
    ensures
        ({
            let first = stay_after(Stay::Entering, entered);
            let second = stay_after(first.0, StayEvent::Relayed(asker));
            let last = stay_after(second.0, asked);
            &&& entered is NotSent ==> first == (Stay::Over, StayActionView::Fail)
            &&& entered is Sent ==> first.1 == StayActionView::Relay && second.1
                == StayActionView::Send(count_question(asker)) && last == (
                Stay::Over,
                if asked is Sent {
                    StayActionView::Await
                } else {
                    StayActionView::Fail
                },
            )
        }),
{
}

/// A stay that is over stays so, and nothing more is sent.
pub proof fn law_a_stay_ends_once(event: StayEvent)
    ensures
        stay_after(Stay::Over, event) == (Stay::Over, StayActionView::Wait),
{
}

/// Whether a frame holds a request.
pub open spec fn holds_request(frame: FrameView) -> bool {
    frame matches FrameView::Binary(Some(_))
}

/// The room hears of a frame the very request that it holds, under the player's name, and
/// nothing of a frame that holds none.
pub proof fn law_a_request_is_relayed_as_it_is(username: Seq<char>, frame: FrameView)
    ensures
        match frame {
            FrameView::Binary(Some(request)) => relayed_frame(username, frame) matches Some(
                message,
            ) && message == RoomMessageView::ClientMessage(username, request),
            _ => relayed_frame(username, frame) is None,
        },
{
}

/// Every frame that holds a request is relayed, as that same request under the player's name,
/// and in order: before the parting come as many messages as there are such frames, and each
/// carries the request of its own frame. The parting is the player's.
pub proof fn law_every_request_is_relayed(username: Seq<char>, frames: Seq<FrameView>)
    ensures
        ({
            let asked = frames.filter(|frame: FrameView| holds_request(frame));
            let all = relayed(username, frames);
            &&& all.len() == asked.len() + 1
            &&& forall|i: int|
                0 <= i < asked.len() ==> (asked[i] matches FrameView::Binary(Some(request))
                    && #[trigger] all[i] == RoomMessageView::ClientMessage(username, request))
            &&& all[asked.len() as int] == RoomMessageView::RoomCommand(
                RoomCommandView::PlayerRemove(username),
            )
        }),
    decreases frames.len(),
{
    reveal(Seq::filter);
    if frames.len() > 0 {
        law_every_request_is_relayed(username, frames.drop_last());
        let asked = frames.filter(|frame: FrameView| holds_request(frame));
        let before = frames.drop_last().filter(|frame: FrameView| holds_request(frame));
        let earlier = relayed(username, frames.drop_last());
        let all = relayed(username, frames);
        assert forall|i: int| 0 <= i < asked.len() implies (asked[i] matches FrameView::Binary(
            Some(request),
        ) && #[trigger] all[i] == RoomMessageView::ClientMessage(username, request)) by {
            if i < before.len() {
                assert(all[i] == earlier[i]);
                assert(asked[i] == before[i]);
            }
        }
    }
}

/// What a client sends after other frames is heard after them, and takes nothing from what
/// was heard of them: the room hears of the frames together what it hears of the ones and
/// then of the others.
pub proof fn law_later_frames_are_heard_later(
    username: Seq<char>,
    frames: Seq<FrameView>,
    later: Seq<FrameView>,
)
    ensures
        relayed_frames(username, frames + later) == relayed_frames(username, frames)
            + relayed_frames(username, later),
    decreases later.len(),
{
    if later.len() == 0 {
        assert(frames + later =~= frames);
    } else {
        law_later_frames_are_heard_later(username, frames, later.drop_last());
        assert((frames + later).drop_last() =~= frames + later.drop_last());
        assert((frames + later).last() == later.last());
    }
}

/// A stay begins with the player's coming, under the player's name and with the channel that
/// leads to the player, and ends with the player's going and the question how many are left,
/// with the channel that the answer comes by.
pub proof fn law_a_stay_names_its_player(
    username: Seq<char>,
    channel: u64,
    frames: Seq<FrameView>,
    asker: u64,
)
    ensures
        entry(username, channel) == RoomMessageView::RoomCommand(
            RoomCommandView::PlayerAdd(username, channel),
        ),
        parting(username) == RoomMessageView::RoomCommand(RoomCommandView::PlayerRemove(username)),
        count_question(asker) == RoomMessageView::RoomCommand(
            RoomCommandView::PlayerNumQuery(asker),
        ),
        ({
            let all = heard(username, channel, frames, asker);
            &&& all.first() == RoomMessageView::RoomCommand(
                RoomCommandView::PlayerAdd(username, channel),
            )
            &&& all.drop_last().last() == RoomMessageView::RoomCommand(
                RoomCommandView::PlayerRemove(username),
            )
            &&& all.last() == RoomMessageView::RoomCommand(RoomCommandView::PlayerNumQuery(asker))
        }),
{
}

/// An event that a stay does not wait for leaves it as it is: it is only while the room is
/// told or asked something that sending counts, and only while it relays that the end of it
/// does.
pub proof fn law_stray_events_leave_a_stay(stay: Stay, event: StayEvent)
    requires
        stay is Relaying ==> !(event is Relayed),
        stay is Entering || stay is Asking ==> event is Relayed,
    ensures
        stay_after(stay, event) == (stay, StayActionView::Wait),
{
}

} // verus!
