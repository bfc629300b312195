//! A room: the players at a board, and whose turn it is.

use vstd::prelude::*;
use vstd::string::*;

use crate::messages::{
    ClientMessage, InvalidMove, Move, Player, Position, Room, RoomCommand, RoomMessage,
    ServerMessage, Stone,
};
use crate::messages::{roster_view, RoomMessageView, ServerMessageView};
use crate::model::{
    all_passed, channels, command_step, handled, handled_step, join_actions, joined,
    leave_actions, left, names, opened, outcome_view, pass_actions, passed, request_step, roster,
    seat_of, settle_actions, settled, successor, tell, ActionView, RoomState, SeatView, StepView,
};

verus! {

/// A player at the table.
#[derive(Debug, PartialEq, Eq)]
pub struct Seat {
    /// The name that the room knows the player by.
    pub username: String,
    /// The channel that leads to the player.
    pub channel: u64,
    /// What the clients are told of the player.
    pub player: Player,
    /// Whether the player has passed.
    pub passed: bool,
}

impl View for Seat {
    type V = SeatView;

    open spec fn view(&self) -> SeatView {
        SeatView {
            username: self.username@,
            channel: self.channel,
            player: self.player@,
            passed: self.passed,
        }
    }
}

/// The model of a list of seats.
pub open spec fn seats_view(seats: Seq<Seat>) -> Seq<SeatView> {
    seats.map_values(|seat: Seat| seat@)
}

/// Something that a room asks to be done.
#[derive(Debug, PartialEq, Eq)]
pub enum Action<B, D, E> {
    /// Answer a question on the channel that it came with.
    Reply(u64, RoomCommand),
    /// On each of the channels in turn, send each of the messages in turn.
    Deliver(Vec<u64>, Vec<ServerMessage<B, D, E>>),
    /// Close a channel.
    Close(u64),
}

/// The model of a list of messages.
pub open spec fn messages_view<B, D, E>(messages: Seq<ServerMessage<B, D, E>>) -> Seq<
    ServerMessageView<B, D, E>,
> {
    messages.map_values(|message: ServerMessage<B, D, E>| message@)
}

impl<B, D, E> View for Action<B, D, E> {
    type V = ActionView<B, D, E>;

    open spec fn view(&self) -> ActionView<B, D, E> {
        match *self {
            Action::Reply(asker, command) => ActionView::Reply(asker, command@),
            Action::Deliver(to, messages) => ActionView::Deliver(to@, messages_view(messages@)),
            Action::Close(channel) => ActionView::Close(channel),
        }
    }
}

/// The model of a list of actions.
pub open spec fn actions_view<B, D, E>(actions: Seq<Action<B, D, E>>) -> Seq<
    ActionView<B, D, E>,
> {
    actions.map_values(|action: Action<B, D, E>| action@)
}

/// What is left to do after a room has taken a message.
#[derive(Debug, PartialEq, Eq)]
pub enum RoomStep<B, D, E> {
    /// Perform the actions, in order; the message is dealt with.
    Done(Vec<Action<B, D, E>>),
    /// Find the opposite of the last player's colour, and seat the newcomer with
    /// [`ServerRoom::join`].
    Join { username: String, channel: u64, last: Option<Stone> },
    /// Play the stone on the board, and settle the move with [`ServerRoom::settle`].
    Play { username: String, channel: u64, position: Position, stone: Stone },
}

impl<B, D, E> View for RoomStep<B, D, E> {
    type V = StepView<B, D, E>;

    open spec fn view(&self) -> StepView<B, D, E> {
        match *self {
            RoomStep::Done(actions) => StepView::Done(actions_view(actions@)),
            RoomStep::Join { username, channel, last } => StepView::Join {
                username: username@,
                channel,
                last,
            },
            RoomStep::Play { username, channel, position, stone } => StepView::Play {
                username: username@,
                channel,
                position,
                stone,
            },
        }
    }
}

/// A room. The rules of the game are the board's own: the room keeps it and shows it to
/// those who come, and the application plays on it.
#[derive(Debug, PartialEq, Eq)]
pub struct ServerRoom<B> {
    pub capacity: u8,
    pub board: B,
    pub current_player: String,
    pub players: Vec<Seat>,
}

impl<B> View for ServerRoom<B> {
    type V = RoomState<B>;

    open spec fn view(&self) -> RoomState<B> {
        RoomState {
            capacity: self.capacity,
            board: self.board,
            current_player: self.current_player@,
            players: seats_view(self.players@),
        }
    }
}

impl<B> ServerRoom<B> {
    /// An empty room.
    pub fn new(capacity: u8, board: B) -> (room: Self)
        ensures
            room@ == opened(capacity, board),
    {
        let room = ServerRoom {
            capacity,
            board,
            current_player: String::new(),
            players: Vec::new(),
        };
        assert(room@.players =~= Seq::empty());
        room
    }

    /// The players' channels, in seating order.
    pub fn channels(&self) -> (res: Vec<u64>)
        ensures
            res@ == channels(self@.players),
    {
        let mut res: Vec<u64> = Vec::new();
        let mut i: usize = 0;
        while i < self.players.len()
            invariant
                i <= self.players.len(),
                res@ =~= channels(self@.players).take(i as int),
            decreases self.players.len() - i,
        {
            res.push(self.players[i].channel);
            i += 1;
        }
        assert(channels(self@.players).take(i as int) =~= channels(self@.players));
        res
    }

    /// The seat of a player: of those with this name, the one taken last.
    pub fn find_seat(&self, username: &String) -> (res: Option<usize>)
        ensures
            match (res, seat_of(self@.players, username@)) {
                (Some(seat), Some(expected)) => seat == expected && seat < self.players.len(),
                (None, None) => true,
                _ => false,
            },
    {
        let ghost all = names(self@.players);
        let mut i: usize = self.players.len();
        while i > 0
            invariant
                i <= self.players.len(),
                all == names(self@.players),
                forall|j: int| i <= j < all.len() ==> all[j] != username@,
            decreases i,
        {
            i -= 1;
            assert(all[i as int] == self.players[i as int].username@);
            if self.players[i].username == *username {
                proof {
                    all.index_of_last_ensures(username@);
                }
                return Some(i);
            }
        }
        proof {
            all.index_of_last_ensures(username@);
        }
        None
    }

    /// Who is on turn after a player, or `None` in an empty room.
    pub fn successor(&self, username: &String) -> (res: Option<String>)
        ensures
            match res {
                Some(next) => self.players.len() > 0 && next@ == successor(
                    self@.players,
                    username@,
                ),
                None => self.players.len() == 0,
            },
    {
        if self.players.len() == 0 {
            return None;
        }
        let ghost all = names(self@.players);
        let mut i: usize = 0;
        while i < self.players.len()
            invariant
                i <= self.players.len(),
                all == names(self@.players),
                forall|j: int| 0 <= j < i ==> all[j] != username@,
            ensures
                i <= self.players.len(),
                forall|j: int| 0 <= j < i ==> all[j] != username@,
                i < self.players.len() ==> all[i as int] == username@,
            decreases self.players.len() - i,
        {
            assert(all[i as int] == self.players[i as int].username@);
            if self.players[i].username == *username {
                break;
            }
            i += 1;
        }
        proof {
            all.index_of_first_ensures(username@);
        }
        if i < self.players.len() && i + 1 < self.players.len() {
            Some(self.players[i + 1].username.clone())
        } else {
            Some(self.players[0].username.clone())
        }
    }

    /// The players as a newcomer is shown them, in seating order.
    pub fn roster(&self) -> (res: Vec<(String, Player)>)
        ensures
            roster_view(res@) == roster(self@.players),
    {
        let mut res: Vec<(String, Player)> = Vec::new();
        let mut i: usize = 0;
        while i < self.players.len()
            invariant
                i <= self.players.len(),
                roster_view(res@) =~= roster(self@.players).take(i as int),
            decreases self.players.len() - i,
        {
            let ghost before = res@;
            let entry = (self.players[i].username.clone(), self.players[i].player.clone());
            res.push(entry);
            assert(roster_view(res@) =~= roster_view(before).push((entry.0@, entry.1@)));
            i += 1;
        }
        assert(roster(self@.players).take(i as int) =~= roster(self@.players));
        res
    }

    /// Whether every player has passed.
    pub fn all_passed(&self) -> (res: bool)
        ensures
            res == all_passed(self@.players),
    {
        let mut i: usize = 0;
        while i < self.players.len()
            invariant
                i <= self.players.len(),
                forall|j: int| 0 <= j < i ==> (#[trigger] self@.players[j]).passed,
            decreases self.players.len() - i,
        {
            if !self.players[i].passed {
                assert(!self@.players[i as int].passed);
                return false;
            }
            i += 1;
        }
        true
    }

    /// One message to one player, if the player is there.
    fn tell<D, E>(&self, username: &String, message: ServerMessage<B, D, E>) -> (res: Vec<
        Action<B, D, E>,
    >)
        ensures
            actions_view(res@) == tell(self@.players, username@, message@),
    {
        match self.find_seat(username) {
            Some(seat) => {
                let to = vec![self.players[seat].channel];
                assert(to@ =~= seq![self@.players[seat as int].channel]);
                let messages = vec![message];
                assert(messages_view(messages@) =~= seq![message@]);
                let deliver = Action::Deliver(to, messages);
                let res = vec![deliver];
                assert(actions_view(res@) =~= seq![deliver@]);
                res
            },
            None => {
                let res = Vec::new();
                assert(actions_view(res@) =~= seq![]);
                res
            },
        }
    }

    /// Removes a player.
    fn leave<D, E>(&mut self, username: String) -> (res: Vec<Action<B, D, E>>)
        ensures
            final(self)@ == left(old(self)@, username@),
            actions_view(res@) == leave_actions::<B, D, E>(old(self)@, username@),
    {
        match self.find_seat(&username) {
            Some(seat) => {
                if username == self.current_player {
                    match self.successor(&username) {
                        Some(next) => {
                            self.current_player = next;
                        },
                        None => {},
                    }
                }
                let gone = self.players.remove(seat);
                assert(self@.players =~= old(self)@.players.remove(seat as int));
                let mut text = String::from_str("`");
                text.append(username.as_str());
                text.append("` has left the room");
                let turn = ServerMessage::NextTurn(self.current_player.clone());
                let chat = ServerMessage::Chat(text);
                let removal = ServerMessage::PlayerRemove(username);
                let messages = vec![removal, turn, chat];
                assert(messages_view(messages@) =~= seq![removal@, turn@, chat@]);
                let close = Action::Close(gone.channel);
                let deliver = Action::Deliver(self.channels(), messages);
                let res = vec![close, deliver];
                assert(actions_view(res@) =~= seq![close@, deliver@]);
                res
            },
            None => {
                let res = Vec::new();
                assert(actions_view(res@) =~= seq![]);
                res
            },
        }
    }

    /// The request of the player on turn to pass.
    fn pass<D, E>(&mut self, username: String) -> (res: Vec<Action<B, D, E>>)
        ensures
            final(self)@ == passed(old(self)@, username@),
            actions_view(res@) == pass_actions::<B, D, E>(old(self)@, username@),
    {
        let mut res: Vec<Action<B, D, E>> = Vec::new();
        match self.successor(&username) {
            Some(next) => {
                self.current_player = next;
            },
            None => {
                proof {
                    names(self@.players).index_of_last_ensures(username@);
                }
                assert(actions_view(res@) =~= seq![]);
                return res;
            },
        }
        let ghost before = self@;
        match self.find_seat(&username) {
            Some(seat) => {
                self.players[seat].passed = true;
                assert(self@.players =~= before.players.update(
                    seat as int,
                    SeatView { passed: true, ..before.players[seat as int] },
                ));
                let response = ServerMessage::PlaceResponse(Ok(Move(None, Some(username))));
                let messages = vec![response];
                assert(messages_view(messages@) =~= seq![response@]);
                let to = self.channels();
                let deliver = Action::Deliver(to, messages);
                res.push(deliver);
                assert(actions_view(res@) =~= seq![deliver@]);
                if self.all_passed() {
                    self.close_all(&mut res);
                } else {
                    assert(seq![deliver@] + seq![] =~= seq![deliver@]);
                }
            },
            None => {
                assert(actions_view(res@) =~= seq![]);
            },
        }
        res
    }

    /// Adds to the actions the closing of every channel.
    fn close_all<D, E>(&self, actions: &mut Vec<Action<B, D, E>>)
        ensures
            actions_view(final(actions)@) == actions_view(old(actions)@) + channels(
                self@.players,
            ).map_values(|channel: u64| ActionView::Close(channel)),
    {
        let ghost before = actions_view(actions@);
        let ghost closing = channels(self@.players).map_values(
            |channel: u64| ActionView::<B, D, E>::Close(channel),
        );
        let mut i: usize = 0;
        while i < self.players.len()
            invariant
                i <= self.players.len(),
                closing == channels(self@.players).map_values(
                    |channel: u64| ActionView::<B, D, E>::Close(channel),
                ),
                actions_view(actions@) =~= before + closing.take(i as int),
            decreases self.players.len() - i,
        {
            let ghost prefix = actions_view(actions@);
            let close = Action::Close(self.players[i].channel);
            actions.push(close);
            assert(actions_view(actions@) =~= prefix.push(close@));
            assert(closing.take(i + 1) =~= closing.take(i as int).push(closing[i as int]));
            i += 1;
        }
        assert(closing.take(i as int) =~= closing);
    }

    /// Settles a move of the player on turn, once the board has answered to it: a refusal
    /// goes to the player's channel, and news goes to everybody and passes the turn on.
    pub fn settle<D, E>(
        &mut self,
        username: &String,
        channel: u64,
        outcome: Result<Option<Vec<D>>, E>,
    ) -> (res: Vec<Action<B, D, E>>)
        ensures
            final(self)@ == settled(old(self)@, username@, outcome_view(outcome)),
            actions_view(res@) == settle_actions(
                old(self)@,
                username@,
                channel,
                outcome_view(outcome),
            ),
    {
        let mut res: Vec<Action<B, D, E>> = Vec::new();
        match outcome {
            Err(error) => {
                let response = ServerMessage::PlaceResponse(Err(InvalidMove::Board(error)));
                let messages = vec![response];
                assert(messages_view(messages@) =~= seq![response@]);
                let to = vec![channel];
                assert(to@ =~= seq![channel]);
                let deliver = Action::Deliver(to, messages);
                res.push(deliver);
                assert(actions_view(res@) =~= seq![deliver@]);
            },
            Ok(None) => {
                assert(actions_view(res@) =~= seq![]);
            },
            Ok(Some(deltas)) => {
                match self.successor(username) {
                    Some(next) => {
                        let mut messages = board_news(deltas);
                        let ghost news = messages_view(messages@);
                        let turn = ServerMessage::NextTurn(next.clone());
                        messages.push(turn);
                        assert(messages_view(messages@) =~= news.push(turn@));
                        self.current_player = next;
                        let to = self.channels();
                        let deliver = Action::Deliver(to, messages);
                        res.push(deliver);
                        assert(actions_view(res@) =~= seq![deliver@]);
                    },
                    None => {
                        assert(actions_view(res@) =~= seq![]);
                    },
                }
            },
        }
        res
    }
}

impl<B> ServerRoom<B> {
    /// Takes a command: answers a question, asks for what a newcomer needs, or removes a
    /// player. An answer is no command, and nothing is done about it.
    fn command<D, E>(&mut self, command: RoomCommand) -> (res: RoomStep<B, D, E>)
        ensures
            final(self)@ == handled(old(self)@, RoomMessageView::RoomCommand(command@)),
            res@ == command_step::<B, D, E>(old(self)@, command@),
    {
        match command {
            RoomCommand::FullQuery(asker) => {
                let full = self.players.len() == self.capacity as usize;
                reply(asker, RoomCommand::FullQueryResponse(full))
            },
            RoomCommand::PlayerNumQuery(asker) => {
                let number = (self.players.len() % 256) as u8;
                reply(asker, RoomCommand::PlayerNumQueryResponse(number))
            },
            RoomCommand::PlayerQuery(asker, username) => {
                let exists = self.find_seat(&username).is_some();
                proof {
                    names(self@.players).index_of_last_ensures(username@);
                }
                reply(asker, RoomCommand::PlayerQueryResponse(exists))
            },
            RoomCommand::PlayerAdd(username, channel) => {
                let last = if self.players.len() > 0 {
                    Some(self.players[self.players.len() - 1].player.stone)
                } else {
                    None
                };
                RoomStep::Join { username, channel, last }
            },
            RoomCommand::PlayerRemove(username) => RoomStep::Done(self.leave(username)),
            _ => {
                let actions = Vec::new();
                assert(actions_view(actions@) =~= seq![]);
                RoomStep::Done(actions)
            },
        }
    }

    /// Takes a player's request: to place a stone or to pass, which only the player on turn
    /// may, or to chat. A player who is here already is told so on any other request.
    fn request<D, E>(&mut self, username: String, request: ClientMessage) -> (res: RoomStep<
        B,
        D,
        E,
    >)
        ensures
            final(self)@ == handled(
                old(self)@,
                RoomMessageView::ClientMessage(username@, request@),
            ),
            res@ == request_step::<B, D, E>(old(self)@, username@, request@),
    {
        match request {
            ClientMessage::Place(action) => {
                if username == self.current_player {
                    match action {
                        Some(position) => match self.find_seat(&username) {
                            Some(seat) => {
                                let channel = self.players[seat].channel;
                                let stone = self.players[seat].player.stone;
                                RoomStep::Play { username, channel, position, stone }
                            },
                            None => {
                                let actions = Vec::new();
                                assert(actions_view(actions@) =~= seq![]);
                                RoomStep::Done(actions)
                            },
                        },
                        None => RoomStep::Done(self.pass(username)),
                    }
                } else {
                    RoomStep::Done(
                        self.tell(
                            &username,
                            ServerMessage::PlaceResponse(Err(InvalidMove::InvalidTurn)),
                        ),
                    )
                }
            },
            ClientMessage::Chat(message) => {
                let chat = ServerMessage::Chat(message);
                let messages = vec![chat];
                assert(messages_view(messages@) =~= seq![chat@]);
                let deliver = Action::Deliver(self.channels(), messages);
                let actions = vec![deliver];
                assert(actions_view(actions@) =~= seq![deliver@]);
                RoomStep::Done(actions)
            },
            _ => RoomStep::Done(self.tell(&username, ServerMessage::AlreadyLoggedIn)),
        }
    }

    /// Takes a message, and says what is left to do.
    pub fn handle<D, E>(&mut self, message: RoomMessage) -> (res: RoomStep<B, D, E>)
        ensures
            final(self)@ == handled(old(self)@, message@),
            res@ == handled_step::<B, D, E>(old(self)@, message@),
    {
        match message {
            RoomMessage::RoomCommand(command) => self.command(command),
            RoomMessage::ClientMessage(username, request) => self.request(username, request),
        }
    }
}

/// The step that answers a question.
fn reply<B, D, E>(asker: u64, answer: RoomCommand) -> (res: RoomStep<B, D, E>)
    ensures
        res@ == StepView::<B, D, E>::Done(seq![ActionView::Reply(asker, answer@)]),
{
    let action = Action::Reply(asker, answer);
    let actions = vec![action];
    assert(actions_view(actions@) =~= seq![action@]);
    RoomStep::Done(actions)
}

/// The board's news of a move as messages, in order.
fn board_news<B, D, E>(deltas: Vec<D>) -> (res: Vec<ServerMessage<B, D, E>>)
    ensures
        messages_view(res@) == deltas@.map_values(
            |delta: D| ServerMessageView::<B, D, E>::BoardDelta(delta),
        ),
{
    let mut res: Vec<ServerMessage<B, D, E>> = Vec::new();
    for delta in iter: deltas
        invariant
            res@.len() == iter.index(),
            forall|i: int|
                0 <= i < res@.len() ==> #[trigger] res@[i] == ServerMessage::<
                    B,
                    D,
                    E,
                >::BoardDelta(iter.seq()[i]),
    {
        res.push(ServerMessage::BoardDelta(delta));
    }
    res
}

impl<B: Clone> ServerRoom<B> {
    /// Seats a newcomer. `opposite` is the opposite of the last player's colour, and `None`
    /// in an empty room, where the newcomer plays black. The newcomer is shown a clone of
    /// the board.
    pub fn join<D, E>(&mut self, username: String, channel: u64, opposite: Option<Stone>) -> (res:
        Vec<Action<B, D, E>>)
        ensures
            final(self)@ == joined(old(self)@, username@, channel, opposite),
            exists|board: B|
                cloned(old(self)@.board, board) && actions_view(res@) == #[trigger] join_actions::<
                    B,
                    D,
                    E,
                >(old(self)@, username@, channel, opposite, board),
    {
        let stone = match opposite {
            Some(stone) => stone,
            None => Stone::Black,
        };
        let others = self.channels();
        if self.players.len() == 0 {
            self.current_player = username.clone();
        }
        let player = Player { username: username.clone(), score: 0, stone };
        let mut text = String::from_str("`");
        text.append(username.as_str());
        text.append("` has joined the room");
        let addition = ServerMessage::PlayerAdd(player.clone());
        let chat = ServerMessage::Chat(text);
        let news = vec![addition, chat];
        assert(messages_view(news@) =~= seq![addition@, chat@]);
        let tell_others = Action::Deliver(others, news);

        let seat = Seat { username: username.clone(), channel, player, passed: false };
        self.players.push(seat);
        assert(self@.players =~= old(self)@.players.push(seat@));
        let board = self.board.clone();
        let room = Room {
            players: self.roster(),
            current_player: self.current_player.clone(),
            self_player: username,
            board,
        };
        let response = ServerMessage::LoginResponse(Ok(room));
        let shown = vec![response];
        assert(messages_view(shown@) =~= seq![response@]);
        let to = vec![channel];
        assert(to@ =~= seq![channel]);
        let show = Action::Deliver(to, shown);
        let res = vec![tell_others, show];
        assert(actions_view(res@) =~= seq![tell_others@, show@]);
        assert(actions_view(res@) == join_actions::<B, D, E>(
            old(self)@,
            username@,
            channel,
            opposite,
            board,
        ));
        res
    }
}

} // verus!
