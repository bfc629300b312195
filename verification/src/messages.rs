//! What clients, rooms and connections say to each other.

use vstd::prelude::*;

verus! {

/// The colour of the stones that a player places.
#[derive(Clone, Copy, Debug, PartialEq, Eq, Structural)]
pub enum Stone {
    Black,
    White,
}

/// A point of the board, by column and row.
#[derive(Clone, Copy, Debug, PartialEq, Eq, Structural)]
pub struct Position(pub usize, pub usize);

/// What the clients of a room know of one of its players.
#[derive(Debug, PartialEq, Eq)]
pub struct Player {
    pub username: String,
    pub score: u32,
    pub stone: Stone,
}

/// The model of a [`Player`].
#[verifier::ext_equal]
pub struct PlayerView {
    pub username: Seq<char>,
    pub score: u32,
    pub stone: Stone,
}

impl View for Player {
    type V = PlayerView;

    open spec fn view(&self) -> PlayerView {
        PlayerView { username: self.username@, score: self.score, stone: self.stone }
    }
}

impl Clone for Player {
    fn clone(&self) -> (res: Self)
        ensures
            res == *self,
    {
        Player { username: self.username.clone(), score: self.score, stone: self.stone }
    }
}

/// A request of a client.
#[derive(Debug, PartialEq, Eq)]
pub enum ClientMessage {
    /// Enter a room: the username, then the name of the room.
    Login(String, String),
    /// Open a room: its name, its capacity, and the width and height of its board.
    RoomCreate(String, u8, u8, u8),
    /// Place a stone, or pass.
    Place(Option<Position>),
    /// Say something to the room.
    Chat(String),
    /// Any request that the server does not know.
    Other,
}

/// The model of a [`ClientMessage`].
#[verifier::ext_equal]
pub enum ClientMessageView {
    Login(Seq<char>, Seq<char>),
    RoomCreate(Seq<char>, u8, u8, u8),
    Place(Option<Position>),
    Chat(Seq<char>),
    Other,
}

impl View for ClientMessage {
    type V = ClientMessageView;

    open spec fn view(&self) -> ClientMessageView {
        match *self {
            ClientMessage::Login(username, room_name) => ClientMessageView::Login(
                username@,
                room_name@,
            ),
            ClientMessage::RoomCreate(room_name, capacity, size_x, size_y) =>
                ClientMessageView::RoomCreate(room_name@, capacity, size_x, size_y),
            ClientMessage::Place(action) => ClientMessageView::Place(action),
            ClientMessage::Chat(message) => ClientMessageView::Chat(message@),
            ClientMessage::Other => ClientMessageView::Other,
        }
    }
}

/// Why a login is refused.
#[derive(Debug, PartialEq, Eq)]
pub enum LoginError {
    UsernameTooLong,
    RoomNameTooLong,
    UsernameTaken,
    RoomFull,
    /// There is no room of this name.
    RoomDoesNotExist(String),
}

/// The model of a [`LoginError`].
#[verifier::ext_equal]
pub enum LoginErrorView {
    UsernameTooLong,
    RoomNameTooLong,
    UsernameTaken,
    RoomFull,
    RoomDoesNotExist(Seq<char>),
}

impl View for LoginError {
    type V = LoginErrorView;

    open spec fn view(&self) -> LoginErrorView {
        match *self {
            LoginError::UsernameTooLong => LoginErrorView::UsernameTooLong,
            LoginError::RoomNameTooLong => LoginErrorView::RoomNameTooLong,
            LoginError::UsernameTaken => LoginErrorView::UsernameTaken,
            LoginError::RoomFull => LoginErrorView::RoomFull,
            LoginError::RoomDoesNotExist(room_name) => LoginErrorView::RoomDoesNotExist(room_name@),
        }
    }
}

/// Why a room is not opened.
#[derive(Clone, Copy, Debug, PartialEq, Eq, Structural)]
pub enum RoomCreateError {
    RoomNameTooLong,
    RoomNameTaken,
}

/// Why a move is refused: the player is not on turn, or the board gave an error.
#[derive(Debug, PartialEq, Eq)]
pub enum InvalidMove<E> {
    InvalidTurn,
    Board(E),
}

/// A move that was accepted: the point, unless the player passed, and the player.
#[derive(Debug, PartialEq, Eq)]
pub struct Move(pub Option<Position>, pub Option<String>);

/// The model of a [`Move`].
#[verifier::ext_equal]
pub struct MoveView(pub Option<Position>, pub Option<Seq<char>>);

impl View for Move {
    type V = MoveView;

    open spec fn view(&self) -> MoveView {
        MoveView(
            self.0,
            match self.1 {
                Some(username) => Some(username@),
                None => None,
            },
        )
    }
}

/// A room as a player sees it on entering: who is there, who is on turn, which of them the
/// player is, and the board.
#[derive(Debug, PartialEq, Eq)]
pub struct Room<B> {
    pub players: Vec<(String, Player)>,
    pub current_player: String,
    pub self_player: String,
    pub board: B,
}

/// The model of a [`Room`].
#[verifier::ext_equal]
pub struct RoomView<B> {
    pub players: Seq<(Seq<char>, PlayerView)>,
    pub current_player: Seq<char>,
    pub self_player: Seq<char>,
    pub board: B,
}

/// The model of a list of players.
pub open spec fn roster_view(players: Seq<(String, Player)>) -> Seq<(Seq<char>, PlayerView)> {
    players.map_values(|entry: (String, Player)| (entry.0@, entry.1@))
}

impl<B> View for Room<B> {
    type V = RoomView<B>;

    open spec fn view(&self) -> RoomView<B> {
        RoomView {
            players: roster_view(self.players@),
            current_player: self.current_player@,
            self_player: self.self_player@,
            board: self.board,
        }
    }
}

/// What the server says to a client. The board, the news that the board has of a move and
/// the errors of the board come from the game's rules and are carried through: `B`, `D`
/// and `E` are their types.
#[derive(Debug, PartialEq, Eq)]
pub enum ServerMessage<B, D, E> {
    LoginResponse(Result<Room<B>, LoginError>),
    RoomCreateResponse(Result<(), RoomCreateError>),
    AlreadyLoggedIn,
    PlayerAdd(Player),
    PlayerRemove(String),
    NextTurn(String),
    Chat(String),
    PlaceResponse(Result<Move, InvalidMove<E>>),
    /// One piece of the board's news of a move.
    BoardDelta(D),
}

/// The model of a [`ServerMessage`].
#[verifier::ext_equal]
pub enum ServerMessageView<B, D, E> {
    LoginResponse(Result<RoomView<B>, LoginErrorView>),
    RoomCreateResponse(Result<(), RoomCreateError>),
    AlreadyLoggedIn,
    PlayerAdd(PlayerView),
    PlayerRemove(Seq<char>),
    NextTurn(Seq<char>),
    Chat(Seq<char>),
    PlaceResponse(Result<MoveView, InvalidMove<E>>),
    BoardDelta(D),
}

impl<B, D, E> View for ServerMessage<B, D, E> {
    type V = ServerMessageView<B, D, E>;

    open spec fn view(&self) -> ServerMessageView<B, D, E> {
        match *self {
            ServerMessage::LoginResponse(response) => ServerMessageView::LoginResponse(
                match response {
                    Ok(room) => Ok(room@),
                    Err(error) => Err(error@),
                },
            ),
            ServerMessage::RoomCreateResponse(response) => ServerMessageView::RoomCreateResponse(
                response,
            ),
            ServerMessage::AlreadyLoggedIn => ServerMessageView::AlreadyLoggedIn,
            ServerMessage::PlayerAdd(player) => ServerMessageView::PlayerAdd(player@),
            ServerMessage::PlayerRemove(username) => ServerMessageView::PlayerRemove(username@),
            ServerMessage::NextTurn(username) => ServerMessageView::NextTurn(username@),
            ServerMessage::Chat(message) => ServerMessageView::Chat(message@),
            ServerMessage::PlaceResponse(response) => ServerMessageView::PlaceResponse(
                match response {
                    Ok(accepted) => Ok(accepted@),
                    Err(error) => Err(error),
                },
            ),
            ServerMessage::BoardDelta(delta) => ServerMessageView::BoardDelta(delta),
        }
    }
}

/// A question to a room, the answer to one, or a change of who is in it. A `u64` stands for
/// a channel: in a question the one that the answer goes to, in `PlayerAdd` the one that
/// leads to the player.
#[derive(Debug, PartialEq, Eq)]
pub enum RoomCommand {
    PlayerQuery(u64, String),
    PlayerQueryResponse(bool),
    PlayerNumQuery(u64),
    PlayerNumQueryResponse(u8),
    FullQuery(u64),
    FullQueryResponse(bool),
    PlayerAdd(String, u64),
    PlayerRemove(String),
}

/// The model of a [`RoomCommand`].
#[verifier::ext_equal]
pub enum RoomCommandView {
    PlayerQuery(u64, Seq<char>),
    PlayerQueryResponse(bool),
    PlayerNumQuery(u64),
    PlayerNumQueryResponse(u8),
    FullQuery(u64),
    FullQueryResponse(bool),
    PlayerAdd(Seq<char>, u64),
    PlayerRemove(Seq<char>),
}

impl View for RoomCommand {
    type V = RoomCommandView;

    open spec fn view(&self) -> RoomCommandView {
        match *self {
            RoomCommand::PlayerQuery(asker, username) => RoomCommandView::PlayerQuery(
                asker,
                username@,
            ),
            RoomCommand::PlayerQueryResponse(exists) => RoomCommandView::PlayerQueryResponse(
                exists,
            ),
            RoomCommand::PlayerNumQuery(asker) => RoomCommandView::PlayerNumQuery(asker),
            RoomCommand::PlayerNumQueryResponse(number) => RoomCommandView::PlayerNumQueryResponse(
                number,
            ),
            RoomCommand::FullQuery(asker) => RoomCommandView::FullQuery(asker),
            RoomCommand::FullQueryResponse(full) => RoomCommandView::FullQueryResponse(full),
            RoomCommand::PlayerAdd(username, channel) => RoomCommandView::PlayerAdd(
                username@,
                channel,
            ),
            RoomCommand::PlayerRemove(username) => RoomCommandView::PlayerRemove(username@),
        }
    }
}

/// The model of an answer that may not have come.
pub open spec fn reply_view(reply: Option<RoomCommand>) -> Option<RoomCommandView> {
    match reply {
        Some(command) => Some(command@),
        None => None,
    }
}

/// What a room receives: a client's request, with the name of the player who made it, or a
/// command.
#[derive(Debug, PartialEq, Eq)]
pub enum RoomMessage {
    ClientMessage(String, ClientMessage),
    RoomCommand(RoomCommand),
}

/// The model of a [`RoomMessage`].
#[verifier::ext_equal]
pub enum RoomMessageView {
    ClientMessage(Seq<char>, ClientMessageView),
    RoomCommand(RoomCommandView),
}

impl View for RoomMessage {
    type V = RoomMessageView;

    open spec fn view(&self) -> RoomMessageView {
        match *self {
            RoomMessage::ClientMessage(username, message) => RoomMessageView::ClientMessage(
                username@,
                message@,
            ),
            RoomMessage::RoomCommand(command) => RoomMessageView::RoomCommand(command@),
        }
    }
}

} // verus!
