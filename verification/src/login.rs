//! A connection that has not entered a room yet: logins, and the opening of rooms.

use vstd::prelude::*;
use vstd::string::*;

use crate::messages::{
    reply_view, ClientMessageView, LoginErrorView, RoomCommandView, RoomMessageView,
    ServerMessageView,
};
use crate::messages::{
    ClientMessage, LoginError, RoomCommand, RoomCreateError, RoomMessage, ServerMessage,
};
use crate::model::{command_step, names, ActionView, RoomState, StepView};

verus! {

/// How many characters a username or the name of a room may have.
pub const NAME_LIMIT: usize = 16;

/// What comes in from a client's socket.
#[derive(Debug, PartialEq, Eq)]
pub enum Frame {
    /// The socket gave an error.
    Failed,
    /// A binary frame, with the request that it holds if it holds one.
    Binary(Option<ClientMessage>),
    /// A frame of any other kind.
    Other,
}

/// The model of a [`Frame`].
#[verifier::ext_equal]
pub enum FrameView {
    Failed,
    Binary(Option<ClientMessageView>),
    Other,
}

impl View for Frame {
    type V = FrameView;

    open spec fn view(&self) -> FrameView {
        match *self {
            Frame::Failed => FrameView::Failed,
            Frame::Binary(Some(request)) => FrameView::Binary(Some(request@)),
            Frame::Binary(None) => FrameView::Binary(None),
            Frame::Other => FrameView::Other,
        }
    }
}

/// What a connection is waiting for.
#[derive(Debug, PartialEq, Eq)]
pub enum Session {
    /// For a frame.
    Idle,
    /// To hear whether the room of a login exists.
    LoginLookup { username: String, room_name: String },
    /// For the room's answer to whether the username is taken.
    NameQuery { username: String, room_name: String },
    /// For the room's answer to whether it is full.
    FullQuery { username: String, room_name: String },
    /// To hear whether there is a room of the name that a new one is to have.
    CreateLookup { room_name: String, capacity: u8, size_x: u8, size_y: u8 },
    /// For the new room.
    Opening,
    /// For nothing more: the player has entered a room, or the connection is done with.
    Over,
}

/// The model of a [`Session`].
#[verifier::ext_equal]
pub enum SessionView {
    Idle,
    LoginLookup { username: Seq<char>, room_name: Seq<char> },
    NameQuery { username: Seq<char>, room_name: Seq<char> },
    FullQuery { username: Seq<char>, room_name: Seq<char> },
    CreateLookup { room_name: Seq<char>, capacity: u8, size_x: u8, size_y: u8 },
    Opening,
    Over,
}

impl View for Session {
    type V = SessionView;

    open spec fn view(&self) -> SessionView {
        match *self {
            Session::Idle => SessionView::Idle,
            Session::LoginLookup { username, room_name } => SessionView::LoginLookup {
                username: username@,
                room_name: room_name@,
            },
            Session::NameQuery { username, room_name } => SessionView::NameQuery {
                username: username@,
                room_name: room_name@,
            },
            Session::FullQuery { username, room_name } => SessionView::FullQuery {
                username: username@,
                room_name: room_name@,
            },
            Session::CreateLookup { room_name, capacity, size_x, size_y } =>
                SessionView::CreateLookup { room_name: room_name@, capacity, size_x, size_y },
            Session::Opening => SessionView::Opening,
            Session::Over => SessionView::Over,
        }
    }
}

/// What happens to a connection.
#[derive(Debug, PartialEq, Eq)]
pub enum SessionEvent {
    /// A frame came in.
    Frame(Frame),
    /// The client is gone.
    Ended,
    /// Whether the room exists that was looked for.
    Found(bool),
    /// The room's answer, unless none came.
    Answer(Option<RoomCommand>),
    /// The new room is open.
    Opened,
    /// What was to be sent could not be.
    SendFailed,
}

/// The model of a [`SessionEvent`].
#[verifier::ext_equal]
pub enum SessionEventView {
    Frame(FrameView),
    Ended,
    Found(bool),
    Answer(Option<RoomCommandView>),
    Opened,
    SendFailed,
}

impl View for SessionEvent {
    type V = SessionEventView;

    open spec fn view(&self) -> SessionEventView {
        match *self {
            SessionEvent::Frame(frame) => SessionEventView::Frame(frame@),
            SessionEvent::Ended => SessionEventView::Ended,
            SessionEvent::Found(exists) => SessionEventView::Found(exists),
            SessionEvent::Answer(answer) => SessionEventView::Answer(reply_view(answer)),
            SessionEvent::Opened => SessionEventView::Opened,
            SessionEvent::SendFailed => SessionEventView::SendFailed,
        }
    }
}

/// What a connection asks to be done.
#[derive(Debug, PartialEq, Eq)]
pub enum SessionAction {
    /// Wait for what comes next.
    Wait,
    /// Look whether there is a room of this name.
    FindRoom(String),
    /// Ask the room whether the username is taken.
    AskName { room_name: String, username: String },
    /// Ask the room whether it is full.
    AskFull { room_name: String },
    /// Refuse the login, and wait for a frame.
    RefuseLogin(LoginError),
    /// Have the player enter the room.
    Enter { room_name: String, username: String },
    /// Open a room.
    Open { room_name: String, capacity: u8, size_x: u8, size_y: u8 },
    /// Say whether the room was opened, and wait for a frame.
    AnswerCreate(Result<(), RoomCreateError>),
    /// Leave the client.
    HangUp,
    /// Give up: the connection has failed.
    Fail,
}

/// The model of a [`SessionAction`].
#[verifier::ext_equal]
pub enum SessionActionView {
    Wait,
    FindRoom(Seq<char>),
    AskName { room_name: Seq<char>, username: Seq<char> },
    AskFull { room_name: Seq<char> },
    RefuseLogin(LoginErrorView),
    Enter { room_name: Seq<char>, username: Seq<char> },
    Open { room_name: Seq<char>, capacity: u8, size_x: u8, size_y: u8 },
    AnswerCreate(Result<(), RoomCreateError>),
    HangUp,
    Fail,
}

impl View for SessionAction {
    type V = SessionActionView;

    open spec fn view(&self) -> SessionActionView {
        match *self {
            SessionAction::Wait => SessionActionView::Wait,
            SessionAction::FindRoom(room_name) => SessionActionView::FindRoom(room_name@),
            SessionAction::AskName { room_name, username } => SessionActionView::AskName {
                room_name: room_name@,
                username: username@,
            },
            SessionAction::AskFull { room_name } => SessionActionView::AskFull {
                room_name: room_name@,
            },
            SessionAction::RefuseLogin(error) => SessionActionView::RefuseLogin(error@),
            SessionAction::Enter { room_name, username } => SessionActionView::Enter {
                room_name: room_name@,
                username: username@,
            },
            SessionAction::Open { room_name, capacity, size_x, size_y } => SessionActionView::Open {
                room_name: room_name@,
                capacity,
                size_x,
                size_y,
            },
            SessionAction::AnswerCreate(response) => SessionActionView::AnswerCreate(response),
            SessionAction::HangUp => SessionActionView::HangUp,
            SessionAction::Fail => SessionActionView::Fail,
        }
    }
}

/// What a request does to a connection that waits for a frame: names that are too long are
/// refused, the username first; other requests than to enter or to open a room end it.
pub open spec fn requested(request: ClientMessageView) -> (SessionView, SessionActionView) {
    match request {
        ClientMessageView::Login(username, room_name) => if username.len() > NAME_LIMIT {
            (SessionView::Idle, SessionActionView::RefuseLogin(LoginErrorView::UsernameTooLong))
        } else if room_name.len() > NAME_LIMIT {
            (SessionView::Idle, SessionActionView::RefuseLogin(LoginErrorView::RoomNameTooLong))
        } else {
            (
                SessionView::LoginLookup { username, room_name },
                SessionActionView::FindRoom(room_name),
            )
        },
        ClientMessageView::RoomCreate(room_name, capacity, size_x, size_y) => if room_name.len()
            > NAME_LIMIT {
            (
                SessionView::Idle,
                SessionActionView::AnswerCreate(Err(RoomCreateError::RoomNameTooLong)),
            )
        } else {
            (
                SessionView::CreateLookup { room_name, capacity, size_x, size_y },
                SessionActionView::FindRoom(room_name),
            )
        },
        _ => (SessionView::Over, SessionActionView::HangUp),
    }
}

/// What an event does to a connection, and what is to be done. An event that the connection
/// does not wait for leaves it as it is.
pub open spec fn advanced(session: SessionView, event: SessionEventView) -> (
    SessionView,
    SessionActionView,
) {
    match (session, event) {
        (SessionView::Over, _) => (SessionView::Over, SessionActionView::Wait),
        (_, SessionEventView::SendFailed) => (SessionView::Over, SessionActionView::Fail),
        (SessionView::Idle, SessionEventView::Frame(FrameView::Binary(Some(request)))) => requested(
            request,
        ),
        (SessionView::Idle, SessionEventView::Ended) => (
            SessionView::Over,
            SessionActionView::HangUp,
        ),
        (SessionView::LoginLookup { username, room_name }, SessionEventView::Found(true)) => (
            SessionView::NameQuery { username, room_name },
            SessionActionView::AskName { room_name, username },
        ),
        (SessionView::LoginLookup { username, room_name }, SessionEventView::Found(false)) => (
            SessionView::Idle,
            SessionActionView::RefuseLogin(LoginErrorView::RoomDoesNotExist(room_name)),
        ),
        (SessionView::NameQuery { username, room_name }, SessionEventView::Answer(answer)) =>
            if answer == Some(RoomCommandView::PlayerQueryResponse(true)) {
                (SessionView::Idle, SessionActionView::RefuseLogin(LoginErrorView::UsernameTaken))
            } else {
                (
                    SessionView::FullQuery { username, room_name },
                    SessionActionView::AskFull { room_name },
                )
            },
        (SessionView::FullQuery { username, room_name }, SessionEventView::Answer(answer)) =>
            if answer == Some(RoomCommandView::FullQueryResponse(true)) {
                (SessionView::Idle, SessionActionView::RefuseLogin(LoginErrorView::RoomFull))
            } else {
                (SessionView::Over, SessionActionView::Enter { room_name, username })
            },
        (SessionView::CreateLookup { .. }, SessionEventView::Found(true)) => (
            SessionView::Idle,
            SessionActionView::AnswerCreate(Err(RoomCreateError::RoomNameTaken)),
        ),
        (
            SessionView::CreateLookup { room_name, capacity, size_x, size_y },
            SessionEventView::Found(false),
        ) => (
            SessionView::Opening,
            SessionActionView::Open { room_name, capacity, size_x, size_y },
        ),
        (SessionView::Opening, SessionEventView::Opened) => (
            SessionView::Idle,
            SessionActionView::AnswerCreate(Ok(())),
        ),
        _ => (session, SessionActionView::Wait),
    }
}

/// Takes a request of a client that has not entered a room.
fn take_request(request: ClientMessage) -> (res: (Session, SessionAction))
    ensures
        (res.0@, res.1@) == requested(request@),
{
    match request {
        ClientMessage::Login(username, room_name) => {
            if username.as_str().unicode_len() > NAME_LIMIT {
                (Session::Idle, SessionAction::RefuseLogin(LoginError::UsernameTooLong))
            } else if room_name.as_str().unicode_len() > NAME_LIMIT {
                (Session::Idle, SessionAction::RefuseLogin(LoginError::RoomNameTooLong))
            } else {
                let sought = room_name.clone();
                (Session::LoginLookup { username, room_name }, SessionAction::FindRoom(sought))
            }
        },
        ClientMessage::RoomCreate(room_name, capacity, size_x, size_y) => {
            if room_name.as_str().unicode_len() > NAME_LIMIT {
                (Session::Idle, SessionAction::AnswerCreate(Err(RoomCreateError::RoomNameTooLong)))
            } else {
                let sought = room_name.clone();
                (
                    Session::CreateLookup { room_name, capacity, size_x, size_y },
                    SessionAction::FindRoom(sought),
                )
            }
        },
        _ => (Session::Over, SessionAction::HangUp),
    }
}

impl Session {
    /// A connection that has just been accepted.
    pub fn new() -> (session: Self)
        ensures
            session@ == SessionView::Idle,
    {
        Session::Idle
    }

    /// Takes an event, and says what the connection waits for next and what is to be done.
    pub fn advance(self, event: SessionEvent) -> (res: (Session, SessionAction))
        ensures
            (res.0@, res.1@) == advanced(self@, event@),
    {
        match (self, event) {
            (Session::Over, _) => (Session::Over, SessionAction::Wait),
            (_, SessionEvent::SendFailed) => (Session::Over, SessionAction::Fail),
            (Session::Idle, SessionEvent::Frame(Frame::Binary(Some(request)))) => take_request(
                request,
            ),
            (Session::Idle, SessionEvent::Ended) => (Session::Over, SessionAction::HangUp),
            (Session::LoginLookup { username, room_name }, SessionEvent::Found(exists)) => {
                if exists {
                    let action = SessionAction::AskName {
                        room_name: room_name.clone(),
                        username: username.clone(),
                    };
                    (Session::NameQuery { username, room_name }, action)
                } else {
                    (
                        Session::Idle,
                        SessionAction::RefuseLogin(LoginError::RoomDoesNotExist(room_name)),
                    )
                }
            },
            (Session::NameQuery { username, room_name }, SessionEvent::Answer(answer)) => {
                match answer {
                    Some(RoomCommand::PlayerQueryResponse(true)) => (
                        Session::Idle,
                        SessionAction::RefuseLogin(LoginError::UsernameTaken),
                    ),
                    _ => {
                        let action = SessionAction::AskFull { room_name: room_name.clone() };
                        (Session::FullQuery { username, room_name }, action)
                    },
                }
            },
            (Session::FullQuery { username, room_name }, SessionEvent::Answer(answer)) => {
                match answer {
                    Some(RoomCommand::FullQueryResponse(true)) => (
                        Session::Idle,
                        SessionAction::RefuseLogin(LoginError::RoomFull),
                    ),
                    _ => (Session::Over, SessionAction::Enter { room_name, username }),
                }
            },
            (
                Session::CreateLookup { room_name, capacity, size_x, size_y },
                SessionEvent::Found(exists),
            ) => {
                if exists {
                    (
                        Session::Idle,
                        SessionAction::AnswerCreate(Err(RoomCreateError::RoomNameTaken)),
                    )
                } else {
                    (Session::Opening, SessionAction::Open { room_name, capacity, size_x, size_y })
                }
            },
            (Session::Opening, SessionEvent::Opened) => (
                Session::Idle,
                SessionAction::AnswerCreate(Ok(())),
            ),
            (session, _) => (session, SessionAction::Wait),
        }
    }
}

impl SessionAction {
    /// The question that goes to the room, if the action is to ask one, with the channel that
    /// the answer comes by.
    pub fn question(&self, asker: u64) -> (res: Option<RoomMessage>)
        ensures
            match (res, self@) {
                (Some(message), SessionActionView::AskName { username, .. }) => message@
                    == RoomMessageView::RoomCommand(RoomCommandView::PlayerQuery(asker, username)),
                (Some(message), SessionActionView::AskFull { .. }) => message@
                    == RoomMessageView::RoomCommand(RoomCommandView::FullQuery(asker)),
                (None, action) => !(action is AskName) && !(action is AskFull),
                _ => false,
            },
    {
        match self {
            SessionAction::AskName { username, .. } => Some(
                RoomMessage::RoomCommand(RoomCommand::PlayerQuery(asker, username.clone())),
            ),
            SessionAction::AskFull { .. } => Some(
                RoomMessage::RoomCommand(RoomCommand::FullQuery(asker)),
            ),
            _ => None,
        }
    }

    /// The message that goes to the client, if the action is to send one.
    pub fn into_message<B, D, E>(self) -> (res: Option<ServerMessage<B, D, E>>)
        ensures
            match (res, self@) {
                (Some(message), SessionActionView::RefuseLogin(error)) => message@
                    == ServerMessageView::<B, D, E>::LoginResponse(Err(error)),
                (Some(message), SessionActionView::AnswerCreate(response)) => message@
                    == ServerMessageView::<B, D, E>::RoomCreateResponse(response),
                (None, action) => !(action is RefuseLogin) && !(action is AnswerCreate),
                _ => false,
            },
    {
        match self {
            SessionAction::RefuseLogin(error) => Some(ServerMessage::LoginResponse(Err(error))),
            SessionAction::AnswerCreate(response) => Some(
                ServerMessage::RoomCreateResponse(response),
            ),
            _ => None,
        }
    }
}

/// How a request ends, where these are the events that follow it, in order: they are taken
/// until the connection waits for a frame again, or for nothing more.
pub open spec fn course(
    state: (SessionView, SessionActionView),
    events: Seq<SessionEventView>,
) -> (SessionView, SessionActionView)
    decreases events.len(),
{
    if state.0 is Idle || state.0 is Over || events.len() == 0 {
        state
    } else {
        course(advanced(state.0, events.first()), events.drop_first())
    }
}

/// The frame with this request, from a client that has not entered a room.
pub open spec fn begun(request: ClientMessageView) -> (SessionView, SessionActionView) {
    advanced(SessionView::Idle, SessionEventView::Frame(FrameView::Binary(Some(request))))
}

/// Why a login is refused, if it is: names that are too long, no such room, a username that
/// a player of the room has, a full room, in this order.
pub open spec fn login_fault<B>(
    username: Seq<char>,
    room_name: Seq<char>,
    room: Option<RoomState<B>>,
) -> Option<LoginErrorView> {
    if username.len() > NAME_LIMIT {
        Some(LoginErrorView::UsernameTooLong)
    } else if room_name.len() > NAME_LIMIT {
        Some(LoginErrorView::RoomNameTooLong)
    } else {
        match room {
            None => Some(LoginErrorView::RoomDoesNotExist(room_name)),
            Some(room) => if names(room.players).contains(username) {
                Some(LoginErrorView::UsernameTaken)
            } else if room.players.len() == room.capacity {
                Some(LoginErrorView::RoomFull)
            } else {
                None
            },
        }
    }
}

/// What a room answers to a question, and `None` to a command that it does not answer.
pub open spec fn answer_to<B>(room: RoomState<B>, question: RoomCommandView) -> Option<
    RoomCommandView,
> {
    match command_step::<B, (), ()>(room, question) {
        StepView::Done(actions) if actions.len() > 0 => match actions[0] {
            ActionView::Reply(_, answer) => Some(answer),
            _ => None,
        },
        _ => None,
    }
}

/// A login ends with exactly the refusal that is due, after which the client may ask again,
/// or with the player entering the room: here the connection hears whether the room exists,
/// and the room's own answers.
pub proof fn law_login_is_answered_as_due<B>(
    username: Seq<char>,
    room_name: Seq<char>,
    room: Option<RoomState<B>>,
    asker: u64,
)
    ensures
        ({
            let events = match room {
                Some(room) => seq![
                    SessionEventView::Found(true),
                    SessionEventView::Answer(
                        answer_to(room, RoomCommandView::PlayerQuery(asker, username)),
                    ),
                    SessionEventView::Answer(answer_to(room, RoomCommandView::FullQuery(asker))),
                ],
                None => seq![SessionEventView::Found(false)],
            };
            course(begun(ClientMessageView::Login(username, room_name)), events) == match login_fault(
                username,
                room_name,
                room,
            ) {
                Some(error) => (SessionView::Idle, SessionActionView::RefuseLogin(error)),
                None => (SessionView::Over, SessionActionView::Enter { room_name, username }),
            }
        }),
{
    reveal_with_fuel(course, 4);
    let start = begun(ClientMessageView::Login(username, room_name));
    match room {
        Some(room) => {
            let name_answer = SessionEventView::Answer(
                answer_to(room, RoomCommandView::PlayerQuery(asker, username)),
            );
            let full_answer = SessionEventView::Answer(
                answer_to(room, RoomCommandView::FullQuery(asker)),
            );
            let events = seq![SessionEventView::Found(true), name_answer, full_answer];
            assert(events.drop_first() =~= seq![name_answer, full_answer]);
            assert(events.drop_first().drop_first() =~= seq![full_answer]);
        },
        None => {},
    }
}

/// A room that does not answer refuses nobody.
pub proof fn law_silence_admits(username: Seq<char>, room_name: Seq<char>)
    requires
        username.len() <= NAME_LIMIT,
        room_name.len() <= NAME_LIMIT,
    ensures
        course(
            begun(ClientMessageView::Login(username, room_name)),
            seq![
                SessionEventView::Found(true),
                SessionEventView::Answer(None),
                SessionEventView::Answer(None),
            ],
        ) == (SessionView::Over, SessionActionView::Enter { room_name, username }),
{
    reveal_with_fuel(course, 4);
    let events = seq![
        SessionEventView::Found(true),
        SessionEventView::Answer(None),
        SessionEventView::Answer(None),
    ];
    assert(events.drop_first() =~= seq![
        SessionEventView::Answer(None),
        SessionEventView::Answer(None),
    ]);
    assert(events.drop_first().drop_first() =~= seq![SessionEventView::Answer(None)]);
}

/// A room is opened exactly where its name is short enough and free, and the client hears
/// which of the two it is not.
pub proof fn law_opening_is_answered_as_due(
    room_name: Seq<char>,
    capacity: u8,
    size_x: u8,
    size_y: u8,
    taken: bool,
)
    ensures
        ({
            let looked = course(
                begun(ClientMessageView::RoomCreate(room_name, capacity, size_x, size_y)),
                seq![SessionEventView::Found(taken)],
            );
            if room_name.len() > NAME_LIMIT {
                looked == (
                    SessionView::Idle,
                    SessionActionView::AnswerCreate(Err(RoomCreateError::RoomNameTooLong)),
                )
            } else if taken {
                looked == (
                    SessionView::Idle,
                    SessionActionView::AnswerCreate(Err(RoomCreateError::RoomNameTaken)),
                )
            } else {
                &&& looked.1 == SessionActionView::Open { room_name, capacity, size_x, size_y }
                &&& advanced(looked.0, SessionEventView::Opened) == (
                    SessionView::Idle,
                    SessionActionView::AnswerCreate(Ok(())),
                )
            }
        }),
{
    reveal_with_fuel(course, 2);
}

/// Frames without a request, and errors of the socket, are passed over; any other request
/// than to enter or to open a room ends the connection.
pub proof fn law_other_frames(frame: FrameView)
    ensures
        !(frame matches FrameView::Binary(Some(_))) ==> advanced(
            SessionView::Idle,
            SessionEventView::Frame(frame),
        ) == (SessionView::Idle, SessionActionView::Wait),
        frame matches FrameView::Binary(Some(request)) ==> !(request is Login) && !(
        request is RoomCreate) ==> advanced(SessionView::Idle, SessionEventView::Frame(frame)) == (
            SessionView::Over,
            SessionActionView::HangUp,
        ),
{
}

/// A connection after a course of events.
pub open spec fn session_after(events: Seq<SessionEventView>) -> SessionView
    decreases events.len(),
{
    if events.len() == 0 {
        SessionView::Idle
    } else {
        advanced(session_after(events.drop_last()), events.last()).0
    }
}

/// Whether the names that a connection has in hand are short enough.
pub open spec fn names_fit(session: SessionView) -> bool {
    match session {
        SessionView::LoginLookup { username, room_name } => username.len() <= NAME_LIMIT
            && room_name.len() <= NAME_LIMIT,
        SessionView::NameQuery { username, room_name } => username.len() <= NAME_LIMIT
            && room_name.len() <= NAME_LIMIT,
        SessionView::FullQuery { username, room_name } => username.len() <= NAME_LIMIT
            && room_name.len() <= NAME_LIMIT,
        SessionView::CreateLookup { room_name, .. } => room_name.len() <= NAME_LIMIT,
        _ => true,
    }
}

/// Whatever happens to a connection, nobody enters a room and no room is opened with a name
/// that is too long.
pub proof fn law_no_long_name_gets_in(events: Seq<SessionEventView>, event: SessionEventView)
    ensures
        names_fit(session_after(events)),
        match advanced(session_after(events), event).1 {
            SessionActionView::Enter { room_name, username } => username.len() <= NAME_LIMIT
                && room_name.len() <= NAME_LIMIT,
            SessionActionView::Open { room_name, .. } => room_name.len() <= NAME_LIMIT,
            _ => true,
        },
    decreases events.len(),
{
    if events.len() > 0 {
        law_no_long_name_gets_in(events.drop_last(), events.last());
    }
}

/// A connection that is not over fails exactly when something could not be sent.
pub proof fn law_a_connection_fails_with_its_sends(session: SessionView, event: SessionEventView)
    requires
        !(session is Over),
    ensures
        advanced(session, event).1 == SessionActionView::Fail <==> event is SendFailed,
        event is SendFailed ==> advanced(session, event).0 == SessionView::Over,
{
}

/// A connection that is over stays so, and nothing more is done for it.
pub proof fn law_over_is_over(event: SessionEventView)
    ensures
        advanced(SessionView::Over, event) == (SessionView::Over, SessionActionView::Wait),
{
}

} // verus!
