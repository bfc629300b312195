use rengo_server::house::{after_timeout, ask_count, is_empty, House, Timeout};
use rengo_server::login::{Frame, Session, SessionAction, SessionEvent};
use rengo_server::messages::{
    ClientMessage, LoginError, RoomCommand, RoomCreateError, RoomMessage, ServerMessage,
};
use rengo_server::relay::{relay_end, relay_frame, Stay, StayAction, StayEvent};

fn text(s: &str) -> String {
    s.to_owned()
}

fn ask(request: ClientMessage) -> SessionEvent {
    SessionEvent::Frame(Frame::Binary(Some(request)))
}

fn login(username: &str, room_name: &str) -> SessionEvent {
    ask(ClientMessage::Login(text(username), text(room_name)))
}

/// The last action of a course of events.
fn course(events: Vec<SessionEvent>) -> (Session, SessionAction) {
    let mut state = (Session::new(), SessionAction::Wait);
    for event in events {
        state = state.0.advance(event);
    }
    state
}

#[test]
fn long_usernames_are_refused_first() {
    assert_eq!(
        course(vec![login("12345678901234567", "12345678901234567")]),
        (Session::Idle, SessionAction::RefuseLogin(LoginError::UsernameTooLong))
    );
}

#[test]
fn long_room_names_are_refused() {
    assert_eq!(
        course(vec![login("ann", "12345678901234567")]),
        (Session::Idle, SessionAction::RefuseLogin(LoginError::RoomNameTooLong))
    );
}

#[test]
fn names_are_measured_in_characters() {
    assert_eq!(
        course(vec![login("éééééééééééééééé", "1234567890123456")]).1,
        SessionAction::FindRoom(text("1234567890123456"))
    );
    assert_eq!(
        course(vec![login("ééééééééééééééééé", "den")]).1,
        SessionAction::RefuseLogin(LoginError::UsernameTooLong)
    );
}

#[test]
fn rooms_that_do_not_exist_are_named() {
    assert_eq!(
        course(vec![login("ann", "den"), SessionEvent::Found(false)]),
        (Session::Idle, SessionAction::RefuseLogin(LoginError::RoomDoesNotExist(text("den"))))
    );
}

#[test]
fn taken_usernames_are_refused() {
    assert_eq!(
        course(vec![login("ann", "den"), SessionEvent::Found(true)]).1,
        SessionAction::AskName { room_name: text("den"), username: text("ann") }
    );
    assert_eq!(
        course(vec![
            login("ann", "den"),
            SessionEvent::Found(true),
            SessionEvent::Answer(Some(RoomCommand::PlayerQueryResponse(true))),
        ]),
        (Session::Idle, SessionAction::RefuseLogin(LoginError::UsernameTaken))
    );
}

#[test]
fn full_rooms_are_refused() {
    let mut events = vec![
        login("ann", "den"),
        SessionEvent::Found(true),
        SessionEvent::Answer(Some(RoomCommand::PlayerQueryResponse(false))),
        SessionEvent::Answer(Some(RoomCommand::FullQueryResponse(true))),
    ];
    let full = events.pop();
    assert_eq!(course(events).1, SessionAction::AskFull { room_name: text("den") });
    assert_eq!(
        course(vec![
            login("ann", "den"),
            SessionEvent::Found(true),
            SessionEvent::Answer(Some(RoomCommand::PlayerQueryResponse(false))),
            full.unwrap(),
        ]),
        (Session::Idle, SessionAction::RefuseLogin(LoginError::RoomFull))
    );
}

#[test]
fn free_seats_are_entered() {
    assert_eq!(
        course(vec![
            login("ann", "den"),
            SessionEvent::Found(true),
            SessionEvent::Answer(Some(RoomCommand::PlayerQueryResponse(false))),
            SessionEvent::Answer(Some(RoomCommand::FullQueryResponse(false))),
        ]),
        (Session::Over, SessionAction::Enter { room_name: text("den"), username: text("ann") })
    );
}

#[test]
fn silence_admits() {
    assert_eq!(
        course(vec![
            login("ann", "den"),
            SessionEvent::Found(true),
            SessionEvent::Answer(None),
            SessionEvent::Answer(None),
        ])
        .1,
        SessionAction::Enter { room_name: text("den"), username: text("ann") }
    );
}

#[test]
fn refused_clients_may_ask_again() {
    assert_eq!(
        course(vec![
            login("ann", "den"),
            SessionEvent::Found(false),
            ask(ClientMessage::RoomCreate(text("den"), 2, 9, 13)),
            SessionEvent::Found(false),
        ]),
        (
            Session::Opening,
            SessionAction::Open { room_name: text("den"), capacity: 2, size_x: 9, size_y: 13 }
        )
    );
}

#[test]
fn rooms_are_opened_once() {
    let create = || ask(ClientMessage::RoomCreate(text("den"), 2, 9, 13));
    assert_eq!(
        course(vec![create(), SessionEvent::Found(false), SessionEvent::Opened]),
        (Session::Idle, SessionAction::AnswerCreate(Ok(())))
    );
    assert_eq!(
        course(vec![create(), SessionEvent::Found(true)]),
        (Session::Idle, SessionAction::AnswerCreate(Err(RoomCreateError::RoomNameTaken)))
    );
    assert_eq!(
        course(vec![ask(ClientMessage::RoomCreate(text("12345678901234567"), 2, 9, 13))]),
        (Session::Idle, SessionAction::AnswerCreate(Err(RoomCreateError::RoomNameTooLong)))
    );
}

#[test]
fn other_frames_are_passed_over() {
    for frame in vec![Frame::Failed, Frame::Other, Frame::Binary(None)] {
        assert_eq!(
            course(vec![SessionEvent::Frame(frame)]),
            (Session::Idle, SessionAction::Wait)
        );
    }
}

#[test]
fn other_requests_end_the_connection() {
    for request in vec![
        ClientMessage::Place(None),
        ClientMessage::Chat(text("hello")),
        ClientMessage::Other,
    ] {
        assert_eq!(course(vec![ask(request)]), (Session::Over, SessionAction::HangUp));
    }
    assert_eq!(course(vec![SessionEvent::Ended]), (Session::Over, SessionAction::HangUp));
}

#[test]
fn unexpected_events_are_passed_over() {
    assert_eq!(
        course(vec![SessionEvent::Opened, SessionEvent::Found(true)]),
        (Session::Idle, SessionAction::Wait)
    );
}

#[test]
fn refusals_become_messages() {
    let message: Option<ServerMessage<u32, u32, u8>> =
        SessionAction::RefuseLogin(LoginError::RoomFull).into_message();
    assert_eq!(message, Some(ServerMessage::LoginResponse(Err(LoginError::RoomFull))));
    let message: Option<ServerMessage<u32, u32, u8>> =
        SessionAction::AnswerCreate(Ok(())).into_message();
    assert_eq!(message, Some(ServerMessage::RoomCreateResponse(Ok(()))));
    let message: Option<ServerMessage<u32, u32, u8>> = SessionAction::HangUp.into_message();
    assert_eq!(message, None);
}

#[test]
fn requests_are_relayed_under_the_players_name() {
    let ann = text("ann");
    assert_eq!(
        relay_frame(&ann, Frame::Binary(Some(ClientMessage::Chat(text("hello"))))),
        Some(RoomMessage::ClientMessage(text("ann"), ClientMessage::Chat(text("hello"))))
    );
    assert_eq!(relay_frame(&ann, Frame::Binary(None)), None);
    assert_eq!(relay_frame(&ann, Frame::Failed), None);
    assert_eq!(relay_frame(&ann, Frame::Other), None);
    assert_eq!(
        relay_end(&ann),
        RoomMessage::RoomCommand(RoomCommand::PlayerRemove(text("ann")))
    );
}

#[test]
fn opened_rooms_are_found_until_they_are_empty() {
    let mut house: House<u32> = House::new();
    assert!(!house.contains("den"));
    house.open(text("den"), 1);
    house.open(text("hall"), 2);
    assert_eq!(house.get("den"), Some(&1));
    house.open(text("den"), 3);
    assert_eq!(house.get("den"), Some(&3));
    assert!(!house.retire("den", &Some(RoomCommand::PlayerNumQueryResponse(1))));
    assert!(!house.retire("den", &None));
    assert!(house.contains("den"));
    assert!(house.retire("den", &Some(RoomCommand::PlayerNumQueryResponse(0))));
    assert_eq!(house.get("den"), None);
    assert_eq!(house.get("hall"), Some(&2));
}

#[test]
fn only_a_count_of_none_is_empty() {
    assert!(is_empty(&Some(RoomCommand::PlayerNumQueryResponse(0))));
    assert!(!is_empty(&Some(RoomCommand::PlayerNumQueryResponse(2))));
    assert!(!is_empty(&Some(RoomCommand::FullQueryResponse(false))));
    assert!(!is_empty(&None));
}

#[test]
fn rooms_that_nobody_enters_are_shut_down() {
    assert_eq!(
        after_timeout(&Some(RoomCommand::PlayerNumQueryResponse(0))),
        Timeout::Abort
    );
    assert_eq!(
        after_timeout(&Some(RoomCommand::PlayerNumQueryResponse(1))),
        Timeout::Keep
    );
    assert_eq!(after_timeout(&Some(RoomCommand::FullQueryResponse(true))), Timeout::Invalid);
    assert_eq!(after_timeout(&None), Timeout::Invalid);
}

#[test]
fn questions_are_put_to_the_room() {
    let name = SessionAction::AskName { room_name: text("den"), username: text("ann") };
    assert_eq!(
        name.question(4),
        Some(RoomMessage::RoomCommand(RoomCommand::PlayerQuery(4, text("ann"))))
    );
    let full = SessionAction::AskFull { room_name: text("den") };
    assert_eq!(
        full.question(5),
        Some(RoomMessage::RoomCommand(RoomCommand::FullQuery(5)))
    );
    assert_eq!(SessionAction::Wait.question(6), None);
}

#[test]
fn connections_fail_with_their_sends() {
    assert_eq!(
        course(vec![login("ann", "den"), SessionEvent::Found(false), SessionEvent::SendFailed]),
        (Session::Over, SessionAction::Fail)
    );
    assert_eq!(
        course(vec![login("ann", "den"), SessionEvent::Found(true), SessionEvent::SendFailed]),
        (Session::Over, SessionAction::Fail)
    );
    assert_eq!(
        course(vec![SessionEvent::Ended, SessionEvent::SendFailed]),
        (Session::Over, SessionAction::Wait)
    );
}

#[test]
fn stays_go_from_the_coming_to_the_question() {
    let (stay, action) = Stay::enter(&text("ann"), 8);
    assert_eq!(
        action,
        StayAction::Send(RoomMessage::RoomCommand(RoomCommand::PlayerAdd(text("ann"), 8)))
    );
    let (stay, action) = stay.advance(StayEvent::Sent);
    assert_eq!(action, StayAction::Relay);
    let (stay, action) = stay.advance(StayEvent::Relayed(9));
    assert_eq!(
        action,
        StayAction::Send(RoomMessage::RoomCommand(RoomCommand::PlayerNumQuery(9)))
    );
    assert_eq!(stay.advance(StayEvent::Sent), (Stay::Over, StayAction::Await));
    assert_eq!(stay.advance(StayEvent::NotSent), (Stay::Over, StayAction::Fail));
    assert_eq!(stay.advance(StayEvent::Relayed(1)), (Stay::Asking, StayAction::Wait));
}

#[test]
fn stays_that_cannot_begin_fail() {
    let (stay, _) = Stay::enter(&text("ann"), 8);
    let (stay, action) = stay.advance(StayEvent::NotSent);
    assert_eq!((stay, action), (Stay::Over, StayAction::Fail));
    assert_eq!(stay.advance(StayEvent::Sent), (Stay::Over, StayAction::Wait));
}

#[test]
fn rooms_are_asked_for_their_players() {
    assert_eq!(
        ask_count(3),
        RoomMessage::RoomCommand(RoomCommand::PlayerNumQuery(3))
    );
}
