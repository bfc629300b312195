use rengo_server::messages::{
    ClientMessage, InvalidMove, Move, Player, Position, Room, RoomCommand, RoomMessage,
    ServerMessage, Stone,
};
use rengo_server::room::{Action, RoomStep, Seat, ServerRoom};

type Act = Action<u32, u32, u8>;
type Step = RoomStep<u32, u32, u8>;

fn text(s: &str) -> String {
    s.to_owned()
}

fn player(username: &str, stone: Stone) -> Player {
    Player { username: text(username), score: 0, stone }
}

fn seat(username: &str, channel: u64, stone: Stone, passed: bool) -> Seat {
    Seat { username: text(username), channel, player: player(username, stone), passed }
}

fn room_of(current: &str, players: Vec<Seat>) -> ServerRoom<u32> {
    ServerRoom { capacity: 3, board: 7, current_player: text(current), players }
}

fn three() -> ServerRoom<u32> {
    room_of(
        "ann",
        vec![
            seat("ann", 1, Stone::Black, false),
            seat("bob", 2, Stone::White, false),
            seat("cyd", 3, Stone::Black, false),
        ],
    )
}

fn command(command: RoomCommand) -> RoomMessage {
    RoomMessage::RoomCommand(command)
}

fn request(username: &str, request: ClientMessage) -> RoomMessage {
    RoomMessage::ClientMessage(text(username), request)
}

fn pass(username: &str) -> RoomMessage {
    request(username, ClientMessage::Place(None))
}

fn done(step: Step) -> Vec<Act> {
    match step {
        RoomStep::Done(actions) => actions,
        other => panic!("not done: {:?}", other),
    }
}

#[test]
fn new_room_is_empty() {
    let room: ServerRoom<u32> = ServerRoom::new(2, 7);
    assert_eq!(room.players.len(), 0);
    assert_eq!(room.capacity, 2);
    assert_eq!(room.board, 7);
    assert_eq!(room.current_player, "");
}

#[test]
fn newcomer_to_an_empty_room_plays_black_and_is_on_turn() {
    let mut room: ServerRoom<u32> = ServerRoom::new(2, 7);
    let step: Step = room.handle(command(RoomCommand::PlayerAdd(text("ann"), 5)));
    assert_eq!(step, RoomStep::Join { username: text("ann"), channel: 5, last: None });
    assert_eq!(room.players.len(), 0);

    let actions: Vec<Act> = room.join(text("ann"), 5, None);
    assert_eq!(room.current_player, "ann");
    assert_eq!(room.players, vec![seat("ann", 5, Stone::Black, false)]);
    assert_eq!(
        actions,
        vec![
            Action::Deliver(
                vec![],
                vec![
                    ServerMessage::PlayerAdd(player("ann", Stone::Black)),
                    ServerMessage::Chat(text("`ann` has joined the room")),
                ],
            ),
            Action::Deliver(
                vec![5],
                vec![ServerMessage::LoginResponse(Ok(Room {
                    players: vec![(text("ann"), player("ann", Stone::Black))],
                    current_player: text("ann"),
                    self_player: text("ann"),
                    board: 7,
                }))],
            ),
        ]
    );
}

#[test]
fn newcomer_takes_the_opposite_of_the_last_colour() {
    let mut room = room_of("ann", vec![seat("ann", 1, Stone::Black, true)]);
    let step: Step = room.handle(command(RoomCommand::PlayerAdd(text("bob"), 2)));
    assert_eq!(
        step,
        RoomStep::Join { username: text("bob"), channel: 2, last: Some(Stone::Black) }
    );
    let actions: Vec<Act> = room.join(text("bob"), 2, Some(Stone::White));
    assert_eq!(room.current_player, "ann");
    assert_eq!(room.players[1], seat("bob", 2, Stone::White, false));
    assert_eq!(
        actions[0],
        Action::Deliver(
            vec![1],
            vec![
                ServerMessage::PlayerAdd(player("bob", Stone::White)),
                ServerMessage::Chat(text("`bob` has joined the room")),
            ],
        )
    );
    match &actions[1] {
        Action::Deliver(to, messages) => {
            assert_eq!(*to, vec![2]);
            match &messages[0] {
                ServerMessage::LoginResponse(Ok(shown)) => {
                    assert_eq!(shown.players.len(), 2);
                    assert_eq!(shown.current_player, "ann");
                    assert_eq!(shown.self_player, "bob");
                }
                other => panic!("no login response: {:?}", other),
            }
        }
        other => panic!("nothing delivered: {:?}", other),
    }
}

#[test]
fn questions_are_answered_and_change_nothing() {
    let mut room = three();
    assert_eq!(
        done(room.handle(command(RoomCommand::FullQuery(9)))),
        vec![Action::Reply(9, RoomCommand::FullQueryResponse(true))]
    );
    assert_eq!(
        done(room.handle(command(RoomCommand::PlayerNumQuery(8)))),
        vec![Action::Reply(8, RoomCommand::PlayerNumQueryResponse(3))]
    );
    assert_eq!(
        done(room.handle(command(RoomCommand::PlayerQuery(7, text("bob"))))),
        vec![Action::Reply(7, RoomCommand::PlayerQueryResponse(true))]
    );
    assert_eq!(
        done(room.handle(command(RoomCommand::PlayerQuery(7, text("dan"))))),
        vec![Action::Reply(7, RoomCommand::PlayerQueryResponse(false))]
    );
    assert_eq!(room, three());
    room.capacity = 4;
    assert_eq!(
        done(room.handle(command(RoomCommand::FullQuery(9)))),
        vec![Action::Reply(9, RoomCommand::FullQueryResponse(false))]
    );
}

#[test]
fn number_of_players_is_a_byte() {
    let mut room: ServerRoom<u32> = ServerRoom::new(255, 0);
    for i in 0..257u64 {
        let _: Vec<Act> = room.join(format!("p{}", i), i, Some(Stone::White));
        if i == 255 {
            assert_eq!(
                done(room.handle(command(RoomCommand::PlayerNumQuery(0)))),
                vec![Action::Reply(0, RoomCommand::PlayerNumQueryResponse(0))]
            );
        }
    }
    assert_eq!(
        done(room.handle(command(RoomCommand::PlayerNumQuery(0)))),
        vec![Action::Reply(0, RoomCommand::PlayerNumQueryResponse(1))]
    );
    assert_eq!(
        done(room.handle(command(RoomCommand::FullQuery(0)))),
        vec![Action::Reply(0, RoomCommand::FullQueryResponse(false))]
    );
}

#[test]
fn answers_are_no_commands() {
    let mut room = three();
    for answer in vec![
        RoomCommand::FullQueryResponse(true),
        RoomCommand::PlayerNumQueryResponse(1),
        RoomCommand::PlayerQueryResponse(true),
    ] {
        assert_eq!(done(room.handle(command(answer))), vec![]);
    }
    assert_eq!(room, three());
}

#[test]
fn leaving_on_turn_passes_the_turn_on() {
    let mut room = three();
    let actions = done(room.handle(command(RoomCommand::PlayerRemove(text("ann")))));
    assert_eq!(room.current_player, "bob");
    assert_eq!(room.players.len(), 2);
    assert_eq!(
        actions,
        vec![
            Action::Close(1),
            Action::Deliver(
                vec![2, 3],
                vec![
                    ServerMessage::PlayerRemove(text("ann")),
                    ServerMessage::NextTurn(text("bob")),
                    ServerMessage::Chat(text("`ann` has left the room")),
                ],
            ),
        ]
    );
}

#[test]
fn leaving_from_the_last_seat_passes_the_turn_to_the_first() {
    let mut room = three();
    room.current_player = text("cyd");
    done(room.handle(command(RoomCommand::PlayerRemove(text("cyd")))));
    assert_eq!(room.current_player, "ann");
}

#[test]
fn leaving_out_of_turn_keeps_the_turn() {
    let mut room = three();
    done(room.handle(command(RoomCommand::PlayerRemove(text("bob")))));
    assert_eq!(room.current_player, "ann");
    assert_eq!(
        room.players,
        vec![seat("ann", 1, Stone::Black, false), seat("cyd", 3, Stone::Black, false)]
    );
}

#[test]
fn last_player_leaves_an_empty_room() {
    let mut room = room_of("ann", vec![seat("ann", 1, Stone::Black, false)]);
    let actions = done(room.handle(command(RoomCommand::PlayerRemove(text("ann")))));
    assert_eq!(room.players, vec![]);
    assert_eq!(room.current_player, "ann");
    assert_eq!(actions.len(), 2);
    assert_eq!(actions[0], Action::Close(1));
    assert_eq!(
        done(room.handle(command(RoomCommand::PlayerNumQuery(4)))),
        vec![Action::Reply(4, RoomCommand::PlayerNumQueryResponse(0))]
    );
    assert_eq!(done(room.handle(pass("ann"))), vec![]);
    assert_eq!(
        done(room.handle(request("ann", ClientMessage::Place(Some(Position(0, 0)))))),
        vec![]
    );
}

#[test]
fn strangers_cannot_leave() {
    let mut room = three();
    assert_eq!(done(room.handle(command(RoomCommand::PlayerRemove(text("dan"))))), vec![]);
    assert_eq!(room, three());
}

#[test]
fn of_two_namesakes_the_later_one_leaves() {
    let mut room = room_of(
        "ann",
        vec![
            seat("ann", 1, Stone::Black, false),
            seat("bob", 2, Stone::White, false),
            seat("ann", 3, Stone::Black, false),
        ],
    );
    let actions = done(room.handle(command(RoomCommand::PlayerRemove(text("ann")))));
    assert_eq!(actions[0], Action::Close(3));
    assert_eq!(room.players.len(), 2);
    assert_eq!(room.players[0].channel, 1);
    assert_eq!(room.current_player, "bob");
}

#[test]
fn leaving_undoes_joining() {
    let mut room = three();
    let _: Vec<Act> = room.join(text("dan"), 4, Some(Stone::White));
    assert_eq!(room.players.len(), 4);
    done(room.handle(command(RoomCommand::PlayerRemove(text("dan")))));
    assert_eq!(room, three());
}

#[test]
fn stone_of_the_player_on_turn_is_played() {
    let mut room = three();
    room.current_player = text("bob");
    let step: Step = room.handle(request("bob", ClientMessage::Place(Some(Position(3, 4)))));
    assert_eq!(
        step,
        RoomStep::Play {
            username: text("bob"),
            channel: 2,
            position: Position(3, 4),
            stone: Stone::White,
        }
    );
    assert_eq!(room.current_player, "bob");
}

#[test]
fn nobody_moves_out_of_turn() {
    let mut room = three();
    for action in vec![None, Some(Position(0, 0))] {
        assert_eq!(
            done(room.handle(request("bob", ClientMessage::Place(action)))),
            vec![Action::Deliver(
                vec![2],
                vec![ServerMessage::PlaceResponse(Err(InvalidMove::InvalidTurn))],
            )]
        );
        assert_eq!(done(room.handle(request("dan", ClientMessage::Place(action)))), vec![]);
    }
    assert_eq!(room, three());
}

#[test]
fn refused_move_goes_to_the_mover_alone() {
    let mut room = three();
    let actions: Vec<Act> = room.settle(&text("ann"), 1, Err(42));
    assert_eq!(
        actions,
        vec![Action::Deliver(
            vec![1],
            vec![ServerMessage::PlaceResponse(Err(InvalidMove::Board(42)))],
        )]
    );
    assert_eq!(room, three());
}

#[test]
fn move_without_news_changes_nothing() {
    let mut room = three();
    let actions: Vec<Act> = room.settle(&text("ann"), 1, Ok(None));
    assert_eq!(actions, vec![]);
    assert_eq!(room, three());
}

#[test]
fn accepted_move_goes_to_everybody_and_passes_the_turn_on() {
    let mut room = three();
    let actions: Vec<Act> = room.settle(&text("ann"), 1, Ok(Some(vec![10, 11])));
    assert_eq!(
        actions,
        vec![Action::Deliver(
            vec![1, 2, 3],
            vec![
                ServerMessage::BoardDelta(10),
                ServerMessage::BoardDelta(11),
                ServerMessage::NextTurn(text("bob")),
            ],
        )]
    );
    assert_eq!(room.current_player, "bob");
    let actions: Vec<Act> = room.settle(&text("cyd"), 3, Ok(Some(vec![])));
    assert_eq!(
        actions,
        vec![Action::Deliver(vec![1, 2, 3], vec![ServerMessage::NextTurn(text("ann"))])]
    );
    let mut empty: ServerRoom<u32> = ServerRoom::new(2, 0);
    let actions: Vec<Act> = empty.settle(&text("ann"), 1, Ok(Some(vec![10])));
    assert_eq!(actions, vec![]);
}

#[test]
fn pass_is_told_to_everybody() {
    let mut room = three();
    let actions = done(room.handle(pass("ann")));
    assert_eq!(
        actions,
        vec![Action::Deliver(
            vec![1, 2, 3],
            vec![ServerMessage::PlaceResponse(Ok(Move(None, Some(text("ann")))))],
        )]
    );
    assert_eq!(room.current_player, "bob");
    assert!(room.players[0].passed);
    assert!(!room.players[1].passed);
}

#[test]
fn a_round_of_passes_ends_the_game() {
    let mut room = three();
    room.current_player = text("bob");
    assert_eq!(done(room.handle(pass("bob"))).len(), 1);
    assert_eq!(done(room.handle(pass("cyd"))).len(), 1);
    let last = done(room.handle(pass("ann")));
    assert_eq!(last.len(), 4);
    assert_eq!(last[1], Action::Close(1));
    assert_eq!(last[2], Action::Close(2));
    assert_eq!(last[3], Action::Close(3));
    assert_eq!(room.current_player, "bob");
    assert_eq!(room.players.len(), 3);
}

#[test]
fn passes_stand_after_a_stone() {
    let mut room = three();
    done(room.handle(pass("ann")));
    let _: Vec<Act> = room.settle(&text("bob"), 2, Ok(Some(vec![1])));
    assert!(room.players[0].passed);
    assert!(!room.players[1].passed);
    assert_eq!(room.current_player, "cyd");
}

#[test]
fn chat_reaches_everybody() {
    let mut room = three();
    assert_eq!(
        done(room.handle(request("bob", ClientMessage::Chat(text("hello"))))),
        vec![Action::Deliver(vec![1, 2, 3], vec![ServerMessage::Chat(text("hello"))])]
    );
    assert_eq!(room, three());
}

#[test]
fn players_are_logged_in_already() {
    let mut room = three();
    for again in vec![
        ClientMessage::Login(text("bob"), text("den")),
        ClientMessage::RoomCreate(text("den"), 2, 9, 9),
        ClientMessage::Other,
    ] {
        assert_eq!(
            done(room.handle(request("bob", again))),
            vec![Action::Deliver(vec![2], vec![ServerMessage::AlreadyLoggedIn])]
        );
    }
    assert_eq!(done(room.handle(request("dan", ClientMessage::Other))), vec![]);
    assert_eq!(room, three());
}

#[test]
fn lists_of_a_room_are_in_seating_order() {
    let room = three();
    assert_eq!(room.channels(), vec![1, 2, 3]);
    assert_eq!(room.roster()[1], (text("bob"), player("bob", Stone::White)));
    assert_eq!(room.find_seat(&text("cyd")), Some(2));
    assert_eq!(room.find_seat(&text("dan")), None);
    assert_eq!(room.successor(&text("cyd")), Some(text("ann")));
    assert_eq!(room.successor(&text("dan")), Some(text("ann")));
    assert!(!room.all_passed());
    let empty: ServerRoom<u32> = ServerRoom::new(1, 0);
    assert_eq!(empty.successor(&text("ann")), None);
    assert!(empty.all_passed());
}

#[test]
fn room_for_nobody_is_full() {
    let mut room: ServerRoom<u32> = ServerRoom::new(0, 7);
    assert_eq!(
        done(room.handle(command(RoomCommand::FullQuery(1)))),
        vec![Action::Reply(1, RoomCommand::FullQueryResponse(true))]
    );
}

#[test]
fn pass_of_a_namesake_marks_the_later_seat() {
    let mut room = room_of(
        "ann",
        vec![seat("ann", 1, Stone::Black, false), seat("ann", 2, Stone::White, false)],
    );
    assert_eq!(done(room.handle(pass("ann"))).len(), 1);
    assert_eq!(room.current_player, "ann");
    assert!(!room.players[0].passed);
    assert!(room.players[1].passed);
}

#[test]
fn pass_is_forgotten_with_the_player() {
    let mut room = room_of(
        "ann",
        vec![seat("ann", 1, Stone::Black, false), seat("bob", 2, Stone::White, false)],
    );
    done(room.handle(pass("ann")));
    done(room.handle(command(RoomCommand::PlayerRemove(text("ann")))));
    let _: Vec<Act> = room.join(text("ann"), 3, Some(Stone::Black));
    assert_eq!(done(room.handle(pass("bob"))).len(), 1);
    let last = done(room.handle(pass("ann")));
    assert_eq!(last[1], Action::Close(2));
    assert_eq!(last[2], Action::Close(3));
    assert_eq!(last.len(), 3);
}

#[test]
fn colours_alternate() {
    let mut room: ServerRoom<u32> = ServerRoom::new(4, 7);
    for (i, name) in vec!["ann", "bob", "cyd", "dan"].into_iter().enumerate() {
        let step: Step = room.handle(command(RoomCommand::PlayerAdd(text(name), i as u64)));
        let opposite = match step {
            RoomStep::Join { last: Some(Stone::Black), .. } => Some(Stone::White),
            RoomStep::Join { last: Some(Stone::White), .. } => Some(Stone::Black),
            _ => None,
        };
        let _: Vec<Act> = room.join(text(name), i as u64, opposite);
    }
    let stones: Vec<Stone> = room.players.iter().map(|seat| seat.player.stone).collect();
    assert_eq!(stones, vec![Stone::Black, Stone::White, Stone::Black, Stone::White]);
}
