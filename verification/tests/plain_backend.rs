//! Engine behavior over the plaintext reference backend.

use oblivious_board::{__requires_sendable_closure, init_state, Board, EngineError, PlainScalar, Server};

fn constants_for(dim: usize) -> Vec<PlainScalar> {
    let needed = if dim >= 4 { dim } else { 4 };
    (0..needed as u8).map(PlainScalar::new).collect()
}

fn server_for(dim: usize, players: usize) -> Server<PlainScalar> {
    Server::from_constants(constants_for(dim), dim, players).unwrap()
}

fn coord(x: u8, y: u8) -> (PlainScalar, PlainScalar) {
    (PlainScalar::new(x), PlainScalar::new(y))
}

fn read(server: &Server<PlainScalar>, x: u8, y: u8, default: u8) -> u8 {
    server.gather(&coord(x, y), &PlainScalar::new(default)).value
}

#[test]
fn gather_after_scatter_returns_written_value() {
    let mut server = server_for(3, 0);
    for x in 0..3u8 {
        for y in 0..3u8 {
            let value = 10 + 3 * x + y;
            server.set_fhe_square(&coord(x, y), PlainScalar::new(value));
            assert_eq!(read(&server, x, y, 0), value);
        }
    }
}

#[test]
fn scatter_does_not_touch_other_cells() {
    let mut server = server_for(2, 0);
    server.set_fhe_square(&coord(0, 0), PlainScalar::new(7));
    assert_eq!(read(&server, 0, 0, 0), 7);
    assert_eq!(read(&server, 0, 1, 0), 0);
    assert_eq!(read(&server, 1, 0, 0), 0);
    assert_eq!(read(&server, 1, 1, 0), 0);
}

#[test]
fn out_of_range_gather_returns_default() {
    let mut server = server_for(2, 0);
    server.set_fhe_square(&coord(0, 0), PlainScalar::new(9));
    assert_eq!(read(&server, 2, 0, 42), 42);
    assert_eq!(read(&server, 0, 2, 42), 42);
    assert_eq!(read(&server, 255, 255, 17), 17);
}

#[test]
fn out_of_range_scatter_changes_nothing() {
    let mut server = server_for(2, 0);
    server.set_fhe_square(&coord(1, 1), PlainScalar::new(5));
    server.set_fhe_square(&coord(2, 0), PlainScalar::new(99));
    server.set_fhe_square(&coord(0, 7), PlainScalar::new(99));
    assert_eq!(read(&server, 0, 0, 0), 0);
    assert_eq!(read(&server, 0, 1, 0), 0);
    assert_eq!(read(&server, 1, 0, 0), 0);
    assert_eq!(read(&server, 1, 1, 0), 5);
}

fn one_move(dim: usize, start: (u8, u8), dir: u8) -> ((u8, u8), bool) {
    let mut server = server_for(dim, 1);
    server
        .set_player(0, PlainScalar::new(77), coord(start.0, start.1))
        .unwrap();
    let (pos, matched) = server.move_direction(0, &PlainScalar::new(77), &PlainScalar::new(dir));
    ((pos.0.value, pos.1.value), matched.value)
}

#[test]
fn move_wraps_around_every_edge() {
    // direction codes: 0 up, 1 down, 2 left, 3 right
    assert_eq!(one_move(3, (0, 1), 2), ((2, 1), true));
    assert_eq!(one_move(3, (2, 1), 3), ((0, 1), true));
    assert_eq!(one_move(3, (1, 0), 0), ((1, 2), true));
    assert_eq!(one_move(3, (1, 2), 1), ((1, 0), true));
}

#[test]
fn move_steps_one_cell_inside_the_grid() {
    assert_eq!(one_move(3, (1, 1), 2), ((0, 1), true));
    assert_eq!(one_move(3, (1, 1), 3), ((2, 1), true));
    assert_eq!(one_move(3, (1, 1), 0), ((1, 0), true));
    assert_eq!(one_move(3, (1, 1), 1), ((1, 2), true));
}

#[test]
fn move_with_unknown_direction_code_stays_in_place() {
    assert_eq!(one_move(3, (1, 2), 9), ((1, 2), true));
}

#[test]
fn move_token_gate_rejects_wrong_token() {
    let mut server = server_for(2, 1);
    server.set_player(0, PlainScalar::new(123), coord(1, 1)).unwrap();
    let (pos, matched) = server.move_direction(0, &PlainScalar::new(99), &PlainScalar::new(2));
    assert!(!matched.value);
    assert_eq!((pos.0.value, pos.1.value), (1, 1));
    // the stored position is also unchanged: a correct move afterwards
    // starts from the original cell
    let (pos, matched) = server.move_direction(0, &PlainScalar::new(123), &PlainScalar::new(2));
    assert!(matched.value);
    assert_eq!((pos.0.value, pos.1.value), (0, 1));
}

#[test]
fn concrete_two_player_move_up_scenario() {
    let mut server = server_for(2, 2);
    server.set_player(0, PlainScalar::new(123), coord(0, 1)).unwrap();
    server.set_player(1, PlainScalar::new(245), coord(1, 0)).unwrap();
    assert!(server.check_all_players_ready());
    let (pos, matched) = server.move_direction(0, &PlainScalar::new(123), &PlainScalar::new(0));
    assert!(matched.value);
    assert_eq!((pos.0.value, pos.1.value), (0, 0));
}

#[test]
fn concrete_scatter_then_gather_elsewhere_scenario() {
    let mut server = server_for(2, 0);
    server.set_fhe_square(&coord(0, 0), PlainScalar::new(7));
    assert_eq!(read(&server, 0, 1, 0), 0);
    assert_eq!(read(&server, 0, 0, 0), 7);
}

#[test]
fn wrong_number_of_constants_is_a_shape_mismatch() {
    let mut constants = constants_for(2);
    constants.pop();
    match Server::from_constants(constants, 2, 0) {
        Err(EngineError::ShapeMismatch) => (),
        _ => panic!("a three-constant batch must be rejected for a 2x2 grid"),
    }
    let too_many = (0..9u8).map(PlainScalar::new).collect();
    match Server::<PlainScalar>::from_constants(too_many, 2, 0) {
        Err(EngineError::ShapeMismatch) => (),
        _ => panic!("a nine-constant batch must be rejected for a 2x2 grid"),
    }
}

#[test]
fn registry_rejects_bad_slots_and_double_registration() {
    let mut server = server_for(2, 2);
    assert_eq!(
        server.set_player(2, PlainScalar::new(1), coord(0, 0)),
        Err(EngineError::InvalidSlot)
    );
    assert!(!server.check_all_players_ready());
    server.set_player(0, PlainScalar::new(1), coord(0, 0)).unwrap();
    assert_eq!(
        server.set_player(0, PlainScalar::new(2), coord(1, 1)),
        Err(EngineError::SlotAlreadySet)
    );
    assert!(!server.check_all_players_ready());
    server.set_player(1, PlainScalar::new(2), coord(1, 1)).unwrap();
    assert!(server.check_all_players_ready());
}

#[test]
fn gather_in_range_ignores_the_default() {
    let mut server = server_for(2, 0);
    server.set_fhe_square(&coord(1, 0), PlainScalar::new(8));
    assert_eq!(read(&server, 1, 0, 99), 8);
}

#[test]
fn init_state_copies_every_cell() {
    let board = Board {
        eggs: vec![
            PlainScalar::new(3),
            PlainScalar::new(1),
            PlainScalar::new(4),
            PlainScalar::new(1),
        ],
    };
    let copy = init_state(&board);
    let values: Vec<u8> = copy.eggs.iter().map(|c| c.value).collect();
    assert_eq!(values, vec![3, 1, 4, 1]);
}

#[test]
fn sendable_closure_helper_hands_the_closure_back() {
    let f = __requires_sendable_closure(|| 17u8);
    assert_eq!(f(), 17);
}

#[test]
fn move_with_invalid_slot_answers_origin_and_false() {
    let mut server = server_for(2, 1);
    server.set_player(0, PlainScalar::new(5), coord(1, 1)).unwrap();
    let (pos, matched) = server.move_direction(7, &PlainScalar::new(5), &PlainScalar::new(0));
    assert!(!matched.value);
    assert_eq!((pos.0.value, pos.1.value), (0, 0));
    // the registered player is untouched by the failed request
    let (pos, matched) = server.move_direction(0, &PlainScalar::new(5), &PlainScalar::new(3));
    assert!(matched.value);
    assert_eq!((pos.0.value, pos.1.value), (0, 1));
}
