//! A game played over a connection, and what surrounds it.
use led_tetris::advert::{advertise, encode_advertisement, AdvertisementError, DEVICE_NAME};
use led_tetris::board::Color;
use led_tetris::game::Game;
use led_tetris::pulse::Level;
use led_tetris::rng::TetrisRng;
use led_tetris::session::{
    wait_deadline, LinkAction, LinkEvent, Session, CMD_DOWN, CMD_LEFT, CMD_NONE, CMD_RIGHT, CMD_ROTATE, CMD_START,
    FALL_INTERVAL_TICKS, WAIT_MS, WAIT_TICKS,
};
use led_tetris::state::extract_game_state;
use led_tetris::status::{Outcome, Peripheral, Phase};

const CONTROL: u16 = 17;

fn session() -> Session {
    Session::new(TetrisRng::new(), CONTROL, 1_000)
}

fn command(session: &mut Session, cmd: u8) {
    let action = session.notify(LinkEvent::Write { handle: CONTROL, data: &[cmd] });
    assert_eq!(action, LinkAction::Reply);
}

fn over() -> Session {
    let mut session = session();
    session.game.game_over = true;
    session.game.score = 300;
    session.game.rng = TetrisRng { state: 99 };
    session.game.board[19][0] = Some(Color::Red);
    session
}

#[test]
fn session_begins_with_a_new_game() {
    let session = session();
    assert_eq!(session.game, Game::new(TetrisRng::new()));
    assert_eq!(session.control, CONTROL);
    assert_eq!(session.last_update, 1_000);
    assert_eq!(session.pending_cmd, CMD_NONE);
    assert!(session.cmd_processed);
}

#[test]
fn piece_falls_when_half_a_second_has_passed() {
    let mut session = session();
    let start = session;
    let state = session.tick(1_000 + 499_999);
    assert_eq!(session, start);
    assert_eq!(state, extract_game_state(&start.game));
    let state = session.tick(1_000 + 500_000);
    assert_eq!(session.game.piece_pos, (3, 1));
    assert_eq!(session.last_update, 501_000);
    assert_eq!(state.piece_y, 1);
    assert_eq!(FALL_INTERVAL_TICKS, 500_000);
}

#[test]
fn piece_falls_once_however_long_it_took() {
    let mut session = session();
    session.tick(9_000_000);
    assert_eq!(session.game.piece_pos, (3, 1));
    let fallen = session;
    session.tick(9_499_999);
    assert_eq!(session, fallen);
    session.tick(9_500_000);
    assert_eq!(session.game.piece_pos, (3, 2));
}

#[test]
fn commands_move_the_piece() {
    let mut session = session();
    command(&mut session, CMD_LEFT);
    session.tick(1_001);
    assert_eq!(session.game.piece_pos, (2, 0));
    command(&mut session, CMD_RIGHT);
    session.tick(1_002);
    assert_eq!(session.game.piece_pos, (3, 0));
    command(&mut session, CMD_ROTATE);
    session.tick(1_003);
    assert_eq!(session.game.current_piece.shape, [(2, 0), (2, 1), (2, 2), (2, 3)]);
    assert_eq!(session.last_update, 1_000);
    command(&mut session, CMD_DOWN);
    let state = session.tick(1_004);
    assert_eq!(session.game.piece_pos, (3, 1));
    assert_eq!(session.last_update, 1_004);
    assert_eq!(state, extract_game_state(&session.game));
}

#[test]
fn command_is_obeyed_once() {
    let mut session = session();
    command(&mut session, CMD_LEFT);
    assert!(!session.cmd_processed);
    session.tick(1_001);
    assert!(session.cmd_processed);
    let obeyed = session;
    session.tick(1_002);
    assert_eq!(session, obeyed);
}

#[test]
fn fall_and_down_come_in_one_round() {
    let mut session = session();
    command(&mut session, CMD_DOWN);
    session.tick(501_000);
    assert_eq!(session.game.piece_pos, (3, 2));
    assert_eq!(session.last_update, 501_000);
}

#[test]
fn down_restarts_the_interval() {
    let mut session = session();
    command(&mut session, CMD_DOWN);
    session.tick(400_000);
    let moved = session;
    session.tick(899_999);
    assert_eq!(session, moved);
    session.tick(900_000);
    assert_eq!(session.game.piece_pos, (3, 2));
}

#[test]
fn fall_is_hardly_late() {
    assert_eq!((WAIT_MS, WAIT_TICKS), (50, 50_000));
    let mut session = session();
    session.tick(500_999);
    assert_eq!(session.last_update, 1_000);
    session.tick(500_999 + WAIT_TICKS);
    assert_eq!(session.game.piece_pos, (3, 1));
    assert_eq!(session.last_update, 550_999);
    assert!(550_999 - 1_000 < FALL_INTERVAL_TICKS + WAIT_TICKS);
}

#[test]
fn clock_is_looked_at_often() {
    assert_eq!(wait_deadline(7), 50_007);
    let mut session = session();
    let mut dice = TetrisRng { state: 12 };
    let mut now = 1_000;
    for _ in 0..500 {
        assert!(now - session.last_update < FALL_INTERVAL_TICKS + WAIT_TICKS);
        session.tick(now);
        assert!(now - session.last_update < FALL_INTERVAL_TICKS);
        now = wait_deadline(now).min(now + dice.next_random() as u64);
    }
}

#[test]
fn unknown_commands_do_nothing() {
    for cmd in [CMD_NONE, 6, 77, 255] {
        let mut session = session();
        let game = session.game;
        command(&mut session, cmd);
        session.tick(1_001);
        assert_eq!(session.game, game);
        assert_eq!(session.last_update, 1_000);
        assert!(session.cmd_processed);
    }
}

#[test]
fn start_leaves_a_running_game_alone() {
    let mut session = session();
    session.game.score = 200;
    let game = session.game;
    command(&mut session, CMD_START);
    session.tick(1_001);
    assert_eq!(session.game, game);
}

#[test]
fn start_begins_anew_after_game_over() {
    let mut session = over();
    command(&mut session, CMD_START);
    let state = session.tick(1_001);
    assert_eq!(session.game, Game::new(TetrisRng { state: 99 }));
    assert!(!state.game_over);
}

#[test]
fn game_over_waits_for_start() {
    for cmd in [CMD_LEFT, CMD_RIGHT, CMD_ROTATE, CMD_DOWN] {
        let mut session = over();
        let game = session.game;
        command(&mut session, cmd);
        session.tick(700_000);
        assert_eq!(session.game, game);
        assert_eq!(session.last_update, 700_000);
    }
}

#[test]
fn last_command_counts() {
    let mut session = session();
    command(&mut session, CMD_LEFT);
    command(&mut session, CMD_RIGHT);
    session.tick(1_001);
    assert_eq!(session.game.piece_pos, (4, 0));
}

#[test]
fn only_the_first_byte_of_a_write_counts() {
    let mut session = session();
    session.notify(LinkEvent::Write { handle: CONTROL, data: &[CMD_LEFT, CMD_RIGHT] });
    assert_eq!(session.pending_cmd, CMD_LEFT);
}

#[test]
fn other_events_change_nothing() {
    let mut session = session();
    let start = session;
    let events = [
        (LinkEvent::Disconnected, LinkAction::Leave),
        (LinkEvent::Write { handle: CONTROL, data: &[] }, LinkAction::Reply),
        (LinkEvent::Write { handle: CONTROL + 1, data: &[CMD_LEFT] }, LinkAction::Reply),
        (LinkEvent::Request, LinkAction::Reply),
        (LinkEvent::Other, LinkAction::Proceed),
        (LinkEvent::Timeout, LinkAction::Proceed),
    ];
    for (event, action) in events {
        assert_eq!(session.notify(event), action);
        assert_eq!(session, start);
    }
}

#[test]
fn session_has_score_room_until_counting_ends() {
    let mut session = session();
    session.game.piece_pos = (6, 18);
    for x in 0..6 {
        session.game.board[19][x] = Some(Color::Blue);
    }
    session.game.score = u32::MAX - 99;
    assert!(session.has_score_room(1_001));
    assert!(!session.has_score_room(501_000));
    command(&mut session, CMD_DOWN);
    assert!(!session.has_score_room(1_001));
    session.game.score = u32::MAX - 100;
    assert!(session.has_score_room(1_001));
    assert!(session.has_score_room(501_000));
}

#[test]
fn long_play_stays_sound() {
    let mut session = session();
    let mut dice = TetrisRng { state: 5 };
    let mut now = 1_000;
    let mut starts = 0;
    for _ in 0..3_000 {
        now += (dice.next_random() as u64) * 8;
        let was_over = session.game.game_over;
        assert!(session.has_score_room(now));
        let state = session.tick(now);
        starts += if was_over && !session.game.game_over { 1 } else { 0 };
        assert!(state.is_drawable());
        assert_eq!(state, extract_game_state(&session.game));
        assert!(session.game.board.iter().all(|row| row.iter().any(|cell| cell.is_none())));
        for (dx, dy) in session.game.current_piece.shape {
            let x = session.game.piece_pos.0 + dx as i8;
            let y = session.game.piece_pos.1 + dy as i8;
            assert!((0..10).contains(&x) && (0..20).contains(&y));
            let cell = session.game.board[y as usize][x as usize];
            assert!(session.game.game_over || cell.is_none());
        }
        command(&mut session, (dice.next_random() % 7) as u8);
    }
    assert!(starts > 0);
}

#[test]
fn advertisement_names_the_device() {
    let mut data = [0xAA; 31];
    assert_eq!(advertise(&mut data), Ok(15));
    assert_eq!(data[..5], [2, 1, 6, 11, 9]);
    assert_eq!(&data[5..15], b"ESP-TETRIS");
    assert_eq!(&DEVICE_NAME, b"ESP-TETRIS");
    assert_eq!(data[15..], [0xAA; 16]);
}

#[test]
fn advertisement_takes_names_that_fit() {
    let mut data = [0; 31];
    assert_eq!(encode_advertisement(b"", &mut data), Ok(5));
    assert_eq!(data[..5], [2, 1, 6, 1, 9]);
    assert_eq!(encode_advertisement(&[7; 26], &mut data), Ok(31));
    assert_eq!(data[3..], [&[27, 9][..], &[7; 26][..]].concat()[..]);
}

#[test]
fn advertisement_refuses_names_that_do_not_fit() {
    let mut data = [0xAA; 31];
    assert_eq!(encode_advertisement(&[7; 27], &mut data), Err(AdvertisementError::TooLong));
    assert_eq!(data[..5], [2, 1, 6, 28, 9]);
    assert_eq!(data[5..], [0xAA; 26]);
    assert_eq!(encode_advertisement(&[7; 300], &mut data), Err(AdvertisementError::TooLong));
    assert_eq!(data[..5], [2, 1, 6, 45, 9]);
}

#[test]
fn status_light_is_on_while_a_player_is_connected() {
    let mut peripheral = Peripheral::new();
    assert_eq!(peripheral.status_led, Level::Low);
    assert_eq!(peripheral.phase, Phase::Advertising);
    assert_eq!(peripheral.advance(Outcome::AdvertisingFailed), Level::Low);
    assert_eq!(peripheral.advance(Outcome::Connected), Level::High);
    assert_eq!(peripheral.phase, Phase::Playing);
    assert_eq!(peripheral.advance(Outcome::GameEnded), Level::Low);
    assert_eq!(peripheral.phase, Phase::Advertising);
}
