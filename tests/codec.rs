use slippi_database::action::Action;
use slippi_database::codec::{quantize, DBRow};
use slippi_database::pairing::{generate_rows_from_game, Row};

fn action(frame: usize, px: i64, py: i64, vx: i64, vy: i64, state: u8, taken: u8) -> Action {
    Action {
        frame_start: frame,
        position_x: px,
        position_y: py,
        velocity_x: vx,
        velocity_y: vy,
        actionable_state: state,
        action_taken: taken,
    }
}

#[test]
fn quantize_saturates() {
    assert_eq!(quantize(-5), 0);
    assert_eq!(quantize(0), 0);
    assert_eq!(quantize(123), 123);
    assert_eq!(quantize(65535), 65535);
    assert_eq!(quantize(70000), 65535);
}

#[test]
fn encodes_every_column() {
    let row = Row {
        opponent_initiation: action(100, 12, -3, 45, 7, 2, 9),
        player_response: action(130, 80000, 40, -15, 20, 1, 200),
        response_delay: 30,
    };
    let d = row.to_db_row().unwrap();
    assert_eq!(
        d,
        DBRow {
            init_pos_x: 12,
            init_pos_y: 0,
            init_vel_x: 45,
            init_vel_y: 7,
            resp_pos_x: 65535,
            resp_pos_y: 40,
            resp_vel_x: 0,
            resp_vel_y: 20,
            init_state: 2,
            resp_state: 1,
            init_action: 9,
            resp_action: 200,
            delay: 30,
        }
    );
}

#[test]
fn delay_beyond_column_is_refused() {
    let row = Row {
        opponent_initiation: action(0, 1, 1, 1, 1, 0, 0),
        player_response: action(70000, 1, 1, 1, 1, 0, 0),
        response_delay: 70000,
    };
    assert_eq!(row.to_db_row(), None);
    let max = Row { response_delay: 65535, ..row };
    assert_eq!(max.to_db_row().unwrap().delay, 65535);
}

#[test]
fn borrowed_and_owned_rows_encode_alike() {
    let opponent = vec![action(0, 5, 6, 7, 8, 1, 3)];
    let player = vec![action(10, 9, 10, 11, 12, 2, 4)];
    let rows = generate_rows_from_game(&player, &opponent);
    let a = rows[0].to_db_row().unwrap();
    let b = rows[0].to_owned_row().to_db_row().unwrap();
    assert_eq!(a, b);
    assert_eq!(a.delay, 10);
    assert_eq!(a.resp_action, 4);
}

#[test]
fn decode_encode_round_trip() {
    let row = Row {
        opponent_initiation: action(500, 12, 300, 45, 7, 2, 9),
        player_response: action(512, 60, 40, 15, 20, 1, 200),
        response_delay: 12,
    };
    let d = row.to_db_row().unwrap();
    let back = d.to_row().unwrap();
    assert_eq!(back.opponent_initiation.frame_start, 0);
    assert_eq!(back.player_response.frame_start, 12);
    assert_eq!(back.response_delay, 12);
    assert_eq!(back.opponent_initiation, Action { frame_start: 0, ..row.opponent_initiation });
    assert_eq!(back.player_response, Action { frame_start: 12, ..row.player_response });
    assert_eq!(back.to_db_row(), Some(d));
}

#[test]
fn reencoding_is_fixed_point() {
    let row = Row {
        opponent_initiation: action(0, -40, 90000, 3, 4, 5, 6),
        player_response: action(9, 1, 2, -3, 4, 5, 255),
        response_delay: 9,
    };
    let d = row.to_db_row().unwrap();
    assert_eq!(d.to_row().unwrap().to_db_row(), Some(d));
}

#[test]
fn decode_refuses_wide_action_code() {
    let d = DBRow {
        init_pos_x: 1,
        init_pos_y: 2,
        init_vel_x: 3,
        init_vel_y: 4,
        resp_pos_x: 5,
        resp_pos_y: 6,
        resp_vel_x: 7,
        resp_vel_y: 8,
        init_state: 0,
        resp_state: 0,
        init_action: 256,
        resp_action: 1,
        delay: 3,
    };
    assert_eq!(d.to_row(), None);
    assert!(DBRow { init_action: 255, ..d }.to_row().is_some());
    assert_eq!(DBRow { init_action: 1, resp_action: 300, ..d }.to_row(), None);
}

#[test]
fn borrowed_view_of_owned_row() {
    let row = Row {
        opponent_initiation: action(3, 1, 2, 3, 4, 5, 6),
        player_response: action(8, 7, 8, 9, 10, 11, 12),
        response_delay: 5,
    };
    let view = row.borrow_view();
    assert_eq!(view.response_delay, 5);
    assert_eq!(*view.player_response, row.player_response);
    assert_eq!(view.to_db_row(), row.to_db_row());
    assert_eq!(view.to_owned_row(), row);
}
