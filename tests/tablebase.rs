use slippi_database::codec::DBRow;
use slippi_database::tablebase::{same_situation_exec, QueryResponce, Tablebase};

fn key() -> DBRow {
    DBRow {
        init_pos_x: 10,
        init_pos_y: 20,
        init_vel_x: 30,
        init_vel_y: 40,
        resp_pos_x: 50,
        resp_pos_y: 60,
        resp_vel_x: 70,
        resp_vel_y: 80,
        init_state: 1,
        resp_state: 2,
        init_action: 0,
        resp_action: 0,
        delay: 12,
    }
}

fn with_actions(init_action: u16, resp_action: u16) -> DBRow {
    DBRow { init_action, resp_action, ..key() }
}

#[test]
fn query_counts_duplicate_outcomes() {
    let mut t = Tablebase::new();
    assert!(t.insert(with_actions(1, 2)));
    assert!(t.insert(with_actions(1, 2)));
    assert!(t.insert(with_actions(3, 5)));
    assert_eq!(t.len(), 3);
    let h = t.query(&key(), 8).unwrap();
    assert_eq!(h.resp_action_counts, vec![0, 0, 2, 0, 0, 1, 0, 0]);
    assert_eq!(h.init_action_counts, vec![0, 2, 0, 1, 0, 0, 0, 0]);
}

#[test]
fn query_ignores_other_situations() {
    let mut t = Tablebase::new();
    assert!(t.insert(with_actions(1, 2)));
    assert!(t.insert(DBRow { delay: 13, ..with_actions(4, 4) }));
    assert!(t.insert(DBRow { init_state: 9, ..with_actions(4, 4) }));
    let h = t.query(&with_actions(7, 7), 6).unwrap();
    assert_eq!(h.init_action_counts, vec![0, 1, 0, 0, 0, 0]);
    assert_eq!(h.resp_action_counts, vec![0, 0, 1, 0, 0, 0]);
}

#[test]
fn unmatched_key_gives_zero_histogram() {
    let mut t = Tablebase::new();
    assert!(t.insert(with_actions(1, 2)));
    let h = t.query(&DBRow { resp_pos_y: 61, ..key() }, 4).unwrap();
    assert_eq!(h.init_action_counts, vec![0; 4]);
    assert_eq!(h.resp_action_counts, vec![0; 4]);
    let empty = Tablebase::new();
    let h = empty.query(&key(), 3).unwrap();
    assert_eq!(h.init_action_counts, vec![0; 3]);
}

#[test]
fn inserted_row_is_counted() {
    let mut t = Tablebase::new();
    let row = with_actions(4, 6);
    assert!(t.insert(row));
    let h = t.query(&row, 7).unwrap();
    assert!(h.init_action_counts[4] >= 1);
    assert!(h.resp_action_counts[6] >= 1);
}

#[test]
fn unknown_action_code_fails_query() {
    let mut t = Tablebase::new();
    assert!(t.insert(with_actions(1, 2)));
    assert!(t.insert(with_actions(1, 9)));
    assert!(t.query(&key(), 5).is_none());
    assert!(t.query(&key(), 10).is_some());
    // a row outside the queried situation does not matter
    let mut u = Tablebase::new();
    assert!(u.insert(DBRow { delay: 1, ..with_actions(99, 99) }));
    assert!(u.query(&key(), 5).is_some());
}

#[test]
fn preallocated_histogram_is_filled() {
    let mut t = Tablebase::new();
    assert!(t.insert(with_actions(0, 1)));
    let h = t.query_preallocated(QueryResponce::new(2), &key()).unwrap();
    assert_eq!(h.init_action_counts, vec![1, 0]);
    assert_eq!(h.resp_action_counts, vec![0, 1]);
}

#[test]
fn record_counts_or_refuses() {
    let mut h = QueryResponce::new(3);
    assert!(h.record(2, 0));
    assert!(h.record(2, 1));
    assert_eq!(h.init_action_counts, vec![0, 0, 2]);
    assert_eq!(h.resp_action_counts, vec![1, 1, 0]);
    assert!(!h.record(3, 0));
    assert!(!h.record(0, 3));
    assert_eq!(h.init_action_counts, vec![0, 0, 2]);
    h.init_action_counts[1] = u32::MAX;
    assert!(!h.record(1, 0));
    assert_eq!(h.resp_action_counts, vec![1, 1, 0]);
}

#[test]
fn situation_ignores_action_columns() {
    assert!(same_situation_exec(&with_actions(1, 2), &with_actions(3, 4)));
    assert!(!same_situation_exec(&with_actions(1, 2), &DBRow { init_vel_y: 41, ..with_actions(1, 2) }));
}

#[test]
fn insert_all_keeps_order_and_duplicates() {
    let mut t = Tablebase::new();
    let rows = vec![with_actions(2, 2), with_actions(2, 2), with_actions(0, 5)];
    assert_eq!(t.insert_all(&rows), 3);
    assert_eq!(t.len(), 3);
    let h = t.query(&key(), 6).unwrap();
    assert_eq!(h.resp_action_counts, vec![0, 0, 2, 0, 0, 1]);
    assert_eq!(h.init_action_counts, vec![1, 0, 2, 0, 0, 0]);
}

#[test]
fn histogram_sides_sum_to_matching_rows() {
    let mut t = Tablebase::new();
    let rows = vec![
        with_actions(0, 1),
        with_actions(3, 1),
        DBRow { delay: 99, ..with_actions(2, 2) },
        with_actions(3, 0),
    ];
    assert_eq!(t.insert_all(&rows), 4);
    let h = t.query(&key(), 4).unwrap();
    let init: u32 = h.init_action_counts.iter().sum();
    let resp: u32 = h.resp_action_counts.iter().sum();
    assert_eq!(init, 3);
    assert_eq!(resp, 3);
}
