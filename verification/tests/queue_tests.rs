use session_recorder_addon::errors::DjSystemError;
use session_recorder_addon::models::dj::CreateDjRequest;
use session_recorder_addon::models::lottery::LotteryConfig;
use session_recorder_addon::services::dj_service::DjService;
use session_recorder_addon::services::lottery_service::LotteryService;
use session_recorder_addon::services::store::Store;

const NOW: i64 = 1_700_000_000;

fn register(store: &mut Store, name: &str) -> String {
    let djs = DjService::new();
    let resp = djs.register_dj(
        store,
        CreateDjRequest {
            name: name.to_string(),
            email: None,
        },
        NOW,
    );
    resp.id
}

fn queue_order(store: &Store, lottery: &LotteryService) -> Vec<String> {
    lottery
        .get_current_queue(store)
        .into_iter()
        .map(|r| r.id)
        .collect()
}

#[test]
fn test_insert_appends_at_end() {
    let mut store = Store::new();
    let lottery = LotteryService::new(LotteryConfig::default());
    let a = register(&mut store, "a");
    let b = register(&mut store, "b");
    assert!(lottery.assign_next_position(&mut store, &a).is_ok());
    assert!(lottery.assign_next_position(&mut store, &b).is_ok());
    assert_eq!(queue_order(&store, &lottery), vec![a, b]);
}

#[test]
fn test_insert_twice_already_queued() {
    let mut store = Store::new();
    let lottery = LotteryService::new(LotteryConfig::default());
    let a = register(&mut store, "a");
    assert!(lottery.assign_next_position(&mut store, &a).is_ok());
    assert_eq!(
        lottery.assign_next_position(&mut store, &a),
        Err(DjSystemError::AlreadyQueued)
    );
}

#[test]
fn test_move_to_front() {
    // Ledger positions {a:1, b:2, c:3}; moveTo(c, 1) yields order
    // [c, a, b] with positions {c:1, a:2, b:3}.
    let mut store = Store::new();
    let lottery = LotteryService::new(LotteryConfig::default());
    let a = register(&mut store, "a");
    let b = register(&mut store, "b");
    let c = register(&mut store, "c");
    lottery.assign_next_position(&mut store, &a).unwrap();
    lottery.assign_next_position(&mut store, &b).unwrap();
    lottery.assign_next_position(&mut store, &c).unwrap();

    lottery.move_dj_position(&mut store, &c, 1).unwrap();
    assert_eq!(queue_order(&store, &lottery), vec![c.clone(), a.clone(), b.clone()]);

    let positions: Vec<(String, i32)> = lottery
        .get_current_queue(&store)
        .into_iter()
        .map(|r| (r.id, r.position_in_queue.unwrap()))
        .collect();
    assert_eq!(positions, vec![(c, 1), (a, 2), (b, 3)]);
}

#[test]
fn test_remove_renumber() {
    // Ledger positions {a:1, b:2, c:3}; remove(a) yields order [b, c]
    // with positions {b:1, c:2}.
    let mut store = Store::new();
    let lottery = LotteryService::new(LotteryConfig::default());
    let a = register(&mut store, "a");
    let b = register(&mut store, "b");
    let c = register(&mut store, "c");
    lottery.assign_next_position(&mut store, &a).unwrap();
    lottery.assign_next_position(&mut store, &b).unwrap();
    lottery.assign_next_position(&mut store, &c).unwrap();

    lottery.remove_from_queue(&mut store, &a).unwrap();
    assert_eq!(queue_order(&store, &lottery), vec![b.clone(), c.clone()]);

    let positions: Vec<(String, i32)> = lottery
        .get_current_queue(&store)
        .into_iter()
        .map(|r| (r.id, r.position_in_queue.unwrap()))
        .collect();
    assert_eq!(positions, vec![(b, 1), (c, 2)]);
}

#[test]
fn test_remove_unqueued_is_noop() {
    let mut store = Store::new();
    let lottery = LotteryService::new(LotteryConfig::default());
    let a = register(&mut store, "a");
    // Not an error to remove someone who holds no position.
    assert!(lottery.remove_from_queue(&mut store, &a).is_ok());
    assert!(lottery.remove_from_queue(&mut store, "nobody").is_ok());
}

#[test]
fn test_move_not_queued() {
    let mut store = Store::new();
    let lottery = LotteryService::new(LotteryConfig::default());
    let a = register(&mut store, "a");
    assert_eq!(
        lottery.move_dj_position(&mut store, &a, 1),
        Err(DjSystemError::NotQueued)
    );
    assert_eq!(
        lottery.move_dj_position(&mut store, "nobody", 1),
        Err(DjSystemError::NotQueued)
    );
}

#[test]
fn test_move_out_of_range() {
    let mut store = Store::new();
    let lottery = LotteryService::new(LotteryConfig::default());
    let a = register(&mut store, "a");
    let b = register(&mut store, "b");
    lottery.assign_next_position(&mut store, &a).unwrap();
    lottery.assign_next_position(&mut store, &b).unwrap();
    assert_eq!(
        lottery.move_dj_position(&mut store, &a, 0),
        Err(DjSystemError::OutOfRange)
    );
    assert_eq!(
        lottery.move_dj_position(&mut store, &a, 3),
        Err(DjSystemError::OutOfRange)
    );
}

#[test]
fn test_move_toward_end() {
    let mut store = Store::new();
    let lottery = LotteryService::new(LotteryConfig::default());
    let a = register(&mut store, "a");
    let b = register(&mut store, "b");
    let c = register(&mut store, "c");
    lottery.assign_next_position(&mut store, &a).unwrap();
    lottery.assign_next_position(&mut store, &b).unwrap();
    lottery.assign_next_position(&mut store, &c).unwrap();

    lottery.move_dj_position(&mut store, &a, 3).unwrap();
    assert_eq!(queue_order(&store, &lottery), vec![b, c, a]);
}

#[test]
fn test_density_through_operation_sequence() {
    // Whatever sequence of inserts, removals and moves runs, the queue
    // stays dense: positions are exactly 1..N with no gaps or
    // duplicates.
    let mut store = Store::new();
    let lottery = LotteryService::new(LotteryConfig::default());
    let ids: Vec<String> = (0..5).map(|i| register(&mut store, &format!("dj{}", i))).collect();
    for id in &ids {
        lottery.assign_next_position(&mut store, id).unwrap();
    }
    lottery.remove_from_queue(&mut store, &ids[2]).unwrap();
    lottery.move_dj_position(&mut store, &ids[4], 1).unwrap();
    lottery.remove_from_queue(&mut store, &ids[0]).unwrap();
    lottery.move_dj_position(&mut store, &ids[1], 3).unwrap();

    let queue = lottery.get_current_queue(&store);
    let mut positions: Vec<i32> = queue
        .iter()
        .map(|r| r.position_in_queue.unwrap())
        .collect();
    positions.sort();
    let expected: Vec<i32> = (1..=queue.len() as i32).collect();
    assert_eq!(positions, expected);
}

#[test]
fn test_reset_lottery_clears_queue() {
    let mut store = Store::new();
    let lottery = LotteryService::new(LotteryConfig::default());
    let a = register(&mut store, "a");
    let b = register(&mut store, "b");
    lottery.assign_next_position(&mut store, &a).unwrap();
    lottery.assign_next_position(&mut store, &b).unwrap();
    lottery.reset_lottery(&mut store).unwrap();
    assert!(lottery.get_current_queue(&store).is_empty());
    assert!(lottery.get_next_dj(&store).is_none());
}

#[test]
fn test_get_next_dj_is_position_one() {
    let mut store = Store::new();
    let lottery = LotteryService::new(LotteryConfig::default());
    let a = register(&mut store, "a");
    let b = register(&mut store, "b");
    lottery.assign_next_position(&mut store, &a).unwrap();
    lottery.assign_next_position(&mut store, &b).unwrap();
    lottery.move_dj_position(&mut store, &b, 1).unwrap();
    let next = lottery.get_next_dj(&store).unwrap();
    assert_eq!(next.id, b);
}
