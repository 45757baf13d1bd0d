use session_recorder_addon::errors::DjSystemError;
use session_recorder_addon::models::event_session::TimetableEntryStatus;
use session_recorder_addon::models::session::{SessionType, StartSessionRequest};
use session_recorder_addon::services::session_service::SessionService;
use session_recorder_addon::models::dj::CreateDjRequest;
use session_recorder_addon::models::event_session::StartEventRequest;
use session_recorder_addon::models::lottery::LotteryConfig;
use session_recorder_addon::services::dj_service::DjService;
use session_recorder_addon::services::event_service::EventService;
use session_recorder_addon::services::lottery_service::LotteryService;
use session_recorder_addon::services::store::Store;

const NOW: i64 = 1_700_000_000;

fn plain_request() -> StartEventRequest {
    StartEventRequest {
        slot_duration_minutes: Some(60),
        late_arrival_cutoff_hours: Some(2),
        started_at: None,
    }
}

#[test]
fn test_start_event() {
    let mut store = Store::new();
    let events = EventService::new(60, 2);
    let lottery = LotteryService::new(LotteryConfig::default());
    let resp = events
        .start_event(&mut store, &lottery, plain_request(), NOW)
        .unwrap();
    assert!(resp.is_active);
    assert_eq!(resp.started_at, NOW);
    assert_eq!(resp.slot_duration_minutes, 60);
    assert_eq!(resp.late_arrival_cutoff_hours, 2);
    assert!(resp.current_dj_id.is_none());
    assert!(resp.next_draw_at.is_none());
    assert_eq!(resp.elapsed_minutes, 0);
    assert!(resp.current_slot_progress_percent.is_none());
}

#[test]
fn test_start_event_twice_fails() {
    // Exactly one event may be active: the second start must fail with
    // EventAlreadyActive, never silently win.
    let mut store = Store::new();
    let events = EventService::new(60, 2);
    let lottery = LotteryService::new(LotteryConfig::default());
    events
        .start_event(&mut store, &lottery, plain_request(), NOW)
        .unwrap();
    let second = events.start_event(&mut store, &lottery, plain_request(), NOW + 10);
    assert_eq!(second.unwrap_err(), DjSystemError::EventAlreadyActive);
}

#[test]
fn test_end_event() {
    let mut store = Store::new();
    let events = EventService::new(60, 2);
    let lottery = LotteryService::new(LotteryConfig::default());
    events
        .start_event(&mut store, &lottery, plain_request(), NOW)
        .unwrap();
    let ended = events.end_event(&mut store, NOW + 3600).unwrap();
    assert!(!ended.is_active);
    assert_eq!(ended.ended_at, Some(NOW + 3600));
    // A second end must fail cleanly rather than double-record.
    let again = events.end_event(&mut store, NOW + 3700);
    assert_eq!(again.unwrap_err(), DjSystemError::NoActiveEvent);
}

#[test]
fn test_begin_slot_sets_midpoint_deadline() {
    // The next draw falls due halfway through the current slot: for a
    // 60-minute slot, 1800 seconds after the slot starts.
    let mut store = Store::new();
    let events = EventService::new(60, 2);
    let lottery = LotteryService::new(LotteryConfig::default());
    let djs = DjService::new();
    let dj = djs.register_dj(
        &mut store,
        CreateDjRequest {
            name: "Opener".to_string(),
            email: None,
        },
        NOW,
    );
    events
        .start_event(&mut store, &lottery, plain_request(), NOW)
        .unwrap();
    let resp = events
        .start_next_dj_slot(&mut store, dj.id.clone(), NOW + 60)
        .unwrap();
    assert_eq!(resp.current_dj_id, Some(dj.id));
    assert_eq!(resp.current_dj_name.as_deref(), Some("Opener"));
    assert_eq!(resp.current_slot_started_at, Some(NOW + 60));
    assert_eq!(resp.next_draw_at, Some(NOW + 60 + 1800));
}

#[test]
fn test_begin_slot_without_event_fails() {
    let mut store = Store::new();
    let events = EventService::new(60, 2);
    let r = events.start_next_dj_slot(&mut store, "nobody".to_string(), NOW);
    assert_eq!(r.unwrap_err(), DjSystemError::NoActiveEvent);
}

#[test]
fn test_check_due_before_deadline() {
    let mut store = Store::new();
    let events = EventService::new(60, 2);
    let lottery = LotteryService::new(LotteryConfig::default());
    events
        .start_event(&mut store, &lottery, plain_request(), NOW)
        .unwrap();
    // No slot begun: no deadline, nothing due.
    assert_eq!(
        events.check_and_trigger_auto_draw(&mut store, NOW + 10).unwrap(),
        false
    );
    events
        .start_next_dj_slot(&mut store, "x".to_string(), NOW + 60)
        .unwrap();
    // Deadline sits at the midpoint; polling before it reports nothing.
    assert_eq!(
        events
            .check_and_trigger_auto_draw(&mut store, NOW + 60 + 1799)
            .unwrap(),
        false
    );
}

#[test]
fn test_check_due_at_most_once() {
    // Two consecutive due-checks with no intervening slot start report
    // true at most once: the first clears the deadline atomically.
    let mut store = Store::new();
    let events = EventService::new(60, 2);
    let lottery = LotteryService::new(LotteryConfig::default());
    events
        .start_event(&mut store, &lottery, plain_request(), NOW)
        .unwrap();
    events
        .start_next_dj_slot(&mut store, "x".to_string(), NOW + 60)
        .unwrap();
    let due = NOW + 60 + 1800;
    assert_eq!(events.check_and_trigger_auto_draw(&mut store, due).unwrap(), true);
    assert_eq!(
        events.check_and_trigger_auto_draw(&mut store, due + 1).unwrap(),
        false
    );
}

#[test]
fn test_draw_next_on_empty_pool_is_none() {
    // drawNext on an empty eligible pool returns none, not an error.
    let mut store = Store::new();
    let lottery = LotteryService::new(LotteryConfig::default());
    let drawn = lottery.draw_next_dj(&mut store, NOW).unwrap();
    assert!(drawn.is_none());
}

#[test]
fn test_draw_next_queues_winner() {
    let mut store = Store::new();
    let lottery = LotteryService::new(LotteryConfig::default());
    let djs = DjService::new();
    let dj = djs.register_dj(
        &mut store,
        CreateDjRequest {
            name: "Solo".to_string(),
            email: None,
        },
        NOW,
    );
    let drawn = lottery.draw_next_dj(&mut store, NOW).unwrap().unwrap();
    assert_eq!(drawn.winner.id, dj.id);
    // The winner now holds position 1; the pool is empty again.
    let queue = lottery.get_current_queue(&store);
    assert_eq!(queue.len(), 1);
    assert_eq!(queue[0].id, dj.id);
    assert_eq!(queue[0].position_in_queue, Some(1));
    assert!(lottery.draw_next_dj(&mut store, NOW).unwrap().is_none());
    // The draw log keeps the record.
    let stats = lottery.get_lottery_statistics(&store);
    assert_eq!(stats.total_draws, 1);
    assert_eq!(stats.unique_winners, 1);
}

#[test]
fn test_start_event_draws_first_dj() {
    // Starting the event immediately draws one performer into the queue
    // as a convenience.
    let mut store = Store::new();
    let events = EventService::new(60, 2);
    let lottery = LotteryService::new(LotteryConfig::default());
    let djs = DjService::new();
    let dj = djs.register_dj(
        &mut store,
        CreateDjRequest {
            name: "First".to_string(),
            email: None,
        },
        NOW,
    );
    events
        .start_event(&mut store, &lottery, plain_request(), NOW)
        .unwrap();
    let queue = lottery.get_current_queue(&store);
    assert_eq!(queue.len(), 1);
    assert_eq!(queue[0].id, dj.id);
}

#[test]
fn test_timetable_lists_queue_in_order() {
    let mut store = Store::new();
    let events = EventService::new(60, 2);
    let lottery = LotteryService::new(LotteryConfig::default());
    let djs = DjService::new();
    let a = djs.register_dj(
        &mut store,
        CreateDjRequest {
            name: "A".to_string(),
            email: None,
        },
        NOW,
    );
    let b = djs.register_dj(
        &mut store,
        CreateDjRequest {
            name: "B".to_string(),
            email: None,
        },
        NOW,
    );
    events
        .start_event(&mut store, &lottery, plain_request(), NOW)
        .unwrap();
    lottery.assign_next_position(&mut store, &a.id).ok();
    lottery.assign_next_position(&mut store, &b.id).ok();

    let timetable = events.get_timetable(&store).unwrap();
    assert_eq!(timetable.total_djs, timetable.entries.len());
    for (i, entry) in timetable.entries.iter().enumerate() {
        assert_eq!(entry.position, (i + 1) as i32);
    }
    assert_eq!(timetable.completed_sets, 0);
}

#[test]
fn test_timetable_statuses() {
    let mut store = Store::new();
    let events = EventService::new(60, 2);
    let lottery = LotteryService::new(LotteryConfig::default());
    let sessions = SessionService::new();
    let djs = DjService::new();
    let a = djs.register_dj(
        &mut store,
        CreateDjRequest {
            name: "A".to_string(),
            email: None,
        },
        NOW,
    );
    let b = djs.register_dj(
        &mut store,
        CreateDjRequest {
            name: "B".to_string(),
            email: None,
        },
        NOW,
    );
    events
        .start_event(&mut store, &lottery, plain_request(), NOW)
        .unwrap();
    lottery.assign_next_position(&mut store, &a.id).ok();
    lottery.assign_next_position(&mut store, &b.id).ok();

    // A takes the stage: their slot begins and their set opens.
    let opened = sessions
        .start_session(
            &mut store,
            &events,
            StartSessionRequest {
                dj_id: a.id.clone(),
                session_type: Some(SessionType::Solo),
            },
            NOW + 60,
        )
        .unwrap();
    let timetable = events.get_timetable(&store).unwrap();
    let entry_a = timetable.entries.iter().find(|e| e.dj_id == a.id).unwrap();
    let entry_b = timetable.entries.iter().find(|e| e.dj_id == b.id).unwrap();
    assert_eq!(entry_a.status, TimetableEntryStatus::InProgress);
    assert_eq!(entry_b.status, TimetableEntryStatus::Upcoming);
    assert_eq!(timetable.completed_sets, 0);

    // A finishes: their row completes.
    sessions
        .end_session(&mut store, &opened.id, NOW + 1800)
        .unwrap();
    let timetable = events.get_timetable(&store).unwrap();
    let entry_a = timetable.entries.iter().find(|e| e.dj_id == a.id).unwrap();
    assert_eq!(entry_a.status, TimetableEntryStatus::Completed);
    assert_eq!(timetable.completed_sets, 1);
}

#[test]
fn test_error_messages_are_descriptive() {
    assert_eq!(
        DjSystemError::EmptyCandidatePool.message(),
        "no eligible candidates to draw from"
    );
    assert_eq!(DjSystemError::NoActiveEvent.message(), "no active event found");
    assert!(!DjSystemError::OutOfRange.message().is_empty());
}
