use session_recorder_addon::models::dj::{CreateDjRequest, GuestRequest, UpdateDjRequest};
use session_recorder_addon::models::lottery::LotteryConfig;
use session_recorder_addon::services::dj_service::DjService;
use session_recorder_addon::services::lottery_service::LotteryService;
use session_recorder_addon::services::store::Store;
use session_recorder_addon::WEIGHT_SCALE;

const NOW: i64 = 1_700_000_000;

fn no_update() -> UpdateDjRequest {
    UpdateDjRequest {
        name: None,
        email: None,
        weight: None,
        is_active: None,
        position_in_queue: None,
    }
}

#[test]
fn test_register_dj() {
    let mut store = Store::new();
    let dj_service = DjService::new();

    let request = CreateDjRequest {
        name: "Test DJ".to_string(),
        email: Some("test@example.com".to_string()),
    };

    let dj = dj_service.register_dj(&mut store, request, NOW);
    assert_eq!(dj.name, "Test DJ");
    assert_eq!(dj.email, Some("test@example.com".to_string()));
    assert!(dj.is_active);
    assert_eq!(dj.weight, WEIGHT_SCALE); // a base weight of 1.0
    assert_eq!(dj.id.len(), 36);
}

#[test]
fn test_get_all_djs() {
    let mut store = Store::new();
    let dj_service = DjService::new();

    let requests = vec![
        CreateDjRequest {
            name: "DJ One".to_string(),
            email: Some("one@example.com".to_string()),
        },
        CreateDjRequest {
            name: "DJ Two".to_string(),
            email: Some("two@example.com".to_string()),
        },
    ];

    for request in requests {
        dj_service.register_dj(&mut store, request, NOW);
    }

    let djs = dj_service.get_all_djs(&store);
    assert_eq!(djs.len(), 2);

    let names: Vec<&String> = djs.iter().map(|dj| &dj.name).collect();
    assert!(names.contains(&&"DJ One".to_string()));
    assert!(names.contains(&&"DJ Two".to_string()));
}

#[test]
fn test_get_active_djs_only() {
    let mut store = Store::new();
    let dj_service = DjService::new();
    let lottery = LotteryService::new(LotteryConfig::default());

    let _dj1 = dj_service.register_dj(
        &mut store,
        CreateDjRequest {
            name: "Active DJ".to_string(),
            email: None,
        },
        NOW,
    );

    let dj2 = dj_service.register_dj(
        &mut store,
        CreateDjRequest {
            name: "Inactive DJ".to_string(),
            email: None,
        },
        NOW,
    );

    // Deactivate second DJ
    dj_service
        .update_dj(
            &mut store,
            &lottery,
            &dj2.id,
            UpdateDjRequest {
                is_active: Some(false),
                ..no_update()
            },
        )
        .unwrap();

    let active_djs = dj_service.get_active_djs(&store);
    assert_eq!(active_djs.len(), 1);
    assert_eq!(active_djs[0].name, "Active DJ");
}

#[test]
fn test_update_dj() {
    let mut store = Store::new();
    let dj_service = DjService::new();
    let lottery = LotteryService::new(LotteryConfig::default());

    let dj = dj_service.register_dj(
        &mut store,
        CreateDjRequest {
            name: "Original Name".to_string(),
            email: Some("original@example.com".to_string()),
        },
        NOW,
    );

    let update_request = UpdateDjRequest {
        name: Some("Updated Name".to_string()),
        email: Some("updated@example.com".to_string()),
        weight: Some(2 * WEIGHT_SCALE), // a base weight of 2.0
        is_active: None,
        position_in_queue: None,
    };

    let updated_dj = dj_service
        .update_dj(&mut store, &lottery, &dj.id, update_request)
        .unwrap();
    assert!(updated_dj.is_some());

    let updated_dj = updated_dj.unwrap();
    assert_eq!(updated_dj.name, "Updated Name");
    assert_eq!(updated_dj.email, Some("updated@example.com".to_string()));
    assert_eq!(updated_dj.weight, 2 * WEIGHT_SCALE);
}

#[test]
fn test_update_dj_rejects_zero_weight() {
    let mut store = Store::new();
    let dj_service = DjService::new();
    let lottery = LotteryService::new(LotteryConfig::default());
    let dj = dj_service.register_dj(
        &mut store,
        CreateDjRequest {
            name: "Weighted".to_string(),
            email: None,
        },
        NOW,
    );
    let result = dj_service.update_dj(
        &mut store,
        &lottery,
        &dj.id,
        UpdateDjRequest {
            weight: Some(0),
            ..no_update()
        },
    );
    assert_eq!(
        result.unwrap_err(),
        session_recorder_addon::errors::DjSystemError::InvalidWeight
    );
}

#[test]
fn test_update_unknown_dj_is_none() {
    let mut store = Store::new();
    let dj_service = DjService::new();
    let lottery = LotteryService::new(LotteryConfig::default());
    let result = dj_service
        .update_dj(&mut store, &lottery, "missing", no_update())
        .unwrap();
    assert!(result.is_none());
}

#[test]
fn test_deactivating_queued_dj_dequeues() {
    // A candidate holding a queue position must be active, so
    // deactivation removes them from the queue and renumbers it.
    let mut store = Store::new();
    let dj_service = DjService::new();
    let lottery = LotteryService::new(LotteryConfig::default());
    let a = dj_service.register_dj(
        &mut store,
        CreateDjRequest {
            name: "a".to_string(),
            email: None,
        },
        NOW,
    );
    let b = dj_service.register_dj(
        &mut store,
        CreateDjRequest {
            name: "b".to_string(),
            email: None,
        },
        NOW,
    );
    lottery.assign_next_position(&mut store, &a.id).unwrap();
    lottery.assign_next_position(&mut store, &b.id).unwrap();
    dj_service
        .update_dj(
            &mut store,
            &lottery,
            &a.id,
            UpdateDjRequest {
                is_active: Some(false),
                ..no_update()
            },
        )
        .unwrap();
    let queue = lottery.get_current_queue(&store);
    assert_eq!(queue.len(), 1);
    assert_eq!(queue[0].id, b.id);
    assert_eq!(queue[0].position_in_queue, Some(1));
}

#[test]
fn test_remove_dj() {
    let mut store = Store::new();
    let dj_service = DjService::new();
    let lottery = LotteryService::new(LotteryConfig::default());

    let dj = dj_service.register_dj(
        &mut store,
        CreateDjRequest {
            name: "To Be Removed".to_string(),
            email: None,
        },
        NOW,
    );

    let removed = dj_service.remove_dj(&mut store, &lottery, &dj.id).unwrap();
    assert!(removed);

    let found_dj = dj_service.get_dj_by_id(&store, &dj.id);
    assert!(found_dj.is_none());
}

#[test]
fn test_get_dj_pool() {
    let mut store = Store::new();
    let dj_service = DjService::new();

    for i in 1..=3 {
        dj_service.register_dj(
            &mut store,
            CreateDjRequest {
                name: format!("DJ {}", i),
                email: Some(format!("dj{}@example.com", i)),
            },
            NOW,
        );
    }

    let pool = dj_service.get_dj_pool(&store);
    assert_eq!(pool.active_djs.len(), 3);
    assert_eq!(pool.total_count, 3);
    assert!(pool.current_dj.is_none()); // No active sessions
    assert!(pool.next_dj.is_none()); // No queue positions assigned
}

#[test]
fn test_count_active_djs() {
    let mut store = Store::new();
    let dj_service = DjService::new();

    // Initially no DJs
    assert_eq!(dj_service.count_active_djs(&store), 0);

    for i in 1..=5 {
        dj_service.register_dj(
            &mut store,
            CreateDjRequest {
                name: format!("DJ {}", i),
                email: None,
            },
            NOW,
        );
    }

    assert_eq!(dj_service.count_active_djs(&store), 5);
}

#[test]
fn test_register_dj_without_email() {
    let mut store = Store::new();
    let dj_service = DjService::new();

    let request = CreateDjRequest {
        name: "No Email DJ".to_string(),
        email: None,
    };

    let dj = dj_service.register_dj(&mut store, request, NOW);
    assert_eq!(dj.name, "No Email DJ");
    assert!(dj.email.is_none());
}

#[test]
fn test_guest_request_lifecycle() {
    let mut store = Store::new();
    let dj_service = DjService::new();
    let dj = dj_service.register_dj(
        &mut store,
        CreateDjRequest {
            name: "Target".to_string(),
            email: None,
        },
        NOW,
    );
    dj_service.submit_guest_request(
        &mut store,
        dj.id.clone(),
        GuestRequest {
            guest_name: "Guest".to_string(),
            guest_email: "guest@example.com".to_string(),
            message: Some("play something".to_string()),
            target_dj_id: String::new(),
        },
    );
    let pending = dj_service.get_guest_requests(&store, &dj.id);
    assert_eq!(pending.len(), 1);
    assert_eq!(pending[0].guest_name, "Guest");
    assert_eq!(pending[0].target_dj_id, dj.id);

    let request_id = store.guest_requests[0].id.clone();
    assert_eq!(
        dj_service
            .approve_guest_request(&mut store, &request_id)
            .unwrap(),
        true
    );
    // Approved requests are no longer pending.
    assert!(dj_service.get_guest_requests(&store, &dj.id).is_empty());
    assert_eq!(
        dj_service.reject_guest_request(&mut store, "missing").unwrap(),
        false
    );
}
