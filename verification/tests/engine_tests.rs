use ratings_core::errors::{CoreError, DeliveryError};
use ratings_core::ips::ip_blocked;
use ratings_core::models::{
    ApiResponse, Ip, MenuItem, NewGroup, NewGroupMembership, NewPushSubscription, NewRating,
    NewUser, Restaurant, Role, UserClaims,
};
use ratings_core::period::Date;
use ratings_core::store::Store;

const ALICE: &str = "user_alice";
const BOB: &str = "user_bob";
const CARA: &str = "user_cara";
const GROUP: &str = "group_g";

fn today() -> Date {
    Date { year: 2024, month: 5, day: 15 }
}

fn user(id: &str) -> NewUser {
    NewUser {
        id: id.to_owned(),
        username: format!("name_{id}"),
        password: "pw".to_owned(),
        color: "#123456".to_owned(),
    }
}

fn rating_for(restaurant: &str, user_id: &str, score: u32) -> NewRating {
    NewRating {
        restaurant_id: restaurant.to_owned(),
        user_id: user_id.to_owned(),
        username: format!("name_{user_id}"),
        score,
        group_id: GROUP.to_owned(),
    }
}

/// A group of two members with three restaurants.
fn setup(store: &mut Store) {
    store.create_user(&user(ALICE)).unwrap();
    store.create_user(&user(BOB)).unwrap();
    store
        .create_group_with_id(
            GROUP,
            &NewGroup {
                name: "lunch crowd".to_owned(),
                description: None,
                creator_id: ALICE.to_owned(),
            },
            today(),
        )
        .unwrap();
    store
        .create_group_membership(
            &NewGroupMembership {
                group_id: GROUP.to_owned(),
                user_id: BOB.to_owned(),
                role: Role::Member,
            },
            today(),
        )
        .unwrap();
    for id in ["rest_a", "rest_b", "rest_c"] {
        store
            .create_restaurant(&Restaurant {
                id: id.to_owned(),
                cuisine: "any".to_owned(),
                menu: Vec::new(),
            })
            .unwrap();
    }
}

#[test]
fn submit_twice_keeps_single_row() {
    let mut store = Store::new();
    setup(&mut store);
    assert!(!store.is_restaurant_rated_by_user("rest_a", ALICE, GROUP));

    store.submit_rating(&rating_for("rest_a", ALICE, 7), ALICE, today()).unwrap();
    assert!(store.is_restaurant_rated_by_user("rest_a", ALICE, GROUP));
    assert_eq!(store.ratings.len(), 1);

    let updated = store.submit_rating(&rating_for("rest_a", ALICE, 9), ALICE, today()).unwrap();
    assert_eq!(store.ratings.len(), 1);
    assert_eq!(updated.score, 9);
    assert_eq!(store.ratings[0].score, 9);
}

#[test]
fn completion_flips_with_membership() {
    let mut store = Store::new();
    setup(&mut store);
    store.submit_rating(&rating_for("rest_a", ALICE, 8), ALICE, today()).unwrap();
    let (complete, _) =
        store.is_restaurant_rating_complete("rest_a", GROUP, today(), false).unwrap();
    assert!(!complete);

    store.submit_rating(&rating_for("rest_a", BOB, 6), BOB, today()).unwrap();
    let (complete, _) =
        store.is_restaurant_rating_complete("rest_a", GROUP, today(), false).unwrap();
    assert!(complete);

    // One more member joining resets the round to incomplete.
    store.create_user(&user(CARA)).unwrap();
    store
        .create_group_membership(
            &NewGroupMembership {
                group_id: GROUP.to_owned(),
                user_id: CARA.to_owned(),
                role: Role::Member,
            },
            today(),
        )
        .unwrap();
    let (complete, _) =
        store.is_restaurant_rating_complete("rest_a", GROUP, today(), false).unwrap();
    assert!(!complete);
}

#[test]
fn dedup_gates_second_dispatch() {
    let mut store = Store::new();
    setup(&mut store);
    store.submit_rating(&rating_for("rest_a", ALICE, 8), ALICE, today()).unwrap();
    store.submit_rating(&rating_for("rest_a", BOB, 6), BOB, today()).unwrap();

    let mut dispatches = 0;
    for _ in 0..2 {
        let (complete, dispatch) =
            store.is_restaurant_rating_complete("rest_a", GROUP, today(), true).unwrap();
        assert!(complete);
        if dispatch {
            dispatches += 1;
        }
    }
    assert_eq!(dispatches, 1);
    assert_eq!(store.notifications.len(), 1);
}

#[test]
fn dedup_resets_next_quarter() {
    let mut store = Store::new();
    setup(&mut store);
    store.submit_rating(&rating_for("rest_a", ALICE, 8), ALICE, today()).unwrap();
    store.submit_rating(&rating_for("rest_a", BOB, 6), BOB, today()).unwrap();
    let (_, dispatch) =
        store.is_restaurant_rating_complete("rest_a", GROUP, today(), true).unwrap();
    assert!(dispatch);

    // In the next quarter the ledger row no longer matches, and the round
    // itself is incomplete again because no new rows exist.
    let next_quarter = Date { year: 2024, month: 8, day: 1 };
    let (complete, dispatch) =
        store.is_restaurant_rating_complete("rest_a", GROUP, next_quarter, true).unwrap();
    assert!(!complete);
    assert!(!dispatch);
}

#[test]
fn aggregation_order_literal() {
    // Group G: restaurant A complete with average 9.0 over two ratings, B
    // incomplete with a single 7, C unrated.  Expected order: A, B, C.
    let mut store = Store::new();
    setup(&mut store);
    store.submit_rating(&rating_for("rest_a", ALICE, 9), ALICE, today()).unwrap();
    store.submit_rating(&rating_for("rest_a", BOB, 9), BOB, today()).unwrap();
    store.submit_rating(&rating_for("rest_b", ALICE, 7), ALICE, today()).unwrap();

    let ranked = store.get_restaurants_with_avg_rating(GROUP, today()).unwrap();
    let ids: Vec<String> = ranked.iter().map(|(r, _)| r.id.clone()).collect();
    assert_eq!(ids, vec!["rest_a", "rest_b", "rest_c"]);
    assert_eq!(ranked[0].1.score_sum, 18);
    assert_eq!(ranked[0].1.rating_count, 2);
    assert_eq!(ranked[1].1.score_sum, 7);
    assert_eq!(ranked[1].1.rating_count, 1);
    assert_eq!(ranked[2].1.score_sum, 0);
    assert_eq!(ranked[2].1.rating_count, 0);
}

#[test]
fn aggregation_ties_break_by_id() {
    let mut store = Store::new();
    setup(&mut store);
    // Same average 5.0 for B and A; A's id sorts first.
    store.submit_rating(&rating_for("rest_b", ALICE, 5), ALICE, today()).unwrap();
    store.submit_rating(&rating_for("rest_a", ALICE, 5), ALICE, today()).unwrap();
    let ranked = store.get_restaurants_with_avg_rating(GROUP, today()).unwrap();
    let ids: Vec<String> = ranked.iter().map(|(r, _)| r.id.clone()).collect();
    assert_eq!(ids, vec!["rest_a", "rest_b", "rest_c"]);
}

#[test]
fn ratings_survive_membership_delete() {
    let mut store = Store::new();
    setup(&mut store);
    store.submit_rating(&rating_for("rest_a", BOB, 6), BOB, today()).unwrap();

    // Bob's membership row is id 2 (creator's is 1).
    let removed = store.delete_group_membership(2);
    assert_eq!(removed, 1);
    assert!(!store.check_group_membership_exists(BOB, GROUP));

    let (year, period, _) = ratings_core::period::Period::period_info(today());
    let rows = store
        .get_ratings_by_restaurant_per_period(GROUP, "rest_a", year, &period)
        .unwrap();
    assert_eq!(rows.len(), 1);
    assert_eq!(rows[0].user_id, BOB);
}

#[test]
fn create_rating_requires_membership() {
    let mut store = Store::new();
    setup(&mut store);
    store.create_user(&user(CARA)).unwrap();
    let denied = store.create_rating(&rating_for("rest_a", CARA, 5), today());
    assert_eq!(denied.unwrap_err(), CoreError::NotAMember);
}

#[test]
fn update_rating_without_row_is_not_found() {
    let mut store = Store::new();
    setup(&mut store);
    let missing = store.update_rating(&rating_for("rest_a", ALICE, 5), ALICE, today());
    assert_eq!(missing.unwrap_err(), CoreError::NotFound);
}

#[test]
fn update_never_touches_past_periods() {
    let mut store = Store::new();
    setup(&mut store);
    let past = Date { year: 2024, month: 2, day: 10 };
    store.submit_rating(&rating_for("rest_a", ALICE, 4), ALICE, past).unwrap();
    // The only row lives in Q1, so a Q2 update finds nothing to touch.
    let missing = store.update_rating(&rating_for("rest_a", ALICE, 9), ALICE, today());
    assert_eq!(missing.unwrap_err(), CoreError::NotFound);
    assert_eq!(store.ratings[0].score, 4);
}

#[test]
fn duplicate_restaurant_is_store_error() {
    let mut store = Store::new();
    setup(&mut store);
    let duplicate = store.create_restaurant(&Restaurant {
        id: "rest_a".to_owned(),
        cuisine: "other".to_owned(),
        menu: Vec::new(),
    });
    assert_eq!(duplicate.unwrap_err(), CoreError::StoreError);
}

#[test]
fn duplicate_username_already_exists() {
    let mut store = Store::new();
    setup(&mut store);
    let mut copy = user(ALICE);
    copy.id = "other_id".to_owned();
    let denied = store.create_user(&copy);
    assert_eq!(denied.unwrap_err(), CoreError::AlreadyExists);
}

#[test]
fn missing_group_is_not_found() {
    let store = Store::new();
    let missing = store.get_group("nowhere");
    assert_eq!(missing.unwrap_err(), CoreError::NotFound);
}

#[test]
fn notification_plan_reaches_members_only() {
    let mut store = Store::new();
    setup(&mut store);
    store.create_user(&user(CARA)).unwrap();
    for (id, endpoint) in [(ALICE, "https://a"), (BOB, "https://b"), (CARA, "https://c")] {
        store
            .create_push_subscription(&NewPushSubscription {
                user_id: id.to_owned(),
                endpoint: endpoint.to_owned(),
                p256dh: "k".to_owned(),
                auth: "a".to_owned(),
            })
            .unwrap();
    }
    let (targets, body) = store.plan_group_notification(GROUP, "rest_a ratings are complete!");
    let endpoints: Vec<String> = targets.iter().map(|t| t.endpoint.clone()).collect();
    assert_eq!(endpoints, vec!["https://a", "https://b"]);
    assert_eq!(body, "lunch crowd: rest_a ratings are complete!");

    let (no_targets, _) = store.plan_group_notification("nowhere", "msg");
    assert!(no_targets.is_empty());
}

#[test]
fn invalid_endpoint_loses_subscription() {
    let mut store = Store::new();
    setup(&mut store);
    store
        .create_push_subscription(&NewPushSubscription {
            user_id: ALICE.to_owned(),
            endpoint: "https://a".to_owned(),
            p256dh: "k".to_owned(),
            auth: "a".to_owned(),
        })
        .unwrap();

    let removed = store.handle_delivery_failure("https://a", DeliveryError::Transient);
    assert_eq!(removed, 0);
    assert!(store.get_push_subscription("https://a").is_ok());

    let removed = store.handle_delivery_failure("https://a", DeliveryError::PermanentlyInvalid);
    assert_eq!(removed, 1);
    assert_eq!(
        store.get_push_subscription("https://a").unwrap_err(),
        CoreError::NotFound
    );
}

#[test]
fn historical_aggregates_span_quarters() {
    let mut store = Store::new();
    setup(&mut store);
    let q1 = Date { year: 2023, month: 2, day: 1 };
    let q3 = Date { year: 2023, month: 8, day: 1 };
    store.submit_rating(&rating_for("rest_a", ALICE, 4), ALICE, q1).unwrap();
    store.submit_rating(&rating_for("rest_b", ALICE, 6), ALICE, q3).unwrap();
    // The submit flow's existence check is deliberately unscoped by period,
    // so a new quarter's row for an already-rated restaurant is inserted
    // directly, as a store seeded across quarters would hold it.
    store.create_rating(&rating_for("rest_a", ALICE, 8), today()).unwrap();

    let by_user = store.get_ratings_by_user(ALICE, today()).unwrap();
    assert_eq!(by_user.current_period_ratings.len(), 1);
    let hist = &by_user.historical_ratings;
    assert_eq!(hist.len(), 3);
    // Ordered by year, then quarter, then restaurant id.
    assert_eq!((hist[0].year, hist[0].restaurant_id.as_str()), (2023, "rest_a"));
    assert_eq!((hist[1].year, hist[1].restaurant_id.as_str()), (2023, "rest_b"));
    assert_eq!((hist[2].year, hist[2].restaurant_id.as_str()), (2024, "rest_a"));
    assert_eq!(hist[0].score_sum, 4);
    assert_eq!(hist[0].rating_count, 1);
    assert_eq!(hist[2].score_sum, 8);
}

#[test]
fn ip_blacklist_round_trip() {
    let mut store = Store::new();
    let inserted = store
        .create_ip_blacklist(&vec![
            Ip { ip_address: "10.0.0.1".to_owned() },
            Ip { ip_address: "10.0.0.2".to_owned() },
        ])
        .unwrap();
    assert_eq!(inserted, 2);
    let listed = store.get_ip_blacklist();
    assert_eq!(listed.len(), 2);
    assert_eq!(listed[0].ip_address, "10.0.0.1");

    let snapshot: Vec<String> = listed.into_iter().map(|ip| ip.ip_address).collect();
    assert!(ip_blocked(&snapshot, "10.0.0.2"));
    assert!(!ip_blocked(&snapshot, "10.0.0.3"));

    assert_eq!(store.delete_ip("10.0.0.1"), 1);
    assert_eq!(store.get_ip_blacklist().len(), 1);
}

#[test]
fn role_names_parse_case_insensitively() {
    assert_eq!(Role::from_name("admin"), Role::Admin);
    assert_eq!(Role::from_name("Admin"), Role::Admin);
    assert_eq!(Role::from_name("ADMIN"), Role::Admin);
    assert_eq!(Role::from_name("member"), Role::Member);
    assert_eq!(Role::from_name("anything"), Role::Member);
    assert_eq!(Role::from(String::from("aDmIn")), Role::Admin);
    assert_eq!(Role::default(), Role::Member);
}

#[test]
fn api_response_shapes() {
    let ok = ApiResponse::success(41u32);
    assert!(ok.success);
    assert!(ok.message.is_empty());
    assert_eq!(ok.data, Some(41));
    let err = ApiResponse::<u32>::error("broken".to_owned());
    assert!(!err.success);
    assert_eq!(err.message, "broken");
    assert!(err.data.is_none());
}

#[test]
fn user_claims_expiry() {
    let claims = UserClaims { id: "u".to_owned(), username: "n".to_owned(), exp: 100 };
    assert!(!claims.expired(100));
    assert!(!claims.expired(50));
    assert!(claims.expired(101));
}

#[test]
fn menu_items_belong_to_their_restaurant() {
    let mut store = Store::new();
    setup(&mut store);
    store
        .create_menu_item(&MenuItem {
            id: 0,
            restaurant_id: "rest_a".to_owned(),
            name: "soup".to_owned(),
            price_cents: 450,
        })
        .unwrap();
    store
        .create_menu_item(&MenuItem {
            id: 0,
            restaurant_id: "rest_b".to_owned(),
            name: "salad".to_owned(),
            price_cents: 700,
        })
        .unwrap();
    let rest_a = store.get_restaurant("rest_a").unwrap();
    assert_eq!(rest_a.menu.len(), 1);
    assert_eq!(rest_a.menu[0].name, "soup");
    assert_eq!(rest_a.menu[0].price_cents, 450);
    assert_eq!(store.delete_menu_item(rest_a.menu[0].id), 1);
    assert!(store.get_restaurant("rest_a").unwrap().menu.is_empty());
}

#[test]
fn fresh_ids_are_distinct() {
    let a = ratings_core::ids::fresh_uuid();
    let b = ratings_core::ids::fresh_uuid();
    assert_eq!(a.len(), 36);
    assert_eq!(b.len(), 36);
    assert_ne!(a, b);
}
