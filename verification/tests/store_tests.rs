use ratings_core::errors::CoreError;
use ratings_core::models::{NewGroup, NewGroupMembership, NewPushSubscription, NewRating, NewUser, Restaurant, Role};
use ratings_core::period::{Date, Period};
use ratings_core::store::Store;

const USER_ID_1: &str = "test_id";
const USER_USERNAME_1: &str = "test_username";
const USER_PASSWORD_1: &str = "test_password";
const USER_COLOR_1: &str = "#9a79cf";
const USER_ID_2: &str = "test_id2";
const USER_USERNAME_2: &str = "test_username2";
const USER_ID_3: &str = "test_id3";

const GROUP_ID_1: &str = "test_group_id1";
const GROUP_NAME_1: &str = "test_group1";
const GROUP_DESCRIPTION_1: &str = "this is test group 1 (users: test_id, test_id2)";
const GROUP_ID_2: &str = "test_group_id2";
const GROUP_NAME_2: &str = "test_group2";
const GROUP_DESCRIPTION_2: &str = "this is test group 2 (users: test_id, test_id3)";

const RESTAURANT_ID: &str = "test_restaurant";

fn today() -> Date {
    Date { year: 2024, month: 5, day: 15 }
}

fn new_user(id: &str, username: &str) -> NewUser {
    NewUser {
        id: id.to_owned(),
        username: username.to_owned(),
        password: USER_PASSWORD_1.to_owned(),
        color: USER_COLOR_1.to_owned(),
    }
}

/// Users test_id, test_id2, test_id3; group 1 created by test_id with
/// test_id2 added as Admin; group 2 created by test_id with test_id3 added.
fn setup_users(store: &mut Store) {
    store.create_user(&new_user(USER_ID_1, USER_USERNAME_1)).unwrap();
    store.create_user(&new_user(USER_ID_2, USER_USERNAME_2)).unwrap();
    store.create_user(&new_user(USER_ID_3, "test_username3")).unwrap();
    store
        .create_group_with_id(
            GROUP_ID_1,
            &NewGroup {
                name: GROUP_NAME_1.to_owned(),
                description: Some(GROUP_DESCRIPTION_1.to_owned()),
                creator_id: USER_ID_1.to_owned(),
            },
            today(),
        )
        .unwrap();
    store
        .create_group_membership(
            &NewGroupMembership {
                group_id: GROUP_ID_1.to_owned(),
                user_id: USER_ID_2.to_owned(),
                role: Role::Admin,
            },
            today(),
        )
        .unwrap();
    store
        .create_group_with_id(
            GROUP_ID_2,
            &NewGroup {
                name: GROUP_NAME_2.to_owned(),
                description: Some(GROUP_DESCRIPTION_2.to_owned()),
                creator_id: USER_ID_1.to_owned(),
            },
            today(),
        )
        .unwrap();
}

fn setup_restaurant(store: &mut Store) {
    store
        .create_restaurant(&Restaurant {
            id: RESTAURANT_ID.to_owned(),
            cuisine: "test_cuisine".to_owned(),
            menu: Vec::new(),
        })
        .unwrap();
}

fn rating(user_id: &str, username: &str, score: u32) -> NewRating {
    NewRating {
        restaurant_id: RESTAURANT_ID.to_owned(),
        user_id: user_id.to_owned(),
        username: username.to_owned(),
        score,
        group_id: GROUP_ID_1.to_owned(),
    }
}

/// One rating by user 1 only: the round in group 1 stays incomplete.
fn setup_ratings_incomplete(store: &mut Store) {
    store.create_rating(&rating(USER_ID_1, USER_USERNAME_1, 10), today()).unwrap();
}

/// Both members of group 1 rated with score 9: the round is complete.
fn setup_ratings_complete(store: &mut Store) {
    store.create_rating(&rating(USER_ID_1, USER_USERNAME_1, 9), today()).unwrap();
    store.create_rating(&rating(USER_ID_2, USER_USERNAME_2, 9), today()).unwrap();
}

#[test]
fn test_create_user() {
    let mut store = Store::new();
    let new_user = new_user(USER_ID_1, USER_USERNAME_1);
    let user = store.create_user(&new_user).unwrap();
    assert_eq!(user.id, new_user.id);
    assert_eq!(user.username, new_user.username);
    assert_eq!(user.password, new_user.password);
    assert_eq!(user.color, new_user.color);
}

#[test]
fn test_get_users() {
    let mut store = Store::new();
    setup_users(&mut store);
    let users = store.get_users(today()).unwrap();
    assert!(!users.is_empty());
    let user = users.first().unwrap();
    assert_eq!(user.id, USER_ID_1);
    assert_eq!(user.username, USER_USERNAME_1);
    assert_eq!(user.password, USER_PASSWORD_1);
    assert_eq!(user.color, USER_COLOR_1);
    assert_eq!(
        user.group_memberships.iter().map(|gm| gm.group_id.clone()).collect::<Vec<String>>(),
        vec![GROUP_ID_1, GROUP_ID_2]
    );
    assert!(user.group_memberships.iter().all(|gm| gm.role == Role::Admin));
}

#[test]
fn test_get_user_by_credentials() {
    let mut store = Store::new();
    setup_users(&mut store);
    let user = store.get_user_by_credentials(USER_USERNAME_1, today()).unwrap().unwrap();
    assert_eq!(user.id, USER_ID_1);
    assert_eq!(user.username, USER_USERNAME_1);
    assert_eq!(user.password, USER_PASSWORD_1);
    assert_eq!(user.color, USER_COLOR_1);
    assert_eq!(
        user.group_memberships.iter().map(|gm| gm.group_id.clone()).collect::<Vec<String>>(),
        vec![GROUP_ID_1, GROUP_ID_2]
    );
    assert!(user.group_memberships.iter().all(|gm| gm.role == Role::Admin));
}

#[test]
fn test_update_user() {
    let mut store = Store::new();
    setup_users(&mut store);
    const NEW_USERNAME: &str = "new_username1";
    const NEW_COLOR: &str = "#000000";
    let user = NewUser {
        id: USER_ID_1.to_owned(),
        username: NEW_USERNAME.to_owned(),
        password: USER_PASSWORD_1.to_owned(),
        color: NEW_COLOR.to_owned(),
    };
    let updated_user = store.update_user(&user.id.clone(), &user, today()).unwrap();
    assert_eq!(updated_user.id, USER_ID_1);
    assert_eq!(updated_user.username, NEW_USERNAME);
    assert_eq!(updated_user.password, USER_PASSWORD_1);
    assert_eq!(updated_user.color, NEW_COLOR);
    assert_eq!(
        updated_user
            .group_memberships
            .iter()
            .map(|gm| gm.group_id.clone())
            .collect::<Vec<String>>(),
        vec![GROUP_ID_1, GROUP_ID_2]
    );
    assert!(updated_user.group_memberships.iter().all(|gm| gm.role == Role::Admin));
}

#[test]
fn test_delete_user() {
    let mut store = Store::new();
    setup_users(&mut store);
    let rows_affected = store.delete_user(USER_ID_1);
    assert_eq!(rows_affected, 1);
}

#[test]
fn test_create_push_subscription() {
    let mut store = Store::new();
    setup_users(&mut store);
    let subscription_info = NewPushSubscription {
        user_id: USER_ID_1.to_owned(),
        endpoint: "https://test_endpoint.com".to_owned(),
        p256dh: "p256dh".to_owned(),
        auth: "auth".to_owned(),
    };
    let initial_push_subscription = store.create_push_subscription(&subscription_info).unwrap();
    assert_eq!(initial_push_subscription.user_id, USER_ID_1);
    assert_eq!(initial_push_subscription.endpoint, subscription_info.endpoint);
    assert_eq!(initial_push_subscription.p256dh, subscription_info.p256dh);
    assert_eq!(initial_push_subscription.auth, subscription_info.auth);

    let updated_subscription_info = NewPushSubscription {
        user_id: USER_ID_1.to_owned(),
        endpoint: "https://test_endpoint.com".to_owned(),
        p256dh: "p256dh1".to_owned(),
        auth: "auth1".to_owned(),
    };
    let updated_push_subscription =
        store.create_push_subscription(&updated_subscription_info).unwrap();
    assert_eq!(updated_push_subscription.endpoint, initial_push_subscription.endpoint);
    assert_eq!(updated_push_subscription.endpoint, updated_subscription_info.endpoint);
    assert_eq!(updated_push_subscription.user_id, USER_ID_1);
    assert_eq!(updated_push_subscription.p256dh, updated_subscription_info.p256dh);
    assert_eq!(updated_push_subscription.auth, updated_subscription_info.auth);
}

#[test]
fn test_create_rating_notification() {
    let mut store = Store::new();
    setup_users(&mut store);
    setup_restaurant(&mut store);
    let rating_notification =
        store.create_rating_notification(RESTAURANT_ID, GROUP_ID_1, today()).unwrap();
    assert_eq!(rating_notification.restaurant_id, RESTAURANT_ID);
    assert_eq!(rating_notification.group_id, GROUP_ID_1);
    let current_period = Period::from_date(today());
    assert_eq!(Period::from_date(rating_notification.notified_at), current_period);
}

#[test]
fn test_create_group() {
    let mut store = Store::new();
    setup_users(&mut store);
    let new_group = NewGroup {
        name: "test_group3".to_owned(),
        description: Some("group 3".to_owned()),
        creator_id: USER_ID_1.to_owned(),
    };
    let group_membership = store.create_group(&new_group, today()).unwrap();
    assert_eq!(group_membership.group.name, new_group.name);
    assert_eq!(group_membership.group.description, new_group.description);
    // The fresh id is the 36-character hyphenated UUID form.
    assert_eq!(group_membership.group.id.len(), 36);
}

#[test]
fn test_get_group() {
    let mut store = Store::new();
    setup_users(&mut store);
    let group = store.get_group(GROUP_ID_1).unwrap();
    assert_eq!(group.id, GROUP_ID_1);
    assert_eq!(group.name, GROUP_NAME_1);
    assert_eq!(group.description, Some(GROUP_DESCRIPTION_1.to_owned()));
}

#[test]
fn test_get_group_by_membership() {
    let mut store = Store::new();
    setup_users(&mut store);
    let group = store.get_group_by_membership(1).unwrap();
    assert_eq!(group.id, GROUP_ID_1);
    assert_eq!(group.name, GROUP_NAME_1);
    assert_eq!(group.description, Some(GROUP_DESCRIPTION_1.to_owned()));
}

#[test]
fn test_delete_group() {
    let mut store = Store::new();
    setup_users(&mut store);
    let rows_affected = store.delete_group(GROUP_ID_2);
    assert_eq!(rows_affected, 1);
}

#[test]
fn test_create_group_membership() {
    let mut store = Store::new();
    setup_users(&mut store);
    let new_group_membership = NewGroupMembership {
        group_id: GROUP_ID_2.to_owned(),
        user_id: USER_ID_3.to_owned(),
        role: Role::Member,
    };
    let group_membership = store.create_group_membership(&new_group_membership, today()).unwrap();
    assert_eq!(group_membership.group_id, GROUP_ID_2);
    assert_eq!(group_membership.group.id, GROUP_ID_2);
    assert_eq!(group_membership.group.name, GROUP_NAME_2);
    assert_eq!(group_membership.group.description, Some(GROUP_DESCRIPTION_2.to_owned()));
    assert_eq!(group_membership.user_id, USER_ID_3);
    assert_eq!(group_membership.role, Role::Member);

    let duplicate = store.create_group_membership(&new_group_membership, today());
    assert!(duplicate.is_err());
    assert_eq!(duplicate.unwrap_err(), CoreError::AlreadyExists);
}

#[test]
fn test_get_group_membership() {
    let mut store = Store::new();
    setup_users(&mut store);
    let group_membership = store.get_group_membership(1).unwrap();
    assert_eq!(group_membership.group_id, GROUP_ID_1);
    assert_eq!(group_membership.group.id, GROUP_ID_1);
    assert_eq!(group_membership.group.name, GROUP_NAME_1);
    assert_eq!(group_membership.group.description, Some(GROUP_DESCRIPTION_1.to_owned()));
    assert_eq!(group_membership.user_id, USER_ID_1);
    assert_eq!(group_membership.role, Role::Admin);
}

#[test]
fn test_get_group_membership_by_user() {
    let mut store = Store::new();
    setup_users(&mut store);
    let group_memberships = store.get_group_memberships_by_user(USER_ID_1).unwrap();
    let mut group_memberships_iter = group_memberships.iter();

    let first = group_memberships_iter.next().unwrap();
    assert_eq!(first.group_id, GROUP_ID_1);
    assert_eq!(first.group.id, GROUP_ID_1);
    assert_eq!(first.group.name, GROUP_NAME_1);
    assert_eq!(first.group.description, Some(GROUP_DESCRIPTION_1.to_owned()));
    assert_eq!(first.user_id, USER_ID_1);
    assert_eq!(first.role, Role::Admin);

    let second = group_memberships_iter.next().unwrap();
    assert_eq!(second.group_id, GROUP_ID_2);
    assert_eq!(second.group.id, GROUP_ID_2);
    assert_eq!(second.group.name, GROUP_NAME_2);
    assert_eq!(second.group.description, Some(GROUP_DESCRIPTION_2.to_owned()));
    assert_eq!(second.user_id, USER_ID_1);
    assert_eq!(second.role, Role::Admin);

    assert!(group_memberships_iter.next().is_none());
}

#[test]
fn test_delete_group_membership() {
    let mut store = Store::new();
    setup_users(&mut store);
    let rows_affected = store.delete_group_membership(1);
    assert_eq!(rows_affected, 1);
}

#[test]
fn test_create_restaurant() {
    let mut store = Store::new();
    let new_restaurant = Restaurant {
        id: RESTAURANT_ID.to_owned(),
        cuisine: "test_cuisine".to_owned(),
        menu: Vec::new(),
    };
    let restaurant = store.create_restaurant(&new_restaurant).unwrap();
    assert_eq!(restaurant.id, new_restaurant.id);
    assert_eq!(restaurant.cuisine, new_restaurant.cuisine);
}

#[test]
fn test_get_restaurants() {
    let mut store = Store::new();
    setup_restaurant(&mut store);
    let restaurants = store.get_restaurants();
    assert!(!restaurants.is_empty());
}

#[test]
fn test_get_restaurant() {
    let mut store = Store::new();
    setup_restaurant(&mut store);
    let restaurant = store.get_restaurant(RESTAURANT_ID).unwrap();
    assert_eq!(restaurant.id, RESTAURANT_ID);
    assert_eq!(restaurant.cuisine, "test_cuisine");
}

#[test]
fn test_update_restuarant() {
    let mut store = Store::new();
    setup_restaurant(&mut store);
    let restaurant = Restaurant {
        id: "new_restaurant".to_owned(),
        cuisine: "new_cuisine".to_owned(),
        menu: Vec::new(),
    };
    let rows_affected = store.update_restaurant(RESTAURANT_ID, &restaurant).unwrap();
    assert_eq!(rows_affected, 1);
}

#[test]
fn test_delete_restaurant() {
    let mut store = Store::new();
    setup_restaurant(&mut store);
    let rows_affected = store.delete_restaurant(RESTAURANT_ID);
    assert_eq!(rows_affected, 1);
}

#[test]
fn test_is_restaurant_rating_complete() {
    let mut store = Store::new();
    setup_users(&mut store);
    setup_restaurant(&mut store);
    setup_ratings_incomplete(&mut store);

    let (is_complete, _) =
        store.is_restaurant_rating_complete(RESTAURANT_ID, GROUP_ID_1, today(), false).unwrap();
    assert!(!is_complete);

    store.create_rating(&rating(USER_ID_2, USER_USERNAME_2, 8), today()).unwrap();

    let (is_complete, _) =
        store.is_restaurant_rating_complete(RESTAURANT_ID, GROUP_ID_1, today(), false).unwrap();
    assert!(is_complete);
}

#[test]
fn test_get_avg_rating() {
    let mut store = Store::new();
    setup_users(&mut store);
    setup_restaurant(&mut store);
    setup_ratings_complete(&mut store);
    let avg_rating = store.get_avg_rating(RESTAURANT_ID, GROUP_ID_1, today()).unwrap();
    // Two scores of 9 average to exactly 9.
    assert_eq!(avg_rating.score_sum, 18);
    assert_eq!(avg_rating.rating_count, 2);
    assert_eq!(avg_rating.score_sum / avg_rating.rating_count, 9);
}

#[test]
fn test_get_restaurants_with_avg_rating() {
    let mut store = Store::new();
    setup_users(&mut store);
    setup_restaurant(&mut store);
    setup_ratings_complete(&mut store);
    let restaurants_with_avg_rating =
        store.get_restaurants_with_avg_rating(GROUP_ID_1, today()).unwrap();
    assert!(!restaurants_with_avg_rating.is_empty());
    let (test_restaurant, avg_rating) = restaurants_with_avg_rating.first().unwrap();
    assert_eq!(test_restaurant.id, RESTAURANT_ID);
    assert_eq!(avg_rating.score_sum, 18);
    assert_eq!(avg_rating.rating_count, 2);
}

#[test]
fn test_create_rating() {
    let mut store = Store::new();
    setup_users(&mut store);
    setup_restaurant(&mut store);
    setup_ratings_incomplete(&mut store);
    let new_rating = rating(USER_ID_2, USER_USERNAME_2, 8);
    let (current_year, current_period, _) = Period::period_info(today());
    let created = store.create_rating(&new_rating, today()).unwrap();
    assert_eq!(created.group_id, new_rating.group_id);
    assert_eq!(created.restaurant_id, new_rating.restaurant_id);
    assert_eq!(created.user_id, new_rating.user_id);
    assert_eq!(created.username, new_rating.username);
    assert_eq!(created.score, new_rating.score);
    assert_eq!(created.created_at.year, current_year);
    assert_eq!(created.period, current_period);
}

#[test]
fn test_get_ratings_by_user_and_group() {
    let mut store = Store::new();
    setup_users(&mut store);
    setup_restaurant(&mut store);
    setup_ratings_complete(&mut store);
    let ratings_by_user =
        store.get_ratings_by_user_and_group(USER_ID_1, GROUP_ID_1, today()).unwrap();
    let (current_year, current_period, _) = Period::period_info(today());
    assert_eq!(ratings_by_user.current_year, current_year);
    assert_eq!(ratings_by_user.current_period, current_period);

    assert_eq!(ratings_by_user.current_period_ratings.len(), 1);
    assert_eq!(ratings_by_user.historical_ratings.len(), 1);

    let rating = ratings_by_user.current_period_ratings.first().unwrap();
    assert_eq!(rating.user_id, USER_ID_1);
    assert_eq!(rating.group_id, GROUP_ID_1);
    assert_eq!(rating.color, Some(USER_COLOR_1.to_owned()));
}

#[test]
fn test_get_ratings_by_restaurant() {
    let mut store = Store::new();
    setup_users(&mut store);
    setup_restaurant(&mut store);
    setup_ratings_complete(&mut store);
    let ratings_by_restaurant =
        store.get_ratings_by_restaurant(RESTAURANT_ID, GROUP_ID_1, today()).unwrap();
    let (current_year, current_period, _) = Period::period_info(today());
    assert_eq!(ratings_by_restaurant.current_year, current_year);
    assert_eq!(ratings_by_restaurant.current_period, current_period);

    assert_eq!(ratings_by_restaurant.current_period_ratings.len(), 2);
    assert_eq!(ratings_by_restaurant.historical_ratings.len(), 1);

    for rating in ratings_by_restaurant.current_period_ratings {
        assert_eq!(rating.restaurant_id, RESTAURANT_ID);
        assert_eq!(rating.group_id, GROUP_ID_1);
        assert!(rating.color.is_some());
    }
}

#[test]
fn test_get_ratings_by_restaurant_per_period() {
    let mut store = Store::new();
    setup_users(&mut store);
    setup_restaurant(&mut store);
    setup_ratings_complete(&mut store);
    let (current_year, current_period, _) = Period::period_info(today());
    let ratings_by_restaurant = store
        .get_ratings_by_restaurant_per_period(
            GROUP_ID_1,
            RESTAURANT_ID,
            current_year,
            &current_period,
        )
        .unwrap();
    assert_eq!(ratings_by_restaurant.len(), 2);
    for rating in ratings_by_restaurant {
        assert_eq!(rating.group_id, GROUP_ID_1);
        assert_eq!(rating.restaurant_id, RESTAURANT_ID);
        assert_eq!(rating.created_at.year, current_year);
        assert_eq!(rating.period, current_period);
        assert!(rating.color.is_some());
    }
}

#[test]
fn test_get_rating() {
    let mut store = Store::new();
    setup_users(&mut store);
    setup_restaurant(&mut store);
    setup_ratings_incomplete(&mut store);
    let rating = store
        .get_rating_by_restaurant(USER_ID_1, GROUP_ID_1, RESTAURANT_ID, today())
        .unwrap();
    assert_eq!(rating.group_id, GROUP_ID_1);
    assert_eq!(rating.user_id, USER_ID_1);
    assert_eq!(rating.restaurant_id, RESTAURANT_ID);
    assert_eq!(rating.color, Some(USER_COLOR_1.to_owned()));
}

#[test]
fn test_is_restaurant_rated_by_user() {
    let mut store = Store::new();
    setup_users(&mut store);
    setup_restaurant(&mut store);
    setup_ratings_incomplete(&mut store);
    assert!(store.is_restaurant_rated_by_user(RESTAURANT_ID, USER_ID_1, GROUP_ID_1));
    assert!(!store.is_restaurant_rated_by_user(RESTAURANT_ID, USER_ID_2, GROUP_ID_1));
}

#[test]
fn test_update_rating() {
    let mut store = Store::new();
    setup_users(&mut store);
    setup_restaurant(&mut store);
    setup_ratings_complete(&mut store);
    let new_rating = rating(USER_ID_2, USER_USERNAME_2, 9);
    let (current_year, current_period, _) = Period::period_info(today());
    let updated_rating = store.update_rating(&new_rating, USER_ID_2, today()).unwrap();
    assert_eq!(updated_rating.group_id, new_rating.group_id);
    assert_eq!(updated_rating.restaurant_id, new_rating.restaurant_id);
    assert_eq!(updated_rating.user_id, new_rating.user_id);
    assert_eq!(updated_rating.username, new_rating.username);
    assert_eq!(updated_rating.score, new_rating.score);
    assert_eq!(updated_rating.updated_at.year, current_year);
    assert_eq!(updated_rating.period, current_period);
}

#[test]
fn test_delete_rating() {
    let mut store = Store::new();
    setup_users(&mut store);
    setup_restaurant(&mut store);
    setup_ratings_complete(&mut store);
    let rows_affected = store.delete_rating(1, USER_ID_1, GROUP_ID_1);
    assert_eq!(rows_affected, 1);
}
