//! The relational store modelled as plain in-memory tables.
//!
//! Every operation of the engine is a method on [`Store`]; its contract is
//! stated over the deep views of the tables.  Row identifiers are assigned
//! from per-table counters, mirroring the 32-bit auto-increment key columns
//! of the backing database; an exhausted counter surfaces as a store
//! failure.

use vstd::prelude::*;

use crate::models::{
    DbGroup, DbGroupMembership, DbGroupMembershipV, DbGroupV, DbIp, DbIpV, DbMenuItem, DbMenuItemV,
    DbRating, DbRatingV, DbRestaurant, DbRestaurantV, DbUser, DbUserV, PushSubscription,
    PushSubscriptionV, RatingNotification, RatingNotificationV,
};
use crate::text::str_eq;

verus! {

/// The store may not hold more rating rows than this; the bound keeps every
/// score sum comfortably inside 64 bits.
pub const MAX_RATING_ROWS: usize = 0x4000_0000;

/// The in-memory relational store.
pub struct Store {
    pub users: Vec<DbUser>,
    pub groups: Vec<DbGroup>,
    pub memberships: Vec<DbGroupMembership>,
    pub restaurants: Vec<DbRestaurant>,
    pub menu_items: Vec<DbMenuItem>,
    pub ratings: Vec<DbRating>,
    pub notifications: Vec<RatingNotification>,
    pub subscriptions: Vec<PushSubscription>,
    pub ips: Vec<DbIp>,
    pub next_membership_id: i32,
    pub next_menu_item_id: i32,
    pub next_rating_id: i32,
    pub next_notification_id: i32,
    pub next_ip_id: i32,
}

// ---------------------------------------------------------------------------
// Table predicates

pub open spec fn unique_users(us: Seq<DbUserV>) -> bool {
    forall|i: int, j: int|
        0 <= i < j < us.len() ==> us[i].id != us[j].id && us[i].username != us[j].username
}

pub open spec fn unique_groups(gs: Seq<DbGroupV>) -> bool {
    forall|i: int, j: int| 0 <= i < j < gs.len() ==> gs[i].id != gs[j].id
}

pub open spec fn unique_memberships(ms: Seq<DbGroupMembershipV>) -> bool {
    forall|i: int, j: int|
        0 <= i < j < ms.len() ==> ms[i].id != ms[j].id && !(ms[i].group_id == ms[j].group_id
            && ms[i].user_id == ms[j].user_id)
}

pub open spec fn unique_restaurants(rs: Seq<DbRestaurantV>) -> bool {
    forall|i: int, j: int| 0 <= i < j < rs.len() ==> rs[i].id != rs[j].id
}

pub open spec fn unique_endpoints(ss: Seq<PushSubscriptionV>) -> bool {
    forall|i: int, j: int| 0 <= i < j < ss.len() ==> ss[i].endpoint != ss[j].endpoint
}

pub open spec fn memberships_ids_ok(ms: Seq<DbGroupMembershipV>, bound: int) -> bool {
    forall|i: int| 0 <= i < ms.len() ==> 0 < #[trigger] ms[i].id < bound
}

pub open spec fn menu_items_ids_ok(ms: Seq<DbMenuItemV>, bound: int) -> bool {
    forall|i: int| 0 <= i < ms.len() ==> 0 < #[trigger] ms[i].id < bound
}

pub open spec fn ratings_ids_ok(rs: Seq<DbRatingV>, bound: int) -> bool {
    &&& forall|i: int, j: int| 0 <= i < j < rs.len() ==> rs[i].id != rs[j].id
    &&& forall|k: int| 0 <= k < rs.len() ==> 0 < #[trigger] rs[k].id < bound
}

pub open spec fn notifications_ids_ok(ns: Seq<RatingNotificationV>, bound: int) -> bool {
    forall|i: int| 0 <= i < ns.len() ==> 0 < #[trigger] ns[i].id < bound
}

pub open spec fn ips_ids_ok(ips: Seq<DbIpV>, bound: int) -> bool {
    forall|i: int| 0 <= i < ips.len() ==> 0 < #[trigger] ips[i].id < bound
}

/// Every rating row carries real calendar dates.
pub open spec fn ratings_dates_ok(rs: Seq<DbRatingV>) -> bool {
    forall|i: int|
        0 <= i < rs.len() ==> (#[trigger] rs[i]).created_at.valid() && rs[i].updated_at.valid()
}

// ---------------------------------------------------------------------------
// Lookup predicates

pub open spec fn user_id_taken(us: Seq<DbUserV>, id: Seq<char>) -> bool {
    exists|i: int| 0 <= i < us.len() && (#[trigger] us[i]).id == id
}

pub open spec fn username_taken(us: Seq<DbUserV>, username: Seq<char>) -> bool {
    exists|i: int| 0 <= i < us.len() && (#[trigger] us[i]).username == username
}

/// The user row with the given username.
pub open spec fn user_row_by_name(us: Seq<DbUserV>, username: Seq<char>) -> DbUserV {
    us[choose|i: int| 0 <= i < us.len() && (#[trigger] us[i]).username == username]
}

/// The user row with the given id.
pub open spec fn user_row_by_id(us: Seq<DbUserV>, id: Seq<char>) -> DbUserV {
    us[choose|i: int| 0 <= i < us.len() && (#[trigger] us[i]).id == id]
}

pub open spec fn group_id_taken(gs: Seq<DbGroupV>, id: Seq<char>) -> bool {
    exists|i: int| 0 <= i < gs.len() && (#[trigger] gs[i]).id == id
}

/// The group row with the given id.
pub open spec fn group_row(gs: Seq<DbGroupV>, id: Seq<char>) -> DbGroupV {
    gs[choose|i: int| 0 <= i < gs.len() && (#[trigger] gs[i]).id == id]
}

pub open spec fn restaurant_id_taken(rs: Seq<DbRestaurantV>, id: Seq<char>) -> bool {
    exists|i: int| 0 <= i < rs.len() && (#[trigger] rs[i]).id == id
}

/// The restaurant row with the given id.
pub open spec fn restaurant_row(rs: Seq<DbRestaurantV>, id: Seq<char>) -> DbRestaurantV {
    rs[choose|i: int| 0 <= i < rs.len() && (#[trigger] rs[i]).id == id]
}

/// Whether the user holds a membership of the group.
pub open spec fn membership_exists(
    ms: Seq<DbGroupMembershipV>,
    user_id: Seq<char>,
    group_id: Seq<char>,
) -> bool {
    exists|i: int|
        0 <= i < ms.len() && (#[trigger] ms[i]).user_id == user_id && ms[i].group_id == group_id
}

pub open spec fn membership_id_taken(ms: Seq<DbGroupMembershipV>, id: int) -> bool {
    exists|i: int| 0 <= i < ms.len() && (#[trigger] ms[i]).id == id
}

/// The membership row with the given id.
pub open spec fn membership_row(ms: Seq<DbGroupMembershipV>, id: int) -> DbGroupMembershipV {
    ms[choose|i: int| 0 <= i < ms.len() && (#[trigger] ms[i]).id == id]
}

pub open spec fn endpoint_taken(ss: Seq<PushSubscriptionV>, endpoint: Seq<char>) -> bool {
    exists|i: int| 0 <= i < ss.len() && (#[trigger] ss[i]).endpoint == endpoint
}

/// The push subscription with the given endpoint.
pub open spec fn subscription_row(ss: Seq<PushSubscriptionV>, endpoint: Seq<char>) -> PushSubscriptionV {
    ss[choose|i: int| 0 <= i < ss.len() && (#[trigger] ss[i]).endpoint == endpoint]
}

// ---------------------------------------------------------------------------
// With unique keys, a found index names the chosen row

pub proof fn lemma_group_index_unique(gs: Seq<DbGroupV>, id: Seq<char>, i: int)
    requires
        unique_groups(gs),
        0 <= i < gs.len(),
        gs[i].id == id,
    ensures
        group_id_taken(gs, id),
        group_row(gs, id) == gs[i],
{
    assert(group_id_taken(gs, id));
    let k = choose|k: int| 0 <= k < gs.len() && (#[trigger] gs[k]).id == id;
    if k < i {
        assert(gs[k].id != gs[i].id);
    } else if i < k {
        assert(gs[i].id != gs[k].id);
    }
}

pub proof fn lemma_user_by_name_unique(us: Seq<DbUserV>, username: Seq<char>, i: int)
    requires
        unique_users(us),
        0 <= i < us.len(),
        us[i].username == username,
    ensures
        username_taken(us, username),
        user_row_by_name(us, username) == us[i],
{
    assert(username_taken(us, username));
    let k = choose|k: int| 0 <= k < us.len() && (#[trigger] us[k]).username == username;
    if k < i {
        assert(us[k].username != us[i].username);
    } else if i < k {
        assert(us[i].username != us[k].username);
    }
}

pub proof fn lemma_user_by_id_unique(us: Seq<DbUserV>, id: Seq<char>, i: int)
    requires
        unique_users(us),
        0 <= i < us.len(),
        us[i].id == id,
    ensures
        user_id_taken(us, id),
        user_row_by_id(us, id) == us[i],
{
    assert(user_id_taken(us, id));
    let k = choose|k: int| 0 <= k < us.len() && (#[trigger] us[k]).id == id;
    if k < i {
        assert(us[k].id != us[i].id);
    } else if i < k {
        assert(us[i].id != us[k].id);
    }
}

pub proof fn lemma_restaurant_index_unique(rs: Seq<DbRestaurantV>, id: Seq<char>, i: int)
    requires
        unique_restaurants(rs),
        0 <= i < rs.len(),
        rs[i].id == id,
    ensures
        restaurant_id_taken(rs, id),
        restaurant_row(rs, id) == rs[i],
{
    assert(restaurant_id_taken(rs, id));
    let k = choose|k: int| 0 <= k < rs.len() && (#[trigger] rs[k]).id == id;
    if k < i {
        assert(rs[k].id != rs[i].id);
    } else if i < k {
        assert(rs[i].id != rs[k].id);
    }
}

pub proof fn lemma_membership_index_unique(ms: Seq<DbGroupMembershipV>, id: int, i: int)
    requires
        unique_memberships(ms),
        0 <= i < ms.len(),
        ms[i].id == id,
    ensures
        membership_id_taken(ms, id),
        membership_row(ms, id) == ms[i],
{
    assert(membership_id_taken(ms, id));
    let k = choose|k: int| 0 <= k < ms.len() && (#[trigger] ms[k]).id == id;
    if k < i {
        assert(ms[k].id != ms[i].id);
    } else if i < k {
        assert(ms[i].id != ms[k].id);
    }
}

pub proof fn lemma_subscription_index_unique(ss: Seq<PushSubscriptionV>, endpoint: Seq<char>, i: int)
    requires
        unique_endpoints(ss),
        0 <= i < ss.len(),
        ss[i].endpoint == endpoint,
    ensures
        endpoint_taken(ss, endpoint),
        subscription_row(ss, endpoint) == ss[i],
{
    assert(endpoint_taken(ss, endpoint));
    let k = choose|k: int| 0 <= k < ss.len() && (#[trigger] ss[k]).endpoint == endpoint;
    if k < i {
        assert(ss[k].endpoint != ss[i].endpoint);
    } else if i < k {
        assert(ss[i].endpoint != ss[k].endpoint);
    }
}

// ---------------------------------------------------------------------------
// The store itself

impl Store {
    pub open spec fn users_v(self) -> Seq<DbUserV> {
        self.users.deep_view()
    }

    pub open spec fn groups_v(self) -> Seq<DbGroupV> {
        self.groups.deep_view()
    }

    pub open spec fn memberships_v(self) -> Seq<DbGroupMembershipV> {
        self.memberships.deep_view()
    }

    pub open spec fn restaurants_v(self) -> Seq<DbRestaurantV> {
        self.restaurants.deep_view()
    }

    pub open spec fn menu_items_v(self) -> Seq<DbMenuItemV> {
        self.menu_items.deep_view()
    }

    pub open spec fn ratings_v(self) -> Seq<DbRatingV> {
        self.ratings.deep_view()
    }

    pub open spec fn notifications_v(self) -> Seq<RatingNotificationV> {
        self.notifications.deep_view()
    }

    pub open spec fn subscriptions_v(self) -> Seq<PushSubscriptionV> {
        self.subscriptions.deep_view()
    }

    pub open spec fn ips_v(self) -> Seq<DbIpV> {
        self.ips.deep_view()
    }

    /// Well-formedness: key uniqueness per table, identifiers below their
    /// counters, real dates on rating rows, and the rating table below its
    /// size bound.
    pub open spec fn wf(self) -> bool {
        &&& unique_users(self.users_v())
        &&& unique_groups(self.groups_v())
        &&& unique_memberships(self.memberships_v())
        &&& unique_restaurants(self.restaurants_v())
        &&& unique_endpoints(self.subscriptions_v())
        &&& memberships_ids_ok(self.memberships_v(), self.next_membership_id as int)
        &&& menu_items_ids_ok(self.menu_items_v(), self.next_menu_item_id as int)
        &&& ratings_ids_ok(self.ratings_v(), self.next_rating_id as int)
        &&& notifications_ids_ok(self.notifications_v(), self.next_notification_id as int)
        &&& ips_ids_ok(self.ips_v(), self.next_ip_id as int)
        &&& ratings_dates_ok(self.ratings_v())
        &&& self.ratings_v().len() < MAX_RATING_ROWS
        &&& 1 <= self.next_membership_id
        &&& 1 <= self.next_menu_item_id
        &&& 1 <= self.next_rating_id
        &&& 1 <= self.next_notification_id
        &&& 1 <= self.next_ip_id
    }

    /// Everything but the users table is unchanged.
    pub open spec fn same_except_users(self, other: Store) -> bool {
        &&& self.groups_v() == other.groups_v()
        &&& self.memberships_v() == other.memberships_v()
        &&& self.restaurants_v() == other.restaurants_v()
        &&& self.menu_items_v() == other.menu_items_v()
        &&& self.ratings_v() == other.ratings_v()
        &&& self.notifications_v() == other.notifications_v()
        &&& self.subscriptions_v() == other.subscriptions_v()
        &&& self.ips_v() == other.ips_v()
        &&& self.same_counters(other)
    }

    /// Everything but the groups table is unchanged.
    pub open spec fn same_except_groups(self, other: Store) -> bool {
        &&& self.users_v() == other.users_v()
        &&& self.memberships_v() == other.memberships_v()
        &&& self.restaurants_v() == other.restaurants_v()
        &&& self.menu_items_v() == other.menu_items_v()
        &&& self.ratings_v() == other.ratings_v()
        &&& self.notifications_v() == other.notifications_v()
        &&& self.subscriptions_v() == other.subscriptions_v()
        &&& self.ips_v() == other.ips_v()
        &&& self.same_counters(other)
    }

    /// Everything but the memberships table and its counter is unchanged.
    pub open spec fn same_except_memberships(self, other: Store) -> bool {
        &&& self.users_v() == other.users_v()
        &&& self.groups_v() == other.groups_v()
        &&& self.restaurants_v() == other.restaurants_v()
        &&& self.menu_items_v() == other.menu_items_v()
        &&& self.ratings_v() == other.ratings_v()
        &&& self.notifications_v() == other.notifications_v()
        &&& self.subscriptions_v() == other.subscriptions_v()
        &&& self.ips_v() == other.ips_v()
        &&& self.next_menu_item_id == other.next_menu_item_id
        &&& self.next_rating_id == other.next_rating_id
        &&& self.next_notification_id == other.next_notification_id
        &&& self.next_ip_id == other.next_ip_id
    }

    /// Everything but the groups and memberships tables and the membership
    /// counter is unchanged.
    pub open spec fn same_except_groups_and_memberships(self, other: Store) -> bool {
        &&& self.users_v() == other.users_v()
        &&& self.restaurants_v() == other.restaurants_v()
        &&& self.menu_items_v() == other.menu_items_v()
        &&& self.ratings_v() == other.ratings_v()
        &&& self.notifications_v() == other.notifications_v()
        &&& self.subscriptions_v() == other.subscriptions_v()
        &&& self.ips_v() == other.ips_v()
        &&& self.next_menu_item_id == other.next_menu_item_id
        &&& self.next_rating_id == other.next_rating_id
        &&& self.next_notification_id == other.next_notification_id
        &&& self.next_ip_id == other.next_ip_id
    }

    /// Everything but the restaurants table is unchanged.
    pub open spec fn same_except_restaurants(self, other: Store) -> bool {
        &&& self.users_v() == other.users_v()
        &&& self.groups_v() == other.groups_v()
        &&& self.memberships_v() == other.memberships_v()
        &&& self.menu_items_v() == other.menu_items_v()
        &&& self.ratings_v() == other.ratings_v()
        &&& self.notifications_v() == other.notifications_v()
        &&& self.subscriptions_v() == other.subscriptions_v()
        &&& self.ips_v() == other.ips_v()
        &&& self.same_counters(other)
    }

    /// Everything but the menu-items table and its counter is unchanged.
    pub open spec fn same_except_menu_items(self, other: Store) -> bool {
        &&& self.users_v() == other.users_v()
        &&& self.groups_v() == other.groups_v()
        &&& self.memberships_v() == other.memberships_v()
        &&& self.restaurants_v() == other.restaurants_v()
        &&& self.ratings_v() == other.ratings_v()
        &&& self.notifications_v() == other.notifications_v()
        &&& self.subscriptions_v() == other.subscriptions_v()
        &&& self.ips_v() == other.ips_v()
        &&& self.next_membership_id == other.next_membership_id
        &&& self.next_rating_id == other.next_rating_id
        &&& self.next_notification_id == other.next_notification_id
        &&& self.next_ip_id == other.next_ip_id
    }

    /// Everything but the ratings table and its counter is unchanged.
    pub open spec fn same_except_ratings(self, other: Store) -> bool {
        &&& self.users_v() == other.users_v()
        &&& self.groups_v() == other.groups_v()
        &&& self.memberships_v() == other.memberships_v()
        &&& self.restaurants_v() == other.restaurants_v()
        &&& self.menu_items_v() == other.menu_items_v()
        &&& self.notifications_v() == other.notifications_v()
        &&& self.subscriptions_v() == other.subscriptions_v()
        &&& self.ips_v() == other.ips_v()
        &&& self.next_membership_id == other.next_membership_id
        &&& self.next_menu_item_id == other.next_menu_item_id
        &&& self.next_notification_id == other.next_notification_id
        &&& self.next_ip_id == other.next_ip_id
    }

    /// Everything but the notification ledger and its counter is unchanged.
    pub open spec fn same_except_notifications(self, other: Store) -> bool {
        &&& self.users_v() == other.users_v()
        &&& self.groups_v() == other.groups_v()
        &&& self.memberships_v() == other.memberships_v()
        &&& self.restaurants_v() == other.restaurants_v()
        &&& self.menu_items_v() == other.menu_items_v()
        &&& self.ratings_v() == other.ratings_v()
        &&& self.subscriptions_v() == other.subscriptions_v()
        &&& self.ips_v() == other.ips_v()
        &&& self.next_membership_id == other.next_membership_id
        &&& self.next_menu_item_id == other.next_menu_item_id
        &&& self.next_rating_id == other.next_rating_id
        &&& self.next_ip_id == other.next_ip_id
    }

    /// Everything but the push-subscriptions table is unchanged.
    pub open spec fn same_except_subscriptions(self, other: Store) -> bool {
        &&& self.users_v() == other.users_v()
        &&& self.groups_v() == other.groups_v()
        &&& self.memberships_v() == other.memberships_v()
        &&& self.restaurants_v() == other.restaurants_v()
        &&& self.menu_items_v() == other.menu_items_v()
        &&& self.ratings_v() == other.ratings_v()
        &&& self.notifications_v() == other.notifications_v()
        &&& self.ips_v() == other.ips_v()
        &&& self.same_counters(other)
    }

    /// Everything but the IP blacklist and its counter is unchanged.
    pub open spec fn same_except_ips(self, other: Store) -> bool {
        &&& self.users_v() == other.users_v()
        &&& self.groups_v() == other.groups_v()
        &&& self.memberships_v() == other.memberships_v()
        &&& self.restaurants_v() == other.restaurants_v()
        &&& self.menu_items_v() == other.menu_items_v()
        &&& self.ratings_v() == other.ratings_v()
        &&& self.notifications_v() == other.notifications_v()
        &&& self.subscriptions_v() == other.subscriptions_v()
        &&& self.next_membership_id == other.next_membership_id
        &&& self.next_menu_item_id == other.next_menu_item_id
        &&& self.next_rating_id == other.next_rating_id
        &&& self.next_notification_id == other.next_notification_id
    }

    pub open spec fn same_counters(self, other: Store) -> bool {
        &&& self.next_membership_id == other.next_membership_id
        &&& self.next_menu_item_id == other.next_menu_item_id
        &&& self.next_rating_id == other.next_rating_id
        &&& self.next_notification_id == other.next_notification_id
        &&& self.next_ip_id == other.next_ip_id
    }

    /// An empty store.
    pub fn new() -> (s: Store)
        ensures
            s.wf(),
            s.users_v().len() == 0,
            s.groups_v().len() == 0,
            s.memberships_v().len() == 0,
            s.restaurants_v().len() == 0,
            s.menu_items_v().len() == 0,
            s.ratings_v().len() == 0,
            s.notifications_v().len() == 0,
            s.subscriptions_v().len() == 0,
            s.ips_v().len() == 0,
    {
        Store {
            users: Vec::new(),
            groups: Vec::new(),
            memberships: Vec::new(),
            restaurants: Vec::new(),
            menu_items: Vec::new(),
            ratings: Vec::new(),
            notifications: Vec::new(),
            subscriptions: Vec::new(),
            ips: Vec::new(),
            next_membership_id: 1,
            next_menu_item_id: 1,
            next_rating_id: 1,
            next_notification_id: 1,
            next_ip_id: 1,
        }
    }

    /// Index of the group with the given id, if any.
    pub(crate) fn find_group(&self, id: &str) -> (r: Option<usize>)
        ensures
            match r {
                Some(i) => i < self.groups.len() && self.groups_v()[i as int].id == id@,
                None => !group_id_taken(self.groups_v(), id@),
            },
    {
        let n = self.groups.len();
        let mut i: usize = 0;
        while i < n
            invariant
                i <= n,
                n == self.groups.len(),
                forall|j: int| 0 <= j < i ==> (#[trigger] self.groups_v()[j]).id != id@,
            decreases n - i,
        {
            if str_eq(self.groups[i].id.as_str(), id) {
                return Some(i);
            }
            i += 1;
        }
        None
    }

    /// Index of the user with the given username, if any.
    pub(crate) fn find_user_by_name(&self, username: &str) -> (r: Option<usize>)
        ensures
            match r {
                Some(i) => i < self.users.len() && self.users_v()[i as int].username == username@,
                None => !username_taken(self.users_v(), username@),
            },
    {
        let n = self.users.len();
        let mut i: usize = 0;
        while i < n
            invariant
                i <= n,
                n == self.users.len(),
                forall|j: int| 0 <= j < i ==> (#[trigger] self.users_v()[j]).username != username@,
            decreases n - i,
        {
            if str_eq(self.users[i].username.as_str(), username) {
                return Some(i);
            }
            i += 1;
        }
        None
    }

    /// Index of the user with the given id, if any.
    pub(crate) fn find_user_by_id(&self, id: &str) -> (r: Option<usize>)
        ensures
            match r {
                Some(i) => i < self.users.len() && self.users_v()[i as int].id == id@,
                None => !user_id_taken(self.users_v(), id@),
            },
    {
        let n = self.users.len();
        let mut i: usize = 0;
        while i < n
            invariant
                i <= n,
                n == self.users.len(),
                forall|j: int| 0 <= j < i ==> (#[trigger] self.users_v()[j]).id != id@,
            decreases n - i,
        {
            if str_eq(self.users[i].id.as_str(), id) {
                return Some(i);
            }
            i += 1;
        }
        None
    }

    /// Index of the restaurant with the given id, if any.
    pub(crate) fn find_restaurant(&self, id: &str) -> (r: Option<usize>)
        ensures
            match r {
                Some(i) => i < self.restaurants.len() && self.restaurants_v()[i as int].id == id@,
                None => !restaurant_id_taken(self.restaurants_v(), id@),
            },
    {
        let n = self.restaurants.len();
        let mut i: usize = 0;
        while i < n
            invariant
                i <= n,
                n == self.restaurants.len(),
                forall|j: int| 0 <= j < i ==> (#[trigger] self.restaurants_v()[j]).id != id@,
            decreases n - i,
        {
            if str_eq(self.restaurants[i].id.as_str(), id) {
                return Some(i);
            }
            i += 1;
        }
        None
    }

    /// Index of the membership linking the user to the group, if any.
    pub(crate) fn find_membership(&self, user_id: &str, group_id: &str) -> (r: Option<usize>)
        ensures
            match r {
                Some(i) => i < self.memberships.len() && self.memberships_v()[i as int].user_id
                    == user_id@ && self.memberships_v()[i as int].group_id == group_id@,
                None => !membership_exists(self.memberships_v(), user_id@, group_id@),
            },
    {
        let n = self.memberships.len();
        let mut i: usize = 0;
        while i < n
            invariant
                i <= n,
                n == self.memberships.len(),
                forall|j: int|
                    0 <= j < i ==> !((#[trigger] self.memberships_v()[j]).user_id == user_id@
                        && self.memberships_v()[j].group_id == group_id@),
            decreases n - i,
        {
            if str_eq(self.memberships[i].user_id.as_str(), user_id) && str_eq(
                self.memberships[i].group_id.as_str(),
                group_id,
            ) {
                return Some(i);
            }
            i += 1;
        }
        None
    }

    /// Index of the membership with the given row id, if any.
    pub(crate) fn find_membership_by_id(&self, id: i32) -> (r: Option<usize>)
        ensures
            match r {
                Some(i) => i < self.memberships.len() && self.memberships_v()[i as int].id
                    == id as int,
                None => !membership_id_taken(self.memberships_v(), id as int),
            },
    {
        let n = self.memberships.len();
        let mut i: usize = 0;
        while i < n
            invariant
                i <= n,
                n == self.memberships.len(),
                forall|j: int| 0 <= j < i ==> (#[trigger] self.memberships_v()[j]).id != id as int,
            decreases n - i,
        {
            if self.memberships[i].id == id {
                return Some(i);
            }
            i += 1;
        }
        None
    }

    /// Index of the push subscription with the given endpoint, if any.
    pub(crate) fn find_subscription(&self, endpoint: &str) -> (r: Option<usize>)
        ensures
            match r {
                Some(i) => i < self.subscriptions.len() && self.subscriptions_v()[
                    i as int
                ].endpoint == endpoint@,
                None => !endpoint_taken(self.subscriptions_v(), endpoint@),
            },
    {
        let n = self.subscriptions.len();
        let mut i: usize = 0;
        while i < n
            invariant
                i <= n,
                n == self.subscriptions.len(),
                forall|j: int|
                    0 <= j < i ==> (#[trigger] self.subscriptions_v()[j]).endpoint != endpoint@,
            decreases n - i,
        {
            if str_eq(self.subscriptions[i].endpoint.as_str(), endpoint) {
                return Some(i);
            }
            i += 1;
        }
        None
    }
}

} // verus!
