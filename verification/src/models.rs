//! Data model: stored table rows, insert payloads, and the assembled API
//! types the engine hands back, together with their mathematical views.
//!
//! Scores are plain integers and menu prices are held in cents, so that all
//! arithmetic over them is exact.

use vstd::prelude::*;

use vstd::string::StrSliceExecFns;

use crate::period::{period_of_month, Date, Period};

verus! {

// ---------------------------------------------------------------------------
// Roles

/// The role a user holds inside a group.
#[derive(Clone, Copy, Debug, PartialEq, Eq, Structural)]
pub enum Role {
    Admin,
    Member,
}

impl Default for Role {
    fn default() -> (r: Self)
        ensures
            r == Role::Member,
    {
        Role::Member
    }
}

/// Whether a name spells "admin", ignoring ASCII case.
pub open spec fn spec_is_admin_name(s: Seq<char>) -> bool {
    &&& s.len() == 5
    &&& (s[0] == 'a' || s[0] == 'A')
    &&& (s[1] == 'd' || s[1] == 'D')
    &&& (s[2] == 'm' || s[2] == 'M')
    &&& (s[3] == 'i' || s[3] == 'I')
    &&& (s[4] == 'n' || s[4] == 'N')
}

/// The role a stored name denotes: "admin" in any ASCII case is Admin,
/// everything else is Member.
pub open spec fn spec_role_of_name(s: Seq<char>) -> Role {
    if spec_is_admin_name(s) {
        Role::Admin
    } else {
        Role::Member
    }
}

impl Role {
    /// Parses a stored role name, ignoring ASCII case.
    pub fn from_name(s: &str) -> (r: Role)
        ensures
            r == spec_role_of_name(s@),
    {
        let n = s.unicode_len();
        if n != 5 {
            return Role::Member;
        }
        let c0 = s.get_char(0);
        let c1 = s.get_char(1);
        let c2 = s.get_char(2);
        let c3 = s.get_char(3);
        let c4 = s.get_char(4);
        if (c0 == 'a' || c0 == 'A') && (c1 == 'd' || c1 == 'D') && (c2 == 'm' || c2 == 'M') && (c3
            == 'i' || c3 == 'I') && (c4 == 'n' || c4 == 'N') {
            Role::Admin
        } else {
            Role::Member
        }
    }
}

impl From<String> for Role {
    fn from(value: String) -> (r: Self) {
        Role::from_name(value.as_str())
    }
}

impl vstd::std_specs::convert::FromSpecImpl<String> for Role {
    open spec fn obeys_from_spec() -> bool {
        true
    }

    open spec fn from_spec(value: String) -> Self {
        spec_role_of_name(value@)
    }
}

// ---------------------------------------------------------------------------
// Stored rows

/// A row of the users table.
#[derive(Clone, Debug)]
pub struct DbUser {
    pub id: String,
    pub username: String,
    pub password: String,
    pub color: String,
}

#[verifier::ext_equal]
pub ghost struct DbUserV {
    pub id: Seq<char>,
    pub username: Seq<char>,
    pub password: Seq<char>,
    pub color: Seq<char>,
}

impl DeepView for DbUser {
    type V = DbUserV;

    open spec fn deep_view(&self) -> DbUserV {
        DbUserV {
            id: self.id@,
            username: self.username@,
            password: self.password@,
            color: self.color@,
        }
    }
}

/// A row of the groups table.
#[derive(Clone, Debug)]
pub struct DbGroup {
    pub id: String,
    pub name: String,
    pub description: Option<String>,
    pub created_at: Date,
    pub updated_at: Date,
}

#[verifier::ext_equal]
pub ghost struct DbGroupV {
    pub id: Seq<char>,
    pub name: Seq<char>,
    pub description: Option<Seq<char>>,
    pub created_at: Date,
    pub updated_at: Date,
}

impl DeepView for DbGroup {
    type V = DbGroupV;

    open spec fn deep_view(&self) -> DbGroupV {
        DbGroupV {
            id: self.id@,
            name: self.name@,
            description: self.description.deep_view(),
            created_at: self.created_at,
            updated_at: self.updated_at,
        }
    }
}

/// A row of the group-memberships table, linking a user to a group.
#[derive(Clone, Debug)]
pub struct DbGroupMembership {
    pub id: i32,
    pub group_id: String,
    pub user_id: String,
    pub role: Role,
    pub created_at: Date,
    pub updated_at: Date,
}

#[verifier::ext_equal]
pub ghost struct DbGroupMembershipV {
    pub id: int,
    pub group_id: Seq<char>,
    pub user_id: Seq<char>,
    pub role: Role,
    pub created_at: Date,
    pub updated_at: Date,
}

impl DeepView for DbGroupMembership {
    type V = DbGroupMembershipV;

    open spec fn deep_view(&self) -> DbGroupMembershipV {
        DbGroupMembershipV {
            id: self.id as int,
            group_id: self.group_id@,
            user_id: self.user_id@,
            role: self.role,
            created_at: self.created_at,
            updated_at: self.updated_at,
        }
    }
}

/// A row of the restaurants table.
#[derive(Clone, Debug)]
pub struct DbRestaurant {
    pub id: String,
    pub cuisine: String,
}

#[verifier::ext_equal]
pub ghost struct DbRestaurantV {
    pub id: Seq<char>,
    pub cuisine: Seq<char>,
}

impl DeepView for DbRestaurant {
    type V = DbRestaurantV;

    open spec fn deep_view(&self) -> DbRestaurantV {
        DbRestaurantV { id: self.id@, cuisine: self.cuisine@ }
    }
}

/// A row of the menu-items table; the price is held in cents.
#[derive(Clone, Debug)]
pub struct DbMenuItem {
    pub id: i32,
    pub restaurant_id: String,
    pub name: String,
    pub price_cents: u64,
}

#[verifier::ext_equal]
pub ghost struct DbMenuItemV {
    pub id: int,
    pub restaurant_id: Seq<char>,
    pub name: Seq<char>,
    pub price_cents: int,
}

impl DeepView for DbMenuItem {
    type V = DbMenuItemV;

    open spec fn deep_view(&self) -> DbMenuItemV {
        DbMenuItemV {
            id: self.id as int,
            restaurant_id: self.restaurant_id@,
            name: self.name@,
            price_cents: self.price_cents as int,
        }
    }
}

/// A row of the ratings table: the central mutable fact.
#[derive(Clone, Debug)]
pub struct DbRating {
    pub id: i32,
    pub restaurant_id: String,
    pub user_id: String,
    pub username: String,
    pub score: u32,
    pub created_at: Date,
    pub updated_at: Date,
    pub group_id: String,
}

#[verifier::ext_equal]
pub ghost struct DbRatingV {
    pub id: int,
    pub restaurant_id: Seq<char>,
    pub user_id: Seq<char>,
    pub username: Seq<char>,
    pub score: int,
    pub created_at: Date,
    pub updated_at: Date,
    pub group_id: Seq<char>,
}

impl DeepView for DbRating {
    type V = DbRatingV;

    open spec fn deep_view(&self) -> DbRatingV {
        DbRatingV {
            id: self.id as int,
            restaurant_id: self.restaurant_id@,
            user_id: self.user_id@,
            username: self.username@,
            score: self.score as int,
            created_at: self.created_at,
            updated_at: self.updated_at,
            group_id: self.group_id@,
        }
    }
}

/// A row of the notification dedup ledger: one completion notification was
/// sent for this restaurant and group during the quarter containing
/// `notified_at`.
#[derive(Clone, Debug)]
pub struct RatingNotification {
    pub id: i32,
    pub restaurant_id: String,
    pub group_id: String,
    pub notified_at: Date,
}

#[verifier::ext_equal]
pub ghost struct RatingNotificationV {
    pub id: int,
    pub restaurant_id: Seq<char>,
    pub group_id: Seq<char>,
    pub notified_at: Date,
}

impl DeepView for RatingNotification {
    type V = RatingNotificationV;

    open spec fn deep_view(&self) -> RatingNotificationV {
        RatingNotificationV {
            id: self.id as int,
            restaurant_id: self.restaurant_id@,
            group_id: self.group_id@,
            notified_at: self.notified_at,
        }
    }
}

/// A push subscription; the endpoint is the unique key.
#[derive(Clone, Debug)]
pub struct PushSubscription {
    pub endpoint: String,
    pub user_id: String,
    pub p256dh: String,
    pub auth: String,
}

#[verifier::ext_equal]
pub ghost struct PushSubscriptionV {
    pub endpoint: Seq<char>,
    pub user_id: Seq<char>,
    pub p256dh: Seq<char>,
    pub auth: Seq<char>,
}

impl DeepView for PushSubscription {
    type V = PushSubscriptionV;

    open spec fn deep_view(&self) -> PushSubscriptionV {
        PushSubscriptionV {
            endpoint: self.endpoint@,
            user_id: self.user_id@,
            p256dh: self.p256dh@,
            auth: self.auth@,
        }
    }
}

/// A row of the IP blacklist table.
#[derive(Clone, Debug)]
pub struct DbIp {
    pub id: i32,
    pub ip_address: String,
}

#[verifier::ext_equal]
pub ghost struct DbIpV {
    pub id: int,
    pub ip_address: Seq<char>,
}

impl DeepView for DbIp {
    type V = DbIpV;

    open spec fn deep_view(&self) -> DbIpV {
        DbIpV { id: self.id as int, ip_address: self.ip_address@ }
    }
}

// ---------------------------------------------------------------------------
// Insert payloads

/// Payload for creating a user.
#[derive(Clone, Debug)]
pub struct NewUser {
    pub id: String,
    pub username: String,
    pub password: String,
    pub color: String,
}

/// Payload for creating a group; the creator is granted Admin membership.
#[derive(Clone, Debug)]
pub struct NewGroup {
    pub name: String,
    pub description: Option<String>,
    pub creator_id: String,
}

/// Payload for joining a group.
#[derive(Clone, Debug)]
pub struct NewGroupMembership {
    pub group_id: String,
    pub user_id: String,
    pub role: Role,
}

/// Payload for creating a restaurant.
#[derive(Clone, Debug)]
pub struct NewRestaurant {
    pub id: String,
    pub cuisine: String,
}

/// Payload for creating a menu item; the price is held in cents.
#[derive(Clone, Debug)]
pub struct NewMenuItem {
    pub restaurant_id: String,
    pub name: String,
    pub price_cents: u64,
}

/// Payload for submitting a rating.
#[derive(Clone, Debug)]
pub struct NewRating {
    pub restaurant_id: String,
    pub user_id: String,
    pub username: String,
    pub score: u32,
    pub group_id: String,
}

/// Payload for blacklisting an IP address.
#[derive(Clone, Debug)]
pub struct NewIp {
    pub ip_address: String,
}

/// Payload for registering a push subscription.
#[derive(Clone, Debug)]
pub struct NewPushSubscription {
    pub user_id: String,
    pub endpoint: String,
    pub p256dh: String,
    pub auth: String,
}

// ---------------------------------------------------------------------------
// Assembled API types

/// A group as handed back to callers.
#[derive(Clone, Debug)]
pub struct Group {
    pub id: String,
    pub name: String,
    pub description: Option<String>,
    pub created_at: Date,
    pub updated_at: Date,
}

#[verifier::ext_equal]
pub ghost struct GroupV {
    pub id: Seq<char>,
    pub name: Seq<char>,
    pub description: Option<Seq<char>>,
    pub created_at: Date,
    pub updated_at: Date,
}

impl DeepView for Group {
    type V = GroupV;

    open spec fn deep_view(&self) -> GroupV {
        GroupV {
            id: self.id@,
            name: self.name@,
            description: self.description.deep_view(),
            created_at: self.created_at,
            updated_at: self.updated_at,
        }
    }
}

/// A membership as handed back to callers, with its group embedded.
#[derive(Clone, Debug)]
pub struct GroupMembership {
    pub id: i32,
    pub group_id: String,
    pub group: Group,
    pub user_id: String,
    pub role: Role,
    pub created_at: Date,
    pub updated_at: Date,
}

#[verifier::ext_equal]
pub ghost struct GroupMembershipV {
    pub id: int,
    pub group_id: Seq<char>,
    pub group: GroupV,
    pub user_id: Seq<char>,
    pub role: Role,
    pub created_at: Date,
    pub updated_at: Date,
}

impl DeepView for GroupMembership {
    type V = GroupMembershipV;

    open spec fn deep_view(&self) -> GroupMembershipV {
        GroupMembershipV {
            id: self.id as int,
            group_id: self.group_id@,
            group: self.group.deep_view(),
            user_id: self.user_id@,
            role: self.role,
            created_at: self.created_at,
            updated_at: self.updated_at,
        }
    }
}

impl GroupMembership {
    /// Assembles the API membership from a stored row and its group.
    pub fn from_db(db_group_membership: &DbGroupMembership, db_group: &Group) -> (r:
        GroupMembership)
        ensures
            r.deep_view() == spec_membership_of(db_group_membership.deep_view(), db_group.deep_view()),
    {
        let group = Group {
            id: db_group.id.clone(),
            name: db_group.name.clone(),
            description: match &db_group.description {
                Some(d) => Some(d.clone()),
                None => None,
            },
            created_at: db_group.created_at,
            updated_at: db_group.updated_at,
        };
        GroupMembership {
            id: db_group_membership.id,
            group_id: db_group_membership.group_id.clone(),
            group,
            user_id: db_group_membership.user_id.clone(),
            role: db_group_membership.role,
            created_at: db_group_membership.created_at,
            updated_at: db_group_membership.updated_at,
        }
    }
}

/// The view of a membership assembled from a stored row and its group.
pub open spec fn spec_membership_of(m: DbGroupMembershipV, g: GroupV) -> GroupMembershipV {
    GroupMembershipV {
        id: m.id,
        group_id: m.group_id,
        group: g,
        user_id: m.user_id,
        role: m.role,
        created_at: m.created_at,
        updated_at: m.updated_at,
    }
}

/// A menu item as handed back to callers; the price is held in cents.
#[derive(Clone, Debug)]
pub struct MenuItem {
    pub id: i32,
    pub restaurant_id: String,
    pub name: String,
    pub price_cents: u64,
}

#[verifier::ext_equal]
pub ghost struct MenuItemV {
    pub id: int,
    pub restaurant_id: Seq<char>,
    pub name: Seq<char>,
    pub price_cents: int,
}

impl DeepView for MenuItem {
    type V = MenuItemV;

    open spec fn deep_view(&self) -> MenuItemV {
        MenuItemV {
            id: self.id as int,
            restaurant_id: self.restaurant_id@,
            name: self.name@,
            price_cents: self.price_cents as int,
        }
    }
}

/// A restaurant as handed back to callers, with its ordered menu.
#[derive(Clone, Debug)]
pub struct Restaurant {
    pub id: String,
    pub cuisine: String,
    pub menu: Vec<MenuItem>,
}

#[verifier::ext_equal]
pub ghost struct RestaurantV {
    pub id: Seq<char>,
    pub cuisine: Seq<char>,
    pub menu: Seq<MenuItemV>,
}

impl DeepView for Restaurant {
    type V = RestaurantV;

    open spec fn deep_view(&self) -> RestaurantV {
        RestaurantV { id: self.id@, cuisine: self.cuisine@, menu: self.menu.deep_view() }
    }
}

/// A rating as handed back to callers.  The period is derived from
/// `updated_at`, so editing a rating across a quarter boundary moves it; the
/// color is the rater's own color, joined in from the users table.
#[derive(Clone, Debug)]
pub struct Rating {
    pub id: i32,
    pub restaurant_id: String,
    pub user_id: String,
    pub username: String,
    pub score: u32,
    pub created_at: Date,
    pub updated_at: Date,
    pub period: Period,
    pub group_id: String,
    pub color: Option<String>,
}

#[verifier::ext_equal]
pub ghost struct RatingV {
    pub id: int,
    pub restaurant_id: Seq<char>,
    pub user_id: Seq<char>,
    pub username: Seq<char>,
    pub score: int,
    pub created_at: Date,
    pub updated_at: Date,
    pub period: Period,
    pub group_id: Seq<char>,
    pub color: Option<Seq<char>>,
}

impl DeepView for Rating {
    type V = RatingV;

    open spec fn deep_view(&self) -> RatingV {
        RatingV {
            id: self.id as int,
            restaurant_id: self.restaurant_id@,
            user_id: self.user_id@,
            username: self.username@,
            score: self.score as int,
            created_at: self.created_at,
            updated_at: self.updated_at,
            period: self.period,
            group_id: self.group_id@,
            color: self.color.deep_view(),
        }
    }
}

/// The view of a rating assembled from a stored row and the rater's color.
pub open spec fn spec_rating_of(row: DbRatingV, color: Option<Seq<char>>) -> RatingV {
    RatingV {
        id: row.id,
        restaurant_id: row.restaurant_id,
        user_id: row.user_id,
        username: row.username,
        score: row.score,
        created_at: row.created_at,
        updated_at: row.updated_at,
        period: period_of_month(row.updated_at.month as int),
        group_id: row.group_id,
        color,
    }
}

impl Default for Rating {
    /// The zero rating: empty keys, score zero, epoch dates, and the
    /// quarter those dates fall in.
    fn default() -> (r: Self)
        ensures
            r.deep_view() == (RatingV {
                id: 0,
                restaurant_id: Seq::empty(),
                user_id: Seq::empty(),
                username: Seq::empty(),
                score: 0,
                created_at: (Date { year: 1970, month: 1, day: 1 }),
                updated_at: (Date { year: 1970, month: 1, day: 1 }),
                period: Period::Q1,
                group_id: Seq::empty(),
                color: None,
            }),
    {
        let epoch = Date { year: 1970, month: 1, day: 1 };
        Rating {
            id: 0,
            restaurant_id: String::new(),
            user_id: String::new(),
            username: String::new(),
            score: 0,
            created_at: epoch,
            updated_at: epoch,
            period: Period::from_date(epoch),
            group_id: String::new(),
            color: None,
        }
    }
}

impl Rating {
    /// Builds a rating; the period is derived from `updated_at`.
    pub fn new(
        id: i32,
        group_id: String,
        restaurant_id: String,
        user_id: String,
        username: String,
        score: u32,
        created_at: Date,
        updated_at: Date,
        color: Option<String>,
    ) -> (r: Rating)
        requires
            1 <= updated_at.month <= 12,
        ensures
            r.deep_view() == (RatingV {
                id: id as int,
                restaurant_id: restaurant_id@,
                user_id: user_id@,
                username: username@,
                score: score as int,
                created_at,
                updated_at,
                period: period_of_month(updated_at.month as int),
                group_id: group_id@,
                color: color.deep_view(),
            }),
    {
        let period = Period::from_date(updated_at);
        Rating {
            id,
            restaurant_id,
            user_id,
            username,
            score,
            created_at,
            updated_at,
            period,
            group_id,
            color,
        }
    }

    /// Assembles the API rating from a stored row and the rater's color.
    pub fn from_db(db_rating: &DbRating, color: Option<String>) -> (r: Rating)
        requires
            1 <= db_rating.updated_at.month <= 12,
        ensures
            r.deep_view() == spec_rating_of(db_rating.deep_view(), color.deep_view()),
    {
        Rating::new(
            db_rating.id,
            db_rating.group_id.clone(),
            db_rating.restaurant_id.clone(),
            db_rating.user_id.clone(),
            db_rating.username.clone(),
            db_rating.score,
            db_rating.created_at,
            db_rating.updated_at,
            color,
        )
    }
}

/// The exact average of a set of scores, held as their sum and count; an
/// empty set carries sum and count zero.
#[derive(Clone, Copy, Debug, PartialEq, Eq, Structural)]
pub struct RatingAverage {
    pub score_sum: u64,
    pub rating_count: u64,
}

#[verifier::ext_equal]
pub ghost struct RatingAverageV {
    pub score_sum: int,
    pub rating_count: int,
}

impl DeepView for RatingAverage {
    type V = RatingAverageV;

    open spec fn deep_view(&self) -> RatingAverageV {
        RatingAverageV {
            score_sum: self.score_sum as int,
            rating_count: self.rating_count as int,
        }
    }
}

/// One historical aggregate: the ratings a restaurant received in one
/// quarter of one year, held exactly as their sum and count so that the
/// average is exact.
#[derive(Clone, Debug)]
pub struct AverageRatingPerPeriod {
    pub restaurant_id: String,
    pub year: i32,
    pub period: Period,
    pub score_sum: u64,
    pub rating_count: u64,
}

#[verifier::ext_equal]
pub ghost struct AverageRatingPerPeriodV {
    pub restaurant_id: Seq<char>,
    pub year: int,
    pub period: Period,
    pub score_sum: int,
    pub rating_count: int,
}

impl DeepView for AverageRatingPerPeriod {
    type V = AverageRatingPerPeriodV;

    open spec fn deep_view(&self) -> AverageRatingPerPeriodV {
        AverageRatingPerPeriodV {
            restaurant_id: self.restaurant_id@,
            year: self.year as int,
            period: self.period,
            score_sum: self.score_sum as int,
            rating_count: self.rating_count as int,
        }
    }
}

/// Current-period detail plus historical per-period aggregates.
#[derive(Clone, Debug)]
pub struct RatingsByPeriod {
    pub current_year: i32,
    pub current_period: Period,
    pub current_period_ratings: Vec<Rating>,
    pub historical_ratings: Vec<AverageRatingPerPeriod>,
}

/// A user as handed back to callers, with current-period ratings and group
/// memberships assembled.
#[derive(Clone, Debug)]
pub struct User {
    pub id: String,
    pub token: String,
    pub username: String,
    pub password: String,
    pub color: String,
    pub ratings: Vec<Rating>,
    pub group_memberships: Vec<GroupMembership>,
}

#[verifier::ext_equal]
pub ghost struct UserV {
    pub id: Seq<char>,
    pub token: Seq<char>,
    pub username: Seq<char>,
    pub password: Seq<char>,
    pub color: Seq<char>,
    pub ratings: Seq<RatingV>,
    pub group_memberships: Seq<GroupMembershipV>,
}

impl DeepView for User {
    type V = UserV;

    open spec fn deep_view(&self) -> UserV {
        UserV {
            id: self.id@,
            token: self.token@,
            username: self.username@,
            password: self.password@,
            color: self.color@,
            ratings: self.ratings.deep_view(),
            group_memberships: self.group_memberships.deep_view(),
        }
    }
}

// ---------------------------------------------------------------------------
// Verified deep copies
//
// The derived `Clone` impls carry no specification, so the store copies rows
// through these instead.

impl DbUser {
    /// A copy with the same view.
    pub fn duplicate(&self) -> (r: Self)
        ensures
            r.deep_view() == self.deep_view(),
    {
        DbUser {
            id: self.id.clone(),
            username: self.username.clone(),
            password: self.password.clone(),
            color: self.color.clone(),
        }
    }
}

impl DbGroup {
    /// A copy with the same view.
    pub fn duplicate(&self) -> (r: Self)
        ensures
            r.deep_view() == self.deep_view(),
    {
        DbGroup {
            id: self.id.clone(),
            name: self.name.clone(),
            description: match &self.description {
                Some(d) => Some(d.clone()),
                None => None,
            },
            created_at: self.created_at,
            updated_at: self.updated_at,
        }
    }

    /// The group as handed back to callers.
    pub fn to_api(&self) -> (r: Group)
        ensures
            r.deep_view() == spec_group_api(self.deep_view()),
    {
        Group {
            id: self.id.clone(),
            name: self.name.clone(),
            description: match &self.description {
                Some(d) => Some(d.clone()),
                None => None,
            },
            created_at: self.created_at,
            updated_at: self.updated_at,
        }
    }
}

/// The API view of a stored group row.
pub open spec fn spec_group_api(g: DbGroupV) -> GroupV {
    GroupV {
        id: g.id,
        name: g.name,
        description: g.description,
        created_at: g.created_at,
        updated_at: g.updated_at,
    }
}

impl DbGroupMembership {
    /// A copy with the same view.
    pub fn duplicate(&self) -> (r: Self)
        ensures
            r.deep_view() == self.deep_view(),
    {
        DbGroupMembership {
            id: self.id,
            group_id: self.group_id.clone(),
            user_id: self.user_id.clone(),
            role: self.role,
            created_at: self.created_at,
            updated_at: self.updated_at,
        }
    }
}

impl DbRestaurant {
    /// A copy with the same view.
    pub fn duplicate(&self) -> (r: Self)
        ensures
            r.deep_view() == self.deep_view(),
    {
        DbRestaurant { id: self.id.clone(), cuisine: self.cuisine.clone() }
    }
}

impl DbMenuItem {
    /// A copy with the same view.
    pub fn duplicate(&self) -> (r: Self)
        ensures
            r.deep_view() == self.deep_view(),
    {
        DbMenuItem {
            id: self.id,
            restaurant_id: self.restaurant_id.clone(),
            name: self.name.clone(),
            price_cents: self.price_cents,
        }
    }

    /// The menu item as handed back to callers.
    pub fn to_api(&self) -> (r: MenuItem)
        ensures
            r.deep_view() == spec_menu_item_api(self.deep_view()),
    {
        MenuItem {
            id: self.id,
            restaurant_id: self.restaurant_id.clone(),
            name: self.name.clone(),
            price_cents: self.price_cents,
        }
    }
}

/// The API view of a stored menu-item row.
pub open spec fn spec_menu_item_api(m: DbMenuItemV) -> MenuItemV {
    MenuItemV {
        id: m.id,
        restaurant_id: m.restaurant_id,
        name: m.name,
        price_cents: m.price_cents,
    }
}

impl DbRating {
    /// A copy with the same view.
    pub fn duplicate(&self) -> (r: Self)
        ensures
            r.deep_view() == self.deep_view(),
    {
        DbRating {
            id: self.id,
            restaurant_id: self.restaurant_id.clone(),
            user_id: self.user_id.clone(),
            username: self.username.clone(),
            score: self.score,
            created_at: self.created_at,
            updated_at: self.updated_at,
            group_id: self.group_id.clone(),
        }
    }
}

impl RatingNotification {
    /// A copy with the same view.
    pub fn duplicate(&self) -> (r: Self)
        ensures
            r.deep_view() == self.deep_view(),
    {
        RatingNotification {
            id: self.id,
            restaurant_id: self.restaurant_id.clone(),
            group_id: self.group_id.clone(),
            notified_at: self.notified_at,
        }
    }
}

impl PushSubscription {
    /// A copy with the same view.
    pub fn duplicate(&self) -> (r: Self)
        ensures
            r.deep_view() == self.deep_view(),
    {
        PushSubscription {
            endpoint: self.endpoint.clone(),
            user_id: self.user_id.clone(),
            p256dh: self.p256dh.clone(),
            auth: self.auth.clone(),
        }
    }
}

impl DbIp {
    /// A copy with the same view.
    pub fn duplicate(&self) -> (r: Self)
        ensures
            r.deep_view() == self.deep_view(),
    {
        DbIp { id: self.id, ip_address: self.ip_address.clone() }
    }
}

/// The claims carried by an authentication token.
#[derive(Clone, Debug)]
pub struct UserClaims {
    pub id: String,
    pub username: String,
    pub exp: usize,
}

impl UserClaims {
    /// Whether the claims have expired at the given time, in seconds since
    /// the epoch.
    pub fn expired(&self, now: usize) -> (r: bool)
        ensures
            r == (self.exp < now),
    {
        self.exp < now
    }
}

/// An IP address as handed back to callers.
#[derive(Clone, Debug)]
pub struct Ip {
    pub ip_address: String,
}

#[verifier::ext_equal]
pub ghost struct IpV {
    pub ip_address: Seq<char>,
}

impl DeepView for Ip {
    type V = IpV;

    open spec fn deep_view(&self) -> IpV {
        IpV { ip_address: self.ip_address@ }
    }
}

/// The uniform response envelope of the service.
#[derive(Clone, Debug)]
pub struct ApiResponse<T> {
    pub success: bool,
    pub message: String,
    pub data: Option<T>,
}

impl<T> ApiResponse<T> {
    /// A successful response carrying `data` and an empty message.
    pub fn success(data: T) -> (r: Self)
        ensures
            r.success,
            r.message@.len() == 0,
            r.data == Some(data),
    {
        ApiResponse { success: true, message: String::new(), data: Some(data) }
    }

    /// A failed response carrying `message` and no data.
    pub fn error(message: String) -> (r: ApiResponse<()>)
        ensures
            !r.success,
            r.message == message,
            r.data is None,
    {
        ApiResponse { success: false, message, data: None }
    }
}

} // verus!
