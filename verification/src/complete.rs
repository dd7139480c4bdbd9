//! Completion detection and the notification dedup ledger.
//!
//! A restaurant's rating round is complete when the group's membership count
//! equals the number of rating rows the restaurant gathered in the current
//! quarter.  This is a snapshot comparison of counts, not a set comparison
//! against membership identity: a member who left mid-quarter after rating
//! still counts on the rating side.  That approximation is kept deliberately.

use vstd::prelude::*;

use crate::errors::CoreError;
use crate::models::{DbGroupMembershipV, DbRatingV, NewRating, Rating, RatingNotification, RatingNotificationV};
use crate::period::{date_in_range, period_of_month, Date, Period};
use crate::ratings::{
    count_ratings_in_range, first_user_scope_rating, ratings_updated, user_rated_restaurant,
};
use crate::store::{membership_exists, Store};

verus! {

/// How many membership rows a group has.
pub open spec fn count_memberships_of_group(ms: Seq<DbGroupMembershipV>, group_id: Seq<char>) -> int
    decreases ms.len(),
{
    if ms.len() == 0 {
        0
    } else {
        count_memberships_of_group(ms.drop_last(), group_id) + (
        if ms.last().group_id == group_id {
            1int
        } else {
            0int
        })
    }
}

/// Whether the ledger holds a notification row for the restaurant and group
/// stamped inside the range.
pub open spec fn notification_in_range_exists(
    ns: Seq<RatingNotificationV>,
    restaurant_id: Seq<char>,
    group_id: Seq<char>,
    range: (Date, Date),
) -> bool {
    exists|i: int|
        0 <= i < ns.len() && (#[trigger] ns[i]).restaurant_id == restaurant_id && ns[i].group_id
            == group_id && date_in_range(ns[i].notified_at, range)
}

/// How many rating rows the user has for the restaurant in the group, in
/// any period.
pub open spec fn count_user_ratings(
    rs: Seq<DbRatingV>,
    restaurant_id: Seq<char>,
    user_id: Seq<char>,
    group_id: Seq<char>,
) -> int
    decreases rs.len(),
{
    if rs.len() == 0 {
        0
    } else {
        count_user_ratings(rs.drop_last(), restaurant_id, user_id, group_id) + (
        if rs.last().restaurant_id == restaurant_id && rs.last().user_id == user_id
            && rs.last().group_id == group_id {
            1int
        } else {
            0int
        })
    }
}

impl Store {
    /// How many membership rows the group has.
    pub fn count_group_memberships(&self, group_id: &str) -> (n: usize)
        ensures
            n == count_memberships_of_group(self.memberships_v(), group_id@),
    {
        let m = self.memberships.len();
        let mut n: usize = 0;
        let mut i: usize = 0;
        proof {
            assert(self.memberships_v().take(0) =~= Seq::<DbGroupMembershipV>::empty());
        }
        while i < m
            invariant
                i <= m,
                m == self.memberships.len(),
                n <= i,
                n == count_memberships_of_group(self.memberships_v().take(i as int), group_id@),
            decreases m - i,
        {
            proof {
                assert(self.memberships_v().take(i + 1).drop_last() =~= self.memberships_v().take(
                    i as int,
                ));
                assert(self.memberships_v().take(i + 1).last() == self.memberships_v()[i as int]);
            }
            if crate::text::str_eq(self.memberships[i].group_id.as_str(), group_id) {
                n += 1;
            }
            i += 1;
        }
        proof {
            assert(self.memberships_v().take(m as int) =~= self.memberships_v());
        }
        n
    }

    /// How many rating rows the restaurant gathered in the group inside the
    /// range.
    pub fn count_period_ratings(&self, group_id: &str, restaurant_id: &str, range: (Date, Date)) -> (n: usize)
        ensures
            n == count_ratings_in_range(self.ratings_v(), group_id@, restaurant_id@, range),
    {
        let m = self.ratings.len();
        let mut n: usize = 0;
        let mut i: usize = 0;
        proof {
            assert(self.ratings_v().take(0) =~= Seq::<DbRatingV>::empty());
        }
        while i < m
            invariant
                i <= m,
                m == self.ratings.len(),
                n <= i,
                n == count_ratings_in_range(
                    self.ratings_v().take(i as int),
                    group_id@,
                    restaurant_id@,
                    range,
                ),
            decreases m - i,
        {
            proof {
                assert(self.ratings_v().take(i + 1).drop_last() =~= self.ratings_v().take(i as int));
                assert(self.ratings_v().take(i + 1).last() == self.ratings_v()[i as int]);
            }
            let row = &self.ratings[i];
            if crate::text::str_eq(row.group_id.as_str(), group_id) && crate::text::str_eq(
                row.restaurant_id.as_str(),
                restaurant_id,
            ) && range.0.le(row.created_at) && row.created_at.le(range.1) {
                n += 1;
            }
            i += 1;
        }
        proof {
            assert(self.ratings_v().take(m as int) =~= self.ratings_v());
        }
        n
    }

    /// Whether a completion notification for the restaurant and group was
    /// already recorded in the current quarter.
    pub fn rating_notification_sent(&self, restaurant_id: &str, group_id: &str, today: Date) -> (r:
        bool)
        requires
            today.valid(),
        ensures
            r == notification_in_range_exists(
                self.notifications_v(),
                restaurant_id@,
                group_id@,
                period_of_month(today.month as int).spec_range(today.year),
            ),
    {
        let range = Period::period_date_range(today);
        let m = self.notifications.len();
        let mut i: usize = 0;
        while i < m
            invariant
                i <= m,
                m == self.notifications.len(),
                range == period_of_month(today.month as int).spec_range(today.year),
                forall|j: int|
                    0 <= j < i ==> !((#[trigger] self.notifications_v()[j]).restaurant_id
                        == restaurant_id@ && self.notifications_v()[j].group_id == group_id@
                        && date_in_range(self.notifications_v()[j].notified_at, range)),
            decreases m - i,
        {
            let row = &self.notifications[i];
            if crate::text::str_eq(row.restaurant_id.as_str(), restaurant_id) && crate::text::str_eq(
                row.group_id.as_str(),
                group_id,
            ) && range.0.le(row.notified_at) && row.notified_at.le(range.1) {
                proof {
                    assert((#[trigger] self.notifications_v()[i as int]).restaurant_id
                        == restaurant_id@);
                }
                return true;
            }
            i += 1;
        }
        false
    }

    /// Records one ledger row, stamped with the given day.
    pub fn create_rating_notification(&mut self, restaurant_id: &str, group_id: &str, today: Date)
        -> (r: Result<RatingNotification, CoreError>)
        requires
            old(self).wf(),
        ensures
            final(self).wf(),
            match r {
                Ok(n) => ({
                    let row = (RatingNotificationV {
                        id: old(self).next_notification_id as int,
                        restaurant_id: restaurant_id@,
                        group_id: group_id@,
                        notified_at: today,
                    });
                    &&& old(self).next_notification_id < i32::MAX
                    &&& final(self).notifications_v() == old(self).notifications_v().push(row)
                    &&& final(self).next_notification_id == old(self).next_notification_id + 1
                    &&& final(self).same_except_notifications(*old(self))
                    &&& n.deep_view() == row
                }),
                Err(CoreError::StoreError) => old(self).next_notification_id == i32::MAX
                    && *final(self) == *old(self),
                Err(_) => false,
            },
    {
        if self.next_notification_id == i32::MAX {
            return Err(CoreError::StoreError);
        }
        let id = self.next_notification_id;
        let row = RatingNotification {
            id,
            restaurant_id: restaurant_id.to_owned(),
            group_id: group_id.to_owned(),
            notified_at: today,
        };
        let out = row.duplicate();
        let ghost old_ns = self.notifications.deep_view();
        let ghost row_v = row.deep_view();
        self.notifications.push(row);
        self.next_notification_id = id + 1;
        proof {
            assert(self.notifications.deep_view() =~= old_ns.push(row_v));
        }
        Ok(out)
    }

    /// Looks a ledger row up by id.
    pub fn get_rating_notification_by_id(&self, id: i32) -> (r: Result<
        RatingNotification,
        CoreError,
    >)
        ensures
            match r {
                Ok(n) => exists|i: int|
                    0 <= i < self.notifications_v().len() && (#[trigger] self.notifications_v()[i])
                        == n.deep_view() && n.deep_view().id == id as int,
                Err(CoreError::NotFound) => !exists|i: int|
                    0 <= i < self.notifications_v().len() && (#[trigger] self.notifications_v()[i]).id
                        == id as int,
                Err(_) => false,
            },
    {
        let n = self.notifications.len();
        let mut i: usize = 0;
        while i < n
            invariant
                i <= n,
                n == self.notifications.len(),
                forall|j: int|
                    0 <= j < i ==> (#[trigger] self.notifications_v()[j]).id != id as int,
            decreases n - i,
        {
            if self.notifications[i].id == id {
                let row = self.notifications[i].duplicate();
                proof {
                    assert((#[trigger] self.notifications_v()[i as int]) == row.deep_view());
                }
                return Ok(row);
            }
            i += 1;
        }
        Err(CoreError::NotFound)
    }

    /// The completion check.  Returns `(complete, dispatch)`: `complete`
    /// holds exactly when the group's membership count equals the number of
    /// rating rows the restaurant gathered in the current quarter, and
    /// `dispatch` holds when the caller asked to notify, the round is newly
    /// complete, and no notification was recorded for this quarter yet — in
    /// which case the ledger row is recorded before the caller may fan out.
    pub fn is_restaurant_rating_complete(
        &mut self,
        restaurant_id: &str,
        group_id: &str,
        today: Date,
        notify: bool,
    ) -> (r: Result<(bool, bool), CoreError>)
        requires
            old(self).wf(),
            today.valid(),
        ensures
            final(self).wf(),
            ({
                let range = period_of_month(today.month as int).spec_range(today.year);
                let complete = count_memberships_of_group(old(self).memberships_v(), group_id@)
                    == count_ratings_in_range(
                    old(self).ratings_v(),
                    group_id@,
                    restaurant_id@,
                    range,
                );
                let sent = notification_in_range_exists(
                    old(self).notifications_v(),
                    restaurant_id@,
                    group_id@,
                    range,
                );
                let ledger_row = (RatingNotificationV {
                    id: old(self).next_notification_id as int,
                    restaurant_id: restaurant_id@,
                    group_id: group_id@,
                    notified_at: today,
                });
                match r {
                    Ok(cd) => ({
                        &&& cd.0 == complete
                        &&& cd.1 == (notify && complete && !sent)
                        &&& (cd.1 ==> final(self).notifications_v()
                            == old(self).notifications_v().push(ledger_row)
                            && final(self).same_except_notifications(*old(self))
                            && final(self).next_notification_id
                            == old(self).next_notification_id + 1)
                        &&& (!cd.1 ==> *final(self) == *old(self))
                    }),
                    Err(CoreError::StoreError) => notify && complete && !sent
                        && old(self).next_notification_id == i32::MAX
                        && *final(self) == *old(self),
                    Err(_) => false,
                }
            }),
    {
        let range = Period::period_date_range(today);
        let member_count = self.count_group_memberships(group_id);
        let rating_count = self.count_period_ratings(group_id, restaurant_id, range);
        let complete = member_count == rating_count;
        if complete && notify {
            let sent = self.rating_notification_sent(restaurant_id, group_id, today);
            if !sent {
                match self.create_rating_notification(restaurant_id, group_id, today) {
                    Ok(_) => Ok((true, true)),
                    Err(e) => Err(e),
                }
            } else {
                Ok((true, false))
            }
        } else {
            Ok((complete, false))
        }
    }

    /// The "submit rating" use case: route to update when the user has ever
    /// rated the restaurant in the group, to create otherwise.
    pub fn submit_rating(&mut self, rating: &NewRating, user_id: &str, today: Date) -> (r: Result<
        Rating,
        CoreError,
    >)
        requires
            old(self).wf(),
            today.valid(),
        ensures
            final(self).wf(),
            final(self).same_except_ratings(*old(self)),
            ({
                let rated = user_rated_restaurant(
                    old(self).ratings_v(),
                    rating.restaurant_id@,
                    user_id@,
                    rating.group_id@,
                );
                let range = period_of_month(today.month as int).spec_range(today.year);
                &&& (!rated && r is Ok ==> membership_exists(
                    old(self).memberships_v(),
                    rating.user_id@,
                    rating.group_id@,
                ) && final(self).ratings_v() == old(self).ratings_v().push(
                    (DbRatingV {
                        id: old(self).next_rating_id as int,
                        restaurant_id: rating.restaurant_id@,
                        user_id: rating.user_id@,
                        username: rating.username@,
                        score: rating.score as int,
                        created_at: today,
                        updated_at: today,
                        group_id: rating.group_id@,
                    }),
                ))
                &&& (rated && r is Ok ==> membership_exists(
                    old(self).memberships_v(),
                    user_id@,
                    rating.group_id@,
                ) && first_user_scope_rating(
                    old(self).ratings_v(),
                    user_id@,
                    rating.group_id@,
                    rating.restaurant_id@,
                    range,
                ) is Some && final(self).ratings_v() == ratings_updated(
                    old(self).ratings_v(),
                    user_id@,
                    rating.group_id@,
                    rating.restaurant_id@,
                    range,
                    rating.score as int,
                    rating.username@,
                    today,
                ))
                &&& (!rated ==> (match r {
                    Ok(_) => true,
                    Err(CoreError::NotAMember) => !membership_exists(
                        old(self).memberships_v(),
                        rating.user_id@,
                        rating.group_id@,
                    ),
                    Err(CoreError::StoreError) => membership_exists(
                        old(self).memberships_v(),
                        rating.user_id@,
                        rating.group_id@,
                    ) && (old(self).next_rating_id == i32::MAX || old(self).ratings_v().len() + 1
                        >= crate::store::MAX_RATING_ROWS),
                    Err(_) => false,
                }))
                &&& (rated ==> (match r {
                    Ok(_) => true,
                    Err(CoreError::NotAMember) => !membership_exists(
                        old(self).memberships_v(),
                        user_id@,
                        rating.group_id@,
                    ),
                    Err(CoreError::NotFound) => membership_exists(
                        old(self).memberships_v(),
                        user_id@,
                        rating.group_id@,
                    ) && (first_user_scope_rating(
                        old(self).ratings_v(),
                        user_id@,
                        rating.group_id@,
                        rating.restaurant_id@,
                        range,
                    ) is None || !crate::store::user_id_taken(old(self).users_v(), user_id@)),
                    Err(_) => false,
                }))
                &&& (r is Err ==> *final(self) == *old(self))
            }),
    {
        let rated = self.is_restaurant_rated_by_user(
            rating.restaurant_id.as_str(),
            user_id,
            rating.group_id.as_str(),
        );
        if !rated {
            self.create_rating(rating, today)
        } else {
            self.update_rating(rating, user_id, today)
        }
    }
}

// ---------------------------------------------------------------------------
// Laws

/// Pushing a membership row for the group raises its membership count by
/// one; in particular a round that was complete stops being complete the
/// moment one more member joins, because the rating count is untouched.
pub proof fn lemma_completion_resets_on_join(
    ms: Seq<DbGroupMembershipV>,
    m: DbGroupMembershipV,
    rs: Seq<DbRatingV>,
    group_id: Seq<char>,
    restaurant_id: Seq<char>,
    range: (Date, Date),
)
    requires
        m.group_id == group_id,
        count_memberships_of_group(ms, group_id) == count_ratings_in_range(
            rs,
            group_id,
            restaurant_id,
            range,
        ),
    ensures
        count_memberships_of_group(ms.push(m), group_id) != count_ratings_in_range(
            rs,
            group_id,
            restaurant_id,
            range,
        ),
{
    assert(ms.push(m).drop_last() =~= ms);
    assert(ms.push(m).last() == m);
}

/// Recording the ledger row makes the quarter's dedup check positive: a
/// completion check run on any later day of the same quarter sees the
/// notification as already sent and gates the dispatch off, so the flow
/// that completes a round dispatches at most once per quarter.
pub proof fn lemma_notification_dedup(
    ns: Seq<RatingNotificationV>,
    row: RatingNotificationV,
    today: Date,
    later: Date,
)
    requires
        today.valid(),
        later.valid(),
        row.notified_at == today,
        later.year == today.year,
        period_of_month(later.month as int) == period_of_month(today.month as int),
    ensures
        notification_in_range_exists(
            ns.push(row),
            row.restaurant_id,
            row.group_id,
            period_of_month(later.month as int).spec_range(later.year),
        ),
{
    let p = period_of_month(today.month as int);
    crate::period::lemma_date_range_round_trip(p, today.year, today);
    assert(ns.push(row)[ns.len() as int] == row);
}

/// A count of zero is exactly the absence of a matching row.
pub proof fn lemma_count_user_ratings_zero(
    rs: Seq<DbRatingV>,
    restaurant_id: Seq<char>,
    user_id: Seq<char>,
    group_id: Seq<char>,
)
    ensures
        count_user_ratings(rs, restaurant_id, user_id, group_id) >= 0,
        (count_user_ratings(rs, restaurant_id, user_id, group_id) == 0) <==> !user_rated_restaurant(
            rs,
            restaurant_id,
            user_id,
            group_id,
        ),
    decreases rs.len(),
{
    if rs.len() > 0 {
        let dl = rs.drop_last();
        lemma_count_user_ratings_zero(dl, restaurant_id, user_id, group_id);
        if user_rated_restaurant(dl, restaurant_id, user_id, group_id) {
            let i = choose|i: int|
                0 <= i < dl.len() && (#[trigger] dl[i]).restaurant_id == restaurant_id
                    && dl[i].user_id == user_id && dl[i].group_id == group_id;
            assert((#[trigger] rs[i]).restaurant_id == restaurant_id);
        }
        if rs.last().restaurant_id == restaurant_id && rs.last().user_id == user_id
            && rs.last().group_id == group_id {
            assert((#[trigger] rs[rs.len() - 1]).restaurant_id == restaurant_id);
        }
        if user_rated_restaurant(rs, restaurant_id, user_id, group_id) && !(rs.last().restaurant_id
            == restaurant_id && rs.last().user_id == user_id && rs.last().group_id == group_id) {
            let i = choose|i: int|
                0 <= i < rs.len() && (#[trigger] rs[i]).restaurant_id == restaurant_id
                    && rs[i].user_id == user_id && rs[i].group_id == group_id;
            assert(i < dl.len());
            assert((#[trigger] dl[i]).restaurant_id == restaurant_id);
        }
    }
}

/// The period-scoped update never changes how many rows the user has for
/// the restaurant in the group: it rewrites rows in place.
pub proof fn lemma_count_preserved_by_update(
    rs: Seq<DbRatingV>,
    restaurant_id: Seq<char>,
    user_id: Seq<char>,
    group_id: Seq<char>,
    range: (Date, Date),
    score: int,
    username: Seq<char>,
    updated_at: Date,
)
    ensures
        count_user_ratings(
            ratings_updated(rs, user_id, group_id, restaurant_id, range, score, username, updated_at),
            restaurant_id,
            user_id,
            group_id,
        ) == count_user_ratings(rs, restaurant_id, user_id, group_id),
    decreases rs.len(),
{
    let updated = ratings_updated(
        rs,
        user_id,
        group_id,
        restaurant_id,
        range,
        score,
        username,
        updated_at,
    );
    if rs.len() > 0 {
        lemma_count_preserved_by_update(
            rs.drop_last(),
            restaurant_id,
            user_id,
            group_id,
            range,
            score,
            username,
            updated_at,
        );
        assert(updated.drop_last() =~= ratings_updated(
            rs.drop_last(),
            user_id,
            group_id,
            restaurant_id,
            range,
            score,
            username,
            updated_at,
        ));
        assert(updated.last() == (if crate::ratings::user_scope_match(
            rs.last(),
            user_id,
            group_id,
            restaurant_id,
            range,
        ) {
            crate::ratings::spec_rating_updated(rs.last(), score, username, updated_at)
        } else {
            rs.last()
        }));
    }
}

/// Submitting a rating twice for one (group, restaurant, user) leaves
/// exactly one row: the first submission inserts it, and the second routes
/// to the in-place update, which changes no row count.  `s0` is the store
/// before the first submission, `s1` after it, `s2` after the second.
pub proof fn lemma_submit_twice_single_row(
    s0: Store,
    s1: Store,
    s2: Store,
    row: DbRatingV,
    restaurant_id: Seq<char>,
    user_id: Seq<char>,
    group_id: Seq<char>,
    range: (Date, Date),
    score: int,
    username: Seq<char>,
    updated_at: Date,
)
    requires
        !user_rated_restaurant(s0.ratings_v(), restaurant_id, user_id, group_id),
        row.restaurant_id == restaurant_id,
        row.user_id == user_id,
        row.group_id == group_id,
        s1.ratings_v() == s0.ratings_v().push(row),
        s2.ratings_v() == ratings_updated(
            s1.ratings_v(),
            user_id,
            group_id,
            restaurant_id,
            range,
            score,
            username,
            updated_at,
        ),
    ensures
        user_rated_restaurant(s1.ratings_v(), restaurant_id, user_id, group_id),
        count_user_ratings(s1.ratings_v(), restaurant_id, user_id, group_id) == 1,
        count_user_ratings(s2.ratings_v(), restaurant_id, user_id, group_id) == 1,
{
    lemma_count_user_ratings_zero(s0.ratings_v(), restaurant_id, user_id, group_id);
    assert(s1.ratings_v().drop_last() =~= s0.ratings_v());
    assert(s1.ratings_v().last() == row);
    assert(count_user_ratings(s1.ratings_v(), restaurant_id, user_id, group_id) == 1);
    lemma_count_user_ratings_zero(s1.ratings_v(), restaurant_id, user_id, group_id);
    lemma_count_preserved_by_update(
        s1.ratings_v(),
        restaurant_id,
        user_id,
        group_id,
        range,
        score,
        username,
        updated_at,
    );
}

} // verus!
