//! The composite rating queries: current-period detail plus historical
//! per-period aggregates, for a user, a user in a group, or a restaurant in
//! a group.

use vstd::prelude::*;

use crate::errors::CoreError;
use crate::history::{
    filter_ratings_of_group_restaurant, filter_ratings_of_user, filter_ratings_of_user_group,
    hist_entries_complete, hist_entries_ok, historical_aggregates, ratings_of_group_restaurant,
    ratings_of_user, ratings_of_user_group, rows_dates_ok, sorted_hist,
};
use crate::models::{spec_rating_of, DbRatingV, DbUserV, Rating, RatingsByPeriod, RatingV};
use crate::period::{date_in_range, period_of_month, Date, Period};
use crate::ratings::period_ratings_assembled;
use crate::store::{lemma_user_by_id_unique, user_id_taken, user_row_by_id, Store};
use crate::text::str_eq;

verus! {

/// The current-period ratings of one user across all groups, in table
/// order, with the rater's color joined in; rows whose rater is missing
/// from the users table are dropped, as the join drops them.
pub open spec fn user_ratings_assembled(
    rs: Seq<DbRatingV>,
    us: Seq<DbUserV>,
    user_id: Seq<char>,
    range: (Date, Date),
) -> Seq<RatingV>
    decreases rs.len(),
{
    if rs.len() == 0 {
        Seq::empty()
    } else {
        let rest = user_ratings_assembled(rs.drop_last(), us, user_id, range);
        if rs.last().user_id == user_id && date_in_range(rs.last().created_at, range)
            && user_id_taken(us, rs.last().user_id) {
            rest.push(spec_rating_of(rs.last(), Some(user_row_by_id(us, rs.last().user_id).color)))
        } else {
            rest
        }
    }
}

/// As [`user_ratings_assembled`], scoped to one group.
pub open spec fn user_group_ratings_assembled(
    rs: Seq<DbRatingV>,
    us: Seq<DbUserV>,
    user_id: Seq<char>,
    group_id: Seq<char>,
    range: (Date, Date),
) -> Seq<RatingV>
    decreases rs.len(),
{
    if rs.len() == 0 {
        Seq::empty()
    } else {
        let rest = user_group_ratings_assembled(rs.drop_last(), us, user_id, group_id, range);
        if rs.last().user_id == user_id && rs.last().group_id == group_id && date_in_range(
            rs.last().created_at,
            range,
        ) && user_id_taken(us, rs.last().user_id) {
            rest.push(spec_rating_of(rs.last(), Some(user_row_by_id(us, rs.last().user_id).color)))
        } else {
            rest
        }
    }
}

impl Store {
    /// The current-period ratings of one user, with colors joined in.
    pub(crate) fn collect_user_ratings(&self, user_id: &str, range: (Date, Date)) -> (out: Vec<Rating>)
        requires
            self.wf(),
        ensures
            out.deep_view() == user_ratings_assembled(
                self.ratings_v(),
                self.users_v(),
                user_id@,
                range,
            ),
    {
        let n = self.ratings.len();
        let mut out: Vec<Rating> = Vec::new();
        let mut i: usize = 0;
        proof {
            assert(self.ratings_v().take(0) =~= Seq::<DbRatingV>::empty());
        }
        while i < n
            invariant
                i <= n,
                n == self.ratings.len(),
                self.wf(),
                out.deep_view() == user_ratings_assembled(
                    self.ratings_v().take(i as int),
                    self.users_v(),
                    user_id@,
                    range,
                ),
            decreases n - i,
        {
            proof {
                assert(self.ratings_v().take(i + 1).drop_last() =~= self.ratings_v().take(i as int));
                assert(self.ratings_v().take(i + 1).last() == self.ratings_v()[i as int]);
            }
            let row = &self.ratings[i];
            if str_eq(row.user_id.as_str(), user_id) && range.0.le(row.created_at)
                && row.created_at.le(range.1) {
                match self.find_user_by_id(row.user_id.as_str()) {
                    Some(ui) => {
                        proof {
                            lemma_user_by_id_unique(
                                self.users_v(),
                                self.ratings_v()[i as int].user_id,
                                ui as int,
                            );
                        }
                        let color = self.users[ui].color.clone();
                        let rat = Rating::from_db(row, Some(color));
                        let ghost ov = out.deep_view();
                        out.push(rat);
                        proof {
                            assert(out.deep_view() =~= ov.push(
                                spec_rating_of(
                                    self.ratings_v()[i as int],
                                    Some(
                                        user_row_by_id(
                                            self.users_v(),
                                            self.ratings_v()[i as int].user_id,
                                        ).color,
                                    ),
                                ),
                            ));
                        }
                    },
                    None => {},
                }
            }
            i += 1;
        }
        proof {
            assert(self.ratings_v().take(n as int) =~= self.ratings_v());
        }
        out
    }

    /// The current-period ratings of one user in one group, with colors
    /// joined in.
    pub(crate) fn collect_user_group_ratings(&self, user_id: &str, group_id: &str, range: (Date, Date)) -> (out:
        Vec<Rating>)
        requires
            self.wf(),
        ensures
            out.deep_view() == user_group_ratings_assembled(
                self.ratings_v(),
                self.users_v(),
                user_id@,
                group_id@,
                range,
            ),
    {
        let n = self.ratings.len();
        let mut out: Vec<Rating> = Vec::new();
        let mut i: usize = 0;
        proof {
            assert(self.ratings_v().take(0) =~= Seq::<DbRatingV>::empty());
        }
        while i < n
            invariant
                i <= n,
                n == self.ratings.len(),
                self.wf(),
                out.deep_view() == user_group_ratings_assembled(
                    self.ratings_v().take(i as int),
                    self.users_v(),
                    user_id@,
                    group_id@,
                    range,
                ),
            decreases n - i,
        {
            proof {
                assert(self.ratings_v().take(i + 1).drop_last() =~= self.ratings_v().take(i as int));
                assert(self.ratings_v().take(i + 1).last() == self.ratings_v()[i as int]);
            }
            let row = &self.ratings[i];
            if str_eq(row.user_id.as_str(), user_id) && str_eq(row.group_id.as_str(), group_id)
                && range.0.le(row.created_at) && row.created_at.le(range.1) {
                match self.find_user_by_id(row.user_id.as_str()) {
                    Some(ui) => {
                        proof {
                            lemma_user_by_id_unique(
                                self.users_v(),
                                self.ratings_v()[i as int].user_id,
                                ui as int,
                            );
                        }
                        let color = self.users[ui].color.clone();
                        let rat = Rating::from_db(row, Some(color));
                        let ghost ov = out.deep_view();
                        out.push(rat);
                        proof {
                            assert(out.deep_view() =~= ov.push(
                                spec_rating_of(
                                    self.ratings_v()[i as int],
                                    Some(
                                        user_row_by_id(
                                            self.users_v(),
                                            self.ratings_v()[i as int].user_id,
                                        ).color,
                                    ),
                                ),
                            ));
                        }
                    },
                    None => {},
                }
            }
            i += 1;
        }
        proof {
            assert(self.ratings_v().take(n as int) =~= self.ratings_v());
        }
        out
    }

    /// One user's ratings: current-period detail plus historical per-period
    /// aggregates over all of the user's ratings.
    pub fn get_ratings_by_user(&self, user_id: &str, today: Date) -> (r: Result<
        RatingsByPeriod,
        CoreError,
    >)
        requires
            self.wf(),
            today.valid(),
        ensures
            match r {
                Ok(rbp) => ({
                    let range = period_of_month(today.month as int).spec_range(today.year);
                    let filtered = ratings_of_user(self.ratings_v(), user_id@);
                    &&& rbp.current_year == today.year
                    &&& rbp.current_period == period_of_month(today.month as int)
                    &&& rbp.current_period_ratings.deep_view() == user_ratings_assembled(
                        self.ratings_v(),
                        self.users_v(),
                        user_id@,
                        range,
                    )
                    &&& sorted_hist(rbp.historical_ratings.deep_view())
                    &&& hist_entries_ok(rbp.historical_ratings.deep_view(), filtered)
                    &&& hist_entries_complete(rbp.historical_ratings.deep_view(), filtered)
                }),
                Err(_) => false,
            },
    {
        let (current_year, current_period, range) = Period::period_info(today);
        let current_period_ratings = self.collect_user_ratings(user_id, range);
        proof {
            assert(rows_dates_ok(self.ratings.deep_view()));
        }
        let filtered = filter_ratings_of_user(&self.ratings, user_id);
        let historical_ratings = historical_aggregates(&filtered);
        Ok(RatingsByPeriod { current_year, current_period, current_period_ratings, historical_ratings })
    }

    /// One user's ratings inside one group: current-period detail plus
    /// historical per-period aggregates.
    pub fn get_ratings_by_user_and_group(&self, user_id: &str, group_id: &str, today: Date) -> (r:
        Result<RatingsByPeriod, CoreError>)
        requires
            self.wf(),
            today.valid(),
        ensures
            match r {
                Ok(rbp) => ({
                    let range = period_of_month(today.month as int).spec_range(today.year);
                    let filtered = ratings_of_user_group(self.ratings_v(), user_id@, group_id@);
                    &&& rbp.current_year == today.year
                    &&& rbp.current_period == period_of_month(today.month as int)
                    &&& rbp.current_period_ratings.deep_view() == user_group_ratings_assembled(
                        self.ratings_v(),
                        self.users_v(),
                        user_id@,
                        group_id@,
                        range,
                    )
                    &&& sorted_hist(rbp.historical_ratings.deep_view())
                    &&& hist_entries_ok(rbp.historical_ratings.deep_view(), filtered)
                    &&& hist_entries_complete(rbp.historical_ratings.deep_view(), filtered)
                }),
                Err(_) => false,
            },
    {
        let (current_year, current_period, range) = Period::period_info(today);
        let current_period_ratings = self.collect_user_group_ratings(user_id, group_id, range);
        proof {
            assert(rows_dates_ok(self.ratings.deep_view()));
        }
        let filtered = filter_ratings_of_user_group(&self.ratings, user_id, group_id);
        let historical_ratings = historical_aggregates(&filtered);
        Ok(RatingsByPeriod { current_year, current_period, current_period_ratings, historical_ratings })
    }

    /// One restaurant's ratings inside one group: current-period detail
    /// across all raters plus historical per-period aggregates.
    pub fn get_ratings_by_restaurant(&self, restaurant_id: &str, group_id: &str, today: Date) -> (r:
        Result<RatingsByPeriod, CoreError>)
        requires
            self.wf(),
            today.valid(),
        ensures
            match r {
                Ok(rbp) => ({
                    let range = period_of_month(today.month as int).spec_range(today.year);
                    let filtered = ratings_of_group_restaurant(
                        self.ratings_v(),
                        group_id@,
                        restaurant_id@,
                    );
                    &&& rbp.current_year == today.year
                    &&& rbp.current_period == period_of_month(today.month as int)
                    &&& rbp.current_period_ratings.deep_view() == period_ratings_assembled(
                        self.ratings_v(),
                        self.users_v(),
                        group_id@,
                        restaurant_id@,
                        range,
                    )
                    &&& sorted_hist(rbp.historical_ratings.deep_view())
                    &&& hist_entries_ok(rbp.historical_ratings.deep_view(), filtered)
                    &&& hist_entries_complete(rbp.historical_ratings.deep_view(), filtered)
                }),
                Err(_) => false,
            },
    {
        let (current_year, current_period, _range) = Period::period_info(today);
        let current_period_ratings = match self.get_ratings_by_restaurant_per_period(
            group_id,
            restaurant_id,
            current_year,
            &current_period,
        ) {
            Ok(v) => v,
            Err(e) => {
                return Err(e);
            },
        };
        proof {
            assert(rows_dates_ok(self.ratings.deep_view()));
        }
        let filtered = filter_ratings_of_group_restaurant(&self.ratings, group_id, restaurant_id);
        let historical_ratings = historical_aggregates(&filtered);
        Ok(RatingsByPeriod { current_year, current_period, current_period_ratings, historical_ratings })
    }
}

/// Deleting a group membership deletes no rating row: a store whose ratings
/// and users tables are untouched answers every per-period rating query
/// exactly as before, so historical ratings persist independent of the
/// membership lifecycle.
pub proof fn lemma_ratings_survive_membership_delete(s0: Store, s1: Store, id: int)
    requires
        s1.memberships_v() == crate::groups::memberships_without_id(s0.memberships_v(), id),
        s1.same_except_memberships(s0),
    ensures
        s1.ratings_v() == s0.ratings_v(),
        forall|g: Seq<char>, rid: Seq<char>, range: (Date, Date)|
            #[trigger] period_ratings_assembled(s1.ratings_v(), s1.users_v(), g, rid, range)
                == period_ratings_assembled(s0.ratings_v(), s0.users_v(), g, rid, range),
{
}

} // verus!
