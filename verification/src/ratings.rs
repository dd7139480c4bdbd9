//! Rating rows: creation behind the membership check, the period-scoped
//! update, scoped deletion, and the period-scoped queries.

use vstd::prelude::*;

use crate::errors::CoreError;
use crate::models::{
    spec_rating_of, DbRating, DbRatingV, DbUserV, NewRating, Rating,
};
use crate::period::{date_in_range, Date, Period};
use crate::store::{
    lemma_user_by_id_unique, membership_exists, user_id_taken, user_row_by_id, Store,
    MAX_RATING_ROWS,
};
use crate::text::str_eq;

verus! {

/// Whether a rating row belongs to the group and restaurant with its
/// creation date inside the range.
pub open spec fn rating_scope_match(
    r: DbRatingV,
    group_id: Seq<char>,
    restaurant_id: Seq<char>,
    range: (Date, Date),
) -> bool {
    r.group_id == group_id && r.restaurant_id == restaurant_id && date_in_range(r.created_at, range)
}

/// How many rating rows the group and restaurant have inside the range.
pub open spec fn count_ratings_in_range(
    rs: Seq<DbRatingV>,
    group_id: Seq<char>,
    restaurant_id: Seq<char>,
    range: (Date, Date),
) -> int
    decreases rs.len(),
{
    if rs.len() == 0 {
        0
    } else {
        count_ratings_in_range(rs.drop_last(), group_id, restaurant_id, range) + (
        if rating_scope_match(rs.last(), group_id, restaurant_id, range) {
            1int
        } else {
            0int
        })
    }
}

/// Whether the user has ever rated the restaurant in the group, in any
/// period.
pub open spec fn user_rated_restaurant(
    rs: Seq<DbRatingV>,
    restaurant_id: Seq<char>,
    user_id: Seq<char>,
    group_id: Seq<char>,
) -> bool {
    exists|i: int|
        0 <= i < rs.len() && (#[trigger] rs[i]).restaurant_id == restaurant_id && rs[i].user_id
            == user_id && rs[i].group_id == group_id
}

/// Whether a rating row is the user's rating of the restaurant in the group
/// with its creation date inside the range.
pub open spec fn user_scope_match(
    r: DbRatingV,
    user_id: Seq<char>,
    group_id: Seq<char>,
    restaurant_id: Seq<char>,
    range: (Date, Date),
) -> bool {
    r.user_id == user_id && r.group_id == group_id && r.restaurant_id == restaurant_id
        && date_in_range(r.created_at, range)
}

/// The first rating row in table order that the user-scoped query matches.
pub open spec fn first_user_scope_rating(
    rs: Seq<DbRatingV>,
    user_id: Seq<char>,
    group_id: Seq<char>,
    restaurant_id: Seq<char>,
    range: (Date, Date),
) -> Option<DbRatingV>
    decreases rs.len(),
{
    if rs.len() == 0 {
        None
    } else if user_scope_match(rs.first(), user_id, group_id, restaurant_id, range) {
        Some(rs.first())
    } else {
        first_user_scope_rating(rs.drop_first(), user_id, group_id, restaurant_id, range)
    }
}

/// The ratings of a restaurant in a group inside a date range, assembled in
/// table order with each rater's color joined in; a row whose rater is
/// missing from the users table is dropped, as the join drops it.
pub open spec fn period_ratings_assembled(
    rs: Seq<DbRatingV>,
    us: Seq<DbUserV>,
    group_id: Seq<char>,
    restaurant_id: Seq<char>,
    range: (Date, Date),
) -> Seq<crate::models::RatingV>
    decreases rs.len(),
{
    if rs.len() == 0 {
        Seq::empty()
    } else {
        let rest = period_ratings_assembled(rs.drop_last(), us, group_id, restaurant_id, range);
        if rating_scope_match(rs.last(), group_id, restaurant_id, range) && user_id_taken(
            us,
            rs.last().user_id,
        ) {
            rest.push(
                spec_rating_of(rs.last(), Some(user_row_by_id(us, rs.last().user_id).color)),
            )
        } else {
            rest
        }
    }
}

/// A rating row after the period-scoped update: score, username and update
/// date replaced, everything else untouched.
pub open spec fn spec_rating_updated(
    r: DbRatingV,
    score: int,
    username: Seq<char>,
    updated_at: Date,
) -> DbRatingV {
    DbRatingV {
        id: r.id,
        restaurant_id: r.restaurant_id,
        user_id: r.user_id,
        username,
        score,
        created_at: r.created_at,
        updated_at,
        group_id: r.group_id,
    }
}

/// The ratings table after the period-scoped update: every row the user
/// scope matches is updated in place, no other row changes.
pub open spec fn ratings_updated(
    rs: Seq<DbRatingV>,
    user_id: Seq<char>,
    group_id: Seq<char>,
    restaurant_id: Seq<char>,
    range: (Date, Date),
    score: int,
    username: Seq<char>,
    updated_at: Date,
) -> Seq<DbRatingV> {
    Seq::new(
        rs.len(),
        |i: int|
            if user_scope_match(rs[i], user_id, group_id, restaurant_id, range) {
                spec_rating_updated(rs[i], score, username, updated_at)
            } else {
                rs[i]
            },
    )
}

/// The ratings table with the row of the given id removed, where it also
/// matches the group and user; rows of other groups or users are kept even
/// under the same id.
pub open spec fn ratings_without_key(
    rs: Seq<DbRatingV>,
    id: int,
    user_id: Seq<char>,
    group_id: Seq<char>,
) -> Seq<DbRatingV>
    decreases rs.len(),
{
    if rs.len() == 0 {
        Seq::empty()
    } else {
        let rest = ratings_without_key(rs.drop_last(), id, user_id, group_id);
        if rs.last().id == id && rs.last().user_id == user_id && rs.last().group_id == group_id {
            rest
        } else {
            rest.push(rs.last())
        }
    }
}

/// Updating preserves the position of the first user-scoped match and
/// rewrites exactly its mutable fields.
pub proof fn lemma_first_match_after_update(
    rs: Seq<DbRatingV>,
    user_id: Seq<char>,
    group_id: Seq<char>,
    restaurant_id: Seq<char>,
    range: (Date, Date),
    score: int,
    username: Seq<char>,
    updated_at: Date,
)
    ensures
        ({
            let updated = ratings_updated(
                rs,
                user_id,
                group_id,
                restaurant_id,
                range,
                score,
                username,
                updated_at,
            );
            match first_user_scope_rating(rs, user_id, group_id, restaurant_id, range) {
                None => first_user_scope_rating(updated, user_id, group_id, restaurant_id, range)
                    is None,
                Some(row) => first_user_scope_rating(updated, user_id, group_id, restaurant_id, range)
                    == Some(spec_rating_updated(row, score, username, updated_at)),
            }
        }),
    decreases rs.len(),
{
    let updated = ratings_updated(
        rs,
        user_id,
        group_id,
        restaurant_id,
        range,
        score,
        username,
        updated_at,
    );
    if rs.len() > 0 {
        lemma_first_match_after_update(
            rs.drop_first(),
            user_id,
            group_id,
            restaurant_id,
            range,
            score,
            username,
            updated_at,
        );
        assert(updated.drop_first() =~= ratings_updated(
            rs.drop_first(),
            user_id,
            group_id,
            restaurant_id,
            range,
            score,
            username,
            updated_at,
        ));
        assert(updated.first() == (if user_scope_match(rs[0], user_id, group_id, restaurant_id,
        range) {
            spec_rating_updated(rs[0], score, username, updated_at)
        } else {
            rs[0]
        }));
    }
}

/// The ratings vector after the period-scoped update.
fn apply_rating_update(
    ratings: &Vec<DbRating>,
    user_id: &str,
    group_id: &str,
    restaurant_id: &str,
    range: (Date, Date),
    score: u32,
    username: &String,
    updated_at: Date,
) -> (out: Vec<DbRating>)
    ensures
        out.deep_view() == ratings_updated(
            ratings.deep_view(),
            user_id@,
            group_id@,
            restaurant_id@,
            range,
            score as int,
            username@,
            updated_at,
        ),
{
    let n = ratings.len();
    let mut out: Vec<DbRating> = Vec::new();
    let mut i: usize = 0;
    while i < n
        invariant
            i <= n,
            n == ratings.len(),
            out.len() == i,
            forall|j: int|
                0 <= j < i ==> out.deep_view()[j] == ratings_updated(
                    ratings.deep_view(),
                    user_id@,
                    group_id@,
                    restaurant_id@,
                    range,
                    score as int,
                    username@,
                    updated_at,
                )[j],
        decreases n - i,
    {
        let row = &ratings[i];
        let matches = str_eq(row.user_id.as_str(), user_id) && str_eq(
            row.group_id.as_str(),
            group_id,
        ) && str_eq(row.restaurant_id.as_str(), restaurant_id) && range.0.le(row.created_at)
            && row.created_at.le(range.1);
        let new_row = if matches {
            DbRating {
                id: row.id,
                restaurant_id: row.restaurant_id.clone(),
                user_id: row.user_id.clone(),
                username: username.clone(),
                score,
                created_at: row.created_at,
                updated_at,
                group_id: row.group_id.clone(),
            }
        } else {
            row.duplicate()
        };
        let ghost ov = out.deep_view();
        let ghost nv = new_row.deep_view();
        out.push(new_row);
        proof {
            assert(out.deep_view() =~= ov.push(nv));
            assert(nv == ratings_updated(
                ratings.deep_view(),
                user_id@,
                group_id@,
                restaurant_id@,
                range,
                score as int,
                username@,
                updated_at,
            )[i as int]);
        }
        i += 1;
    }
    proof {
        assert(out.deep_view() =~= ratings_updated(
            ratings.deep_view(),
            user_id@,
            group_id@,
            restaurant_id@,
            range,
            score as int,
            username@,
            updated_at,
        ));
    }
    out
}

/// The ratings vector with the scoped row removed.
fn filter_ratings_by_key(ratings: &Vec<DbRating>, id: i32, user_id: &str, group_id: &str) -> (kept:
    Vec<DbRating>)
    ensures
        kept.deep_view() == ratings_without_key(ratings.deep_view(), id as int, user_id@, group_id@),
        kept.len() <= ratings.len(),
{
    let n = ratings.len();
    let mut kept: Vec<DbRating> = Vec::new();
    let mut i: usize = 0;
    proof {
        assert(ratings.deep_view().take(0) =~= Seq::<DbRatingV>::empty());
    }
    while i < n
        invariant
            i <= n,
            n == ratings.len(),
            kept.len() <= i,
            kept.deep_view() == ratings_without_key(
                ratings.deep_view().take(i as int),
                id as int,
                user_id@,
                group_id@,
            ),
        decreases n - i,
    {
        proof {
            assert(ratings.deep_view().take(i + 1).drop_last() =~= ratings.deep_view().take(
                i as int,
            ));
            assert(ratings.deep_view().take(i + 1).last() == ratings.deep_view()[i as int]);
        }
        let row = &ratings[i];
        if !(row.id == id && str_eq(row.user_id.as_str(), user_id) && str_eq(
            row.group_id.as_str(),
            group_id,
        )) {
            let ghost kv = kept.deep_view();
            kept.push(row.duplicate());
            proof {
                assert(kept.deep_view() =~= kv.push(ratings.deep_view()[i as int]));
            }
        }
        i += 1;
    }
    proof {
        assert(ratings.deep_view().take(n as int) =~= ratings.deep_view());
    }
    kept
}

impl Store {
    /// Inserts a rating for the current day, re-validating the rater's
    /// membership.  The caller is expected to have routed re-ratings to
    /// `update_rating` first; this function itself never raises a duplicate
    /// error.
    pub fn create_rating(&mut self, rating: &NewRating, today: Date) -> (r: Result<
        Rating,
        CoreError,
    >)
        requires
            old(self).wf(),
            today.valid(),
        ensures
            final(self).wf(),
            match r {
                Ok(rat) => ({
                    let row = (DbRatingV {
                        id: old(self).next_rating_id as int,
                        restaurant_id: rating.restaurant_id@,
                        user_id: rating.user_id@,
                        username: rating.username@,
                        score: rating.score as int,
                        created_at: today,
                        updated_at: today,
                        group_id: rating.group_id@,
                    });
                    &&& membership_exists(old(self).memberships_v(), rating.user_id@, rating.group_id@)
                    &&& old(self).next_rating_id < i32::MAX
                    &&& old(self).ratings_v().len() + 1 < MAX_RATING_ROWS
                    &&& final(self).ratings_v() == old(self).ratings_v().push(row)
                    &&& final(self).next_rating_id == old(self).next_rating_id + 1
                    &&& final(self).same_except_ratings(*old(self))
                    &&& rat.deep_view() == spec_rating_of(row, None)
                }),
                Err(CoreError::NotAMember) => !membership_exists(
                    old(self).memberships_v(),
                    rating.user_id@,
                    rating.group_id@,
                ) && *final(self) == *old(self),
                Err(CoreError::StoreError) => membership_exists(
                    old(self).memberships_v(),
                    rating.user_id@,
                    rating.group_id@,
                ) && (old(self).next_rating_id == i32::MAX || old(self).ratings_v().len() + 1
                    >= MAX_RATING_ROWS) && *final(self) == *old(self),
                Err(_) => false,
            },
    {
        if !self.check_group_membership_exists(
            rating.user_id.as_str(),
            rating.group_id.as_str(),
        ) {
            return Err(CoreError::NotAMember);
        }
        if self.next_rating_id == i32::MAX || self.ratings.len() + 1 >= MAX_RATING_ROWS {
            return Err(CoreError::StoreError);
        }
        let id = self.next_rating_id;
        let row = DbRating {
            id,
            restaurant_id: rating.restaurant_id.clone(),
            user_id: rating.user_id.clone(),
            username: rating.username.clone(),
            score: rating.score,
            created_at: today,
            updated_at: today,
            group_id: rating.group_id.clone(),
        };
        let rat = Rating::from_db(&row, None);
        let ghost old_rs = self.ratings.deep_view();
        let ghost row_v = row.deep_view();
        self.ratings.push(row);
        self.next_rating_id = id + 1;
        proof {
            assert(self.ratings.deep_view() =~= old_rs.push(row_v));
        }
        Ok(rat)
    }

    /// Whether the user has ever rated the restaurant in the group,
    /// deliberately unscoped by period.
    pub fn is_restaurant_rated_by_user(
        &self,
        restaurant_id: &str,
        user_id: &str,
        group_id: &str,
    ) -> (r: bool)
        ensures
            r == user_rated_restaurant(self.ratings_v(), restaurant_id@, user_id@, group_id@),
    {
        let n = self.ratings.len();
        let mut i: usize = 0;
        while i < n
            invariant
                i <= n,
                n == self.ratings.len(),
                forall|j: int|
                    0 <= j < i ==> !((#[trigger] self.ratings_v()[j]).restaurant_id
                        == restaurant_id@ && self.ratings_v()[j].user_id == user_id@
                        && self.ratings_v()[j].group_id == group_id@),
            decreases n - i,
        {
            if str_eq(self.ratings[i].restaurant_id.as_str(), restaurant_id) && str_eq(
                self.ratings[i].user_id.as_str(),
                user_id,
            ) && str_eq(self.ratings[i].group_id.as_str(), group_id) {
                proof {
                    assert((#[trigger] self.ratings_v()[i as int]).restaurant_id == restaurant_id@);
                }
                return true;
            }
            i += 1;
        }
        false
    }

    /// The ratings of a restaurant in a group inside the quarter of the
    /// given year, in table order, with each rater's color joined in.
    pub fn get_ratings_by_restaurant_per_period(
        &self,
        group_id: &str,
        restaurant_id: &str,
        year: i32,
        period: &Period,
    ) -> (r: Result<Vec<Rating>, CoreError>)
        requires
            self.wf(),
        ensures
            match r {
                Ok(v) => v.deep_view() == period_ratings_assembled(
                    self.ratings_v(),
                    self.users_v(),
                    group_id@,
                    restaurant_id@,
                    period.spec_range(year),
                ),
                Err(_) => false,
            },
    {
        let range = match period.to_date_range(year) {
            Ok(range) => range,
            Err(e) => {
                return Err(e);
            },
        };
        let n = self.ratings.len();
        let mut out: Vec<Rating> = Vec::new();
        let mut i: usize = 0;
        proof {
            assert(self.ratings_v().take(0) =~= Seq::<DbRatingV>::empty());
        }
        while i < n
            invariant
                i <= n,
                n == self.ratings.len(),
                self.wf(),
                range == period.spec_range(year),
                out.deep_view() == period_ratings_assembled(
                    self.ratings_v().take(i as int),
                    self.users_v(),
                    group_id@,
                    restaurant_id@,
                    range,
                ),
            decreases n - i,
        {
            proof {
                assert(self.ratings_v().take(i + 1).drop_last() =~= self.ratings_v().take(i as int));
                assert(self.ratings_v().take(i + 1).last() == self.ratings_v()[i as int]);
            }
            let row = &self.ratings[i];
            if str_eq(row.group_id.as_str(), group_id) && str_eq(
                row.restaurant_id.as_str(),
                restaurant_id,
            ) && range.0.le(row.created_at) && row.created_at.le(range.1) {
                match self.find_user_by_id(row.user_id.as_str()) {
                    Some(ui) => {
                        proof {
                            lemma_user_by_id_unique(
                                self.users_v(),
                                self.ratings_v()[i as int].user_id,
                                ui as int,
                            );
                        }
                        let color = self.users[ui].color.clone();
                        let rat = Rating::from_db(row, Some(color));
                        let ghost ov = out.deep_view();
                        out.push(rat);
                        proof {
                            assert(out.deep_view() =~= ov.push(
                                spec_rating_of(
                                    self.ratings_v()[i as int],
                                    Some(
                                        user_row_by_id(
                                            self.users_v(),
                                            self.ratings_v()[i as int].user_id,
                                        ).color,
                                    ),
                                ),
                            ));
                        }
                    },
                    None => {},
                }
            }
            i += 1;
        }
        proof {
            assert(self.ratings_v().take(n as int) =~= self.ratings_v());
        }
        Ok(out)
    }

    /// The user's current-period rating of a restaurant in a group: the
    /// first matching row, with the rater's color joined in.
    pub fn get_rating_by_restaurant(
        &self,
        user_id: &str,
        group_id: &str,
        restaurant_id: &str,
        today: Date,
    ) -> (r: Result<Rating, CoreError>)
        requires
            self.wf(),
            today.valid(),
        ensures
            ({
                let range = crate::period::period_of_month(today.month as int).spec_range(
                    today.year,
                );
                let fm = first_user_scope_rating(
                    self.ratings_v(),
                    user_id@,
                    group_id@,
                    restaurant_id@,
                    range,
                );
                match r {
                    Ok(rat) => fm is Some && user_id_taken(self.users_v(), user_id@)
                        && rat.deep_view() == spec_rating_of(
                        fm.unwrap(),
                        Some(user_row_by_id(self.users_v(), user_id@).color),
                    ),
                    Err(CoreError::NotFound) => fm is None || !user_id_taken(
                        self.users_v(),
                        user_id@,
                    ),
                    Err(_) => false,
                }
            }),
    {
        let range = Period::period_date_range(today);
        let ui = match self.find_user_by_id(user_id) {
            Some(ui) => ui,
            None => {
                return Err(CoreError::NotFound);
            },
        };
        proof {
            lemma_user_by_id_unique(self.users_v(), user_id@, ui as int);
        }
        let n = self.ratings.len();
        let mut i: usize = 0;
        proof {
            assert(self.ratings_v().skip(0) =~= self.ratings_v());
        }
        loop
            invariant
                i <= n,
                n == self.ratings.len(),
                self.wf(),
                today.valid(),
                ui < self.users.len(),
                self.users_v()[ui as int].id == user_id@,
                range == crate::period::period_of_month(today.month as int).spec_range(today.year),
                first_user_scope_rating(
                    self.ratings_v(),
                    user_id@,
                    group_id@,
                    restaurant_id@,
                    range,
                ) == first_user_scope_rating(
                    self.ratings_v().skip(i as int),
                    user_id@,
                    group_id@,
                    restaurant_id@,
                    range,
                ),
            decreases n - i,
        {
            if i == n {
                proof {
                    assert(self.ratings_v().skip(i as int).len() == 0);
                }
                return Err(CoreError::NotFound);
            }
            let row = &self.ratings[i];
            proof {
                assert(self.ratings_v().skip(i as int).first() == self.ratings_v()[i as int]);
            }
            if str_eq(row.user_id.as_str(), user_id) && str_eq(row.group_id.as_str(), group_id)
                && str_eq(row.restaurant_id.as_str(), restaurant_id) && range.0.le(row.created_at)
                && row.created_at.le(range.1) {
                let color = self.users[ui].color.clone();
                return Ok(Rating::from_db(row, Some(color)));
            }
            proof {
                assert(self.ratings_v().skip(i as int).drop_first() =~= self.ratings_v().skip(
                    i as int + 1,
                ));
            }
            i += 1;
        }
    }

    /// Re-rates: re-validates membership, then updates score, username and
    /// update date on the user's current-period row only; historical rows
    /// are never touched.  Returns the post-update row.
    pub fn update_rating(&mut self, rating: &NewRating, user_id: &str, today: Date) -> (r: Result<
        Rating,
        CoreError,
    >)
        requires
            old(self).wf(),
            today.valid(),
        ensures
            final(self).wf(),
            ({
                let range = crate::period::period_of_month(today.month as int).spec_range(
                    today.year,
                );
                let fm = first_user_scope_rating(
                    old(self).ratings_v(),
                    user_id@,
                    rating.group_id@,
                    rating.restaurant_id@,
                    range,
                );
                match r {
                    Ok(rat) => ({
                        &&& membership_exists(
                            old(self).memberships_v(),
                            user_id@,
                            rating.group_id@,
                        )
                        &&& fm is Some
                        &&& user_id_taken(old(self).users_v(), user_id@)
                        &&& final(self).ratings_v() == ratings_updated(
                            old(self).ratings_v(),
                            user_id@,
                            rating.group_id@,
                            rating.restaurant_id@,
                            range,
                            rating.score as int,
                            rating.username@,
                            today,
                        )
                        &&& final(self).same_except_ratings(*old(self))
                        &&& final(self).next_rating_id == old(self).next_rating_id
                        &&& rat.deep_view() == spec_rating_of(
                            spec_rating_updated(fm.unwrap(), rating.score as int, rating.username@, today),
                            Some(user_row_by_id(old(self).users_v(), user_id@).color),
                        )
                    }),
                    Err(CoreError::NotAMember) => !membership_exists(
                        old(self).memberships_v(),
                        user_id@,
                        rating.group_id@,
                    ) && *final(self) == *old(self),
                    Err(CoreError::NotFound) => membership_exists(
                        old(self).memberships_v(),
                        user_id@,
                        rating.group_id@,
                    ) && (fm is None || !user_id_taken(old(self).users_v(), user_id@))
                        && *final(self) == *old(self),
                    Err(_) => false,
                }
            }),
    {
        if !self.check_group_membership_exists(user_id, rating.group_id.as_str()) {
            return Err(CoreError::NotAMember);
        }
        let range = Period::period_date_range(today);
        // The whole transaction rolls back when the scoped lookup finds no
        // row, so the update is applied only after that check succeeds.
        match self.get_rating_by_restaurant(
            user_id,
            rating.group_id.as_str(),
            rating.restaurant_id.as_str(),
            today,
        ) {
            Ok(_) => {},
            Err(_) => {
                return Err(CoreError::NotFound);
            },
        }
        let updated = apply_rating_update(
            &self.ratings,
            user_id,
            rating.group_id.as_str(),
            rating.restaurant_id.as_str(),
            range,
            rating.score,
            &rating.username,
            today,
        );
        self.ratings = updated;
        proof {
            let range_g = crate::period::period_of_month(today.month as int).spec_range(today.year);
            lemma_first_match_after_update(
                old(self).ratings_v(),
                user_id@,
                rating.group_id@,
                rating.restaurant_id@,
                range_g,
                rating.score as int,
                rating.username@,
                today,
            );
            assert forall|j: int| 0 <= j < self.ratings_v().len() implies (#[trigger] self.ratings_v()[j]).created_at.valid()
                && self.ratings_v()[j].updated_at.valid() && 0 < self.ratings_v()[j].id < self.next_rating_id as int by {
                assert(old(self).ratings_v()[j].created_at.valid());
            }
            assert forall|i: int, j: int| 0 <= i < j < self.ratings_v().len() implies (#[trigger] self.ratings_v()[i]).id
                != (#[trigger] self.ratings_v()[j]).id by {
                assert(old(self).ratings_v()[i].id != old(self).ratings_v()[j].id);
            }
        }
        match self.get_rating_by_restaurant(
            user_id,
            rating.group_id.as_str(),
            rating.restaurant_id.as_str(),
            today,
        ) {
            Ok(rat) => Ok(rat),
            Err(_) => Err(CoreError::NotFound),
        }
    }

    /// Removes the rating row with the given id, scoped to the group and
    /// user.  Zero removed rows is not an error at this layer.
    pub fn delete_rating(&mut self, rating_id: i32, user_id: &str, group_id: &str) -> (r: u64)
        requires
            old(self).wf(),
        ensures
            final(self).wf(),
            final(self).ratings_v() == ratings_without_key(
                old(self).ratings_v(),
                rating_id as int,
                user_id@,
                group_id@,
            ),
            r as int == old(self).ratings_v().len() - final(self).ratings_v().len(),
            final(self).same_except_ratings(*old(self)),
            final(self).next_rating_id == old(self).next_rating_id,
    {
        let kept = filter_ratings_by_key(&self.ratings, rating_id, user_id, group_id);
        let removed = self.ratings.len() - kept.len();
        self.ratings = kept;
        proof {
            lemma_ratings_without_key_props(
                old(self).ratings_v(),
                rating_id as int,
                user_id@,
                group_id@,
                old(self).next_rating_id as int,
            );
        }
        removed as u64
    }
}

pub proof fn lemma_ratings_without_key_props(
    rs: Seq<DbRatingV>,
    id: int,
    user_id: Seq<char>,
    group_id: Seq<char>,
    bound: int,
)
    requires
        crate::store::ratings_ids_ok(rs, bound),
        crate::store::ratings_dates_ok(rs),
    ensures
        ratings_without_key(rs, id, user_id, group_id).len() <= rs.len(),
        crate::store::ratings_ids_ok(ratings_without_key(rs, id, user_id, group_id), bound),
        crate::store::ratings_dates_ok(ratings_without_key(rs, id, user_id, group_id)),
        forall|k: int|
            0 <= k < ratings_without_key(rs, id, user_id, group_id).len() ==> rs.contains(
                #[trigger] ratings_without_key(rs, id, user_id, group_id)[k],
            ),
    decreases rs.len(),
{
    if rs.len() > 0 {
        let dl = rs.drop_last();
        assert(crate::store::ratings_ids_ok(dl, bound));
        assert(crate::store::ratings_dates_ok(dl));
        lemma_ratings_without_key_props(dl, id, user_id, group_id, bound);
        let f = ratings_without_key(rs, id, user_id, group_id);
        let fd = ratings_without_key(dl, id, user_id, group_id);
        assert forall|k: int| 0 <= k < fd.len() implies rs.contains(fd[k]) by {
            assert(dl.contains(fd[k]));
            let m = choose|m: int| 0 <= m < dl.len() && dl[m] == fd[k];
            assert(rs[m] == fd[k]);
        }
        if rs.last().id == id && rs.last().user_id == user_id && rs.last().group_id == group_id {
            assert(f == fd);
        } else {
            assert(f == fd.push(rs.last()));
            assert(rs.contains(rs.last())) by {
                assert(rs[rs.len() - 1] == rs.last());
            }
            assert forall|i: int, j: int| 0 <= i < j < f.len() implies f[i].id != f[j].id by {
                if j < fd.len() {
                    assert(fd[i].id != fd[j].id);
                } else {
                    assert(f[j] == rs.last());
                    assert(dl.contains(fd[i]));
                    let m = choose|m: int| 0 <= m < dl.len() && dl[m] == fd[i];
                    assert(rs[m].id != rs[rs.len() - 1].id);
                }
            }
            assert forall|k: int| 0 <= k < f.len() implies 0 < (#[trigger] f[k]).id < bound
                && f[k].created_at.valid() && f[k].updated_at.valid() by {
                if k < fd.len() {
                    assert(0 < fd[k].id < bound);
                    assert(fd[k].created_at.valid());
                } else {
                    assert(f[k] == rs.last());
                    assert(0 < rs[rs.len() - 1].id < bound);
                    assert(rs[rs.len() - 1].created_at.valid());
                }
            }
        }
    }
}

} // verus!
