//! The aggregation query: every restaurant with its current-period average,
//! ranked with a deterministic tie-break.
//!
//! Averages are exact sum/count pairs and are compared by cross
//! multiplication.  The order: rated restaurants by descending average, ties
//! broken by restaurant id ascending; restaurants with no rating at all in
//! the period come last regardless of anything else, among themselves by id
//! ascending.

use vstd::prelude::*;

use vstd::seq_lib::group_to_multiset_ensures;

use crate::errors::CoreError;
use crate::models::{
    DbMenuItemV, DbRatingV, DbRestaurantV, RatingAverage, RatingAverageV, Restaurant, RestaurantV,
};
use crate::period::{period_of_month, Date, Period};
use crate::ratings::{count_ratings_in_range, rating_scope_match};
use crate::restaurants::{menu_items_for, spec_restaurant_api};
use crate::store::{Store, MAX_RATING_ROWS};
use crate::text::{chars_le, lemma_chars_lt_connex, lemma_chars_lt_trans, str_le};

verus! {

/// The total score the restaurant gathered in the group inside the range.
pub open spec fn sum_ratings_in_range(
    rs: Seq<DbRatingV>,
    group_id: Seq<char>,
    restaurant_id: Seq<char>,
    range: (Date, Date),
) -> int
    decreases rs.len(),
{
    if rs.len() == 0 {
        0
    } else {
        sum_ratings_in_range(rs.drop_last(), group_id, restaurant_id, range) + (
        if rating_scope_match(rs.last(), group_id, restaurant_id, range) {
            rs.last().score
        } else {
            0int
        })
    }
}

/// One row of the aggregation: the restaurant with its menu, and the exact
/// average of its current-period scores.
pub open spec fn agg_entry(
    row: DbRestaurantV,
    menu_items: Seq<DbMenuItemV>,
    ratings: Seq<DbRatingV>,
    group_id: Seq<char>,
    range: (Date, Date),
) -> (RestaurantV, RatingAverageV) {
    (
        spec_restaurant_api(row, menu_items_for(menu_items, row.id)),
        RatingAverageV {
            score_sum: sum_ratings_in_range(ratings, group_id, row.id, range),
            rating_count: count_ratings_in_range(ratings, group_id, row.id, range),
        },
    )
}

/// One aggregation row per restaurant, in table order, before ranking.
pub open spec fn agg_entries(
    restaurants: Seq<DbRestaurantV>,
    menu_items: Seq<DbMenuItemV>,
    ratings: Seq<DbRatingV>,
    group_id: Seq<char>,
    range: (Date, Date),
) -> Seq<(RestaurantV, RatingAverageV)> {
    Seq::new(
        restaurants.len(),
        |i: int| agg_entry(restaurants[i], menu_items, ratings, group_id, range),
    )
}

/// The ranking order.  `a` may stand before `b` when: both are unrated and
/// `a`'s id is not larger; `b` is unrated and `a` is rated; or both are
/// rated and `a`'s average is larger by cross multiplication, or equal with
/// `a`'s id not larger.
pub open spec fn agg_le(a: (RestaurantV, RatingAverageV), b: (RestaurantV, RatingAverageV)) -> bool {
    if a.1.rating_count == 0 && b.1.rating_count == 0 {
        chars_le(a.0.id, b.0.id)
    } else if b.1.rating_count == 0 {
        true
    } else if a.1.rating_count == 0 {
        false
    } else {
        ||| a.1.score_sum * b.1.rating_count > b.1.score_sum * a.1.rating_count
        ||| (a.1.score_sum * b.1.rating_count == b.1.score_sum * a.1.rating_count && chars_le(
            a.0.id,
            b.0.id,
        ))
    }
}

/// Ranked: every earlier row may stand before every later one.
pub open spec fn sorted_agg(s: Seq<(RestaurantV, RatingAverageV)>) -> bool {
    forall|i: int, j: int| 0 <= i < j < s.len() ==> agg_le(s[i], s[j])
}

pub proof fn lemma_chars_le_trans(a: Seq<char>, b: Seq<char>, c: Seq<char>)
    requires
        chars_le(a, b),
        chars_le(b, c),
    ensures
        chars_le(a, c),
{
    if a != b && b != c {
        lemma_chars_lt_trans(a, b, c);
    }
}

proof fn lemma_cross_gt_gt(s1: int, c1: int, s2: int, c2: int, s3: int, c3: int)
    requires
        c1 > 0,
        c2 > 0,
        c3 > 0,
        s1 * c2 > s2 * c1,
        s2 * c3 > s3 * c2,
    ensures
        s1 * c3 > s3 * c1,
{
    assert(s1 * c3 > s3 * c1) by (nonlinear_arith)
        requires
            c1 > 0,
            c2 > 0,
            c3 > 0,
            s1 * c2 > s2 * c1,
            s2 * c3 > s3 * c2,
    ;
}

proof fn lemma_cross_gt_eq(s1: int, c1: int, s2: int, c2: int, s3: int, c3: int)
    requires
        c1 > 0,
        c2 > 0,
        c3 > 0,
        s1 * c2 > s2 * c1,
        s2 * c3 == s3 * c2,
    ensures
        s1 * c3 > s3 * c1,
{
    assert(s1 * c3 > s3 * c1) by (nonlinear_arith)
        requires
            c1 > 0,
            c2 > 0,
            c3 > 0,
            s1 * c2 > s2 * c1,
            s2 * c3 == s3 * c2,
    ;
}

proof fn lemma_cross_eq_gt(s1: int, c1: int, s2: int, c2: int, s3: int, c3: int)
    requires
        c1 > 0,
        c2 > 0,
        c3 > 0,
        s1 * c2 == s2 * c1,
        s2 * c3 > s3 * c2,
    ensures
        s1 * c3 > s3 * c1,
{
    assert(s1 * c3 > s3 * c1) by (nonlinear_arith)
        requires
            c1 > 0,
            c2 > 0,
            c3 > 0,
            s1 * c2 == s2 * c1,
            s2 * c3 > s3 * c2,
    ;
}

proof fn lemma_cross_eq_eq(s1: int, c1: int, s2: int, c2: int, s3: int, c3: int)
    requires
        c1 > 0,
        c2 > 0,
        c3 > 0,
        s1 * c2 == s2 * c1,
        s2 * c3 == s3 * c2,
    ensures
        s1 * c3 == s3 * c1,
{
    assert(s1 * c3 == s3 * c1) by (nonlinear_arith)
        requires
            c1 > 0,
            c2 > 0,
            c3 > 0,
            s1 * c2 == s2 * c1,
            s2 * c3 == s3 * c2,
    ;
}

/// The ranking order is total.
pub proof fn lemma_agg_le_connex(a: (RestaurantV, RatingAverageV), b: (RestaurantV, RatingAverageV))
    ensures
        agg_le(a, b) || agg_le(b, a),
{
    lemma_chars_lt_connex(a.0.id, b.0.id);
}

/// The ranking order is transitive on entries whose counts are counts.
pub proof fn lemma_agg_le_trans(
    a: (RestaurantV, RatingAverageV),
    b: (RestaurantV, RatingAverageV),
    c: (RestaurantV, RatingAverageV),
)
    requires
        agg_le(a, b),
        agg_le(b, c),
        a.1.rating_count >= 0,
        b.1.rating_count >= 0,
        c.1.rating_count >= 0,
    ensures
        agg_le(a, c),
{
    if a.1.rating_count == 0 {
        assert(b.1.rating_count == 0);
        assert(c.1.rating_count == 0);
        lemma_chars_le_trans(a.0.id, b.0.id, c.0.id);
    } else if c.1.rating_count > 0 {
        assert(b.1.rating_count > 0);
        let s1 = a.1.score_sum;
        let c1 = a.1.rating_count;
        let s2 = b.1.score_sum;
        let c2 = b.1.rating_count;
        let s3 = c.1.score_sum;
        let c3 = c.1.rating_count;
        if s1 * c2 > s2 * c1 && s2 * c3 > s3 * c2 {
            lemma_cross_gt_gt(s1, c1, s2, c2, s3, c3);
        } else if s1 * c2 > s2 * c1 {
            lemma_cross_gt_eq(s1, c1, s2, c2, s3, c3);
        } else if s2 * c3 > s3 * c2 {
            lemma_cross_eq_gt(s1, c1, s2, c2, s3, c3);
        } else {
            lemma_cross_eq_eq(s1, c1, s2, c2, s3, c3);
            lemma_chars_le_trans(a.0.id, b.0.id, c.0.id);
        }
    }
}

/// Executable ranking comparison.
fn agg_le_exec(a: &(Restaurant, RatingAverage), b: &(Restaurant, RatingAverage)) -> (r: bool)
    ensures
        r == agg_le(a.deep_view(), b.deep_view()),
{
    if a.1.rating_count == 0 && b.1.rating_count == 0 {
        str_le(a.0.id.as_str(), b.0.id.as_str())
    } else if b.1.rating_count == 0 {
        true
    } else if a.1.rating_count == 0 {
        false
    } else {
        proof {
            let m: int = 0xFFFF_FFFF_FFFF_FFFF;
            assert((a.1.score_sum as int) * (b.1.rating_count as int) <= m * m && (
            b.1.score_sum as int) * (a.1.rating_count as int) <= m * m) by (nonlinear_arith)
                requires
                    m == 0xFFFF_FFFF_FFFF_FFFFint,
                    0 <= a.1.score_sum as int <= m,
                    0 <= b.1.score_sum as int <= m,
                    0 <= a.1.rating_count as int <= m,
                    0 <= b.1.rating_count as int <= m,
            ;
        }
        let cross_a = (a.1.score_sum as u128) * (b.1.rating_count as u128);
        let cross_b = (b.1.score_sum as u128) * (a.1.rating_count as u128);
        if cross_a > cross_b {
            true
        } else if cross_a == cross_b {
            str_le(a.0.id.as_str(), b.0.id.as_str())
        } else {
            false
        }
    }
}

/// Selection sort under the ranking order: the result is ranked and holds
/// exactly the given rows.
fn sort_agg_entries(input: Vec<(Restaurant, RatingAverage)>) -> (out: Vec<(Restaurant, RatingAverage)>)
    ensures
        out.deep_view().to_multiset() == input.deep_view().to_multiset(),
        sorted_agg(out.deep_view()),
{
    broadcast use group_to_multiset_ensures;

    let ghost input_ms = input.deep_view().to_multiset();
    let mut rest = input;
    let mut out: Vec<(Restaurant, RatingAverage)> = Vec::new();
    proof {
        assert(out.deep_view() =~= Seq::<(RestaurantV, RatingAverageV)>::empty());
        assert(out.deep_view().to_multiset().add(rest.deep_view().to_multiset())
            =~= input_ms);
    }
    while rest.len() > 0
        invariant
            out.deep_view().to_multiset().add(rest.deep_view().to_multiset()) == input_ms,
            sorted_agg(out.deep_view()),
            forall|i: int, j: int|
                0 <= i < out.deep_view().len() && 0 <= j < rest.deep_view().len() ==> agg_le(
                    #[trigger] out.deep_view()[i],
                    #[trigger] rest.deep_view()[j],
                ),
        decreases rest.len(),
    {
        let n = rest.len();
        let mut m: usize = 0;
        let mut k: usize = 1;
        while k < n
            invariant
                m < k <= n,
                n == rest.len(),
                forall|j: int| 0 <= j < k ==> agg_le(rest.deep_view()[m as int], #[trigger] rest.deep_view()[j]),
            decreases n - k,
        {
            if !agg_le_exec(&rest[m], &rest[k]) {
                proof {
                    lemma_agg_le_connex(rest.deep_view()[m as int], rest.deep_view()[k as int]);
                    assert forall|j: int| 0 <= j < k + 1 implies agg_le(
                        rest.deep_view()[k as int],
                        #[trigger] rest.deep_view()[j],
                    ) by {
                        if j < k {
                            lemma_agg_le_trans(
                                rest.deep_view()[k as int],
                                rest.deep_view()[m as int],
                                rest.deep_view()[j],
                            );
                        } else if j == k {
                            lemma_agg_le_connex(
                                rest.deep_view()[k as int],
                                rest.deep_view()[k as int],
                            );
                        }
                    }
                }
                m = k;
            } else {
                proof {
                    assert(agg_le(rest.deep_view()[m as int], rest.deep_view()[k as int]));
                }
            }
            k += 1;
        }
        let ghost old_rest_dv = rest.deep_view();
        let ghost old_out_dv = out.deep_view();
        let x = rest.remove(m);
        let ghost xv = x.deep_view();
        proof {
            assert(xv == old_rest_dv[m as int]);
            assert(rest.deep_view() =~= old_rest_dv.remove(m as int));
            assert(old_rest_dv.contains(xv)) by {
                assert(old_rest_dv[m as int] == xv);
            }
        }
        out.push(x);
        proof {
            old_rest_dv.to_multiset_ensures();
            old_out_dv.to_multiset_ensures();
            assert(out.deep_view() =~= old_out_dv.push(xv));
            assert(old_rest_dv.remove(m as int).to_multiset() =~= old_rest_dv.to_multiset().remove(
                xv,
            ));
            assert(old_out_dv.push(xv).to_multiset() =~= old_out_dv.to_multiset().insert(xv));
            assert(old_rest_dv.to_multiset().count(xv) > 0);
            assert(old_out_dv.to_multiset().insert(xv).add(
                old_rest_dv.to_multiset().remove(xv),
            ) =~= old_out_dv.to_multiset().add(old_rest_dv.to_multiset()));
            assert(out.deep_view().to_multiset().add(rest.deep_view().to_multiset())
                =~= input_ms);
            assert forall|i: int, j: int|
                0 <= i < j < out.deep_view().len() implies agg_le(
                out.deep_view()[i],
                out.deep_view()[j],
            ) by {
                if j == out.deep_view().len() - 1 {
                    assert(agg_le(old_out_dv[i], old_rest_dv[m as int]));
                }
            }
            assert forall|i: int, j: int|
                0 <= i < out.deep_view().len() && 0 <= j < rest.deep_view().len() implies agg_le(
                out.deep_view()[i],
                rest.deep_view()[j],
            ) by {
                let jj: int = if j < m { j } else { j + 1 };
                assert(rest.deep_view()[j] == old_rest_dv[jj]);
                if i < old_out_dv.len() {
                    assert(agg_le(old_out_dv[i], old_rest_dv[jj]));
                } else {
                    assert(out.deep_view()[i] == xv);
                    assert(agg_le(old_rest_dv[m as int], old_rest_dv[jj]));
                }
            }
        }
    }
    out
}

impl Store {
    /// The exact current-range average of a restaurant's ratings in a
    /// group: their sum and count.
    pub fn period_rating_stats(&self, group_id: &str, restaurant_id: &str, range: (Date, Date))
        -> (av: RatingAverage)
        requires
            self.wf(),
        ensures
            av.deep_view() == (RatingAverageV {
                score_sum: sum_ratings_in_range(self.ratings_v(), group_id@, restaurant_id@, range),
                rating_count: count_ratings_in_range(
                    self.ratings_v(),
                    group_id@,
                    restaurant_id@,
                    range,
                ),
            }),
    {
        let n = self.ratings.len();
        let mut sum: u64 = 0;
        let mut cnt: u64 = 0;
        let mut i: usize = 0;
        proof {
            assert(self.ratings_v().take(0) =~= Seq::<DbRatingV>::empty());
        }
        while i < n
            invariant
                i <= n,
                n == self.ratings.len(),
                n < MAX_RATING_ROWS,
                cnt as int == count_ratings_in_range(
                    self.ratings_v().take(i as int),
                    group_id@,
                    restaurant_id@,
                    range,
                ),
                sum as int == sum_ratings_in_range(
                    self.ratings_v().take(i as int),
                    group_id@,
                    restaurant_id@,
                    range,
                ),
                cnt <= i,
                sum as int <= (i as int) * 0xFFFF_FFFF,
            decreases n - i,
        {
            proof {
                assert(self.ratings_v().take(i + 1).drop_last() =~= self.ratings_v().take(i as int));
                assert(self.ratings_v().take(i + 1).last() == self.ratings_v()[i as int]);
            }
            let row = &self.ratings[i];
            if crate::text::str_eq(row.group_id.as_str(), group_id) && crate::text::str_eq(
                row.restaurant_id.as_str(),
                restaurant_id,
            ) && range.0.le(row.created_at) && row.created_at.le(range.1) {
                proof {
                    assert((i as int) * 0xFFFF_FFFF + 0xFFFF_FFFF == (i as int + 1) * 0xFFFF_FFFF)
                        by (nonlinear_arith);
                    assert((i as int + 1) * 0xFFFF_FFFF <= 0x4000_0000 * 0xFFFF_FFFFint)
                        by (nonlinear_arith)
                        requires
                            i as int + 1 <= 0x4000_0000,
                    ;
                }
                sum = sum + (row.score as u64);
                cnt = cnt + 1;
            } else {
                proof {
                    assert((i as int) * 0xFFFF_FFFF <= (i as int + 1) * 0xFFFF_FFFF)
                        by (nonlinear_arith);
                }
            }
            i += 1;
        }
        proof {
            assert(self.ratings_v().take(n as int) =~= self.ratings_v());
        }
        RatingAverage { score_sum: sum, rating_count: cnt }
    }

    /// Every restaurant with its current-period average in the group,
    /// ranked: rated restaurants by descending average with ties broken by
    /// id ascending, restaurants without any rating in the period last.
    /// Partial averages of incomplete rounds are included as they stand.
    pub fn get_restaurants_with_avg_rating(&self, group_id: &str, today: Date) -> (r: Result<
        Vec<(Restaurant, RatingAverage)>,
        CoreError,
    >)
        requires
            self.wf(),
            today.valid(),
        ensures
            match r {
                Ok(v) => ({
                    let range = period_of_month(today.month as int).spec_range(today.year);
                    &&& v.deep_view().to_multiset() == agg_entries(
                        self.restaurants_v(),
                        self.menu_items_v(),
                        self.ratings_v(),
                        group_id@,
                        range,
                    ).to_multiset()
                    &&& sorted_agg(v.deep_view())
                }),
                Err(_) => false,
            },
    {
        let range = Period::period_date_range(today);
        let n = self.restaurants.len();
        let mut entries: Vec<(Restaurant, RatingAverage)> = Vec::new();
        let mut i: usize = 0;
        proof {
            assert(entries.deep_view() =~= agg_entries(
                self.restaurants_v().take(0),
                self.menu_items_v(),
                self.ratings_v(),
                group_id@,
                range,
            ));
        }
        while i < n
            invariant
                i <= n,
                n == self.restaurants.len(),
                self.wf(),
                entries.deep_view() == agg_entries(
                    self.restaurants_v().take(i as int),
                    self.menu_items_v(),
                    self.ratings_v(),
                    group_id@,
                    range,
                ),
            decreases n - i,
        {
            let row = &self.restaurants[i];
            let menu = self.get_menu_items(row.id.as_str());
            let stats = self.period_rating_stats(group_id, row.id.as_str(), range);
            let rest = Restaurant { id: row.id.clone(), cuisine: row.cuisine.clone(), menu };
            let ghost ev = entries.deep_view();
            let ghost entry_v = (rest.deep_view(), stats.deep_view());
            entries.push((rest, stats));
            proof {
                assert(entries.deep_view() =~= ev.push(entry_v));
                assert(entry_v.0 =~= agg_entry(
                    self.restaurants_v()[i as int],
                    self.menu_items_v(),
                    self.ratings_v(),
                    group_id@,
                    range,
                ).0);
                assert(entry_v.1 =~= agg_entry(
                    self.restaurants_v()[i as int],
                    self.menu_items_v(),
                    self.ratings_v(),
                    group_id@,
                    range,
                ).1);
                assert(self.restaurants_v().take(i as int + 1)[i as int] == self.restaurants_v()[
                    i as int
                ]);
                assert(entries.deep_view() =~= agg_entries(
                    self.restaurants_v().take(i as int + 1),
                    self.menu_items_v(),
                    self.ratings_v(),
                    group_id@,
                    range,
                ));
            }
            i += 1;
        }
        proof {
            assert(self.restaurants_v().take(n as int) =~= self.restaurants_v());
            assert(agg_entries(
                self.restaurants_v().take(n as int),
                self.menu_items_v(),
                self.ratings_v(),
                group_id@,
                range,
            ) =~= agg_entries(
                self.restaurants_v(),
                self.menu_items_v(),
                self.ratings_v(),
                group_id@,
                range,
            ));
        }
        Ok(sort_agg_entries(entries))
    }

    /// The current-period average of a restaurant's ratings in a group,
    /// released only once the round is complete and non-empty.
    pub fn get_avg_rating(&self, restaurant_id: &str, group_id: &str, today: Date) -> (r: Option<
        RatingAverage,
    >)
        requires
            self.wf(),
            today.valid(),
        ensures
            ({
                let range = period_of_month(today.month as int).spec_range(today.year);
                let cnt = count_ratings_in_range(self.ratings_v(), group_id@, restaurant_id@, range);
                let complete = crate::complete::count_memberships_of_group(
                    self.memberships_v(),
                    group_id@,
                ) == cnt;
                match r {
                    Some(av) => complete && cnt > 0 && av.deep_view() == (RatingAverageV {
                        score_sum: sum_ratings_in_range(
                            self.ratings_v(),
                            group_id@,
                            restaurant_id@,
                            range,
                        ),
                        rating_count: cnt,
                    }),
                    None => !complete || cnt == 0,
                }
            }),
    {
        let range = Period::period_date_range(today);
        let member_count = self.count_group_memberships(group_id);
        let stats = self.period_rating_stats(group_id, restaurant_id, range);
        if stats.rating_count == member_count as u64 && stats.rating_count > 0 {
            Some(stats)
        } else {
            None
        }
    }
}

} // verus!
