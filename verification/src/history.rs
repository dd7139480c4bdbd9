//! Historical per-period aggregates: all of a rating population grouped by
//! (restaurant, year, quarter), with exact sum/count averages, ordered by
//! year, then quarter, then restaurant id.

use vstd::prelude::*;

use vstd::seq_lib::group_to_multiset_ensures;

use crate::models::{AverageRatingPerPeriod, AverageRatingPerPeriodV, DbRating, DbRatingV};
use crate::period::{period_of_month, Date, Period};
use crate::text::{chars_le, lemma_chars_lt_connex, str_eq, str_le};

verus! {

/// The grouping key of the historical aggregation.
#[verifier::ext_equal]
pub ghost struct HistKey {
    pub restaurant_id: Seq<char>,
    pub year: int,
    pub period: Period,
}

/// The key a rating row falls under: its restaurant and the year and
/// quarter of its creation date.
pub open spec fn hist_key_of(r: DbRatingV) -> HistKey {
    HistKey {
        restaurant_id: r.restaurant_id,
        year: r.created_at.year as int,
        period: period_of_month(r.created_at.month as int),
    }
}

/// The key an aggregate entry carries.
pub open spec fn entry_key(e: AverageRatingPerPeriodV) -> HistKey {
    HistKey { restaurant_id: e.restaurant_id, year: e.year, period: e.period }
}

/// The total score of the rows under one key.
pub open spec fn hist_sum(rs: Seq<DbRatingV>, k: HistKey) -> int
    decreases rs.len(),
{
    if rs.len() == 0 {
        0
    } else {
        hist_sum(rs.drop_last(), k) + (
        if hist_key_of(rs.last()) == k {
            rs.last().score
        } else {
            0int
        })
    }
}

/// How many rows fall under one key.
pub open spec fn hist_count(rs: Seq<DbRatingV>, k: HistKey) -> int
    decreases rs.len(),
{
    if rs.len() == 0 {
        0
    } else {
        hist_count(rs.drop_last(), k) + (
        if hist_key_of(rs.last()) == k {
            1int
        } else {
            0int
        })
    }
}

/// The aggregation order: year ascending, then quarter, then restaurant id.
pub open spec fn hist_key_le(a: HistKey, b: HistKey) -> bool {
    ||| a.year < b.year
    ||| (a.year == b.year && a.period.ordinal() < b.period.ordinal())
    ||| (a.year == b.year && a.period.ordinal() == b.period.ordinal() && chars_le(
        a.restaurant_id,
        b.restaurant_id,
    ))
}

/// Ordered by key, with no key appearing twice.
pub open spec fn sorted_hist(es: Seq<AverageRatingPerPeriodV>) -> bool {
    forall|i: int, j: int|
        0 <= i < j < es.len() ==> hist_key_le(entry_key(es[i]), entry_key(es[j])) && entry_key(
            es[i],
        ) != entry_key(es[j])
}

/// Every entry carries the exact sum and count of its key's rows, and only
/// keys that occur get an entry.
pub open spec fn hist_entries_ok(es: Seq<AverageRatingPerPeriodV>, rs: Seq<DbRatingV>) -> bool {
    forall|j: int|
        0 <= j < es.len() ==> (#[trigger] es[j]).score_sum == hist_sum(rs, entry_key(es[j]))
            && es[j].rating_count == hist_count(rs, entry_key(es[j])) && es[j].rating_count > 0
}

/// Whether some entry carries the key.
pub open spec fn hist_key_present(es: Seq<AverageRatingPerPeriodV>, k: HistKey) -> bool {
    exists|j: int| 0 <= j < es.len() && entry_key(#[trigger] es[j]) == k
}

/// Every row's key has an entry.
pub open spec fn hist_entries_complete(es: Seq<AverageRatingPerPeriodV>, rs: Seq<DbRatingV>) -> bool {
    forall|i: int| 0 <= i < rs.len() ==> hist_key_present(es, hist_key_of(#[trigger] rs[i]))
}

/// The rating rows of one user, any group, any period.
pub open spec fn ratings_of_user(rs: Seq<DbRatingV>, user_id: Seq<char>) -> Seq<DbRatingV>
    decreases rs.len(),
{
    if rs.len() == 0 {
        Seq::empty()
    } else {
        let rest = ratings_of_user(rs.drop_last(), user_id);
        if rs.last().user_id == user_id {
            rest.push(rs.last())
        } else {
            rest
        }
    }
}

/// The rating rows of one user inside one group, any period.
pub open spec fn ratings_of_user_group(
    rs: Seq<DbRatingV>,
    user_id: Seq<char>,
    group_id: Seq<char>,
) -> Seq<DbRatingV>
    decreases rs.len(),
{
    if rs.len() == 0 {
        Seq::empty()
    } else {
        let rest = ratings_of_user_group(rs.drop_last(), user_id, group_id);
        if rs.last().user_id == user_id && rs.last().group_id == group_id {
            rest.push(rs.last())
        } else {
            rest
        }
    }
}

/// The rating rows of one restaurant inside one group, any period.
pub open spec fn ratings_of_group_restaurant(
    rs: Seq<DbRatingV>,
    group_id: Seq<char>,
    restaurant_id: Seq<char>,
) -> Seq<DbRatingV>
    decreases rs.len(),
{
    if rs.len() == 0 {
        Seq::empty()
    } else {
        let rest = ratings_of_group_restaurant(rs.drop_last(), group_id, restaurant_id);
        if rs.last().group_id == group_id && rs.last().restaurant_id == restaurant_id {
            rest.push(rs.last())
        } else {
            rest
        }
    }
}

/// Dates on rating rows are real calendar dates.
pub open spec fn rows_dates_ok(rs: Seq<DbRatingV>) -> bool {
    forall|i: int|
        0 <= i < rs.len() ==> (#[trigger] rs[i]).created_at.valid() && rs[i].updated_at.valid()
}

/// A key with at least one row has a positive count.
pub proof fn lemma_hist_count_pos(rs: Seq<DbRatingV>, k: HistKey, i: int)
    requires
        0 <= i < rs.len(),
        hist_key_of(rs[i]) == k,
    ensures
        hist_count(rs, k) >= 1,
        hist_count(rs, k) <= rs.len(),
    decreases rs.len(),
{
    lemma_hist_count_le_len(rs, k);
    if rs.len() > 0 {
        if i == rs.len() - 1 {
            lemma_hist_count_nonneg(rs.drop_last(), k);
        } else {
            lemma_hist_count_pos(rs.drop_last(), k, i);
        }
    }
}

pub proof fn lemma_hist_count_nonneg(rs: Seq<DbRatingV>, k: HistKey)
    ensures
        hist_count(rs, k) >= 0,
    decreases rs.len(),
{
    if rs.len() > 0 {
        lemma_hist_count_nonneg(rs.drop_last(), k);
    }
}

pub proof fn lemma_hist_count_le_len(rs: Seq<DbRatingV>, k: HistKey)
    ensures
        0 <= hist_count(rs, k) <= rs.len(),
    decreases rs.len(),
{
    if rs.len() > 0 {
        lemma_hist_count_le_len(rs.drop_last(), k);
    }
}

/// The order is total.
pub proof fn lemma_hist_le_connex(a: HistKey, b: HistKey)
    ensures
        hist_key_le(a, b) || hist_key_le(b, a),
{
    lemma_chars_lt_connex(a.restaurant_id, b.restaurant_id);
}

/// The order is transitive.
pub proof fn lemma_hist_le_trans(a: HistKey, b: HistKey, c: HistKey)
    requires
        hist_key_le(a, b),
        hist_key_le(b, c),
    ensures
        hist_key_le(a, c),
{
    if a.year == b.year && b.year == c.year && a.period.ordinal() == b.period.ordinal()
        && b.period.ordinal() == c.period.ordinal() {
        crate::aggregate::lemma_chars_le_trans(a.restaurant_id, b.restaurant_id, c.restaurant_id);
    }
}

/// Executable key comparison on aggregate entries.
fn hist_le_exec(a: &AverageRatingPerPeriod, b: &AverageRatingPerPeriod) -> (r: bool)
    ensures
        r == hist_key_le(entry_key(a.deep_view()), entry_key(b.deep_view())),
{
    if a.year < b.year {
        true
    } else if a.year > b.year {
        false
    } else {
        let ao = a.period.ordinal_index();
        let bo = b.period.ordinal_index();
        if ao < bo {
            true
        } else if ao > bo {
            false
        } else {
            str_le(a.restaurant_id.as_str(), b.restaurant_id.as_str())
        }
    }
}

/// The sum and count of the rows under one key, scanned over the whole
/// population.
fn hist_stats(filtered: &Vec<DbRating>, restaurant_id: &str, year: i32, period: &Period) -> (av: (
    u64,
    u64,
))
    requires
        rows_dates_ok(filtered.deep_view()),
        filtered.len() < 0x4000_0000,
    ensures
        ({
            let k = (HistKey { restaurant_id: restaurant_id@, year: year as int, period: *period });
            av.0 as int == hist_sum(filtered.deep_view(), k) && av.1 as int == hist_count(
                filtered.deep_view(),
                k,
            )
        }),
{
    let ghost k = HistKey { restaurant_id: restaurant_id@, year: year as int, period: *period };
    let n = filtered.len();
    let mut sum: u64 = 0;
    let mut cnt: u64 = 0;
    let mut i: usize = 0;
    proof {
        assert(filtered.deep_view().take(0) =~= Seq::<DbRatingV>::empty());
    }
    while i < n
        invariant
            i <= n,
            n == filtered.len(),
            n < 0x4000_0000,
            rows_dates_ok(filtered.deep_view()),
            k == (HistKey { restaurant_id: restaurant_id@, year: year as int, period: *period }),
            cnt as int == hist_count(filtered.deep_view().take(i as int), k),
            sum as int == hist_sum(filtered.deep_view().take(i as int), k),
            cnt <= i,
            sum as int <= (i as int) * 0xFFFF_FFFF,
        decreases n - i,
    {
        proof {
            assert(filtered.deep_view().take(i + 1).drop_last() =~= filtered.deep_view().take(
                i as int,
            ));
            assert(filtered.deep_view().take(i + 1).last() == filtered.deep_view()[i as int]);
        }
        let row = &filtered[i];
        proof {
            assert((#[trigger] filtered.deep_view()[i as int]).created_at.valid());
        }
        let row_period = Period::from_date(row.created_at);
        if str_eq(row.restaurant_id.as_str(), restaurant_id) && row.created_at.year == year
            && row_period.eq_period(period) {
            proof {
                assert(hist_key_of(filtered.deep_view()[i as int]) =~= k);
                assert((i as int) * 0xFFFF_FFFF + 0xFFFF_FFFF == (i as int + 1) * 0xFFFF_FFFF)
                    by (nonlinear_arith);
                assert((i as int + 1) * 0xFFFF_FFFF <= 0x4000_0000 * 0xFFFF_FFFFint)
                    by (nonlinear_arith)
                    requires
                        i as int + 1 <= 0x4000_0000,
                ;
            }
            sum = sum + (row.score as u64);
            cnt = cnt + 1;
        } else {
            proof {
                if hist_key_of(filtered.deep_view()[i as int]) == k {
                    assert(false);
                }
                assert((i as int) * 0xFFFF_FFFF <= (i as int + 1) * 0xFFFF_FFFF)
                    by (nonlinear_arith);
            }
        }
        i += 1;
    }
    proof {
        assert(filtered.deep_view().take(n as int) =~= filtered.deep_view());
    }
    (sum, cnt)
}

/// One aggregate entry per key that occurs, unordered.
fn collect_hist_entries(filtered: &Vec<DbRating>) -> (out: Vec<AverageRatingPerPeriod>)
    requires
        rows_dates_ok(filtered.deep_view()),
        filtered.len() < 0x4000_0000,
    ensures
        forall|a: int, b: int|
            0 <= a < b < out.deep_view().len() ==> entry_key(out.deep_view()[a]) != entry_key(
                out.deep_view()[b],
            ),
        hist_entries_ok(out.deep_view(), filtered.deep_view()),
        hist_entries_complete(out.deep_view(), filtered.deep_view()),
{
    let n = filtered.len();
    let mut out: Vec<AverageRatingPerPeriod> = Vec::new();
    let mut i: usize = 0;
    while i < n
        invariant
            i <= n,
            n == filtered.len(),
            n < 0x4000_0000,
            rows_dates_ok(filtered.deep_view()),
            forall|a: int, b: int|
                0 <= a < b < out.deep_view().len() ==> entry_key(out.deep_view()[a]) != entry_key(
                    out.deep_view()[b],
                ),
            hist_entries_ok(out.deep_view(), filtered.deep_view()),
            forall|ii: int|
                0 <= ii < i ==> hist_key_present(
                    out.deep_view(),
                    hist_key_of(#[trigger] filtered.deep_view()[ii]),
                ),
        decreases n - i,
    {
        let row = &filtered[i];
        proof {
            assert((#[trigger] filtered.deep_view()[i as int]).created_at.valid());
        }
        let row_period = Period::from_date(row.created_at);
        let ghost k = hist_key_of(filtered.deep_view()[i as int]);
        let m = out.len();
        let mut j: usize = 0;
        let mut found = false;
        while j < m
            invariant
                j <= m,
                m == out.len(),
                i < n,
                n == filtered.len(),
                k == hist_key_of(filtered.deep_view()[i as int]),
                row_period == k.period,
                row.deep_view() == filtered.deep_view()[i as int],
                !found ==> forall|jj: int|
                    0 <= jj < j ==> entry_key(#[trigger] out.deep_view()[jj]) != k,
                found ==> hist_key_present(out.deep_view(), k),
            ensures
                found ==> hist_key_present(out.deep_view(), k),
                !found ==> forall|jj: int|
                    0 <= jj < m ==> entry_key(#[trigger] out.deep_view()[jj]) != k,
                m == out.len(),
            decreases m - j,
        {
            if str_eq(out[j].restaurant_id.as_str(), row.restaurant_id.as_str()) && out[j].year
                == row.created_at.year && out[j].period.eq_period(&row_period) {
                proof {
                    assert(entry_key(#[trigger] out.deep_view()[j as int]) =~= k);
                    assert(hist_key_present(out.deep_view(), k));
                }
                found = true;
                break;
            }
            proof {
                assert(entry_key(#[trigger] out.deep_view()[j as int]) != k);
            }
            j += 1;
        }
        if !found {
            let (s, c) = hist_stats(
                filtered,
                row.restaurant_id.as_str(),
                row.created_at.year,
                &row_period,
            );
            proof {
                lemma_hist_count_pos(filtered.deep_view(), k, i as int);
            }
            let entry = AverageRatingPerPeriod {
                restaurant_id: row.restaurant_id.clone(),
                year: row.created_at.year,
                period: row_period,
                score_sum: s,
                rating_count: c,
            };
            let ghost ov = out.deep_view();
            let ghost ev = entry.deep_view();
            out.push(entry);
            proof {
                assert(out.deep_view() =~= ov.push(ev));
                assert(entry_key(ev) =~= k);
                assert forall|jx: int|
                    0 <= jx < out.deep_view().len() implies (#[trigger] out.deep_view()[jx]).score_sum
                    == hist_sum(filtered.deep_view(), entry_key(out.deep_view()[jx]))
                    && out.deep_view()[jx].rating_count == hist_count(
                    filtered.deep_view(),
                    entry_key(out.deep_view()[jx]),
                ) && out.deep_view()[jx].rating_count > 0 by {
                    if jx < ov.len() {
                        assert((#[trigger] ov[jx]).score_sum == hist_sum(
                            filtered.deep_view(),
                            entry_key(ov[jx]),
                        ));
                    } else {
                        assert(out.deep_view()[jx] == ev);
                    }
                }
                assert(hist_key_present(out.deep_view(), k)) by {
                    assert(entry_key(out.deep_view()[ov.len() as int]) == k);
                }
                assert forall|ii: int| 0 <= ii < i + 1 implies hist_key_present(
                    out.deep_view(),
                    hist_key_of(#[trigger] filtered.deep_view()[ii]),
                ) by {
                    if ii < i {
                        let w = choose|w: int|
                            0 <= w < ov.len() && entry_key(#[trigger] ov[w]) == hist_key_of(
                                filtered.deep_view()[ii],
                            );
                        assert(entry_key(out.deep_view()[w]) == hist_key_of(
                            filtered.deep_view()[ii],
                        ));
                    }
                }
            }
        }
        i += 1;
    }
    out
}

/// Selection sort under the key order.
fn sort_hist_entries(input: Vec<AverageRatingPerPeriod>) -> (out: Vec<AverageRatingPerPeriod>)
    ensures
        out.deep_view().to_multiset() == input.deep_view().to_multiset(),
        forall|i: int, j: int|
            0 <= i < j < out.deep_view().len() ==> hist_key_le(
                entry_key(out.deep_view()[i]),
                entry_key(out.deep_view()[j]),
            ),
{
    broadcast use group_to_multiset_ensures;

    let ghost input_ms = input.deep_view().to_multiset();
    let mut rest = input;
    let mut out: Vec<AverageRatingPerPeriod> = Vec::new();
    proof {
        assert(out.deep_view() =~= Seq::<AverageRatingPerPeriodV>::empty());
        assert(out.deep_view().to_multiset().add(rest.deep_view().to_multiset()) =~= input_ms);
    }
    while rest.len() > 0
        invariant
            out.deep_view().to_multiset().add(rest.deep_view().to_multiset()) == input_ms,
            forall|i: int, j: int|
                0 <= i < j < out.deep_view().len() ==> hist_key_le(
                    entry_key(out.deep_view()[i]),
                    entry_key(out.deep_view()[j]),
                ),
            forall|i: int, j: int|
                0 <= i < out.deep_view().len() && 0 <= j < rest.deep_view().len() ==> hist_key_le(
                    entry_key(#[trigger] out.deep_view()[i]),
                    entry_key(#[trigger] rest.deep_view()[j]),
                ),
        decreases rest.len(),
    {
        let n = rest.len();
        let mut m: usize = 0;
        let mut k: usize = 1;
        while k < n
            invariant
                m < k <= n,
                n == rest.len(),
                forall|j: int|
                    0 <= j < k ==> hist_key_le(
                        entry_key(rest.deep_view()[m as int]),
                        entry_key(#[trigger] rest.deep_view()[j]),
                    ),
            decreases n - k,
        {
            if !hist_le_exec(&rest[m], &rest[k]) {
                proof {
                    lemma_hist_le_connex(
                        entry_key(rest.deep_view()[m as int]),
                        entry_key(rest.deep_view()[k as int]),
                    );
                    assert forall|j: int| 0 <= j < k + 1 implies hist_key_le(
                        entry_key(rest.deep_view()[k as int]),
                        entry_key(#[trigger] rest.deep_view()[j]),
                    ) by {
                        if j < k {
                            lemma_hist_le_trans(
                                entry_key(rest.deep_view()[k as int]),
                                entry_key(rest.deep_view()[m as int]),
                                entry_key(rest.deep_view()[j]),
                            );
                        } else if j == k {
                            lemma_hist_le_connex(
                                entry_key(rest.deep_view()[k as int]),
                                entry_key(rest.deep_view()[k as int]),
                            );
                        }
                    }
                }
                m = k;
            } else {
                proof {
                    assert(hist_key_le(
                        entry_key(rest.deep_view()[m as int]),
                        entry_key(rest.deep_view()[k as int]),
                    ));
                }
            }
            k += 1;
        }
        let ghost old_rest_dv = rest.deep_view();
        let ghost old_out_dv = out.deep_view();
        let x = rest.remove(m);
        let ghost xv = x.deep_view();
        proof {
            assert(xv == old_rest_dv[m as int]);
            assert(rest.deep_view() =~= old_rest_dv.remove(m as int));
            assert(old_rest_dv.contains(xv)) by {
                assert(old_rest_dv[m as int] == xv);
            }
        }
        out.push(x);
        proof {
            old_rest_dv.to_multiset_ensures();
            old_out_dv.to_multiset_ensures();
            assert(out.deep_view() =~= old_out_dv.push(xv));
            assert(old_rest_dv.remove(m as int).to_multiset() =~= old_rest_dv.to_multiset().remove(
                xv,
            ));
            assert(old_out_dv.push(xv).to_multiset() =~= old_out_dv.to_multiset().insert(xv));
            assert(old_rest_dv.to_multiset().count(xv) > 0);
            assert(old_out_dv.to_multiset().insert(xv).add(old_rest_dv.to_multiset().remove(xv))
                =~= old_out_dv.to_multiset().add(old_rest_dv.to_multiset()));
            assert(out.deep_view().to_multiset().add(rest.deep_view().to_multiset()) =~= input_ms);
            assert forall|i: int, j: int| 0 <= i < j < out.deep_view().len() implies hist_key_le(
                entry_key(out.deep_view()[i]),
                entry_key(out.deep_view()[j]),
            ) by {
                if j == out.deep_view().len() - 1 {
                    assert(hist_key_le(entry_key(old_out_dv[i]), entry_key(old_rest_dv[m as int])));
                }
            }
            assert forall|i: int, j: int|
                0 <= i < out.deep_view().len() && 0 <= j
                    < rest.deep_view().len() implies hist_key_le(
                entry_key(#[trigger] out.deep_view()[i]),
                entry_key(#[trigger] rest.deep_view()[j]),
            ) by {
                let jj: int = if j < m { j } else { j + 1 };
                assert(rest.deep_view()[j] == old_rest_dv[jj]);
                if i < old_out_dv.len() {
                    assert(hist_key_le(entry_key(old_out_dv[i]), entry_key(old_rest_dv[jj])));
                } else {
                    assert(out.deep_view()[i] == xv);
                    assert(hist_key_le(
                        entry_key(old_rest_dv[m as int]),
                        entry_key(old_rest_dv[jj]),
                    ));
                }
            }
        }
    }
    out
}

/// The historical aggregation of a rating population: one entry per
/// occurring (restaurant, year, quarter) key, with exact sums, ordered by
/// year, quarter and restaurant id.
pub fn historical_aggregates(filtered: &Vec<DbRating>) -> (out: Vec<AverageRatingPerPeriod>)
    requires
        rows_dates_ok(filtered.deep_view()),
        filtered.len() < 0x4000_0000,
    ensures
        sorted_hist(out.deep_view()),
        hist_entries_ok(out.deep_view(), filtered.deep_view()),
        hist_entries_complete(out.deep_view(), filtered.deep_view()),
{
    broadcast use group_to_multiset_ensures;

    let unsorted = collect_hist_entries(filtered);
    let ghost uv = unsorted.deep_view();
    let sorted = sort_hist_entries(unsorted);
    let ghost sv = sorted.deep_view();
    proof {
        uv.to_multiset_ensures();
        sv.to_multiset_ensures();
        // Every sorted element is one of the collected entries.
        assert forall|j: int| 0 <= j < sv.len() implies uv.contains(#[trigger] sv[j]) by {
            assert(sv.to_multiset().count(sv[j]) > 0) by {
                assert(sv.contains(sv[j])) by {
                    assert(sv[j] == sv[j]);
                }
            }
            assert(uv.to_multiset().count(sv[j]) > 0);
        }
        // Entry correctness carries over value-wise.
        assert forall|j: int|
            0 <= j < sv.len() implies (#[trigger] sv[j]).score_sum == hist_sum(
            filtered.deep_view(),
            entry_key(sv[j]),
        ) && sv[j].rating_count == hist_count(filtered.deep_view(), entry_key(sv[j]))
            && sv[j].rating_count > 0 by {
            let w = choose|w: int| 0 <= w < uv.len() && uv[w] == sv[j];
            assert((#[trigger] uv[w]).score_sum == hist_sum(filtered.deep_view(), entry_key(uv[w])));
        }
        // Completeness carries over.
        assert forall|i: int| 0 <= i < filtered.deep_view().len() implies hist_key_present(
            sv,
            hist_key_of(#[trigger] filtered.deep_view()[i]),
        ) by {
            let w = choose|w: int|
                0 <= w < uv.len() && entry_key(#[trigger] uv[w]) == hist_key_of(
                    filtered.deep_view()[i],
                );
            assert(uv.to_multiset().count(uv[w]) > 0) by {
                assert(uv.contains(uv[w])) by {
                    assert(uv[w] == uv[w]);
                }
            }
            assert(sv.to_multiset().count(uv[w]) > 0);
            assert(sv.contains(uv[w]));
            let z = choose|z: int| 0 <= z < sv.len() && sv[z] == uv[w];
            assert(entry_key(sv[z]) == hist_key_of(filtered.deep_view()[i]));
        }
        // Distinct keys: collected entries are pairwise distinct values, so
        // each occurs once in the shared multiset, so the sorted entries are
        // pairwise distinct too; equal keys would force equal values.
        assert(uv.no_duplicates()) by {
            assert forall|a: int, b: int|
                0 <= a < uv.len() && 0 <= b < uv.len() && a != b implies uv[a] != uv[b] by {
                if a < b {
                    assert(entry_key(uv[a]) != entry_key(uv[b]));
                } else {
                    assert(entry_key(uv[b]) != entry_key(uv[a]));
                }
            }
        }
        uv.lemma_multiset_has_no_duplicates();
        sv.lemma_multiset_has_no_duplicates_conv();
        assert forall|i: int, j: int| 0 <= i < j < sv.len() implies entry_key(sv[i]) != entry_key(
            sv[j],
        ) by {
            if entry_key(sv[i]) == entry_key(sv[j]) {
                assert(sv[i].score_sum == hist_sum(filtered.deep_view(), entry_key(sv[i])));
                assert(sv[j].score_sum == hist_sum(filtered.deep_view(), entry_key(sv[j])));
                assert(sv[i] =~= sv[j]);
            }
        }
    }
    sorted
}

/// An exec comparison of quarters.
impl Period {
    pub fn eq_period(&self, other: &Period) -> (r: bool)
        ensures
            r == (*self == *other),
    {
        match (self, other) {
            (Period::Q1, Period::Q1) => true,
            (Period::Q2, Period::Q2) => true,
            (Period::Q3, Period::Q3) => true,
            (Period::Q4, Period::Q4) => true,
            _ => false,
        }
    }
}

/// The rating rows of one user, copied in table order.
pub fn filter_ratings_of_user(ratings: &Vec<DbRating>, user_id: &str) -> (out: Vec<DbRating>)
    requires
        rows_dates_ok(ratings.deep_view()),
    ensures
        out.deep_view() == ratings_of_user(ratings.deep_view(), user_id@),
        rows_dates_ok(out.deep_view()),
        out.len() <= ratings.len(),
{
    let n = ratings.len();
    let mut out: Vec<DbRating> = Vec::new();
    let mut i: usize = 0;
    proof {
        assert(ratings.deep_view().take(0) =~= Seq::<DbRatingV>::empty());
    }
    while i < n
        invariant
            i <= n,
            n == ratings.len(),
            out.len() <= i,
            rows_dates_ok(ratings.deep_view()),
            rows_dates_ok(out.deep_view()),
            out.deep_view() == ratings_of_user(ratings.deep_view().take(i as int), user_id@),
        decreases n - i,
    {
        proof {
            assert(ratings.deep_view().take(i + 1).drop_last() =~= ratings.deep_view().take(
                i as int,
            ));
            assert(ratings.deep_view().take(i + 1).last() == ratings.deep_view()[i as int]);
        }
        if str_eq(ratings[i].user_id.as_str(), user_id) {
            let ghost ov = out.deep_view();
            out.push(ratings[i].duplicate());
            proof {
                assert(out.deep_view() =~= ov.push(ratings.deep_view()[i as int]));
                assert((#[trigger] ratings.deep_view()[i as int]).created_at.valid());
            }
        }
        i += 1;
    }
    proof {
        assert(ratings.deep_view().take(n as int) =~= ratings.deep_view());
    }
    out
}

/// The rating rows of one user in one group, copied in table order.
pub fn filter_ratings_of_user_group(ratings: &Vec<DbRating>, user_id: &str, group_id: &str) -> (out:
    Vec<DbRating>)
    requires
        rows_dates_ok(ratings.deep_view()),
    ensures
        out.deep_view() == ratings_of_user_group(ratings.deep_view(), user_id@, group_id@),
        rows_dates_ok(out.deep_view()),
        out.len() <= ratings.len(),
{
    let n = ratings.len();
    let mut out: Vec<DbRating> = Vec::new();
    let mut i: usize = 0;
    proof {
        assert(ratings.deep_view().take(0) =~= Seq::<DbRatingV>::empty());
    }
    while i < n
        invariant
            i <= n,
            n == ratings.len(),
            out.len() <= i,
            rows_dates_ok(ratings.deep_view()),
            rows_dates_ok(out.deep_view()),
            out.deep_view() == ratings_of_user_group(
                ratings.deep_view().take(i as int),
                user_id@,
                group_id@,
            ),
        decreases n - i,
    {
        proof {
            assert(ratings.deep_view().take(i + 1).drop_last() =~= ratings.deep_view().take(
                i as int,
            ));
            assert(ratings.deep_view().take(i + 1).last() == ratings.deep_view()[i as int]);
        }
        if str_eq(ratings[i].user_id.as_str(), user_id) && str_eq(
            ratings[i].group_id.as_str(),
            group_id,
        ) {
            let ghost ov = out.deep_view();
            out.push(ratings[i].duplicate());
            proof {
                assert(out.deep_view() =~= ov.push(ratings.deep_view()[i as int]));
                assert((#[trigger] ratings.deep_view()[i as int]).created_at.valid());
            }
        }
        i += 1;
    }
    proof {
        assert(ratings.deep_view().take(n as int) =~= ratings.deep_view());
    }
    out
}

/// The rating rows of one restaurant in one group, copied in table order.
pub fn filter_ratings_of_group_restaurant(
    ratings: &Vec<DbRating>,
    group_id: &str,
    restaurant_id: &str,
) -> (out: Vec<DbRating>)
    requires
        rows_dates_ok(ratings.deep_view()),
    ensures
        out.deep_view() == ratings_of_group_restaurant(
            ratings.deep_view(),
            group_id@,
            restaurant_id@,
        ),
        rows_dates_ok(out.deep_view()),
        out.len() <= ratings.len(),
{
    let n = ratings.len();
    let mut out: Vec<DbRating> = Vec::new();
    let mut i: usize = 0;
    proof {
        assert(ratings.deep_view().take(0) =~= Seq::<DbRatingV>::empty());
    }
    while i < n
        invariant
            i <= n,
            n == ratings.len(),
            out.len() <= i,
            rows_dates_ok(ratings.deep_view()),
            rows_dates_ok(out.deep_view()),
            out.deep_view() == ratings_of_group_restaurant(
                ratings.deep_view().take(i as int),
                group_id@,
                restaurant_id@,
            ),
        decreases n - i,
    {
        proof {
            assert(ratings.deep_view().take(i + 1).drop_last() =~= ratings.deep_view().take(
                i as int,
            ));
            assert(ratings.deep_view().take(i + 1).last() == ratings.deep_view()[i as int]);
        }
        if str_eq(ratings[i].group_id.as_str(), group_id) && str_eq(
            ratings[i].restaurant_id.as_str(),
            restaurant_id,
        ) {
            let ghost ov = out.deep_view();
            out.push(ratings[i].duplicate());
            proof {
                assert(out.deep_view() =~= ov.push(ratings.deep_view()[i as int]));
                assert((#[trigger] ratings.deep_view()[i as int]).created_at.valid());
            }
        }
        i += 1;
    }
    proof {
        assert(ratings.deep_view().take(n as int) =~= ratings.deep_view());
    }
    out
}

} // verus!
