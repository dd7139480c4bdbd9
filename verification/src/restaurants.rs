//! Restaurant and menu-item operations.

use vstd::prelude::*;

use crate::errors::CoreError;
use crate::models::{
    spec_menu_item_api, DbMenuItem, DbMenuItemV, DbRestaurant, DbRestaurantV, MenuItem, MenuItemV,
    Restaurant, RestaurantV,
};
use crate::store::{
    lemma_restaurant_index_unique, restaurant_id_taken, restaurant_row, unique_restaurants, Store,
};
use crate::text::str_eq;

verus! {

/// The menu of a restaurant: its menu-item rows in table order, as API
/// items.
pub open spec fn menu_items_for(ms: Seq<DbMenuItemV>, restaurant_id: Seq<char>) -> Seq<MenuItemV>
    decreases ms.len(),
{
    if ms.len() == 0 {
        Seq::empty()
    } else {
        let rest = menu_items_for(ms.drop_last(), restaurant_id);
        if ms.last().restaurant_id == restaurant_id {
            rest.push(spec_menu_item_api(ms.last()))
        } else {
            rest
        }
    }
}

/// The API view of a restaurant row with its menu.
pub open spec fn spec_restaurant_api(r: DbRestaurantV, menu: Seq<MenuItemV>) -> RestaurantV {
    RestaurantV { id: r.id, cuisine: r.cuisine, menu }
}

/// The restaurants table with every row of the given id removed.
pub open spec fn restaurants_without(rs: Seq<DbRestaurantV>, id: Seq<char>) -> Seq<DbRestaurantV>
    decreases rs.len(),
{
    if rs.len() == 0 {
        Seq::empty()
    } else {
        let rest = restaurants_without(rs.drop_last(), id);
        if rs.last().id == id {
            rest
        } else {
            rest.push(rs.last())
        }
    }
}

/// The restaurants table with the row named by `restaurant_id` rewritten to
/// the given id and cuisine.
pub open spec fn restaurants_updated(
    rs: Seq<DbRestaurantV>,
    restaurant_id: Seq<char>,
    new_id: Seq<char>,
    new_cuisine: Seq<char>,
) -> Seq<DbRestaurantV> {
    Seq::new(
        rs.len(),
        |i: int|
            if rs[i].id == restaurant_id {
                DbRestaurantV { id: new_id, cuisine: new_cuisine }
            } else {
                rs[i]
            },
    )
}

/// The menu-items table with every row of the given id removed.
pub open spec fn menu_items_without(ms: Seq<DbMenuItemV>, id: int) -> Seq<DbMenuItemV>
    decreases ms.len(),
{
    if ms.len() == 0 {
        Seq::empty()
    } else {
        let rest = menu_items_without(ms.drop_last(), id);
        if ms.last().id == id {
            rest
        } else {
            rest.push(ms.last())
        }
    }
}

pub proof fn lemma_restaurants_without_props(rs: Seq<DbRestaurantV>, id: Seq<char>)
    ensures
        restaurants_without(rs, id).len() <= rs.len(),
        forall|k: int|
            0 <= k < restaurants_without(rs, id).len() ==> rs.contains(
                #[trigger] restaurants_without(rs, id)[k],
            ),
        unique_restaurants(rs) ==> unique_restaurants(restaurants_without(rs, id)),
    decreases rs.len(),
{
    if rs.len() > 0 {
        let dl = rs.drop_last();
        lemma_restaurants_without_props(dl, id);
        let f = restaurants_without(rs, id);
        let fd = restaurants_without(dl, id);
        assert forall|k: int| 0 <= k < fd.len() implies rs.contains(fd[k]) by {
            assert(dl.contains(fd[k]));
            let m = choose|m: int| 0 <= m < dl.len() && dl[m] == fd[k];
            assert(rs[m] == fd[k]);
        }
        if rs.last().id == id {
            assert(f == fd);
        } else {
            assert(f == fd.push(rs.last()));
            assert(rs.contains(rs.last())) by {
                assert(rs[rs.len() - 1] == rs.last());
            }
            if unique_restaurants(rs) {
                assert(unique_restaurants(dl));
                assert forall|i: int, j: int| 0 <= i < j < f.len() implies f[i].id != f[j].id by {
                    if j < fd.len() {
                        assert(fd[i].id != fd[j].id);
                    } else {
                        assert(f[j] == rs.last());
                        assert(dl.contains(fd[i]));
                        let m = choose|m: int| 0 <= m < dl.len() && dl[m] == fd[i];
                        assert(rs[m].id != rs[rs.len() - 1].id);
                    }
                }
            }
        }
    }
}

pub proof fn lemma_menu_items_without_props(ms: Seq<DbMenuItemV>, id: int, bound: int)
    requires
        crate::store::menu_items_ids_ok(ms, bound),
    ensures
        menu_items_without(ms, id).len() <= ms.len(),
        crate::store::menu_items_ids_ok(menu_items_without(ms, id), bound),
    decreases ms.len(),
{
    if ms.len() > 0 {
        let dl = ms.drop_last();
        assert(crate::store::menu_items_ids_ok(dl, bound));
        lemma_menu_items_without_props(dl, id, bound);
        let f = menu_items_without(ms, id);
        let fd = menu_items_without(dl, id);
        if ms.last().id == id {
            assert(f == fd);
        } else {
            assert(f == fd.push(ms.last()));
            assert forall|k: int| 0 <= k < f.len() implies 0 < (#[trigger] f[k]).id < bound by {
                if k < fd.len() {
                    assert(0 < fd[k].id < bound);
                } else {
                    assert(f[k] == ms.last());
                    assert(0 < ms[ms.len() - 1].id < bound);
                }
            }
        }
    }
}

/// The restaurants vector with every row of the given id removed.
fn filter_restaurants(restaurants: &Vec<DbRestaurant>, id: &str) -> (kept: Vec<DbRestaurant>)
    ensures
        kept.deep_view() == restaurants_without(restaurants.deep_view(), id@),
        kept.len() <= restaurants.len(),
{
    let n = restaurants.len();
    let mut kept: Vec<DbRestaurant> = Vec::new();
    let mut i: usize = 0;
    proof {
        assert(restaurants.deep_view().take(0) =~= Seq::<DbRestaurantV>::empty());
    }
    while i < n
        invariant
            i <= n,
            n == restaurants.len(),
            kept.len() <= i,
            kept.deep_view() == restaurants_without(restaurants.deep_view().take(i as int), id@),
        decreases n - i,
    {
        proof {
            assert(restaurants.deep_view().take(i + 1).drop_last() =~= restaurants.deep_view().take(
                i as int,
            ));
            assert(restaurants.deep_view().take(i + 1).last() == restaurants.deep_view()[i as int]);
        }
        if !str_eq(restaurants[i].id.as_str(), id) {
            let ghost kv = kept.deep_view();
            kept.push(restaurants[i].duplicate());
            proof {
                assert(kept.deep_view() =~= kv.push(restaurants.deep_view()[i as int]));
            }
        }
        i += 1;
    }
    proof {
        assert(restaurants.deep_view().take(n as int) =~= restaurants.deep_view());
    }
    kept
}

/// The menu-items vector with every row of the given id removed.
fn filter_menu_items(menu_items: &Vec<DbMenuItem>, id: i32) -> (kept: Vec<DbMenuItem>)
    ensures
        kept.deep_view() == menu_items_without(menu_items.deep_view(), id as int),
        kept.len() <= menu_items.len(),
{
    let n = menu_items.len();
    let mut kept: Vec<DbMenuItem> = Vec::new();
    let mut i: usize = 0;
    proof {
        assert(menu_items.deep_view().take(0) =~= Seq::<DbMenuItemV>::empty());
    }
    while i < n
        invariant
            i <= n,
            n == menu_items.len(),
            kept.len() <= i,
            kept.deep_view() == menu_items_without(menu_items.deep_view().take(i as int), id as int),
        decreases n - i,
    {
        proof {
            assert(menu_items.deep_view().take(i + 1).drop_last() =~= menu_items.deep_view().take(
                i as int,
            ));
            assert(menu_items.deep_view().take(i + 1).last() == menu_items.deep_view()[i as int]);
        }
        if menu_items[i].id != id {
            let ghost kv = kept.deep_view();
            kept.push(menu_items[i].duplicate());
            proof {
                assert(kept.deep_view() =~= kv.push(menu_items.deep_view()[i as int]));
            }
        }
        i += 1;
    }
    proof {
        assert(menu_items.deep_view().take(n as int) =~= menu_items.deep_view());
    }
    kept
}

/// The restaurants vector after the scoped rewrite.
fn apply_restaurant_update(
    restaurants: &Vec<DbRestaurant>,
    restaurant_id: &str,
    new_id: &String,
    new_cuisine: &String,
) -> (out: Vec<DbRestaurant>)
    ensures
        out.deep_view() == restaurants_updated(
            restaurants.deep_view(),
            restaurant_id@,
            new_id@,
            new_cuisine@,
        ),
{
    let n = restaurants.len();
    let mut out: Vec<DbRestaurant> = Vec::new();
    let mut i: usize = 0;
    while i < n
        invariant
            i <= n,
            n == restaurants.len(),
            out.len() == i,
            forall|j: int|
                0 <= j < i ==> out.deep_view()[j] == restaurants_updated(
                    restaurants.deep_view(),
                    restaurant_id@,
                    new_id@,
                    new_cuisine@,
                )[j],
        decreases n - i,
    {
        let row = &restaurants[i];
        let new_row = if str_eq(row.id.as_str(), restaurant_id) {
            DbRestaurant { id: new_id.clone(), cuisine: new_cuisine.clone() }
        } else {
            row.duplicate()
        };
        let ghost ov = out.deep_view();
        let ghost nv = new_row.deep_view();
        out.push(new_row);
        proof {
            assert(out.deep_view() =~= ov.push(nv));
            assert(nv == restaurants_updated(
                restaurants.deep_view(),
                restaurant_id@,
                new_id@,
                new_cuisine@,
            )[i as int]);
        }
        i += 1;
    }
    proof {
        assert(out.deep_view() =~= restaurants_updated(
            restaurants.deep_view(),
            restaurant_id@,
            new_id@,
            new_cuisine@,
        ));
    }
    out
}

impl Store {
    /// The menu of a restaurant, in table order.
    pub fn get_menu_items(&self, restaurant_id: &str) -> (r: Vec<MenuItem>)
        ensures
            r.deep_view() == menu_items_for(self.menu_items_v(), restaurant_id@),
    {
        let n = self.menu_items.len();
        let mut out: Vec<MenuItem> = Vec::new();
        let mut i: usize = 0;
        proof {
            assert(self.menu_items_v().take(0) =~= Seq::<DbMenuItemV>::empty());
        }
        while i < n
            invariant
                i <= n,
                n == self.menu_items.len(),
                out.deep_view() == menu_items_for(self.menu_items_v().take(i as int), restaurant_id@),
            decreases n - i,
        {
            proof {
                assert(self.menu_items_v().take(i + 1).drop_last() =~= self.menu_items_v().take(
                    i as int,
                ));
                assert(self.menu_items_v().take(i + 1).last() == self.menu_items_v()[i as int]);
            }
            if str_eq(self.menu_items[i].restaurant_id.as_str(), restaurant_id) {
                let ghost ov = out.deep_view();
                out.push(self.menu_items[i].to_api());
                proof {
                    assert(out.deep_view() =~= ov.push(
                        spec_menu_item_api(self.menu_items_v()[i as int]),
                    ));
                }
            }
            i += 1;
        }
        proof {
            assert(self.menu_items_v().take(n as int) =~= self.menu_items_v());
        }
        out
    }

    /// Inserts a restaurant; its menu is created separately, item by item.
    pub fn create_restaurant(&mut self, restaurant: &Restaurant) -> (r: Result<
        Restaurant,
        CoreError,
    >)
        requires
            old(self).wf(),
        ensures
            final(self).wf(),
            match r {
                Ok(rest) => ({
                    let row = (DbRestaurantV { id: restaurant.id@, cuisine: restaurant.cuisine@ });
                    &&& !restaurant_id_taken(old(self).restaurants_v(), restaurant.id@)
                    &&& final(self).restaurants_v() == old(self).restaurants_v().push(row)
                    &&& final(self).same_except_restaurants(*old(self))
                    &&& rest.deep_view() == spec_restaurant_api(
                        row,
                        menu_items_for(old(self).menu_items_v(), restaurant.id@),
                    )
                }),
                Err(CoreError::StoreError) => restaurant_id_taken(
                    old(self).restaurants_v(),
                    restaurant.id@,
                ) && *final(self) == *old(self),
                Err(_) => false,
            },
    {
        match self.find_restaurant(restaurant.id.as_str()) {
            Some(_) => {
                return Err(CoreError::StoreError);
            },
            None => {},
        }
        let row = DbRestaurant { id: restaurant.id.clone(), cuisine: restaurant.cuisine.clone() };
        let menu = self.get_menu_items(restaurant.id.as_str());
        let out = Restaurant { id: row.id.clone(), cuisine: row.cuisine.clone(), menu };
        let ghost old_rs = self.restaurants.deep_view();
        let ghost row_v = row.deep_view();
        self.restaurants.push(row);
        proof {
            assert(self.restaurants.deep_view() =~= old_rs.push(row_v));
        }
        Ok(out)
    }

    /// All restaurants in table order; the listing carries no menus.
    pub fn get_restaurants(&self) -> (r: Vec<Restaurant>)
        ensures
            r.deep_view().len() == self.restaurants_v().len(),
            forall|i: int|
                0 <= i < r.deep_view().len() ==> r.deep_view()[i] == spec_restaurant_api(
                    self.restaurants_v()[i],
                    Seq::empty(),
                ),
    {
        let n = self.restaurants.len();
        let mut out: Vec<Restaurant> = Vec::new();
        let mut i: usize = 0;
        while i < n
            invariant
                i <= n,
                n == self.restaurants.len(),
                out.len() == i,
                forall|j: int|
                    0 <= j < i ==> out.deep_view()[j] == spec_restaurant_api(
                        self.restaurants_v()[j],
                        Seq::empty(),
                    ),
            decreases n - i,
        {
            let row = &self.restaurants[i];
            let rest = Restaurant { id: row.id.clone(), cuisine: row.cuisine.clone(), menu: Vec::new() };
            let ghost ov = out.deep_view();
            let ghost nv = rest.deep_view();
            out.push(rest);
            proof {
                assert(out.deep_view() =~= ov.push(nv));
            }
            i += 1;
        }
        out
    }

    /// Looks a restaurant up by id, with its menu assembled.
    pub fn get_restaurant(&self, restaurant_id: &str) -> (r: Result<Restaurant, CoreError>)
        requires
            self.wf(),
        ensures
            match r {
                Ok(rest) => restaurant_id_taken(self.restaurants_v(), restaurant_id@)
                    && rest.deep_view() == spec_restaurant_api(
                    restaurant_row(self.restaurants_v(), restaurant_id@),
                    menu_items_for(self.menu_items_v(), restaurant_id@),
                ),
                Err(CoreError::NotFound) => !restaurant_id_taken(
                    self.restaurants_v(),
                    restaurant_id@,
                ),
                Err(_) => false,
            },
    {
        let i = match self.find_restaurant(restaurant_id) {
            Some(i) => i,
            None => {
                return Err(CoreError::NotFound);
            },
        };
        proof {
            lemma_restaurant_index_unique(self.restaurants_v(), restaurant_id@, i as int);
        }
        let menu = self.get_menu_items(restaurant_id);
        Ok(Restaurant {
            id: self.restaurants[i].id.clone(),
            cuisine: self.restaurants[i].cuisine.clone(),
            menu,
        })
    }

    /// Rewrites the row named by `restaurant_id` to the given id and
    /// cuisine.  Returns the number of rows affected; renaming onto an id
    /// that another row already holds fails as a duplicate key would.
    pub fn update_restaurant(&mut self, restaurant_id: &str, restaurant: &Restaurant) -> (r: Result<
        u64,
        CoreError,
    >)
        requires
            old(self).wf(),
        ensures
            final(self).wf(),
            match r {
                Ok(n) => ({
                    &&& (restaurant_id_taken(old(self).restaurants_v(), restaurant_id@) ==> n == 1
                        && final(self).restaurants_v() == restaurants_updated(
                        old(self).restaurants_v(),
                        restaurant_id@,
                        restaurant.id@,
                        restaurant.cuisine@,
                    ))
                    &&& (!restaurant_id_taken(old(self).restaurants_v(), restaurant_id@) ==> n == 0
                        && *final(self) == *old(self))
                    &&& final(self).same_except_restaurants(*old(self))
                }),
                Err(CoreError::StoreError) => restaurant_id_taken(
                    old(self).restaurants_v(),
                    restaurant_id@,
                ) && restaurant.id@ != restaurant_id@ && restaurant_id_taken(
                    old(self).restaurants_v(),
                    restaurant.id@,
                ) && *final(self) == *old(self),
                Err(_) => false,
            },
    {
        let i = match self.find_restaurant(restaurant_id) {
            Some(i) => i,
            None => {
                return Ok(0);
            },
        };
        if !str_eq(restaurant.id.as_str(), restaurant_id) {
            match self.find_restaurant(restaurant.id.as_str()) {
                Some(_) => {
                    return Err(CoreError::StoreError);
                },
                None => {},
            }
        }
        let updated = apply_restaurant_update(
            &self.restaurants,
            restaurant_id,
            &restaurant.id,
            &restaurant.cuisine,
        );
        self.restaurants = updated;
        proof {
            let old_rs = old(self).restaurants_v();
            let new_rs = self.restaurants_v();
            assert forall|a: int, b: int| 0 <= a < b < new_rs.len() implies (
            #[trigger] new_rs[a]).id != (#[trigger] new_rs[b]).id by {
                assert(old_rs[a].id != old_rs[b].id);
                if old_rs[a].id == restaurant_id@ {
                    assert(old_rs[b].id != restaurant.id@);
                } else if old_rs[b].id == restaurant_id@ {
                    assert(old_rs[a].id != restaurant.id@);
                }
            }
        }
        Ok(1)
    }

    /// Removes the restaurant row with the given id.  Returns the number of
    /// rows removed.
    pub fn delete_restaurant(&mut self, restaurant_id: &str) -> (r: u64)
        requires
            old(self).wf(),
        ensures
            final(self).wf(),
            final(self).restaurants_v() == restaurants_without(
                old(self).restaurants_v(),
                restaurant_id@,
            ),
            r as int == old(self).restaurants_v().len() - final(self).restaurants_v().len(),
            final(self).same_except_restaurants(*old(self)),
    {
        let kept = filter_restaurants(&self.restaurants, restaurant_id);
        let removed = self.restaurants.len() - kept.len();
        self.restaurants = kept;
        proof {
            lemma_restaurants_without_props(old(self).restaurants_v(), restaurant_id@);
        }
        removed as u64
    }

    /// Inserts a menu item for a restaurant; the join to its restaurant is
    /// the stored restaurant id.
    pub fn create_menu_item(&mut self, menu_item: &MenuItem) -> (r: Result<MenuItem, CoreError>)
        requires
            old(self).wf(),
        ensures
            final(self).wf(),
            match r {
                Ok(item) => ({
                    let row = (DbMenuItemV {
                        id: old(self).next_menu_item_id as int,
                        restaurant_id: menu_item.restaurant_id@,
                        name: menu_item.name@,
                        price_cents: menu_item.price_cents as int,
                    });
                    &&& old(self).next_menu_item_id < i32::MAX
                    &&& final(self).menu_items_v() == old(self).menu_items_v().push(row)
                    &&& final(self).next_menu_item_id == old(self).next_menu_item_id + 1
                    &&& final(self).same_except_menu_items(*old(self))
                    &&& item.deep_view() == spec_menu_item_api(row)
                }),
                Err(CoreError::StoreError) => old(self).next_menu_item_id == i32::MAX
                    && *final(self) == *old(self),
                Err(_) => false,
            },
    {
        if self.next_menu_item_id == i32::MAX {
            return Err(CoreError::StoreError);
        }
        let id = self.next_menu_item_id;
        let row = DbMenuItem {
            id,
            restaurant_id: menu_item.restaurant_id.clone(),
            name: menu_item.name.clone(),
            price_cents: menu_item.price_cents,
        };
        let out = row.to_api();
        let ghost old_ms = self.menu_items.deep_view();
        let ghost row_v = row.deep_view();
        self.menu_items.push(row);
        self.next_menu_item_id = id + 1;
        proof {
            assert(self.menu_items.deep_view() =~= old_ms.push(row_v));
        }
        Ok(out)
    }

    /// Removes the menu-item row with the given id.  Returns the number of
    /// rows removed.
    pub fn delete_menu_item(&mut self, menu_item_id: i32) -> (r: u64)
        requires
            old(self).wf(),
        ensures
            final(self).wf(),
            final(self).menu_items_v() == menu_items_without(
                old(self).menu_items_v(),
                menu_item_id as int,
            ),
            r as int == old(self).menu_items_v().len() - final(self).menu_items_v().len(),
            final(self).same_except_menu_items(*old(self)),
            final(self).next_menu_item_id == old(self).next_menu_item_id,
    {
        let kept = filter_menu_items(&self.menu_items, menu_item_id);
        let removed = self.menu_items.len() - kept.len();
        self.menu_items = kept;
        proof {
            lemma_menu_items_without_props(
                old(self).menu_items_v(),
                menu_item_id as int,
                old(self).next_menu_item_id as int,
            );
        }
        removed as u64
    }
}

} // verus!
