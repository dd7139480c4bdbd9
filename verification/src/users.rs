//! User operations: creation behind the duplicate-username check, lookup
//! and listing with ratings and memberships assembled, update and delete.

use vstd::prelude::*;

use crate::errors::CoreError;
use crate::groups::{user_memberships_assembled, user_memberships_groups_ok};
use crate::models::{DbUser, DbUserV, NewUser, User, UserV};
use crate::period::{period_of_month, Date, Period};
use crate::queries::user_ratings_assembled;
use crate::store::{
    lemma_user_by_id_unique, lemma_user_by_name_unique, unique_users, user_id_taken,
    user_row_by_id, user_row_by_name, username_taken, Store,
};
use crate::text::str_eq;

verus! {

/// A user as the API assembles it: the stored row, an empty token, the
/// current-period ratings and the memberships with groups embedded.
pub open spec fn spec_user_assembled(
    u: DbUserV,
    rs: Seq<crate::models::DbRatingV>,
    us: Seq<DbUserV>,
    ms: Seq<crate::models::DbGroupMembershipV>,
    gs: Seq<crate::models::DbGroupV>,
    range: (Date, Date),
) -> UserV {
    UserV {
        id: u.id,
        token: Seq::empty(),
        username: u.username,
        password: u.password,
        color: u.color,
        ratings: user_ratings_assembled(rs, us, u.id, range),
        group_memberships: user_memberships_assembled(ms, gs, u.id),
    }
}

/// The users table with every row of the given id removed.
pub open spec fn users_without(us: Seq<DbUserV>, id: Seq<char>) -> Seq<DbUserV>
    decreases us.len(),
{
    if us.len() == 0 {
        Seq::empty()
    } else {
        let rest = users_without(us.drop_last(), id);
        if us.last().id == id {
            rest
        } else {
            rest.push(us.last())
        }
    }
}

/// The users table with the row of the given id rewritten to the new
/// username and color.
pub open spec fn users_updated(
    us: Seq<DbUserV>,
    id: Seq<char>,
    username: Seq<char>,
    color: Seq<char>,
) -> Seq<DbUserV> {
    Seq::new(
        us.len(),
        |i: int|
            if us[i].id == id {
                DbUserV { id: us[i].id, username, password: us[i].password, color }
            } else {
                us[i]
            },
    )
}

pub proof fn lemma_users_without_props(us: Seq<DbUserV>, id: Seq<char>)
    ensures
        users_without(us, id).len() <= us.len(),
        forall|k: int|
            0 <= k < users_without(us, id).len() ==> us.contains(#[trigger] users_without(us, id)[k]),
        unique_users(us) ==> unique_users(users_without(us, id)),
    decreases us.len(),
{
    if us.len() > 0 {
        let dl = us.drop_last();
        lemma_users_without_props(dl, id);
        let f = users_without(us, id);
        let fd = users_without(dl, id);
        assert forall|k: int| 0 <= k < fd.len() implies us.contains(fd[k]) by {
            assert(dl.contains(fd[k]));
            let m = choose|m: int| 0 <= m < dl.len() && dl[m] == fd[k];
            assert(us[m] == fd[k]);
        }
        if us.last().id == id {
            assert(f == fd);
        } else {
            assert(f == fd.push(us.last()));
            assert(us.contains(us.last())) by {
                assert(us[us.len() - 1] == us.last());
            }
            if unique_users(us) {
                assert(unique_users(dl));
                assert forall|i: int, j: int| 0 <= i < j < f.len() implies f[i].id != f[j].id
                    && f[i].username != f[j].username by {
                    if j < fd.len() {
                        assert(fd[i].id != fd[j].id && fd[i].username != fd[j].username);
                    } else {
                        assert(f[j] == us.last());
                        assert(dl.contains(fd[i]));
                        let m = choose|m: int| 0 <= m < dl.len() && dl[m] == fd[i];
                        assert(us[m].id != us[us.len() - 1].id && us[m].username != us[us.len()
                            - 1].username);
                    }
                }
            }
        }
    }
}

/// The users vector with every row of the given id removed.
fn filter_users(users: &Vec<DbUser>, id: &str) -> (kept: Vec<DbUser>)
    ensures
        kept.deep_view() == users_without(users.deep_view(), id@),
        kept.len() <= users.len(),
{
    let n = users.len();
    let mut kept: Vec<DbUser> = Vec::new();
    let mut i: usize = 0;
    proof {
        assert(users.deep_view().take(0) =~= Seq::<DbUserV>::empty());
    }
    while i < n
        invariant
            i <= n,
            n == users.len(),
            kept.len() <= i,
            kept.deep_view() == users_without(users.deep_view().take(i as int), id@),
        decreases n - i,
    {
        proof {
            assert(users.deep_view().take(i + 1).drop_last() =~= users.deep_view().take(i as int));
            assert(users.deep_view().take(i + 1).last() == users.deep_view()[i as int]);
        }
        if !str_eq(users[i].id.as_str(), id) {
            let ghost kv = kept.deep_view();
            kept.push(users[i].duplicate());
            proof {
                assert(kept.deep_view() =~= kv.push(users.deep_view()[i as int]));
            }
        }
        i += 1;
    }
    proof {
        assert(users.deep_view().take(n as int) =~= users.deep_view());
    }
    kept
}

/// The users vector after the scoped rewrite of username and color.
fn apply_user_update(users: &Vec<DbUser>, id: &str, username: &String, color: &String) -> (out: Vec<
    DbUser,
>)
    ensures
        out.deep_view() == users_updated(users.deep_view(), id@, username@, color@),
{
    let n = users.len();
    let mut out: Vec<DbUser> = Vec::new();
    let mut i: usize = 0;
    while i < n
        invariant
            i <= n,
            n == users.len(),
            out.len() == i,
            forall|j: int|
                0 <= j < i ==> out.deep_view()[j] == users_updated(
                    users.deep_view(),
                    id@,
                    username@,
                    color@,
                )[j],
        decreases n - i,
    {
        let row = &users[i];
        let new_row = if str_eq(row.id.as_str(), id) {
            DbUser {
                id: row.id.clone(),
                username: username.clone(),
                password: row.password.clone(),
                color: color.clone(),
            }
        } else {
            row.duplicate()
        };
        let ghost ov = out.deep_view();
        let ghost nv = new_row.deep_view();
        out.push(new_row);
        proof {
            assert(out.deep_view() =~= ov.push(nv));
            assert(nv == users_updated(users.deep_view(), id@, username@, color@)[i as int]);
        }
        i += 1;
    }
    proof {
        assert(out.deep_view() =~= users_updated(users.deep_view(), id@, username@, color@));
    }
    out
}

impl Store {
    /// Assembles the API user from the row at a table index.
    fn assemble_user(&self, i: usize, range: (Date, Date)) -> (r: Result<User, CoreError>)
        requires
            self.wf(),
            i < self.users.len(),
        ensures
            match r {
                Ok(u) => user_memberships_groups_ok(
                    self.memberships_v(),
                    self.groups_v(),
                    self.users_v()[i as int].id,
                ) && u.deep_view() == spec_user_assembled(
                    self.users_v()[i as int],
                    self.ratings_v(),
                    self.users_v(),
                    self.memberships_v(),
                    self.groups_v(),
                    range,
                ),
                Err(CoreError::NotFound) => !user_memberships_groups_ok(
                    self.memberships_v(),
                    self.groups_v(),
                    self.users_v()[i as int].id,
                ),
                Err(_) => false,
            },
    {
        let group_memberships = match self.get_group_memberships_by_user(
            self.users[i].id.as_str(),
        ) {
            Ok(v) => v,
            Err(_) => {
                return Err(CoreError::NotFound);
            },
        };
        let ratings = self.collect_user_ratings(self.users[i].id.as_str(), range);
        Ok(User {
            id: self.users[i].id.clone(),
            token: String::new(),
            username: self.users[i].username.clone(),
            password: self.users[i].password.clone(),
            color: self.users[i].color.clone(),
            ratings,
            group_memberships,
        })
    }

    /// Inserts a user, enforcing unique usernames; a colliding caller-chosen
    /// id fails as a duplicate key would.
    pub fn create_user(&mut self, new_user: &NewUser) -> (r: Result<User, CoreError>)
        requires
            old(self).wf(),
        ensures
            final(self).wf(),
            match r {
                Ok(u) => ({
                    let row = (DbUserV {
                        id: new_user.id@,
                        username: new_user.username@,
                        password: new_user.password@,
                        color: new_user.color@,
                    });
                    &&& !username_taken(old(self).users_v(), new_user.username@)
                    &&& !user_id_taken(old(self).users_v(), new_user.id@)
                    &&& final(self).users_v() == old(self).users_v().push(row)
                    &&& final(self).same_except_users(*old(self))
                    &&& u.deep_view().id == new_user.id@
                    &&& u.deep_view().username == new_user.username@
                    &&& u.deep_view().password == new_user.password@
                    &&& u.deep_view().color == new_user.color@
                    &&& u.deep_view().token == Seq::<char>::empty()
                    &&& u.deep_view().ratings == Seq::<crate::models::RatingV>::empty()
                    &&& u.deep_view().group_memberships == Seq::<
                        crate::models::GroupMembershipV,
                    >::empty()
                }),
                Err(CoreError::AlreadyExists) => username_taken(
                    old(self).users_v(),
                    new_user.username@,
                ) && *final(self) == *old(self),
                Err(CoreError::StoreError) => !username_taken(old(self).users_v(), new_user.username@)
                    && user_id_taken(old(self).users_v(), new_user.id@) && *final(self) == *old(self),
                Err(_) => false,
            },
    {
        match self.find_user_by_name(new_user.username.as_str()) {
            Some(_) => {
                return Err(CoreError::AlreadyExists);
            },
            None => {},
        }
        match self.find_user_by_id(new_user.id.as_str()) {
            Some(_) => {
                return Err(CoreError::StoreError);
            },
            None => {},
        }
        let row = DbUser {
            id: new_user.id.clone(),
            username: new_user.username.clone(),
            password: new_user.password.clone(),
            color: new_user.color.clone(),
        };
        let out = User {
            id: new_user.id.clone(),
            token: String::new(),
            username: new_user.username.clone(),
            password: new_user.password.clone(),
            color: new_user.color.clone(),
            ratings: Vec::new(),
            group_memberships: Vec::new(),
        };
        let ghost old_us = self.users.deep_view();
        let ghost row_v = row.deep_view();
        self.users.push(row);
        proof {
            assert(self.users.deep_view() =~= old_us.push(row_v));
        }
        Ok(out)
    }

    /// Looks a user up by username, with ratings and memberships assembled.
    /// The absence of the user surfaces as an error, never as `Ok(None)`.
    pub fn get_user_by_credentials(&self, username: &str, today: Date) -> (r: Result<
        Option<User>,
        CoreError,
    >)
        requires
            self.wf(),
            today.valid(),
        ensures
            ({
                let range = period_of_month(today.month as int).spec_range(today.year);
                match r {
                    Ok(Some(u)) => username_taken(self.users_v(), username@)
                        && user_memberships_groups_ok(
                        self.memberships_v(),
                        self.groups_v(),
                        user_row_by_name(self.users_v(), username@).id,
                    ) && u.deep_view() == spec_user_assembled(
                        user_row_by_name(self.users_v(), username@),
                        self.ratings_v(),
                        self.users_v(),
                        self.memberships_v(),
                        self.groups_v(),
                        range,
                    ),
                    Ok(None) => false,
                    Err(CoreError::NotFound) => !username_taken(self.users_v(), username@) || (
                    username_taken(self.users_v(), username@) && !user_memberships_groups_ok(
                        self.memberships_v(),
                        self.groups_v(),
                        user_row_by_name(self.users_v(), username@).id,
                    )),
                    Err(_) => false,
                }
            }),
    {
        let range = Period::period_date_range(today);
        let i = match self.find_user_by_name(username) {
            Some(i) => i,
            None => {
                return Err(CoreError::NotFound);
            },
        };
        proof {
            lemma_user_by_name_unique(self.users_v(), username@, i as int);
        }
        match self.assemble_user(i, range) {
            Ok(u) => Ok(Some(u)),
            Err(_) => Err(CoreError::NotFound),
        }
    }

    /// All users in table order, each with ratings and memberships
    /// assembled; fails if any member's group is missing.
    pub fn get_users(&self, today: Date) -> (r: Result<Vec<User>, CoreError>)
        requires
            self.wf(),
            today.valid(),
        ensures
            ({
                let range = period_of_month(today.month as int).spec_range(today.year);
                match r {
                    Ok(v) => v.deep_view().len() == self.users_v().len() && forall|i: int|
                        0 <= i < v.deep_view().len() ==> v.deep_view()[i] == spec_user_assembled(
                            self.users_v()[i],
                            self.ratings_v(),
                            self.users_v(),
                            self.memberships_v(),
                            self.groups_v(),
                            range,
                        ),
                    Err(CoreError::NotFound) => exists|i: int|
                        0 <= i < self.users_v().len() && !user_memberships_groups_ok(
                            self.memberships_v(),
                            self.groups_v(),
                            (#[trigger] self.users_v()[i]).id,
                        ),
                    Err(_) => false,
                }
            }),
    {
        let range = Period::period_date_range(today);
        let n = self.users.len();
        let mut out: Vec<User> = Vec::new();
        let mut i: usize = 0;
        while i < n
            invariant
                i <= n,
                n == self.users.len(),
                self.wf(),
                range == period_of_month(today.month as int).spec_range(today.year),
                out.len() == i,
                forall|j: int|
                    0 <= j < i ==> out.deep_view()[j] == spec_user_assembled(
                        self.users_v()[j],
                        self.ratings_v(),
                        self.users_v(),
                        self.memberships_v(),
                        self.groups_v(),
                        range,
                    ),
            decreases n - i,
        {
            let u = match self.assemble_user(i, range) {
                Ok(u) => u,
                Err(e) => {
                    proof {
                        assert(!user_memberships_groups_ok(
                            self.memberships_v(),
                            self.groups_v(),
                            (#[trigger] self.users_v()[i as int]).id,
                        ));
                    }
                    return Err(CoreError::NotFound);
                },
            };
            let ghost ov = out.deep_view();
            let ghost uv = u.deep_view();
            out.push(u);
            proof {
                assert(out.deep_view() =~= ov.push(uv));
            }
            i += 1;
        }
        Ok(out)
    }

    /// Renames and recolors the user with the given id.  The whole
    /// operation fails without a trace when the new username is taken, the
    /// id is unknown, or a membership's group is missing.
    pub fn update_user(&mut self, user_id: &str, user: &NewUser, today: Date) -> (r: Result<
        User,
        CoreError,
    >)
        requires
            old(self).wf(),
            today.valid(),
        ensures
            final(self).wf(),
            ({
                let range = period_of_month(today.month as int).spec_range(today.year);
                let updated = users_updated(
                    old(self).users_v(),
                    user_id@,
                    user.username@,
                    user.color@,
                );
                match r {
                    Ok(u) => ({
                        &&& !username_taken(old(self).users_v(), user.username@)
                        &&& user_id_taken(old(self).users_v(), user_id@)
                        &&& user_memberships_groups_ok(
                            old(self).memberships_v(),
                            old(self).groups_v(),
                            user_id@,
                        )
                        &&& final(self).users_v() == updated
                        &&& final(self).same_except_users(*old(self))
                        &&& u.deep_view() == spec_user_assembled(
                            (DbUserV {
                                id: user_row_by_id(old(self).users_v(), user_id@).id,
                                username: user.username@,
                                password: user_row_by_id(old(self).users_v(), user_id@).password,
                                color: user.color@,
                            }),
                            old(self).ratings_v(),
                            updated,
                            old(self).memberships_v(),
                            old(self).groups_v(),
                            range,
                        )
                    }),
                    Err(CoreError::AlreadyExists) => username_taken(
                        old(self).users_v(),
                        user.username@,
                    ) && *final(self) == *old(self),
                    Err(CoreError::NotFound) => !username_taken(old(self).users_v(), user.username@)
                        && (!user_id_taken(old(self).users_v(), user_id@)
                        || !user_memberships_groups_ok(
                        old(self).memberships_v(),
                        old(self).groups_v(),
                        user_id@,
                    )) && *final(self) == *old(self),
                    Err(_) => false,
                }
            }),
    {
        match self.find_user_by_name(user.username.as_str()) {
            Some(_) => {
                return Err(CoreError::AlreadyExists);
            },
            None => {},
        }
        let i = match self.find_user_by_id(user_id) {
            Some(i) => i,
            None => {
                return Err(CoreError::NotFound);
            },
        };
        proof {
            lemma_user_by_id_unique(self.users_v(), user_id@, i as int);
        }
        // The assembly after the rewrite fails exactly when a membership's
        // group is missing; checking first keeps the failed operation
        // traceless, as the rolled-back transaction is.
        match self.get_group_memberships_by_user(user_id) {
            Ok(_) => {},
            Err(_) => {
                return Err(CoreError::NotFound);
            },
        }
        let updated = apply_user_update(&self.users, user_id, &user.username, &user.color);
        self.users = updated;
        proof {
            let old_us = old(self).users_v();
            let new_us = self.users_v();
            assert forall|a: int, b: int|
                0 <= a < b < new_us.len() implies (#[trigger] new_us[a]).id != (
            #[trigger] new_us[b]).id && new_us[a].username != new_us[b].username by {
                assert(old_us[a].id != old_us[b].id);
                assert(old_us[a].username != old_us[b].username);
                if old_us[a].id == user_id@ {
                    assert(!(old_us[b].username == user.username@));
                } else if old_us[b].id == user_id@ {
                    assert(!(old_us[a].username == user.username@));
                }
            }
        }
        let range = Period::period_date_range(today);
        proof {
            assert((#[trigger] self.users_v()[i as int]).username == user.username@);
        }
        let j = match self.find_user_by_name(user.username.as_str()) {
            Some(j) => j,
            None => {
                proof {
                    assert(false);
                }
                return Err(CoreError::NotFound);
            },
        };
        proof {
            lemma_user_by_name_unique(self.users_v(), user.username@, j as int);
            if i as int != j as int {
                assert(self.users_v()[i as int].username != self.users_v()[j as int].username);
            }
            assert(i == j);
            assert(self.users_v()[j as int].id == user_id@);
        }
        match self.assemble_user(j, range) {
            Ok(u) => Ok(u),
            Err(_) => {
                proof {
                    assert(false);
                }
                Err(CoreError::NotFound)
            },
        }
    }

    /// Removes the user row with the given id.  Returns the number of rows
    /// removed.
    pub fn delete_user(&mut self, user_id: &str) -> (r: u64)
        requires
            old(self).wf(),
        ensures
            final(self).wf(),
            final(self).users_v() == users_without(old(self).users_v(), user_id@),
            r as int == old(self).users_v().len() - final(self).users_v().len(),
            final(self).same_except_users(*old(self)),
    {
        let kept = filter_users(&self.users, user_id);
        let removed = self.users.len() - kept.len();
        self.users = kept;
        proof {
            lemma_users_without_props(old(self).users_v(), user_id@);
        }
        removed as u64
    }
}

} // verus!
