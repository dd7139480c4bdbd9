//! Group and membership operations: creation with the creator's implicit
//! Admin membership, joining, lookups, and scoped deletes.

use vstd::prelude::*;

use crate::errors::CoreError;
use crate::ids::fresh_uuid;
use crate::models::{
    spec_group_api, spec_membership_of, DbGroup, DbGroupMembership, DbGroupMembershipV, DbGroupV,
    Group, GroupMembership, GroupMembershipV, NewGroup, NewGroupMembership, Role,
};
use crate::period::Date;
use crate::store::{
    group_id_taken, group_row, lemma_group_index_unique, lemma_membership_index_unique,
    membership_exists, membership_id_taken, membership_row, unique_groups, unique_memberships,
    Store,
};
use crate::text::str_eq;

verus! {

/// The groups table with every row of the given id removed, in table order.
pub open spec fn groups_without(gs: Seq<DbGroupV>, id: Seq<char>) -> Seq<DbGroupV>
    decreases gs.len(),
{
    if gs.len() == 0 {
        Seq::empty()
    } else {
        let rest = groups_without(gs.drop_last(), id);
        if gs.last().id == id {
            rest
        } else {
            rest.push(gs.last())
        }
    }
}

/// The memberships table with every row of the given row id removed, in
/// table order.
pub open spec fn memberships_without_id(ms: Seq<DbGroupMembershipV>, id: int) -> Seq<
    DbGroupMembershipV,
>
    decreases ms.len(),
{
    if ms.len() == 0 {
        Seq::empty()
    } else {
        let rest = memberships_without_id(ms.drop_last(), id);
        if ms.last().id == id {
            rest
        } else {
            rest.push(ms.last())
        }
    }
}

/// The API memberships of one user, assembled in table order with each
/// group embedded.
pub open spec fn user_memberships_assembled(
    ms: Seq<DbGroupMembershipV>,
    gs: Seq<DbGroupV>,
    user_id: Seq<char>,
) -> Seq<GroupMembershipV>
    decreases ms.len(),
{
    if ms.len() == 0 {
        Seq::empty()
    } else {
        let rest = user_memberships_assembled(ms.drop_last(), gs, user_id);
        if ms.last().user_id == user_id {
            rest.push(spec_membership_of(ms.last(), spec_group_api(group_row(gs, ms.last().group_id))))
        } else {
            rest
        }
    }
}

/// Every membership of the user names a group that exists.
pub open spec fn user_memberships_groups_ok(
    ms: Seq<DbGroupMembershipV>,
    gs: Seq<DbGroupV>,
    user_id: Seq<char>,
) -> bool {
    forall|i: int|
        0 <= i < ms.len() && (#[trigger] ms[i]).user_id == user_id ==> group_id_taken(
            gs,
            ms[i].group_id,
        )
}

pub proof fn lemma_groups_without_props(gs: Seq<DbGroupV>, id: Seq<char>)
    ensures
        groups_without(gs, id).len() <= gs.len(),
        forall|k: int|
            0 <= k < groups_without(gs, id).len() ==> gs.contains(
                #[trigger] groups_without(gs, id)[k],
            ),
        unique_groups(gs) ==> unique_groups(groups_without(gs, id)),
        forall|k: int|
            0 <= k < groups_without(gs, id).len() ==> (#[trigger] groups_without(gs, id)[k]).id
                != id,
    decreases gs.len(),
{
    if gs.len() > 0 {
        let dl = gs.drop_last();
        lemma_groups_without_props(dl, id);
        let f = groups_without(gs, id);
        let fd = groups_without(dl, id);
        assert forall|k: int| 0 <= k < fd.len() implies gs.contains(fd[k]) by {
            assert(dl.contains(fd[k]));
            let m = choose|m: int| 0 <= m < dl.len() && dl[m] == fd[k];
            assert(gs[m] == fd[k]);
        }
        if gs.last().id == id {
            assert(f == fd);
        } else {
            assert(f == fd.push(gs.last()));
            assert(gs.contains(gs.last())) by {
                assert(gs[gs.len() - 1] == gs.last());
            }
            if unique_groups(gs) {
                assert(unique_groups(dl));
                assert forall|i: int, j: int| 0 <= i < j < f.len() implies f[i].id != f[j].id by {
                    if j < fd.len() {
                        assert(fd[i].id != fd[j].id);
                    } else {
                        assert(f[j] == gs.last());
                        assert(dl.contains(fd[i]));
                        let m = choose|m: int| 0 <= m < dl.len() && dl[m] == fd[i];
                        assert(gs[m].id != gs[gs.len() - 1].id);
                    }
                }
            }
        }
    }
}

pub proof fn lemma_memberships_without_id_props(ms: Seq<DbGroupMembershipV>, id: int, bound: int)
    requires
        unique_memberships(ms),
        crate::store::memberships_ids_ok(ms, bound),
    ensures
        memberships_without_id(ms, id).len() <= ms.len(),
        unique_memberships(memberships_without_id(ms, id)),
        crate::store::memberships_ids_ok(memberships_without_id(ms, id), bound),
        forall|k: int|
            0 <= k < memberships_without_id(ms, id).len() ==> ms.contains(
                #[trigger] memberships_without_id(ms, id)[k],
            ),
    decreases ms.len(),
{
    if ms.len() > 0 {
        let dl = ms.drop_last();
        assert(unique_memberships(dl));
        assert(crate::store::memberships_ids_ok(dl, bound));
        lemma_memberships_without_id_props(dl, id, bound);
        let f = memberships_without_id(ms, id);
        let fd = memberships_without_id(dl, id);
        assert forall|k: int| 0 <= k < fd.len() implies ms.contains(fd[k]) by {
            assert(dl.contains(fd[k]));
            let m = choose|m: int| 0 <= m < dl.len() && dl[m] == fd[k];
            assert(ms[m] == fd[k]);
        }
        if ms.last().id == id {
            assert(f == fd);
        } else {
            assert(f == fd.push(ms.last()));
            assert(ms.contains(ms.last())) by {
                assert(ms[ms.len() - 1] == ms.last());
            }
            assert forall|i: int, j: int|
                0 <= i < j < f.len() implies f[i].id != f[j].id && !(f[i].group_id == f[j].group_id
                && f[i].user_id == f[j].user_id) by {
                if j < fd.len() {
                    assert(fd[i].id != fd[j].id);
                    assert(!(fd[i].group_id == fd[j].group_id && fd[i].user_id == fd[j].user_id));
                } else {
                    assert(f[j] == ms.last());
                    assert(dl.contains(fd[i]));
                    let m = choose|m: int| 0 <= m < dl.len() && dl[m] == fd[i];
                    assert(ms[m].id != ms[ms.len() - 1].id);
                    assert(!(ms[m].group_id == ms[ms.len() - 1].group_id && ms[m].user_id == ms[
                        ms.len() - 1].user_id));
                }
            }
            assert forall|k: int| 0 <= k < f.len() implies 0 < (#[trigger] f[k]).id < bound by {
                if k < fd.len() {
                    assert(0 < fd[k].id < bound);
                } else {
                    assert(f[k] == ms.last());
                    assert(0 < ms[ms.len() - 1].id < bound);
                }
            }
        }
    }
}

/// The groups vector with every row of the given id removed.
fn filter_groups(groups: &Vec<DbGroup>, id: &str) -> (kept: Vec<DbGroup>)
    ensures
        kept.deep_view() == groups_without(groups.deep_view(), id@),
        kept.len() <= groups.len(),
{
    let n = groups.len();
    let mut kept: Vec<DbGroup> = Vec::new();
    let mut i: usize = 0;
    proof {
        assert(groups.deep_view().take(0) =~= Seq::<DbGroupV>::empty());
    }
    while i < n
        invariant
            i <= n,
            n == groups.len(),
            kept.len() <= i,
            kept.deep_view() == groups_without(groups.deep_view().take(i as int), id@),
        decreases n - i,
    {
        proof {
            assert(groups.deep_view().take(i + 1).drop_last() =~= groups.deep_view().take(i as int));
            assert(groups.deep_view().take(i + 1).last() == groups.deep_view()[i as int]);
        }
        if !str_eq(groups[i].id.as_str(), id) {
            let ghost kv = kept.deep_view();
            let row = groups[i].duplicate();
            kept.push(row);
            proof {
                assert(kept.deep_view() =~= kv.push(groups.deep_view()[i as int]));
            }
        }
        i += 1;
    }
    proof {
        assert(groups.deep_view().take(n as int) =~= groups.deep_view());
    }
    kept
}

/// The memberships vector with every row of the given row id removed.
fn filter_memberships_by_id(memberships: &Vec<DbGroupMembership>, id: i32) -> (kept: Vec<
    DbGroupMembership,
>)
    ensures
        kept.deep_view() == memberships_without_id(memberships.deep_view(), id as int),
        kept.len() <= memberships.len(),
{
    let n = memberships.len();
    let mut kept: Vec<DbGroupMembership> = Vec::new();
    let mut i: usize = 0;
    proof {
        assert(memberships.deep_view().take(0) =~= Seq::<DbGroupMembershipV>::empty());
    }
    while i < n
        invariant
            i <= n,
            n == memberships.len(),
            kept.len() <= i,
            kept.deep_view() == memberships_without_id(
                memberships.deep_view().take(i as int),
                id as int,
            ),
        decreases n - i,
    {
        proof {
            assert(memberships.deep_view().take(i + 1).drop_last() =~= memberships.deep_view().take(
                i as int,
            ));
            assert(memberships.deep_view().take(i + 1).last() == memberships.deep_view()[i as int]);
        }
        if memberships[i].id != id {
            let ghost kv = kept.deep_view();
            let row = memberships[i].duplicate();
            kept.push(row);
            proof {
                assert(kept.deep_view() =~= kv.push(memberships.deep_view()[i as int]));
            }
        }
        i += 1;
    }
    proof {
        assert(memberships.deep_view().take(n as int) =~= memberships.deep_view());
    }
    kept
}

impl Store {
    /// Looks a group up by id.
    pub fn get_group(&self, id: &str) -> (r: Result<Group, CoreError>)
        requires
            self.wf(),
        ensures
            match r {
                Ok(g) => group_id_taken(self.groups_v(), id@) && g.deep_view() == spec_group_api(
                    group_row(self.groups_v(), id@),
                ),
                Err(CoreError::NotFound) => !group_id_taken(self.groups_v(), id@),
                Err(_) => false,
            },
    {
        match self.find_group(id) {
            Some(i) => {
                proof {
                    lemma_group_index_unique(self.groups_v(), id@, i as int);
                }
                Ok(self.groups[i].to_api())
            },
            None => Err(CoreError::NotFound),
        }
    }

    /// Looks up the group that a membership row belongs to.
    pub fn get_group_by_membership(&self, membership_id: i32) -> (r: Result<Group, CoreError>)
        requires
            self.wf(),
        ensures
            match r {
                Ok(g) => membership_id_taken(self.memberships_v(), membership_id as int)
                    && group_id_taken(
                    self.groups_v(),
                    membership_row(self.memberships_v(), membership_id as int).group_id,
                ) && g.deep_view() == spec_group_api(
                    group_row(
                        self.groups_v(),
                        membership_row(self.memberships_v(), membership_id as int).group_id,
                    ),
                ),
                Err(CoreError::NotFound) => !membership_id_taken(
                    self.memberships_v(),
                    membership_id as int,
                ) || !group_id_taken(
                    self.groups_v(),
                    membership_row(self.memberships_v(), membership_id as int).group_id,
                ),
                Err(_) => false,
            },
    {
        match self.find_membership_by_id(membership_id) {
            Some(i) => {
                proof {
                    lemma_membership_index_unique(
                        self.memberships_v(),
                        membership_id as int,
                        i as int,
                    );
                }
                self.get_group(&self.memberships[i].group_id.as_str())
            },
            None => Err(CoreError::NotFound),
        }
    }

    /// Removes the group row with the given id; historical ratings and
    /// memberships are left untouched.  Returns the number of rows removed.
    pub fn delete_group(&mut self, id: &str) -> (r: u64)
        requires
            old(self).wf(),
        ensures
            final(self).wf(),
            final(self).groups_v() == groups_without(old(self).groups_v(), id@),
            r as int == old(self).groups_v().len() - final(self).groups_v().len(),
            final(self).same_except_groups(*old(self)),
    {
        let kept = filter_groups(&self.groups, id);
        let removed = self.groups.len() - kept.len();
        self.groups = kept;
        proof {
            lemma_groups_without_props(old(self).groups_v(), id@);
        }
        removed as u64
    }

    /// Creates a group under a caller-chosen id and grants the creator the
    /// Admin membership, atomically.
    pub fn create_group_with_id(&mut self, id: &str, new_group: &NewGroup, today: Date) -> (r:
        Result<GroupMembership, CoreError>)
        requires
            old(self).wf(),
        ensures
            final(self).wf(),
            match r {
                Ok(m) => ({
                    let grow = (DbGroupV {
                        id: id@,
                        name: new_group.name@,
                        description: new_group.description.deep_view(),
                        created_at: today,
                        updated_at: today,
                    });
                    let mrow = (DbGroupMembershipV {
                        id: old(self).next_membership_id as int,
                        group_id: id@,
                        user_id: new_group.creator_id@,
                        role: Role::Admin,
                        created_at: today,
                        updated_at: today,
                    });
                    &&& !group_id_taken(old(self).groups_v(), id@)
                    &&& !membership_exists(old(self).memberships_v(), new_group.creator_id@, id@)
                    &&& old(self).next_membership_id < i32::MAX
                    &&& final(self).groups_v() == old(self).groups_v().push(grow)
                    &&& final(self).memberships_v() == old(self).memberships_v().push(mrow)
                    &&& final(self).next_membership_id == old(self).next_membership_id + 1
                    &&& final(self).same_except_groups_and_memberships(*old(self))
                    &&& m.deep_view() == spec_membership_of(mrow, spec_group_api(grow))
                }),
                Err(CoreError::StoreError) => (group_id_taken(old(self).groups_v(), id@) || (
                !group_id_taken(old(self).groups_v(), id@) && !membership_exists(
                    old(self).memberships_v(),
                    new_group.creator_id@,
                    id@,
                ) && old(self).next_membership_id == i32::MAX)) && *final(self) == *old(self),
                Err(CoreError::AlreadyExists) => !group_id_taken(old(self).groups_v(), id@)
                    && membership_exists(old(self).memberships_v(), new_group.creator_id@, id@) && *
                final(self) == *old(self),
                Err(_) => false,
            },
    {
        match self.find_group(id) {
            Some(_) => {
                return Err(CoreError::StoreError);
            },
            None => {},
        }
        match self.find_membership(new_group.creator_id.as_str(), id) {
            Some(_) => {
                return Err(CoreError::AlreadyExists);
            },
            None => {},
        }
        if self.next_membership_id == i32::MAX {
            return Err(CoreError::StoreError);
        }
        let group_row_x = DbGroup {
            id: id.to_owned(),
            name: new_group.name.clone(),
            description: match &new_group.description {
                Some(d) => Some(d.clone()),
                None => None,
            },
            created_at: today,
            updated_at: today,
        };
        let mid = self.next_membership_id;
        let membership_row_x = DbGroupMembership {
            id: mid,
            group_id: id.to_owned(),
            user_id: new_group.creator_id.clone(),
            role: Role::Admin,
            created_at: today,
            updated_at: today,
        };
        let group_api = group_row_x.to_api();
        let ghost old_gs = self.groups.deep_view();
        let ghost old_ms = self.memberships.deep_view();
        let ghost grow_v = group_row_x.deep_view();
        let ghost mrow_v = membership_row_x.deep_view();
        let m = GroupMembership::from_db(&membership_row_x, &group_api);
        self.groups.push(group_row_x);
        self.memberships.push(membership_row_x);
        self.next_membership_id = mid + 1;
        proof {
            assert(self.groups.deep_view() =~= old_gs.push(grow_v));
            assert(self.memberships.deep_view() =~= old_ms.push(mrow_v));
        }
        Ok(m)
    }

    /// Creates a group under a fresh random id and grants the creator the
    /// Admin membership.  The id is random, so success cannot be promised:
    /// a collision with an existing group surfaces as a store failure, as a
    /// duplicate key would.
    pub fn create_group(&mut self, new_group: &NewGroup, today: Date) -> (r: Result<
        GroupMembership,
        CoreError,
    >)
        requires
            old(self).wf(),
        ensures
            final(self).wf(),
            match r {
                Ok(m) => ({
                    let gid = m.deep_view().group_id;
                    let grow = (DbGroupV {
                        id: gid,
                        name: new_group.name@,
                        description: new_group.description.deep_view(),
                        created_at: today,
                        updated_at: today,
                    });
                    let mrow = (DbGroupMembershipV {
                        id: old(self).next_membership_id as int,
                        group_id: gid,
                        user_id: new_group.creator_id@,
                        role: Role::Admin,
                        created_at: today,
                        updated_at: today,
                    });
                    &&& !group_id_taken(old(self).groups_v(), gid)
                    &&& !membership_exists(old(self).memberships_v(), new_group.creator_id@, gid)
                    &&& final(self).groups_v() == old(self).groups_v().push(grow)
                    &&& final(self).memberships_v() == old(self).memberships_v().push(mrow)
                    &&& final(self).next_membership_id == old(self).next_membership_id + 1
                    &&& final(self).same_except_groups_and_memberships(*old(self))
                    &&& m.deep_view() == spec_membership_of(mrow, spec_group_api(grow))
                }),
                Err(e) => (e == CoreError::StoreError || e == CoreError::AlreadyExists)
                    && *final(self) == *old(self),
            },
    {
        let id = fresh_uuid();
        self.create_group_with_id(id.as_str(), new_group, today)
    }

    /// Whether the user holds a membership of the group.
    pub fn check_group_membership_exists(&self, user_id: &str, group_id: &str) -> (r: bool)
        ensures
            r == membership_exists(self.memberships_v(), user_id@, group_id@),
    {
        match self.find_membership(user_id, group_id) {
            Some(_) => true,
            None => false,
        }
    }

    /// Adds a membership, enforcing at most one per (user, group) pair.
    pub fn create_group_membership(
        &mut self,
        new_group_membership: &NewGroupMembership,
        today: Date,
    ) -> (r: Result<GroupMembership, CoreError>)
        requires
            old(self).wf(),
        ensures
            final(self).wf(),
            match r {
                Ok(m) => ({
                    let mrow = (DbGroupMembershipV {
                        id: old(self).next_membership_id as int,
                        group_id: new_group_membership.group_id@,
                        user_id: new_group_membership.user_id@,
                        role: new_group_membership.role,
                        created_at: today,
                        updated_at: today,
                    });
                    &&& !membership_exists(
                        old(self).memberships_v(),
                        new_group_membership.user_id@,
                        new_group_membership.group_id@,
                    )
                    &&& group_id_taken(old(self).groups_v(), new_group_membership.group_id@)
                    &&& old(self).next_membership_id < i32::MAX
                    &&& final(self).memberships_v() == old(self).memberships_v().push(mrow)
                    &&& final(self).next_membership_id == old(self).next_membership_id + 1
                    &&& final(self).same_except_memberships(*old(self))
                    &&& m.deep_view() == spec_membership_of(
                        mrow,
                        spec_group_api(
                            group_row(old(self).groups_v(), new_group_membership.group_id@),
                        ),
                    )
                }),
                Err(CoreError::AlreadyExists) => membership_exists(
                    old(self).memberships_v(),
                    new_group_membership.user_id@,
                    new_group_membership.group_id@,
                ) && *final(self) == *old(self),
                Err(CoreError::NotFound) => !membership_exists(
                    old(self).memberships_v(),
                    new_group_membership.user_id@,
                    new_group_membership.group_id@,
                ) && !group_id_taken(old(self).groups_v(), new_group_membership.group_id@)
                    && *final(self) == *old(self),
                Err(CoreError::StoreError) => !membership_exists(
                    old(self).memberships_v(),
                    new_group_membership.user_id@,
                    new_group_membership.group_id@,
                ) && group_id_taken(old(self).groups_v(), new_group_membership.group_id@) && old(
                    self,
                ).next_membership_id == i32::MAX && *final(self) == *old(self),
                Err(_) => false,
            },
    {
        match self.find_membership(
            new_group_membership.user_id.as_str(),
            new_group_membership.group_id.as_str(),
        ) {
            Some(_) => {
                return Err(CoreError::AlreadyExists);
            },
            None => {},
        }
        let gi = match self.find_group(new_group_membership.group_id.as_str()) {
            Some(gi) => gi,
            None => {
                return Err(CoreError::NotFound);
            },
        };
        if self.next_membership_id == i32::MAX {
            return Err(CoreError::StoreError);
        }
        proof {
            lemma_group_index_unique(
                self.groups_v(),
                new_group_membership.group_id@,
                gi as int,
            );
        }
        let mid = self.next_membership_id;
        let membership_row_x = DbGroupMembership {
            id: mid,
            group_id: new_group_membership.group_id.clone(),
            user_id: new_group_membership.user_id.clone(),
            role: new_group_membership.role,
            created_at: today,
            updated_at: today,
        };
        let group_api = self.groups[gi].to_api();
        let m = GroupMembership::from_db(&membership_row_x, &group_api);
        let ghost old_ms = self.memberships.deep_view();
        let ghost mrow_v = membership_row_x.deep_view();
        self.memberships.push(membership_row_x);
        self.next_membership_id = mid + 1;
        proof {
            assert(self.memberships.deep_view() =~= old_ms.push(mrow_v));
        }
        Ok(m)
    }

    /// Looks a membership up by row id, with its group embedded.
    pub fn get_group_membership(&self, id: i32) -> (r: Result<GroupMembership, CoreError>)
        requires
            self.wf(),
        ensures
            match r {
                Ok(m) => membership_id_taken(self.memberships_v(), id as int) && group_id_taken(
                    self.groups_v(),
                    membership_row(self.memberships_v(), id as int).group_id,
                ) && m.deep_view() == spec_membership_of(
                    membership_row(self.memberships_v(), id as int),
                    spec_group_api(
                        group_row(
                            self.groups_v(),
                            membership_row(self.memberships_v(), id as int).group_id,
                        ),
                    ),
                ),
                Err(CoreError::NotFound) => !membership_id_taken(self.memberships_v(), id as int)
                    || !group_id_taken(
                    self.groups_v(),
                    membership_row(self.memberships_v(), id as int).group_id,
                ),
                Err(_) => false,
            },
    {
        let i = match self.find_membership_by_id(id) {
            Some(i) => i,
            None => {
                return Err(CoreError::NotFound);
            },
        };
        proof {
            lemma_membership_index_unique(self.memberships_v(), id as int, i as int);
        }
        let group = match self.get_group(&self.memberships[i].group_id.as_str()) {
            Ok(group) => group,
            Err(_) => {
                return Err(CoreError::NotFound);
            },
        };
        Ok(GroupMembership::from_db(&self.memberships[i], &group))
    }

    /// All memberships of one user, in table order, each with its group
    /// embedded; fails if any named group is missing.
    pub fn get_group_memberships_by_user(&self, user_id: &str) -> (r: Result<
        Vec<GroupMembership>,
        CoreError,
    >)
        requires
            self.wf(),
        ensures
            match r {
                Ok(v) => user_memberships_groups_ok(self.memberships_v(), self.groups_v(), user_id@)
                    && v.deep_view() == user_memberships_assembled(
                    self.memberships_v(),
                    self.groups_v(),
                    user_id@,
                ),
                Err(CoreError::NotFound) => !user_memberships_groups_ok(
                    self.memberships_v(),
                    self.groups_v(),
                    user_id@,
                ),
                Err(_) => false,
            },
    {
        let n = self.memberships.len();
        let mut out: Vec<GroupMembership> = Vec::new();
        let mut i: usize = 0;
        proof {
            assert(self.memberships_v().take(0) =~= Seq::<DbGroupMembershipV>::empty());
        }
        while i < n
            invariant
                i <= n,
                n == self.memberships.len(),
                self.wf(),
                out.deep_view() == user_memberships_assembled(
                    self.memberships_v().take(i as int),
                    self.groups_v(),
                    user_id@,
                ),
                forall|j: int|
                    0 <= j < i && (#[trigger] self.memberships_v()[j]).user_id == user_id@
                        ==> group_id_taken(self.groups_v(), self.memberships_v()[j].group_id),
            decreases n - i,
        {
            proof {
                assert(self.memberships_v().take(i + 1).drop_last() =~= self.memberships_v().take(
                    i as int,
                ));
                assert(self.memberships_v().take(i + 1).last() == self.memberships_v()[i as int]);
            }
            if str_eq(self.memberships[i].user_id.as_str(), user_id) {
                let group = match self.get_group(&self.memberships[i].group_id.as_str()) {
                    Ok(group) => group,
                    Err(_) => {
                        return Err(CoreError::NotFound);
                    },
                };
                let m = GroupMembership::from_db(&self.memberships[i], &group);
                let ghost ov = out.deep_view();
                out.push(m);
                proof {
                    assert(out.deep_view() =~= ov.push(
                        spec_membership_of(
                            self.memberships_v()[i as int],
                            spec_group_api(
                                group_row(self.groups_v(), self.memberships_v()[i as int].group_id),
                            ),
                        ),
                    ));
                }
            }
            i += 1;
        }
        proof {
            assert(self.memberships_v().take(n as int) =~= self.memberships_v());
        }
        Ok(out)
    }

    /// Removes the membership row with the given row id.  Historical rating
    /// rows of the affected user are untouched.  Returns the number of rows
    /// removed.
    pub fn delete_group_membership(&mut self, id: i32) -> (r: u64)
        requires
            old(self).wf(),
        ensures
            final(self).wf(),
            final(self).memberships_v() == memberships_without_id(
                old(self).memberships_v(),
                id as int,
            ),
            r as int == old(self).memberships_v().len() - final(self).memberships_v().len(),
            final(self).same_except_memberships(*old(self)),
            final(self).next_membership_id == old(self).next_membership_id,
    {
        let kept = filter_memberships_by_id(&self.memberships, id);
        let removed = self.memberships.len() - kept.len();
        self.memberships = kept;
        proof {
            lemma_memberships_without_id_props(
                old(self).memberships_v(),
                id as int,
                old(self).next_membership_id as int,
            );
        }
        removed as u64
    }
}

} // verus!
