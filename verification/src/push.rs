//! Push subscriptions and the notification fan-out plan.
//!
//! The engine decides who gets a completion message and what it says; the
//! actual delivery is outside work.  A delivery outcome is reported back as
//! a plain value, and a permanently invalid endpoint loses its
//! subscription.

use vstd::prelude::*;

use vstd::string::StringExecFns;

use crate::errors::{CoreError, DeliveryError};
use crate::models::{NewPushSubscription, PushSubscription, PushSubscriptionV};
use crate::store::{
    endpoint_taken, lemma_subscription_index_unique, membership_exists, subscription_row,
    unique_endpoints, Store,
};
use crate::text::str_eq;

verus! {

/// The subscriptions table after the upsert: the row with the endpoint gets
/// the new keys and keeps its user; no other row changes.
pub open spec fn subscriptions_upserted(
    ss: Seq<PushSubscriptionV>,
    endpoint: Seq<char>,
    p256dh: Seq<char>,
    auth: Seq<char>,
) -> Seq<PushSubscriptionV> {
    Seq::new(
        ss.len(),
        |i: int|
            if ss[i].endpoint == endpoint {
                PushSubscriptionV { endpoint: ss[i].endpoint, user_id: ss[i].user_id, p256dh, auth }
            } else {
                ss[i]
            },
    )
}

/// The subscriptions table with every row of the given endpoint removed.
pub open spec fn subscriptions_without(ss: Seq<PushSubscriptionV>, endpoint: Seq<char>) -> Seq<
    PushSubscriptionV,
>
    decreases ss.len(),
{
    if ss.len() == 0 {
        Seq::empty()
    } else {
        let rest = subscriptions_without(ss.drop_last(), endpoint);
        if ss.last().endpoint == endpoint {
            rest
        } else {
            rest.push(ss.last())
        }
    }
}

/// The fan-out list: every subscription whose user is a member of the
/// group, in table order.  Endpoints are unique in the table, so no
/// endpoint is targeted twice.
pub open spec fn group_notification_targets(
    ss: Seq<PushSubscriptionV>,
    ms: Seq<crate::models::DbGroupMembershipV>,
    group_id: Seq<char>,
) -> Seq<PushSubscriptionV>
    decreases ss.len(),
{
    if ss.len() == 0 {
        Seq::empty()
    } else {
        let rest = group_notification_targets(ss.drop_last(), ms, group_id);
        if membership_exists(ms, ss.last().user_id, group_id) {
            rest.push(ss.last())
        } else {
            rest
        }
    }
}

/// The push message body: the group's name, a separator, the message.
pub open spec fn notification_body_of(group_name: Seq<char>, message: Seq<char>) -> Seq<char> {
    group_name + ": "@ + message
}

pub proof fn lemma_subscriptions_without_props(ss: Seq<PushSubscriptionV>, endpoint: Seq<char>)
    ensures
        subscriptions_without(ss, endpoint).len() <= ss.len(),
        unique_endpoints(ss) ==> unique_endpoints(subscriptions_without(ss, endpoint)),
    decreases ss.len(),
{
    if ss.len() > 0 {
        let dl = ss.drop_last();
        lemma_subscriptions_without_props(dl, endpoint);
        let f = subscriptions_without(ss, endpoint);
        let fd = subscriptions_without(dl, endpoint);
        assert forall|k: int| 0 <= k < fd.len() implies ss.contains(fd[k]) by {
            assert(dl.contains(fd[k])) by {
                lemma_subscriptions_without_contains(dl, endpoint, k);
            }
            let m = choose|m: int| 0 <= m < dl.len() && dl[m] == fd[k];
            assert(ss[m] == fd[k]);
        }
        if ss.last().endpoint == endpoint {
            assert(f == fd);
        } else {
            assert(f == fd.push(ss.last()));
            if unique_endpoints(ss) {
                assert(unique_endpoints(dl));
                assert forall|i: int, j: int|
                    0 <= i < j < f.len() implies f[i].endpoint != f[j].endpoint by {
                    if j < fd.len() {
                        assert(fd[i].endpoint != fd[j].endpoint);
                    } else {
                        assert(f[j] == ss.last());
                        assert(dl.contains(fd[i])) by {
                            lemma_subscriptions_without_contains(dl, endpoint, i);
                        }
                        let m = choose|m: int| 0 <= m < dl.len() && dl[m] == fd[i];
                        assert(ss[m].endpoint != ss[ss.len() - 1].endpoint);
                    }
                }
            }
        }
    }
}

pub proof fn lemma_subscriptions_without_contains(ss: Seq<PushSubscriptionV>, endpoint: Seq<char>, k: int)
    requires
        0 <= k < subscriptions_without(ss, endpoint).len(),
    ensures
        ss.contains(subscriptions_without(ss, endpoint)[k]),
    decreases ss.len(),
{
    if ss.len() > 0 {
        let dl = ss.drop_last();
        let f = subscriptions_without(ss, endpoint);
        let fd = subscriptions_without(dl, endpoint);
        if ss.last().endpoint == endpoint || k < fd.len() {
            lemma_subscriptions_without_contains(dl, endpoint, k);
            let m = choose|m: int| 0 <= m < dl.len() && dl[m] == fd[k];
            assert(ss[m] == fd[k]);
        } else {
            assert(f[k] == ss.last());
            assert(ss[ss.len() - 1] == ss.last());
        }
    }
}

/// The subscriptions vector with every row of the given endpoint removed.
fn filter_subscriptions(subscriptions: &Vec<PushSubscription>, endpoint: &str) -> (kept: Vec<
    PushSubscription,
>)
    ensures
        kept.deep_view() == subscriptions_without(subscriptions.deep_view(), endpoint@),
        kept.len() <= subscriptions.len(),
{
    let n = subscriptions.len();
    let mut kept: Vec<PushSubscription> = Vec::new();
    let mut i: usize = 0;
    proof {
        assert(subscriptions.deep_view().take(0) =~= Seq::<PushSubscriptionV>::empty());
    }
    while i < n
        invariant
            i <= n,
            n == subscriptions.len(),
            kept.len() <= i,
            kept.deep_view() == subscriptions_without(
                subscriptions.deep_view().take(i as int),
                endpoint@,
            ),
        decreases n - i,
    {
        proof {
            assert(subscriptions.deep_view().take(i + 1).drop_last()
                =~= subscriptions.deep_view().take(i as int));
            assert(subscriptions.deep_view().take(i + 1).last() == subscriptions.deep_view()[
                i as int
            ]);
        }
        if !str_eq(subscriptions[i].endpoint.as_str(), endpoint) {
            let ghost kv = kept.deep_view();
            kept.push(subscriptions[i].duplicate());
            proof {
                assert(kept.deep_view() =~= kv.push(subscriptions.deep_view()[i as int]));
            }
        }
        i += 1;
    }
    proof {
        assert(subscriptions.deep_view().take(n as int) =~= subscriptions.deep_view());
    }
    kept
}

/// The subscriptions vector after the upsert of the keys at one endpoint.
fn apply_subscription_upsert(
    subscriptions: &Vec<PushSubscription>,
    endpoint: &str,
    p256dh: &String,
    auth: &String,
) -> (out: Vec<PushSubscription>)
    ensures
        out.deep_view() == subscriptions_upserted(
            subscriptions.deep_view(),
            endpoint@,
            p256dh@,
            auth@,
        ),
{
    let n = subscriptions.len();
    let mut out: Vec<PushSubscription> = Vec::new();
    let mut i: usize = 0;
    while i < n
        invariant
            i <= n,
            n == subscriptions.len(),
            out.len() == i,
            forall|j: int|
                0 <= j < i ==> out.deep_view()[j] == subscriptions_upserted(
                    subscriptions.deep_view(),
                    endpoint@,
                    p256dh@,
                    auth@,
                )[j],
        decreases n - i,
    {
        let row = &subscriptions[i];
        let new_row = if str_eq(row.endpoint.as_str(), endpoint) {
            PushSubscription {
                endpoint: row.endpoint.clone(),
                user_id: row.user_id.clone(),
                p256dh: p256dh.clone(),
                auth: auth.clone(),
            }
        } else {
            row.duplicate()
        };
        let ghost ov = out.deep_view();
        let ghost nv = new_row.deep_view();
        out.push(new_row);
        proof {
            assert(out.deep_view() =~= ov.push(nv));
            assert(nv == subscriptions_upserted(
                subscriptions.deep_view(),
                endpoint@,
                p256dh@,
                auth@,
            )[i as int]);
        }
        i += 1;
    }
    proof {
        assert(out.deep_view() =~= subscriptions_upserted(
            subscriptions.deep_view(),
            endpoint@,
            p256dh@,
            auth@,
        ));
    }
    out
}

impl Store {
    /// Registers a push subscription, upserting on the endpoint key: a
    /// browser resubscribing at the same endpoint gets its keys refreshed.
    pub fn create_push_subscription(&mut self, new_push_subscription: &NewPushSubscription) -> (r:
        Result<PushSubscription, CoreError>)
        requires
            old(self).wf(),
        ensures
            final(self).wf(),
            match r {
                Ok(s) => ({
                    &&& final(self).same_except_subscriptions(*old(self))
                    &&& (endpoint_taken(
                        old(self).subscriptions_v(),
                        new_push_subscription.endpoint@,
                    ) ==> final(self).subscriptions_v() == subscriptions_upserted(
                        old(self).subscriptions_v(),
                        new_push_subscription.endpoint@,
                        new_push_subscription.p256dh@,
                        new_push_subscription.auth@,
                    ) && s.deep_view() == (PushSubscriptionV {
                        endpoint: new_push_subscription.endpoint@,
                        user_id: subscription_row(
                            old(self).subscriptions_v(),
                            new_push_subscription.endpoint@,
                        ).user_id,
                        p256dh: new_push_subscription.p256dh@,
                        auth: new_push_subscription.auth@,
                    }))
                    &&& (!endpoint_taken(
                        old(self).subscriptions_v(),
                        new_push_subscription.endpoint@,
                    ) ==> final(self).subscriptions_v() == old(self).subscriptions_v().push(
                        (PushSubscriptionV {
                            endpoint: new_push_subscription.endpoint@,
                            user_id: new_push_subscription.user_id@,
                            p256dh: new_push_subscription.p256dh@,
                            auth: new_push_subscription.auth@,
                        }),
                    ) && s.deep_view() == (PushSubscriptionV {
                        endpoint: new_push_subscription.endpoint@,
                        user_id: new_push_subscription.user_id@,
                        p256dh: new_push_subscription.p256dh@,
                        auth: new_push_subscription.auth@,
                    }))
                }),
                Err(_) => false,
            },
    {
        match self.find_subscription(new_push_subscription.endpoint.as_str()) {
            Some(i) => {
                proof {
                    lemma_subscription_index_unique(
                        self.subscriptions_v(),
                        new_push_subscription.endpoint@,
                        i as int,
                    );
                }
                let out = PushSubscription {
                    endpoint: new_push_subscription.endpoint.clone(),
                    user_id: self.subscriptions[i].user_id.clone(),
                    p256dh: new_push_subscription.p256dh.clone(),
                    auth: new_push_subscription.auth.clone(),
                };
                let updated = apply_subscription_upsert(
                    &self.subscriptions,
                    new_push_subscription.endpoint.as_str(),
                    &new_push_subscription.p256dh,
                    &new_push_subscription.auth,
                );
                self.subscriptions = updated;
                proof {
                    let old_ss = old(self).subscriptions_v();
                    let new_ss = self.subscriptions_v();
                    assert forall|a: int, b: int|
                        0 <= a < b < new_ss.len() implies (#[trigger] new_ss[a]).endpoint != (
                    #[trigger] new_ss[b]).endpoint by {
                        assert(old_ss[a].endpoint != old_ss[b].endpoint);
                    }
                }
                Ok(out)
            },
            None => {
                let row = PushSubscription {
                    endpoint: new_push_subscription.endpoint.clone(),
                    user_id: new_push_subscription.user_id.clone(),
                    p256dh: new_push_subscription.p256dh.clone(),
                    auth: new_push_subscription.auth.clone(),
                };
                let out = row.duplicate();
                let ghost old_ss = self.subscriptions.deep_view();
                let ghost row_v = row.deep_view();
                self.subscriptions.push(row);
                proof {
                    assert(self.subscriptions.deep_view() =~= old_ss.push(row_v));
                }
                Ok(out)
            },
        }
    }

    /// Looks a subscription up by endpoint.
    pub fn get_push_subscription(&self, endpoint: &str) -> (r: Result<PushSubscription, CoreError>)
        requires
            self.wf(),
        ensures
            match r {
                Ok(s) => endpoint_taken(self.subscriptions_v(), endpoint@) && s.deep_view()
                    == subscription_row(self.subscriptions_v(), endpoint@),
                Err(CoreError::NotFound) => !endpoint_taken(self.subscriptions_v(), endpoint@),
                Err(_) => false,
            },
    {
        match self.find_subscription(endpoint) {
            Some(i) => {
                proof {
                    lemma_subscription_index_unique(self.subscriptions_v(), endpoint@, i as int);
                }
                Ok(self.subscriptions[i].duplicate())
            },
            None => Err(CoreError::NotFound),
        }
    }

    /// Removes the subscription at the given endpoint.  Returns the number
    /// of rows removed.
    pub fn delete_push_subscription(&mut self, endpoint: &str) -> (r: u64)
        requires
            old(self).wf(),
        ensures
            final(self).wf(),
            final(self).subscriptions_v() == subscriptions_without(
                old(self).subscriptions_v(),
                endpoint@,
            ),
            r as int == old(self).subscriptions_v().len() - final(self).subscriptions_v().len(),
            final(self).same_except_subscriptions(*old(self)),
    {
        let kept = filter_subscriptions(&self.subscriptions, endpoint);
        let removed = self.subscriptions.len() - kept.len();
        self.subscriptions = kept;
        proof {
            lemma_subscriptions_without_props(old(self).subscriptions_v(), endpoint@);
        }
        removed as u64
    }

    /// The fan-out plan for a group's completion notification: every
    /// subscription of a member, and the message body carrying the group's
    /// name.  A missing group has no members to reach, as the join drops
    /// every row.
    pub fn plan_group_notification(&self, group_id: &str, message: &str) -> (r: (
        Vec<PushSubscription>,
        String,
    ))
        requires
            self.wf(),
        ensures
            crate::store::group_id_taken(self.groups_v(), group_id@) ==> r.0.deep_view()
                == group_notification_targets(
                self.subscriptions_v(),
                self.memberships_v(),
                group_id@,
            ) && r.1@ == notification_body_of(
                crate::store::group_row(self.groups_v(), group_id@).name,
                message@,
            ),
            !crate::store::group_id_taken(self.groups_v(), group_id@) ==> r.0.deep_view().len()
                == 0,
    {
        let gi = match self.find_group(group_id) {
            Some(gi) => gi,
            None => {
                return (Vec::new(), String::new());
            },
        };
        proof {
            crate::store::lemma_group_index_unique(self.groups_v(), group_id@, gi as int);
        }
        let mut body = self.groups[gi].name.clone();
        body.append(": ");
        body.append(message);
        let n = self.subscriptions.len();
        let mut targets: Vec<PushSubscription> = Vec::new();
        let mut i: usize = 0;
        proof {
            assert(self.subscriptions_v().take(0) =~= Seq::<PushSubscriptionV>::empty());
        }
        while i < n
            invariant
                i <= n,
                n == self.subscriptions.len(),
                targets.deep_view() == group_notification_targets(
                    self.subscriptions_v().take(i as int),
                    self.memberships_v(),
                    group_id@,
                ),
            decreases n - i,
        {
            proof {
                assert(self.subscriptions_v().take(i + 1).drop_last()
                    =~= self.subscriptions_v().take(i as int));
                assert(self.subscriptions_v().take(i + 1).last() == self.subscriptions_v()[
                    i as int
                ]);
            }
            if self.check_group_membership_exists(
                self.subscriptions[i].user_id.as_str(),
                group_id,
            ) {
                let ghost tv = targets.deep_view();
                targets.push(self.subscriptions[i].duplicate());
                proof {
                    assert(targets.deep_view() =~= tv.push(self.subscriptions_v()[i as int]));
                }
            }
            i += 1;
        }
        proof {
            assert(self.subscriptions_v().take(n as int) =~= self.subscriptions_v());
        }
        (targets, body)
    }

    /// Applies the outcome of one delivery attempt: a permanently invalid
    /// endpoint loses its subscription, a transient failure changes
    /// nothing.  Returns the number of subscriptions removed.
    pub fn handle_delivery_failure(&mut self, endpoint: &str, error: DeliveryError) -> (r: u64)
        requires
            old(self).wf(),
        ensures
            final(self).wf(),
            match error {
                DeliveryError::PermanentlyInvalid => final(self).subscriptions_v()
                    == subscriptions_without(old(self).subscriptions_v(), endpoint@) && r as int
                    == old(self).subscriptions_v().len() - final(self).subscriptions_v().len()
                    && final(self).same_except_subscriptions(*old(self)),
                DeliveryError::Transient => *final(self) == *old(self) && r == 0,
            },
    {
        match error {
            DeliveryError::PermanentlyInvalid => self.delete_push_subscription(endpoint),
            DeliveryError::Transient => 0,
        }
    }
}

} // verus!
