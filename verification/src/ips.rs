//! The IP blacklist: stored rows, and the pure membership decision a
//! request gate takes against a refreshed snapshot.

use vstd::prelude::*;

use crate::errors::CoreError;
use crate::models::{DbIp, DbIpV, Ip, IpV};
use crate::store::Store;
use crate::text::str_eq;

verus! {

/// The blacklist table with every row of the given address removed.
pub open spec fn ips_without(ips: Seq<DbIpV>, ip: Seq<char>) -> Seq<DbIpV>
    decreases ips.len(),
{
    if ips.len() == 0 {
        Seq::empty()
    } else {
        let rest = ips_without(ips.drop_last(), ip);
        if ips.last().ip_address == ip {
            rest
        } else {
            rest.push(ips.last())
        }
    }
}

/// The blacklist table with the given addresses appended under fresh
/// consecutive row ids.
pub open spec fn ip_rows_appended(old_ips: Seq<DbIpV>, new_ips: Seq<IpV>, start: int) -> Seq<DbIpV> {
    old_ips + Seq::new(
        new_ips.len(),
        |k: int| DbIpV { id: start + k, ip_address: new_ips[k].ip_address },
    )
}

/// Whether a snapshot of blacklisted addresses holds the given one.
pub open spec fn ip_listed(snapshot: Seq<Seq<char>>, ip: Seq<char>) -> bool {
    exists|i: int| 0 <= i < snapshot.len() && snapshot[i] == ip
}

pub proof fn lemma_ips_without_props(ips: Seq<DbIpV>, ip: Seq<char>, bound: int)
    requires
        crate::store::ips_ids_ok(ips, bound),
    ensures
        ips_without(ips, ip).len() <= ips.len(),
        crate::store::ips_ids_ok(ips_without(ips, ip), bound),
    decreases ips.len(),
{
    if ips.len() > 0 {
        let dl = ips.drop_last();
        assert(crate::store::ips_ids_ok(dl, bound));
        lemma_ips_without_props(dl, ip, bound);
        let f = ips_without(ips, ip);
        let fd = ips_without(dl, ip);
        if ips.last().ip_address == ip {
            assert(f == fd);
        } else {
            assert(f == fd.push(ips.last()));
            assert forall|k: int| 0 <= k < f.len() implies 0 < (#[trigger] f[k]).id < bound by {
                if k < fd.len() {
                    assert(0 < fd[k].id < bound);
                } else {
                    assert(f[k] == ips.last());
                    assert(0 < ips[ips.len() - 1].id < bound);
                }
            }
        }
    }
}

/// The blacklist vector with every row of the given address removed.
fn filter_ips(ips: &Vec<DbIp>, ip: &str) -> (kept: Vec<DbIp>)
    ensures
        kept.deep_view() == ips_without(ips.deep_view(), ip@),
        kept.len() <= ips.len(),
{
    let n = ips.len();
    let mut kept: Vec<DbIp> = Vec::new();
    let mut i: usize = 0;
    proof {
        assert(ips.deep_view().take(0) =~= Seq::<DbIpV>::empty());
    }
    while i < n
        invariant
            i <= n,
            n == ips.len(),
            kept.len() <= i,
            kept.deep_view() == ips_without(ips.deep_view().take(i as int), ip@),
        decreases n - i,
    {
        proof {
            assert(ips.deep_view().take(i + 1).drop_last() =~= ips.deep_view().take(i as int));
            assert(ips.deep_view().take(i + 1).last() == ips.deep_view()[i as int]);
        }
        if !str_eq(ips[i].ip_address.as_str(), ip) {
            let ghost kv = kept.deep_view();
            kept.push(ips[i].duplicate());
            proof {
                assert(kept.deep_view() =~= kv.push(ips.deep_view()[i as int]));
            }
        }
        i += 1;
    }
    proof {
        assert(ips.deep_view().take(n as int) =~= ips.deep_view());
    }
    kept
}

/// Rows for the given addresses under consecutive ids from `start`.
fn make_ip_rows(ips: &Vec<Ip>, start: i32) -> (out: Vec<DbIp>)
    requires
        1 <= start,
        start as int + ips.len() <= i32::MAX as int,
    ensures
        out.deep_view() == Seq::new(
            ips.deep_view().len(),
            |k: int| DbIpV { id: start as int + k, ip_address: ips.deep_view()[k].ip_address },
        ),
{
    let n = ips.len();
    let mut out: Vec<DbIp> = Vec::new();
    let mut i: usize = 0;
    while i < n
        invariant
            i <= n,
            n == ips.len(),
            1 <= start,
            start as int + n <= i32::MAX as int,
            out.len() == i,
            forall|j: int|
                0 <= j < i ==> out.deep_view()[j] == (DbIpV {
                    id: start as int + j,
                    ip_address: ips.deep_view()[j].ip_address,
                }),
        decreases n - i,
    {
        let row = DbIp { id: start + (i as i32), ip_address: ips[i].ip_address.clone() };
        let ghost ov = out.deep_view();
        let ghost nv = row.deep_view();
        out.push(row);
        proof {
            assert(out.deep_view() =~= ov.push(nv));
            assert(nv == (DbIpV {
                id: start as int + i as int,
                ip_address: ips.deep_view()[i as int].ip_address,
            }));
        }
        i += 1;
    }
    proof {
        assert(out.deep_view() =~= Seq::new(
            ips.deep_view().len(),
            |k: int| DbIpV { id: start as int + k, ip_address: ips.deep_view()[k].ip_address },
        ));
    }
    out
}

/// The decision a request gate takes against a blacklist snapshot: whether
/// the caller's address is listed.
pub fn ip_blocked(snapshot: &Vec<String>, ip: &str) -> (r: bool)
    ensures
        r == ip_listed(snapshot.deep_view(), ip@),
{
    let n = snapshot.len();
    let mut i: usize = 0;
    while i < n
        invariant
            i <= n,
            n == snapshot.len(),
            forall|j: int| 0 <= j < i ==> snapshot.deep_view()[j] != ip@,
        decreases n - i,
    {
        if str_eq(snapshot[i].as_str(), ip) {
            proof {
                assert(snapshot.deep_view()[i as int] == ip@);
            }
            return true;
        }
        i += 1;
    }
    false
}

impl Store {
    /// Appends every given address to the blacklist, atomically: if the id
    /// space cannot hold them all, nothing is inserted.
    pub fn create_ip_blacklist(&mut self, ips: &Vec<Ip>) -> (r: Result<u64, CoreError>)
        requires
            old(self).wf(),
        ensures
            final(self).wf(),
            match r {
                Ok(n) => n as int == ips.deep_view().len() && old(self).next_ip_id as int
                    + ips.deep_view().len() <= i32::MAX as int && final(self).ips_v()
                    == ip_rows_appended(
                    old(self).ips_v(),
                    ips.deep_view(),
                    old(self).next_ip_id as int,
                ) && final(self).next_ip_id as int == old(self).next_ip_id as int
                    + ips.deep_view().len() && final(self).same_except_ips(*old(self)),
                Err(CoreError::StoreError) => old(self).next_ip_id as int + ips.deep_view().len()
                    > i32::MAX as int && *final(self) == *old(self),
                Err(_) => false,
            },
    {
        let start = self.next_ip_id;
        if ips.len() > (i32::MAX - start) as usize {
            return Err(CoreError::StoreError);
        }
        let mut rows = make_ip_rows(ips, start);
        let ghost rows_v = rows.deep_view();
        let ghost old_ips = self.ips.deep_view();
        self.ips.append(&mut rows);
        self.next_ip_id = start + ips.len() as i32;
        proof {
            assert(self.ips.deep_view() =~= old_ips + rows_v);
            assert(self.ips.deep_view() =~= ip_rows_appended(
                old_ips,
                ips.deep_view(),
                start as int,
            ));
            assert forall|k: int|
                0 <= k < self.ips_v().len() implies 0 < (#[trigger] self.ips_v()[k]).id < self.next_ip_id as int by {
                if k < old_ips.len() {
                    assert(0 < old_ips[k].id < start as int);
                } else {
                    assert(self.ips_v()[k].id == start as int + (k - old_ips.len()));
                }
            }
        }
        Ok(ips.len() as u64)
    }

    /// The blacklist, in table order.
    pub fn get_ip_blacklist(&self) -> (r: Vec<Ip>)
        ensures
            r.deep_view().len() == self.ips_v().len(),
            forall|i: int|
                0 <= i < r.deep_view().len() ==> (#[trigger] r.deep_view()[i]).ip_address
                    == self.ips_v()[i].ip_address,
    {
        let n = self.ips.len();
        let mut out: Vec<Ip> = Vec::new();
        let mut i: usize = 0;
        while i < n
            invariant
                i <= n,
                n == self.ips.len(),
                out.len() == i,
                forall|j: int|
                    0 <= j < i ==> (#[trigger] out.deep_view()[j]).ip_address == self.ips_v()[
                        j
                    ].ip_address,
            decreases n - i,
        {
            let ghost ov = out.deep_view();
            let row = Ip { ip_address: self.ips[i].ip_address.clone() };
            let ghost nv = row.deep_view();
            out.push(row);
            proof {
                assert(out.deep_view() =~= ov.push(nv));
            }
            i += 1;
        }
        out
    }

    /// Removes every row of the given address.  Returns the number of rows
    /// removed.
    pub fn delete_ip(&mut self, ip: &str) -> (r: u64)
        requires
            old(self).wf(),
        ensures
            final(self).wf(),
            final(self).ips_v() == ips_without(old(self).ips_v(), ip@),
            r as int == old(self).ips_v().len() - final(self).ips_v().len(),
            final(self).same_except_ips(*old(self)),
            final(self).next_ip_id == old(self).next_ip_id,
    {
        let kept = filter_ips(&self.ips, ip);
        let removed = self.ips.len() - kept.len();
        self.ips = kept;
        proof {
            lemma_ips_without_props(old(self).ips_v(), ip@, old(self).next_ip_id as int);
        }
        removed as u64
    }
}

} // verus!
