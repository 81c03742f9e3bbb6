//! Telling whether a store that was read from outside keeps the invariant
//! that the handlers rely on.

use crate::msg::contract::warehouse::GroupId;
use crate::warehouse::{member_count, Store, StoreView};
use vstd::prelude::*;

verus! {

impl StoreView {
    /// Whether the products stand in strictly ascending order of id.
    pub open spec fn products_ascend(self) -> bool {
        forall|i: int, j: int|
            0 <= i < j < self.products.len() ==> self.products[i].id < self.products[j].id
    }

    /// Whether the purchases stand in strictly ascending order of id, below
    /// the next id.
    pub open spec fn purchases_ascend(self) -> bool {
        &&& forall|i: int, j: int|
            0 <= i < j < self.purchases.len() ==> self.purchases[i].id < self.purchases[j].id
        &&& forall|i: int|
            0 <= i < self.purchases.len() ==> self.purchases[i].id < self.next_purchase_id
    }

    /// Whether the groups stand in strictly ascending order of id, below the
    /// next id.
    pub open spec fn groups_ascend(self) -> bool {
        &&& forall|i: int, j: int|
            0 <= i < j < self.groups.len() ==> self.groups[i].id < self.groups[j].id
        &&& forall|i: int| 0 <= i < self.groups.len() ==> self.groups[i].id < self.next_group_id
    }
}

impl Store {
    /// Whether the products stand in strictly ascending order of id.
    fn products_ascend(&self) -> (r: bool)
        ensures
            r == self@.products_ascend(),
    {
        let mut k: usize = 1;
        while k < self.products.len()
            invariant
                1 <= k,
                forall|i: int, j: int|
                    0 <= i < j < k && j < self.products@.len() ==> self.products@[i].id
                        < self.products@[j].id,
            decreases self.products@.len() - k,
        {
            if self.products[k - 1].id >= self.products[k].id {
                return false;
            }
            proof {
                assert forall|i: int, j: int|
                    0 <= i < j < k + 1 && j < self.products@.len() implies self.products@[i].id
                    < self.products@[j].id by {
                    if j == k && i < k - 1 {
                        assert(self.products@[i].id < self.products@[k - 1].id);
                    }
                }
            }
            k += 1;
        }
        true
    }

    /// Whether the purchases stand in strictly ascending order of id, below
    /// the next id.
    fn purchases_ascend(&self) -> (r: bool)
        ensures
            r == self@.purchases_ascend(),
    {
        let mut k: usize = 0;
        while k < self.purchases.len()
            invariant
                k <= self.purchases@.len(),
                forall|i: int, j: int| 0 <= i < j < k ==> self.purchases@[i].id < self.purchases@[j].id,
                forall|i: int| 0 <= i < k ==> self.purchases@[i].id < self.next_purchase_id,
            decreases self.purchases@.len() - k,
        {
            if self.purchases[k].id >= self.next_purchase_id {
                proof {
                    let v = self@;
                    assert(v.purchases[k as int].id >= v.next_purchase_id);
                }
                return false;
            }
            if k > 0 && self.purchases[k - 1].id >= self.purchases[k].id {
                proof {
                    let v = self@;
                    assert(v.purchases[k - 1].id >= v.purchases[k as int].id);
                }
                return false;
            }
            proof {
                assert forall|i: int, j: int| 0 <= i < j < k + 1 implies self.purchases@[i].id
                    < self.purchases@[j].id by {
                    if j == k && i < k - 1 {
                        assert(self.purchases@[i].id < self.purchases@[k - 1].id);
                    }
                }
            }
            k += 1;
        }
        true
    }

    /// Whether the groups stand in strictly ascending order of id, below the
    /// next id.
    fn groups_ascend(&self) -> (r: bool)
        ensures
            r == self@.groups_ascend(),
    {
        let mut k: usize = 0;
        while k < self.groups.len()
            invariant
                k <= self.groups@.len(),
                forall|i: int, j: int| 0 <= i < j < k ==> self.groups@[i].id < self.groups@[j].id,
                forall|i: int| 0 <= i < k ==> self.groups@[i].id < self.next_group_id,
            decreases self.groups@.len() - k,
        {
            if self.groups[k].id >= self.next_group_id {
                proof {
                    let v = self@;
                    assert(v.groups[k as int].id >= v.next_group_id);
                }
                return false;
            }
            if k > 0 && self.groups[k - 1].id >= self.groups[k].id {
                proof {
                    let v = self@;
                    assert(v.groups[k - 1].id >= v.groups[k as int].id);
                }
                return false;
            }
            proof {
                assert forall|i: int, j: int| 0 <= i < j < k + 1 implies self.groups@[i].id
                    < self.groups@[j].id by {
                    if j == k && i < k - 1 {
                        assert(self.groups@[i].id < self.groups@[k - 1].id);
                    }
                }
            }
            k += 1;
        }
        true
    }

    /// Whether every pending group that a product names exists, is of that
    /// product and has not shipped.
    fn pending_groups_live(&self) -> (r: bool)
        requires
            self@.ordered(),
        ensures
            r == self@.pending_groups_live(),
    {
        let mut k: usize = 0;
        while k < self.products.len()
            invariant
                self@.ordered(),
                k <= self.products@.len(),
                forall|i: int|
                    0 <= i < k && (#[trigger] self@.products[i]).pending_group.is_some() ==> {
                        let g = self@.products[i].pending_group.unwrap();
                        &&& self@.has_group(g)
                        &&& self@.group(g).product_id == self@.products[i].id
                        &&& !self@.group(g).has_shipped
                    },
            decreases self.products@.len() - k,
        {
            match self.products[k].pending_group {
                Some(g) => {
                    assert(self@.products[k as int].pending_group.is_some());
                    match self.find_group(g) {
                        Some(gi) => {
                            if self.groups[gi].product_id != self.products[k].id
                                || self.groups[gi].has_shipped {
                                return false;
                            }
                        },
                        None => {
                            return false;
                        },
                    }
                },
                None => {},
            }
            k += 1;
        }
        true
    }

    /// Whether the product of every group is in the catalogue and names the
    /// group as pending unless the group has shipped.
    fn groups_have_products(&self) -> (r: bool)
        requires
            self@.ordered(),
        ensures
            r == self@.groups_have_products(),
    {
        let mut k: usize = 0;
        while k < self.groups.len()
            invariant
                self@.ordered(),
                k <= self.groups@.len(),
                forall|j: int|
                    0 <= j < k ==> {
                        &&& self@.has_product((#[trigger] self@.groups[j]).product_id)
                        &&& !self@.groups[j].has_shipped ==> self@.product(
                            self@.groups[j].product_id,
                        ).pending_group == Some(self@.groups[j].id)
                    },
            decreases self.groups@.len() - k,
        {
            let ghost record = self@.groups[k as int];
            match self.find_product(self.groups[k].product_id) {
                Some(pi) => {
                    if !self.groups[k].has_shipped {
                        match self.products[pi].pending_group {
                            Some(g) => {
                                if g != self.groups[k].id {
                                    return false;
                                }
                            },
                            None => {
                                return false;
                            },
                        }
                    }
                },
                None => {
                    return false;
                },
            }
            k += 1;
        }
        true
    }

    /// Whether the product of every purchase is in the catalogue.
    fn purchases_have_products(&self) -> (r: bool)
        requires
            self@.ordered(),
        ensures
            r == self@.purchases_have_products(),
    {
        let mut k: usize = 0;
        while k < self.purchases.len()
            invariant
                self@.ordered(),
                k <= self.purchases@.len(),
                forall|i: int|
                    0 <= i < k ==> self@.has_product((#[trigger] self@.purchases[i]).product_id),
            decreases self.purchases@.len() - k,
        {
            let ghost record = self@.purchases[k as int];
            if self.find_product(self.purchases[k].product_id).is_none() {
                return false;
            }
            k += 1;
        }
        true
    }

    /// Whether the attached purchases stand in strictly ascending order, each
    /// attached to a group whose id has been given out.
    fn members_ascend(&self) -> (r: bool)
        ensures
            r == ({
                &&& forall|i: int, j: int|
                    0 <= i < j < self@.members.len() ==> self@.members[i].purchase_id
                        < self@.members[j].purchase_id
                &&& forall|i: int|
                    0 <= i < self@.members.len() ==> (#[trigger] self@.members[i]).group_id
                        < self@.next_group_id
            }),
    {
        let mut k: usize = 0;
        while k < self.members.len()
            invariant
                k <= self.members@.len(),
                forall|i: int, j: int|
                    0 <= i < j < k ==> self.members@[i].purchase_id < self.members@[j].purchase_id,
                forall|i: int|
                    0 <= i < k ==> (#[trigger] self.members@[i]).group_id < self.next_group_id,
            decreases self.members@.len() - k,
        {
            if self.members[k].group_id >= self.next_group_id {
                proof {
                    let v = self@;
                    assert(v.members[k as int].group_id >= v.next_group_id);
                }
                return false;
            }
            if k > 0 && self.members[k - 1].purchase_id >= self.members[k].purchase_id {
                proof {
                    let v = self@;
                    assert(v.members[k - 1].purchase_id >= v.members[k as int].purchase_id);
                }
                return false;
            }
            proof {
                assert forall|i: int, j: int| 0 <= i < j < k + 1 implies self.members@[i].purchase_id
                    < self.members@[j].purchase_id by {
                    if j == k && i < k - 1 {
                        assert(self.members@[i].purchase_id < self.members@[k - 1].purchase_id);
                    }
                }
            }
            k += 1;
        }
        true
    }

    /// The number of purchases that are attached to a group.
    pub fn count_members(&self, group_id: GroupId) -> (r: usize)
        ensures
            r == member_count(self@.members, group_id),
    {
        let mut found: usize = 0;
        let mut k: usize = 0;
        while k < self.members.len()
            invariant
                k <= self.members@.len(),
                found <= k,
                found == member_count(self.members@.take(k as int), group_id),
            decreases self.members@.len() - k,
        {
            proof {
                assert(self.members@.take(k + 1).drop_last() =~= self.members@.take(k as int));
            }
            if self.members[k].group_id == group_id {
                found += 1;
            }
            k += 1;
        }
        proof {
            assert(self.members@.take(k as int) =~= self.members@);
        }
        found
    }

    /// Whether every group counts the purchases attached to it.
    fn groups_count_members(&self) -> (r: bool)
        ensures
            r == (forall|j: int|
                0 <= j < self@.groups.len() ==> (#[trigger] self@.groups[j]).count == member_count(
                    self@.members,
                    self@.groups[j].id,
                )),
    {
        let mut k: usize = 0;
        while k < self.groups.len()
            invariant
                k <= self.groups@.len(),
                forall|j: int|
                    0 <= j < k ==> (#[trigger] self@.groups[j]).count == member_count(
                        self@.members,
                        self@.groups[j].id,
                    ),
            decreases self.groups@.len() - k,
        {
            let found = self.count_members(self.groups[k].id);
            if found != self.groups[k].count as usize {
                proof {
                    let v = self@;
                    assert(v.groups[k as int].count != member_count(v.members, v.groups[k as int].id));
                }
                return false;
            }
            k += 1;
        }
        true
    }

    /// Whether every purchase on record is attached to the group that its
    /// record names, a group of its product that exists.
    fn purchases_attached(&self) -> (r: bool)
        requires
            self@.tables_wf(),
        ensures
            r == self@.purchases_attached(),
    {
        let mut k: usize = 0;
        while k < self.purchases.len()
            invariant
                self@.tables_wf(),
                k <= self.purchases@.len(),
                forall|i: int| 0 <= i < k ==> #[trigger] self@.is_attached(i),
            decreases self.purchases@.len() - k,
        {
            let ghost v = self@;
            let id = self.purchases[k].id;
            let group_id = self.purchases[k].group_id;
            let mi = match self.find_member(id) {
                Ok(mi) => mi,
                Err(_) => {
                    proof {
                        if v.is_attached(k as int) {
                            let (m, g) = choose|m: int, g: int| v.attached_at(k as int, m, g);
                            assert(v.attached_at(k as int, m, g));
                            assert(v.is_member_at(id, m));
                        }
                    }
                    return false;
                },
            };
            let gi = match self.find_group(group_id) {
                Some(gi) => gi,
                None => {
                    proof {
                        if v.is_attached(k as int) {
                            let (m, g) = choose|m: int, g: int| v.attached_at(k as int, m, g);
                            assert(v.attached_at(k as int, m, g));
                            assert(v.is_group_at(group_id, g));
                        }
                    }
                    return false;
                },
            };
            if self.members[mi].group_id != group_id || self.groups[gi].product_id
                != self.purchases[k].product_id {
                proof {
                    if v.is_attached(k as int) {
                        let (m, g) = choose|m: int, g: int| v.attached_at(k as int, m, g);
                        assert(v.attached_at(k as int, m, g));
                        assert(v.is_member_at(id, m));
                        v.lemma_member_at(id, m);
                        assert(v.is_group_at(group_id, g));
                        v.lemma_group_place(group_id, g);
                    }
                }
                return false;
            }
            proof {
                assert(v.attached_at(k as int, mi as int, gi as int));
            }
            k += 1;
        }
        true
    }

    /// Whether every attached purchase has an id that was given out.
    fn members_bounded(&self) -> (r: bool)
        ensures
            r == self@.members_bounded(),
    {
        let mut k: usize = 0;
        while k < self.members.len()
            invariant
                k <= self.members@.len(),
                forall|i: int|
                    0 <= i < k ==> (#[trigger] self@.members[i]).purchase_id
                        < self@.next_purchase_id,
            decreases self.members@.len() - k,
        {
            if self.members[k].purchase_id >= self.next_purchase_id {
                proof {
                    let v = self@;
                    assert(v.members[k as int].purchase_id >= v.next_purchase_id);
                }
                return false;
            }
            k += 1;
        }
        true
    }

    /// Whether the tables are in order, as they are at every step of a
    /// handler.
    pub fn is_in_order(&self) -> (r: bool)
        ensures
            r == self@.tables_wf(),
    {
        if !(self.products_ascend() && self.purchases_ascend() && self.groups_ascend()) {
            return false;
        }
        self.pending_groups_live() && self.groups_have_products() && self.purchases_have_products()
            && self.members_ascend() && self.groups_count_members()
    }

    /// Whether the store keeps the invariant that holds between handlers.
    pub fn is_well_formed(&self) -> (r: bool)
        ensures
            r == self@.wf(),
    {
        self.is_in_order() && self.purchases_attached() && self.members_bounded()
    }
}

} // verus!
