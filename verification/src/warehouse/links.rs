//! That every purchase on record stays attached to a live group, and that
//! only purchases whose id was given out are attached.

use crate::msg::product::ProductId;
use crate::msg::purchase::PurchaseId;
use crate::warehouse::group::lemma_count_remove;
use crate::warehouse::laws::lemma_place_exists;
use crate::warehouse::{Membership, StoreView};
use vstd::prelude::*;

verus! {

/// A change that leaves the purchases and the attachments alone, and keeps
/// the number of groups and every group's id and product, keeps every
/// purchase attached.
pub proof fn lemma_links_kept(before: StoreView, after: StoreView)
    requires
        before.purchases_attached(),
        after.purchases == before.purchases,
        after.members == before.members,
        after.groups.len() == before.groups.len(),
        forall|j: int|
            0 <= j < before.groups.len() ==> (#[trigger] after.groups[j]).id == before.groups[j].id
                && after.groups[j].product_id == before.groups[j].product_id,
    ensures
        after.purchases_attached(),
{
    assert forall|k: int| 0 <= k < after.purchases.len() implies #[trigger] after.is_attached(
        k,
    ) by {
        assert(before.is_attached(k));
        let (mi, gi) = choose|mi: int, gi: int| before.attached_at(k, mi, gi);
        assert(before.attached_at(k, mi, gi));
        assert(after.groups[gi].id == before.groups[gi].id);
        assert(after.attached_at(k, mi, gi));
    }
}

/// No purchase is attached under the id that the next purchase gets.
pub proof fn lemma_next_id_is_free(s: StoreView)
    requires
        s.members_bounded(),
    ensures
        !s.is_member(s.next_purchase_id),
{
    if s.is_member(s.next_purchase_id) {
        let i = s.member_index(s.next_purchase_id);
        assert(s.is_member_at(s.next_purchase_id, i));
        assert(s.members[i].purchase_id < s.next_purchase_id);
    }
}

/// Once a purchase whose id was given out has joined a group, every purchase
/// on record is still attached to a live group, and only purchases whose id
/// was given out are attached.
pub proof fn lemma_join_links(s: StoreView, purchase_id: PurchaseId, product_id: ProductId)
    requires
        s.wf(),
        purchase_id < s.next_purchase_id,
        s.attach_error(purchase_id, product_id).is_none(),
    ensures
        s.joined(purchase_id, product_id).purchases_attached(),
        s.joined(purchase_id, product_id).members_bounded(),
{
    let after = s.joined(purchase_id, product_id);
    lemma_place_exists(s, purchase_id);
    let p = s.member_place(purchase_id);
    let m = Membership { group_id: s.attach_group(product_id), purchase_id };
    let pi = s.product_index(product_id);
    assert(s.is_product_at(product_id, pi));
    assert(after.members == s.members.insert(p, m));
    assert(after.groups == s.attach(product_id).groups);
    assert forall|k: int| 0 <= k < after.purchases.len() implies #[trigger] after.is_attached(
        k,
    ) by {
        assert(s.is_attached(k));
        let (mi, gi) = choose|mi: int, gi: int| s.attached_at(k, mi, gi);
        assert(s.attached_at(k, mi, gi));
        let mi2 = if mi < p {
            mi
        } else {
            mi + 1
        };
        assert(after.members[mi2] == s.members[mi]);
        assert(after.groups[gi].id == s.groups[gi].id);
        assert(after.groups[gi].product_id == s.groups[gi].product_id);
        assert(after.attached_at(k, mi2, gi));
    }
    assert forall|i: int| 0 <= i < after.members.len() implies (
    #[trigger] after.members[i]).purchase_id < after.next_purchase_id by {
        if i < p {
            assert(after.members[i] == s.members[i]);
        } else if i > p {
            assert(after.members[i] == s.members[i - 1]);
        }
    }
}

/// After a purchase every purchase on record is attached to a live group,
/// the new one too, and only purchases whose id was given out are attached.
pub proof fn lemma_purchase_links(
    s: StoreView,
    spender: String,
    product_id: ProductId,
    quantity: u32,
)
    requires
        s.wf(),
        s.next_purchase_id < u64::MAX,
        s.attach_error(s.next_purchase_id, product_id).is_none(),
    ensures
        s.purchased(spender, product_id, quantity).purchases_attached(),
        s.purchased(spender, product_id, quantity).members_bounded(),
{
    let id = s.next_purchase_id;
    let after = s.purchased(spender, product_id, quantity);
    lemma_next_id_is_free(s);
    lemma_place_exists(s, id);
    let p = s.member_place(id);
    let m = Membership { group_id: s.attach_group(product_id), purchase_id: id };
    let pi = s.product_index(product_id);
    assert(s.is_product_at(product_id, pi));
    let n = s.purchases.len() as int;
    assert(after.members == s.members.insert(p, m));
    assert(after.groups == s.attach(product_id).groups);
    assert forall|k: int| 0 <= k < after.purchases.len() implies #[trigger] after.is_attached(
        k,
    ) by {
        if k < n {
            assert(s.is_attached(k));
            let (mi, gi) = choose|mi: int, gi: int| s.attached_at(k, mi, gi);
            assert(s.attached_at(k, mi, gi));
            let mi2 = if mi < p {
                mi
            } else {
                mi + 1
            };
            assert(after.purchases[k] == s.purchases[k]);
            assert(after.members[mi2] == s.members[mi]);
            assert(after.groups[gi].id == s.groups[gi].id);
            assert(after.groups[gi].product_id == s.groups[gi].product_id);
            assert(after.attached_at(k, mi2, gi));
        } else {
            match s.product(product_id).pending_group {
                Some(h) => {
                    assert(s.products[pi].pending_group.is_some());
                    let gi = s.group_index(h);
                    assert(s.is_group_at(h, gi));
                    assert(after.attached_at(k, p, gi));
                },
                None => {
                    assert(after.attached_at(k, p, s.groups.len() as int));
                },
            }
        }
    }
    assert forall|i: int| 0 <= i < after.members.len() implies (
    #[trigger] after.members[i]).purchase_id < after.next_purchase_id by {
        if i < p {
            assert(after.members[i] == s.members[i]);
        } else if i > p {
            assert(after.members[i] == s.members[i - 1]);
        }
    }
}

/// After the removal of a purchase every purchase that stays on record is
/// still attached to a live group.
pub proof fn lemma_removal_links(s: StoreView, id: PurchaseId)
    requires
        s.wf(),
        s.has_purchase(id),
        s.detach_error(id, s.purchase(id).product_id).is_none(),
    ensures
        s.removed(id).purchases_attached(),
        s.removed(id).members_bounded(),
{
    let after = s.removed(id);
    let removed = s.purchase(id);
    let g = removed.group_id;
    let i = s.purchase_index(id);
    assert(s.is_purchase_at(id, i));
    let mi = s.member_index(id);
    assert(s.is_member_at(id, mi));
    let pi = s.product_index(removed.product_id);
    assert(s.is_product_at(removed.product_id, pi));
    assert(s.products[pi].pending_group.is_some());
    let gi = s.group_index(g);
    assert(s.is_group_at(g, gi));
    assert(after.members == s.members.remove(mi));
    assert(after.groups == s.detach(g, removed.product_id).groups);
    lemma_count_remove(s.members, mi, g);
    assert forall|k: int| 0 <= k < after.purchases.len() implies #[trigger] after.is_attached(
        k,
    ) by {
        let k0 = if k < i {
            k
        } else {
            k + 1
        };
        assert(after.purchases[k] == s.purchases[k0]);
        if k0 < i {
            assert(s.purchases[k0].id < s.purchases[i].id);
        } else {
            assert(s.purchases[i].id < s.purchases[k0].id);
        }
        assert(s.is_attached(k0));
        let (m0, g0) = choose|m0: int, g0: int| s.attached_at(k0, m0, g0);
        assert(s.attached_at(k0, m0, g0));
        assert(m0 != mi);
        let m1 = if m0 < mi {
            m0
        } else {
            m0 - 1
        };
        assert(after.members[m1] == s.members[m0]);
        if s.group(g).count == 1 {
            if g0 == gi {
                lemma_count_remove(s.members.remove(mi), m1, g);
            }
            let g1 = if g0 < gi {
                g0
            } else {
                g0 - 1
            };
            assert(after.groups[g1] == s.groups[g0]);
            assert(after.attached_at(k, m1, g1));
        } else {
            assert(after.groups[g0].id == s.groups[g0].id);
            assert(after.groups[g0].product_id == s.groups[g0].product_id);
            assert(after.attached_at(k, m1, g0));
        }
    }
    assert forall|j: int| 0 <= j < after.members.len() implies (
    #[trigger] after.members[j]).purchase_id < after.next_purchase_id by {
        let j0 = if j < mi {
            j
        } else {
            j + 1
        };
        assert(after.members[j] == s.members[j0]);
    }
}

} // verus!
