//! The warehouse: catalogue, stock, purchases and discount groups.
//!
//! The ledger's tables are kept in a `Store`, whose records stand in
//! ascending order of id: the products, the purchases, the groups, and which
//! purchase is attached to which group. A handler gets the store and a
//! response to fill through a `StateContext`; where it fails it has changed
//! neither.
//!
//! Between handlers the store keeps its invariant, `wf`: the tables are in
//! order (`tables_wf`), every purchase on record is attached to a live group
//! of its product, and no purchase is attached whose id was not given out.
//! The steps that a handler is made of, joining and leaving a group and
//! moving stock, are handlers too; they ask for `tables_wf` only, which is
//! what holds between the steps.

pub mod audit;
pub mod entry;
pub mod group;
pub mod ibc;
pub mod laws;
pub mod links;
pub mod product;
pub mod purchases;
pub mod query;

use crate::decimal::Decimal;
use crate::ibc::IbcChannel;
use crate::msg::contract::warehouse::GroupId;
use crate::msg::product::{Product, ProductId};
use crate::msg::purchase::{Purchase, PurchaseId};
use crate::response::Response;
use vstd::prelude::*;

verus! {

/// A product with its owner and the group that is pending for it, if any.
#[derive(Clone, Debug, PartialEq, Eq)]
pub struct ProductRecord {
    pub id: ProductId,
    pub owner: String,
    pub name: String,
    pub price: Decimal,
    pub stock: u32,
    /// The one group of this product that has not shipped yet.
    pub pending_group: Option<GroupId>,
}

impl ProductRecord {
    /// The record as the warehouse reports it.
    pub open spec fn spec_product(self) -> Product {
        Product { id: self.id, name: self.name, price: self.price, stock: self.stock }
    }

    /// The record as the warehouse reports it.
    pub fn product(&self) -> (r: Product)
        ensures
            r == self.spec_product(),
    {
        Product { id: self.id, name: self.name.clone(), price: self.price, stock: self.stock }
    }
}

/// A group: the purchases of one product that share a discount.
#[derive(Clone, Debug, PartialEq, Eq)]
pub struct GroupRecord {
    pub id: GroupId,
    pub product_id: ProductId,
    /// The owner of the product when the group was opened.
    pub owner: String,
    /// The number of purchases attached, as the store's `members` hold them.
    pub count: u32,
    pub has_shipped: bool,
}

/// That a purchase is attached to a group.
#[derive(Clone, Copy, Debug, PartialEq, Eq)]
pub struct Membership {
    pub group_id: GroupId,
    pub purchase_id: PurchaseId,
}

/// The tables of the warehouse.
#[derive(Clone, Debug, PartialEq, Eq)]
pub struct Store {
    pub products: Vec<ProductRecord>,
    pub purchases: Vec<Purchase>,
    pub groups: Vec<GroupRecord>,
    /// The purchases that are attached to groups, in ascending order of
    /// purchase; no purchase is attached twice.
    pub members: Vec<Membership>,
    /// The id that the next purchase gets.
    pub next_purchase_id: PurchaseId,
    /// The id that the next group gets.
    pub next_group_id: GroupId,
    /// The channel to the payment ledger, once connected.
    pub payment_channel: Option<IbcChannel>,
    /// The channel to the receipt ledger, once connected.
    pub nft_channel: Option<IbcChannel>,
}

/// The tables of the warehouse as sequences.
pub struct StoreView {
    pub products: Seq<ProductRecord>,
    pub purchases: Seq<Purchase>,
    pub groups: Seq<GroupRecord>,
    pub members: Seq<Membership>,
    pub next_purchase_id: PurchaseId,
    pub next_group_id: GroupId,
    pub payment_channel: Option<IbcChannel>,
    pub nft_channel: Option<IbcChannel>,
}

impl View for Store {
    type V = StoreView;

    open spec fn view(&self) -> StoreView {
        StoreView {
            products: self.products@,
            purchases: self.purchases@,
            groups: self.groups@,
            members: self.members@,
            next_purchase_id: self.next_purchase_id,
            next_group_id: self.next_group_id,
            payment_channel: self.payment_channel,
            nft_channel: self.nft_channel,
        }
    }
}

/// The number of items that the purchases in `purchases` hold of a product.
pub open spec fn reserved(purchases: Seq<Purchase>, product_id: ProductId) -> nat
    decreases purchases.len(),
{
    if purchases.len() == 0 {
        0
    } else {
        let rest = reserved(purchases.drop_last(), product_id);
        if purchases.last().product_id == product_id {
            rest + purchases.last().quantity as nat
        } else {
            rest
        }
    }
}

/// The number of purchases that are attached to a group.
pub open spec fn member_count(members: Seq<Membership>, group_id: GroupId) -> nat
    decreases members.len(),
{
    if members.len() == 0 {
        0
    } else {
        member_count(members.drop_last(), group_id) + (if members.last().group_id == group_id {
            1nat
        } else {
            0
        })
    }
}

impl StoreView {
    /// Whether `i` is the place at which the purchase `id` is attached.
    pub open spec fn is_member_at(self, id: PurchaseId, i: int) -> bool {
        0 <= i < self.members.len() && self.members[i].purchase_id == id
    }

    /// Whether the purchase `id` is attached to a group.
    pub open spec fn is_member(self, id: PurchaseId) -> bool {
        exists|i: int| self.is_member_at(id, i)
    }

    /// The place at which the purchase `id` is attached.
    pub open spec fn member_index(self, id: PurchaseId) -> int {
        choose|i: int| self.is_member_at(id, i)
    }

    /// The group to which the purchase `id` is attached.
    pub open spec fn member_group(self, id: PurchaseId) -> GroupId {
        self.members[self.member_index(id)].group_id
    }

    /// Whether `p` is the place at which the purchase `id` is to be attached:
    /// the purchases before it are smaller, those from it on are greater.
    pub open spec fn is_member_place(self, id: PurchaseId, p: int) -> bool {
        &&& 0 <= p <= self.members.len()
        &&& forall|k: int| 0 <= k < p ==> (#[trigger] self.members[k]).purchase_id < id
        &&& forall|k: int|
            p <= k < self.members.len() ==> (#[trigger] self.members[k]).purchase_id > id
    }

    /// The place at which the purchase `id` is to be attached.
    pub open spec fn member_place(self, id: PurchaseId) -> int {
        choose|p: int| self.is_member_place(id, p)
    }

    /// Whether `i` is the place of the product `id`.
    pub open spec fn is_product_at(self, id: ProductId, i: int) -> bool {
        0 <= i < self.products.len() && self.products[i].id == id
    }

    /// Whether the catalogue holds a product `id`.
    pub open spec fn has_product(self, id: ProductId) -> bool {
        exists|i: int| self.is_product_at(id, i)
    }

    /// The place of the product `id` in the catalogue.
    pub open spec fn product_index(self, id: ProductId) -> int {
        choose|i: int| self.is_product_at(id, i)
    }

    /// The product `id`.
    pub open spec fn product(self, id: ProductId) -> ProductRecord {
        self.products[self.product_index(id)]
    }

    /// Whether `i` is the place of the purchase `id`.
    pub open spec fn is_purchase_at(self, id: PurchaseId, i: int) -> bool {
        0 <= i < self.purchases.len() && self.purchases[i].id == id
    }

    /// Whether a purchase `id` is on record.
    pub open spec fn has_purchase(self, id: PurchaseId) -> bool {
        exists|i: int| self.is_purchase_at(id, i)
    }

    /// The place of the purchase `id`.
    pub open spec fn purchase_index(self, id: PurchaseId) -> int {
        choose|i: int| self.is_purchase_at(id, i)
    }

    /// The purchase `id`.
    pub open spec fn purchase(self, id: PurchaseId) -> Purchase {
        self.purchases[self.purchase_index(id)]
    }

    /// Whether `i` is the place of the group `id`.
    pub open spec fn is_group_at(self, id: GroupId, i: int) -> bool {
        0 <= i < self.groups.len() && self.groups[i].id == id
    }

    /// Whether a group `id` exists.
    pub open spec fn has_group(self, id: GroupId) -> bool {
        exists|i: int| self.is_group_at(id, i)
    }

    /// The place of the group `id`.
    pub open spec fn group_index(self, id: GroupId) -> int {
        choose|i: int| self.is_group_at(id, i)
    }

    /// The group `id`.
    pub open spec fn group(self, id: GroupId) -> GroupRecord {
        self.groups[self.group_index(id)]
    }

    /// The records of each table stand in strictly ascending order of id, and
    /// the ids of purchases and groups lie below the next id to give out.
    pub open spec fn ordered(self) -> bool {
        &&& forall|i: int, j: int|
            0 <= i < j < self.products.len() ==> self.products[i].id < self.products[j].id
        &&& forall|i: int, j: int|
            0 <= i < j < self.purchases.len() ==> self.purchases[i].id < self.purchases[j].id
        &&& forall|i: int, j: int|
            0 <= i < j < self.groups.len() ==> self.groups[i].id < self.groups[j].id
        &&& forall|i: int|
            0 <= i < self.purchases.len() ==> self.purchases[i].id < self.next_purchase_id
        &&& forall|i: int| 0 <= i < self.groups.len() ==> self.groups[i].id < self.next_group_id
    }

    /// The group that a product names as pending exists, is of that product
    /// and has not shipped.
    pub open spec fn pending_groups_live(self) -> bool {
        forall|i: int|
            0 <= i < self.products.len() && (#[trigger] self.products[i]).pending_group.is_some()
                ==> {
                let g = self.products[i].pending_group.unwrap();
                &&& self.has_group(g)
                &&& self.group(g).product_id == self.products[i].id
                &&& !self.group(g).has_shipped
            }
    }

    /// The product of every group is in the catalogue, and a group that has
    /// not shipped is the pending group of its product.
    pub open spec fn groups_have_products(self) -> bool {
        forall|j: int|
            0 <= j < self.groups.len() ==> {
                &&& self.has_product((#[trigger] self.groups[j]).product_id)
                &&& !self.groups[j].has_shipped ==> self.product(
                    self.groups[j].product_id,
                ).pending_group == Some(self.groups[j].id)
            }
    }

    /// The product of every purchase is in the catalogue.
    pub open spec fn purchases_have_products(self) -> bool {
        forall|k: int|
            0 <= k < self.purchases.len() ==> self.has_product(
                (#[trigger] self.purchases[k]).product_id,
            )
    }

    /// The catalogue, the purchases and the groups stand in order and name
    /// each other as they should.
    pub open spec fn linked(self) -> bool {
        &&& self.ordered()
        &&& self.pending_groups_live()
        &&& self.groups_have_products()
        &&& self.purchases_have_products()
    }

    /// The attached purchases stand in strictly ascending order, so that none
    /// is attached twice; each is attached to a group whose id has been given
    /// out; and every group counts the purchases attached to it.
    pub open spec fn members_wf(self) -> bool {
        &&& forall|i: int, j: int|
            0 <= i < j < self.members.len() ==> self.members[i].purchase_id
                < self.members[j].purchase_id
        &&& forall|i: int|
            0 <= i < self.members.len() ==> (#[trigger] self.members[i]).group_id
                < self.next_group_id
        &&& forall|j: int|
            0 <= j < self.groups.len() ==> (#[trigger] self.groups[j]).count == member_count(
                self.members,
                self.groups[j].id,
            )
    }

    /// What holds of the tables at every step of a handler: they stand in
    /// order, name each other, and every group counts the purchases
    /// attached to it.
    pub open spec fn tables_wf(self) -> bool {
        &&& self.linked()
        &&& self.members_wf()
    }

    /// Whether the purchase at place `k` of the record is attached, at place
    /// `mi`, to the group that its record names, which stands at place `gi`
    /// and is a group of the purchase's product.
    pub open spec fn attached_at(self, k: int, mi: int, gi: int) -> bool {
        &&& 0 <= mi < self.members.len()
        &&& self.members[mi].purchase_id == self.purchases[k].id
        &&& self.members[mi].group_id == self.purchases[k].group_id
        &&& 0 <= gi < self.groups.len()
        &&& self.groups[gi].id == self.purchases[k].group_id
        &&& self.groups[gi].product_id == self.purchases[k].product_id
    }

    /// Whether the purchase at place `k` of the record is attached to the
    /// group that its record names, and that group exists.
    pub open spec fn is_attached(self, k: int) -> bool {
        exists|mi: int, gi: int| self.attached_at(k, mi, gi)
    }

    /// Every purchase on record is attached to the group that its record
    /// names, a group of its product that exists.
    pub open spec fn purchases_attached(self) -> bool {
        forall|k: int| 0 <= k < self.purchases.len() ==> #[trigger] self.is_attached(k)
    }

    /// Every attached purchase has an id that the purchase counter has given
    /// out.
    pub open spec fn members_bounded(self) -> bool {
        forall|i: int|
            0 <= i < self.members.len() ==> (#[trigger] self.members[i]).purchase_id
                < self.next_purchase_id
    }

    /// The store's invariant, which holds between handlers: the tables are
    /// in order, every purchase on record is attached to a live group, and
    /// no purchase is attached whose id was not given out.
    pub open spec fn wf(self) -> bool {
        &&& self.tables_wf()
        &&& self.purchases_attached()
        &&& self.members_bounded()
    }

    /// Where purchases are attached once at most, a purchase's id decides
    /// the place at which it is attached.
    pub proof fn lemma_member_at(self, id: PurchaseId, i: int)
        requires
            self.members_wf(),
            self.is_member_at(id, i),
        ensures
            self.is_member(id),
            self.member_index(id) == i,
            self.member_group(id) == self.members[i].group_id,
    {
        let j = self.member_index(id);
        assert(self.is_member_at(id, j));
        if i < j {
            assert(self.members[i].purchase_id < self.members[j].purchase_id);
        } else if j < i {
            assert(self.members[j].purchase_id < self.members[i].purchase_id);
        }
    }

    /// There is one place at most at which a purchase can be attached.
    pub proof fn lemma_member_place(self, id: PurchaseId, p: int)
        requires
            self.is_member_place(id, p),
        ensures
            self.member_place(id) == p,
            !self.is_member(id),
    {
        let q = self.member_place(id);
        assert(self.is_member_place(id, q));
        if p < q {
            assert(self.members[p].purchase_id > id);
            assert(self.members[p].purchase_id < id);
        } else if q < p {
            assert(self.members[q].purchase_id > id);
            assert(self.members[q].purchase_id < id);
        }
        if self.is_member(id) {
            let i = self.member_index(id);
            assert(self.is_member_at(id, i));
            if i < p {
                assert(self.members[i].purchase_id < id);
            } else {
                assert(self.members[i].purchase_id > id);
            }
        }
    }

    /// The items of a product that are in stock or held by a purchase.
    pub open spec fn units(self, id: ProductId) -> nat {
        self.product(id).stock as nat + reserved(self.purchases, id)
    }

    /// In an ordered store a product's id decides its place.
    pub proof fn lemma_product_place(self, id: ProductId, i: int)
        requires
            self.ordered(),
            self.is_product_at(id, i),
        ensures
            self.has_product(id),
            self.product_index(id) == i,
            self.product(id) == self.products[i],
    {
        let j = self.product_index(id);
        assert(self.is_product_at(id, j));
        if i < j {
            assert(self.products[i].id < self.products[j].id);
        } else if j < i {
            assert(self.products[j].id < self.products[i].id);
        }
    }

    /// In an ordered store a purchase's id decides its place.
    pub proof fn lemma_purchase_place(self, id: PurchaseId, i: int)
        requires
            self.ordered(),
            self.is_purchase_at(id, i),
        ensures
            self.has_purchase(id),
            self.purchase_index(id) == i,
            self.purchase(id) == self.purchases[i],
    {
        let j = self.purchase_index(id);
        assert(self.is_purchase_at(id, j));
        if i < j {
            assert(self.purchases[i].id < self.purchases[j].id);
        } else if j < i {
            assert(self.purchases[j].id < self.purchases[i].id);
        }
    }

    /// In an ordered store a group's id decides its place.
    pub proof fn lemma_group_place(self, id: GroupId, i: int)
        requires
            self.ordered(),
            self.is_group_at(id, i),
        ensures
            self.has_group(id),
            self.group_index(id) == i,
            self.group(id) == self.groups[i],
    {
        let j = self.group_index(id);
        assert(self.is_group_at(id, j));
        if i < j {
            assert(self.groups[i].id < self.groups[j].id);
        } else if j < i {
            assert(self.groups[j].id < self.groups[i].id);
        }
    }
}

impl Store {
    /// An empty store.
    pub fn new() -> (r: Store)
        ensures
            r@.wf(),
            r@.products.len() == 0,
            r@.purchases.len() == 0,
            r@.groups.len() == 0,
            r@.members.len() == 0,
            r@.next_purchase_id == 0,
            r@.next_group_id == 0,
            r@.payment_channel.is_none(),
            r@.nft_channel.is_none(),
    {
        Store {
            products: Vec::new(),
            purchases: Vec::new(),
            groups: Vec::new(),
            members: Vec::new(),
            next_purchase_id: 0,
            next_group_id: 0,
            payment_channel: None,
            nft_channel: None,
        }
    }

    /// The place of the product `id`, if the catalogue holds it.
    pub fn find_product(&self, id: ProductId) -> (r: Option<usize>)
        requires
            self@.ordered(),
        ensures
            r.is_some() == self@.has_product(id),
            r matches Some(i) ==> self@.is_product_at(id, i as int) && self@.product_index(id)
                == i,
    {
        let mut i: usize = 0;
        while i < self.products.len()
            invariant
                i <= self.products.len(),
                self@.ordered(),
                forall|k: int| 0 <= k < i ==> !self@.is_product_at(id, k),
            decreases self.products.len() - i,
        {
            if self.products[i].id == id {
                proof {
                    self@.lemma_product_place(id, i as int);
                }
                return Some(i);
            }
            i += 1;
        }
        None
    }

    /// The place of the purchase `id`, if it is on record.
    pub fn find_purchase(&self, id: PurchaseId) -> (r: Option<usize>)
        requires
            self@.ordered(),
        ensures
            r.is_some() == self@.has_purchase(id),
            r matches Some(i) ==> self@.is_purchase_at(id, i as int) && self@.purchase_index(id)
                == i,
    {
        let mut i: usize = 0;
        while i < self.purchases.len()
            invariant
                i <= self.purchases.len(),
                self@.ordered(),
                forall|k: int| 0 <= k < i ==> !self@.is_purchase_at(id, k),
            decreases self.purchases.len() - i,
        {
            if self.purchases[i].id == id {
                proof {
                    self@.lemma_purchase_place(id, i as int);
                }
                return Some(i);
            }
            i += 1;
        }
        None
    }

    /// The place at which the purchase `id` is attached, or else the place
    /// at which it is to be attached.
    pub fn find_member(&self, id: PurchaseId) -> (r: Result<usize, usize>)
        requires
            self@.members_wf(),
        ensures
            match r {
                Ok(i) => self@.is_member_at(id, i as int) && self@.is_member(id)
                    && self@.member_index(id) == i,
                Err(p) => self@.is_member_place(id, p as int) && !self@.is_member(id)
                    && self@.member_place(id) == p,
            },
    {
        let mut k: usize = 0;
        while k < self.members.len()
            invariant
                self@.members_wf(),
                k <= self.members.len(),
                forall|m: int| 0 <= m < k ==> (#[trigger] self@.members[m]).purchase_id < id,
            decreases self.members.len() - k,
        {
            let found = self.members[k].purchase_id;
            if found == id {
                proof {
                    self@.lemma_member_at(id, k as int);
                }
                return Ok(k);
            }
            if found > id {
                proof {
                    assert forall|m: int| k <= m < self@.members.len() implies (
                    #[trigger] self@.members[m]).purchase_id > id by {
                        if m > k {
                            assert(self@.members[k as int].purchase_id
                                < self@.members[m].purchase_id);
                        }
                    }
                    self@.lemma_member_place(id, k as int);
                }
                return Err(k);
            }
            k += 1;
        }
        proof {
            self@.lemma_member_place(id, k as int);
        }
        Err(k)
    }

    /// The place of the group `id`, if it exists.
    pub fn find_group(&self, id: GroupId) -> (r: Option<usize>)
        requires
            self@.ordered(),
        ensures
            r.is_some() == self@.has_group(id),
            r matches Some(i) ==> self@.is_group_at(id, i as int) && self@.group_index(id) == i,
    {
        let mut i: usize = 0;
        while i < self.groups.len()
            invariant
                i <= self.groups.len(),
                self@.ordered(),
                forall|k: int| 0 <= k < i ==> !self@.is_group_at(id, k),
            decreases self.groups.len() - i,
        {
            if self.groups[i].id == id {
                proof {
                    self@.lemma_group_place(id, i as int);
                }
                return Some(i);
            }
            i += 1;
        }
        None
    }
}

/// The store of a handler's run and the response that it fills.
#[derive(Clone, Debug, PartialEq, Eq)]
pub struct StateContext {
    pub store: Store,
    pub response: Response,
}

impl StateContext {
    /// A context over a store, with an empty response.
    pub fn new(store: Store) -> (r: StateContext)
        ensures
            r.store == store,
            r.response.events@ == Seq::<crate::response::Event>::empty(),
            r.response.messages@ == Seq::<crate::response::OutMsg>::empty(),
    {
        StateContext { store, response: Response::new() }
    }
}

/// The handlers of the warehouse, with the time of the block they run in.
#[derive(Clone, Copy, Debug, PartialEq, Eq)]
pub struct State {
    /// The block's time, in nanoseconds since the epoch.
    pub block_time_nanos: u64,
}

} // verus!
