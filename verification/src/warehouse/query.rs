//! The read-only side of the warehouse: single records and pages of them.

use crate::error::Error;
use crate::msg::contract::warehouse::{GroupId, GroupInfo};
use crate::msg::product::{Product, ProductId};
use crate::page::{page_limit, spec_page_limit};
use crate::warehouse::{GroupRecord, ProductRecord, State, Store, StoreView};
use vstd::prelude::*;

verus! {

/// Whether a listing of the products of `owner`, or of all where no owner is
/// given, after the id `start_after`, holds the product.
pub open spec fn product_selected(
    p: ProductRecord,
    owner: Option<String>,
    start_after: Option<ProductId>,
) -> bool {
    &&& (owner matches Some(o) ==> p.owner@ == o@)
    &&& (start_after matches Some(a) ==> p.id > a)
}

/// The first `limit` of the selected products, in the order of the catalogue.
pub open spec fn listed_products(
    products: Seq<ProductRecord>,
    owner: Option<String>,
    start_after: Option<ProductId>,
    limit: nat,
) -> Seq<Product>
    decreases products.len(),
{
    if products.len() == 0 {
        Seq::empty()
    } else {
        let before = listed_products(products.drop_last(), owner, start_after, limit);
        if before.len() < limit && product_selected(products.last(), owner, start_after) {
            before.push(products.last().spec_product())
        } else {
            before
        }
    }
}

/// Whether a listing of the groups of `owner`, or of all where no owner is
/// given, after the id `start_after`, holds the group.
pub open spec fn group_selected(g: GroupRecord, owner: Option<String>, start_after: Option<GroupId>)
    -> bool {
    &&& (owner matches Some(o) ==> g.owner@ == o@)
    &&& (start_after matches Some(a) ==> g.id > a)
}

/// The first `limit` of the selected groups among the first `n` groups of the
/// store, in the order of their ids.
pub open spec fn listed_groups(
    s: StoreView,
    n: nat,
    owner: Option<String>,
    start_after: Option<GroupId>,
    limit: nat,
) -> Seq<GroupInfo>
    decreases n,
{
    if n == 0 || n > s.groups.len() {
        Seq::empty()
    } else {
        let before = listed_groups(s, (n - 1) as nat, owner, start_after, limit);
        if before.len() < limit && group_selected(s.groups[n - 1], owner, start_after) {
            before.push(s.group_info(s.groups[n - 1].id))
        } else {
            before
        }
    }
}

impl State {
    /// A page of the catalogue: the products of `owner`, or of all, with an
    /// id above `start_after`, in ascending order of id, at most as many as
    /// the page is long.
    pub fn list_products(
        &self,
        store: &Store,
        owner: Option<String>,
        limit: Option<u32>,
        start_after: Option<ProductId>,
    ) -> (r: Result<Vec<Product>, Error>)
        ensures
            r matches Ok(page) && page@ == listed_products(
                store@.products,
                owner,
                start_after,
                spec_page_limit(limit),
            ),
    {
        let limit = page_limit(limit);
        let mut page: Vec<Product> = Vec::new();
        let mut k: usize = 0;
        while k < store.products.len()
            invariant
                k <= store.products.len(),
                page@ == listed_products(
                    store@.products.take(k as int),
                    owner,
                    start_after,
                    limit as nat,
                ),
            decreases store.products.len() - k,
        {
            proof {
                assert(store@.products.take(k + 1).drop_last() =~= store@.products.take(k as int));
            }
            let record = &store.products[k];
            let of_owner = match &owner {
                Some(o) => record.owner == *o,
                None => true,
            };
            let after = match start_after {
                Some(a) => record.id > a,
                None => true,
            };
            if page.len() < limit && of_owner && after {
                page.push(record.product());
            }
            k += 1;
        }
        proof {
            assert(store@.products.take(k as int) =~= store@.products);
        }
        Ok(page)
    }

    /// The product `id`.
    pub fn get_product(&self, store: &Store, id: ProductId) -> (r: Result<Product, Error>)
        requires
            store@.tables_wf(),
        ensures
            r == (if store@.has_product(id) {
                Ok::<Product, Error>(store@.product(id).spec_product())
            } else {
                Err(Error::ProductNotFound)
            }),
    {
        match store.find_product(id) {
            Some(i) => Ok(store.products[i].product()),
            None => Err(Error::ProductNotFound),
        }
    }

    /// The owner of the product `id`.
    pub fn get_product_owner(&self, store: &Store, id: ProductId) -> (r: Result<String, Error>)
        requires
            store@.tables_wf(),
        ensures
            r == (if store@.has_product(id) {
                Ok::<String, Error>(store@.product(id).owner)
            } else {
                Err(Error::ProductNotFound)
            }),
    {
        match store.find_product(id) {
            Some(i) => Ok(store.products[i].owner.clone()),
            None => Err(Error::ProductNotFound),
        }
    }

    /// The products with the given ids, in the order of the ids. Fails where
    /// one of them is not in the catalogue.
    pub fn get_products(&self, store: &Store, ids: Vec<ProductId>) -> (r: Result<
        Vec<Product>,
        Error,
    >)
        requires
            store@.tables_wf(),
        ensures
            match r {
                Ok(ps) => {
                    &&& ps@.len() == ids@.len()
                    &&& forall|k: int|
                        0 <= k < ps@.len() ==> store@.has_product(#[trigger] ids@[k]) && ps@[k]
                            == store@.product(ids@[k]).spec_product()
                },
                Err(e) => e == Error::ProductNotFound && exists|k: int|
                    0 <= k < ids@.len() && !store@.has_product(#[trigger] ids@[k]),
            },
    {
        let mut out: Vec<Product> = Vec::new();
        let mut k: usize = 0;
        while k < ids.len()
            invariant
                store@.tables_wf(),
                k <= ids@.len(),
                out@.len() == k,
                forall|m: int|
                    0 <= m < k ==> store@.has_product(#[trigger] ids@[m]) && out@[m]
                        == store@.product(ids@[m]).spec_product(),
            decreases ids@.len() - k,
        {
            match self.get_product(store, ids[k]) {
                Ok(p) => out.push(p),
                Err(e) => {
                    return Err(e);
                },
            }
            k += 1;
        }
        Ok(out)
    }

    /// A page of the groups: the groups of `owner`, or of all, with an id
    /// above `start_after`, in ascending order of id, at most as many as the
    /// page is long.
    pub fn list_groups(
        &self,
        store: &Store,
        owner: Option<String>,
        limit: Option<u32>,
        start_after: Option<GroupId>,
    ) -> (r: Result<Vec<GroupInfo>, Error>)
        requires
            store@.tables_wf(),
        ensures
            r matches Ok(page) && page@ == listed_groups(
                store@,
                store@.groups.len(),
                owner,
                start_after,
                spec_page_limit(limit),
            ),
    {
        let limit = page_limit(limit);
        let mut page: Vec<GroupInfo> = Vec::new();
        let mut k: usize = 0;
        while k < store.groups.len()
            invariant
                store@.tables_wf(),
                k <= store.groups.len(),
                page@ == listed_groups(store@, k as nat, owner, start_after, limit as nat),
            decreases store.groups.len() - k,
        {
            let record = &store.groups[k];
            let of_owner = match &owner {
                Some(o) => record.owner == *o,
                None => true,
            };
            let after = match start_after {
                Some(a) => record.id > a,
                None => true,
            };
            if page.len() < limit && of_owner && after {
                proof {
                    store@.lemma_group_place(record.id, k as int);
                }
                match self.get_group_info(store, record.id) {
                    Ok(info) => page.push(info),
                    Err(_) => vstd::pervasive::unreached(),
                }
            }
            k += 1;
        }
        Ok(page)
    }

    /// The groups with the given ids, in the order of the ids. Fails where
    /// one of them does not exist.
    pub fn get_groups(&self, store: &Store, ids: Vec<GroupId>) -> (r: Result<Vec<GroupInfo>, Error>)
        requires
            store@.tables_wf(),
        ensures
            match r {
                Ok(gs) => {
                    &&& gs@.len() == ids@.len()
                    &&& forall|k: int|
                        0 <= k < gs@.len() ==> store@.has_group(#[trigger] ids@[k]) && gs@[k]
                            == store@.group_info(ids@[k])
                },
                Err(e) => e == Error::GroupNotFound && exists|k: int|
                    0 <= k < ids@.len() && !store@.has_group(#[trigger] ids@[k]),
            },
    {
        let mut out: Vec<GroupInfo> = Vec::new();
        let mut k: usize = 0;
        while k < ids.len()
            invariant
                store@.tables_wf(),
                k <= ids@.len(),
                out@.len() == k,
                forall|m: int|
                    0 <= m < k ==> store@.has_group(#[trigger] ids@[m]) && out@[m]
                        == store@.group_info(ids@[m]),
            decreases ids@.len() - k,
        {
            match self.get_group_info(store, ids[k]) {
                Ok(g) => out.push(g),
                Err(e) => {
                    return Err(e);
                },
            }
            k += 1;
        }
        Ok(out)
    }
}

} // verus!
