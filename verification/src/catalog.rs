//! The product repository: an in-memory store of records keyed by their
//! identifier, with the list/create/get/update/delete operations and the
//! laws that relate them.
//!
//! The store keeps records in insertion order, and keeps identifiers
//! unique ([`Catalog::wf`]).  A missing identifier makes `get` and
//! `update` report [`RepoError::NotFound`]; `delete` of a missing
//! identifier is a no-op that still succeeds.

use vstd::prelude::*;
use vstd::pervasive::VecAdditionalExecFns;

use crate::ids::fresh_id;
use crate::product::{views_of, NewProduct, Product, ProductView, RepoError};

verus! {

/// Whether some record in `s` carries the identifier `id`.
pub open spec fn has_id(s: Seq<ProductView>, id: u128) -> bool {
    exists|i: int| 0 <= i < s.len() && s[i].id == id
}

/// The position of the record carrying `id`; meaningful when `has_id` holds
/// and identifiers are unique.
pub open spec fn index_of_id(s: Seq<ProductView>, id: u128) -> int {
    choose|i: int| 0 <= i < s.len() && s[i].id == id
}

/// The record carrying `id`; meaningful when `has_id` holds.
pub open spec fn record_at(s: Seq<ProductView>, id: u128) -> ProductView {
    s[index_of_id(s, id)]
}

/// No two records carry the same identifier.
pub open spec fn unique_ids(s: Seq<ProductView>) -> bool {
    forall|i: int, j: int| 0 <= i < j < s.len() ==> s[i].id != s[j].id
}

/// At a position known to carry `id`, the `choose` underlying
/// [`index_of_id`] picks exactly that position.
pub proof fn lemma_index_unique(s: Seq<ProductView>, id: u128, k: int)
    requires
        unique_ids(s),
        0 <= k < s.len(),
        s[k].id == id,
    ensures
        has_id(s, id),
        index_of_id(s, id) == k,
        record_at(s, id) == s[k],
{
    assert(has_id(s, id));
    let j = index_of_id(s, id);
    assert(0 <= j < s.len() && s[j].id == id);
    if j != k {
        if j < k {
            assert(s[j].id != s[k].id);
        } else {
            assert(s[k].id != s[j].id);
        }
    }
}

/// What one delete leaves of the store: the record a held identifier
/// carries is removed; a missing identifier leaves the store alone.
pub open spec fn delete_one(s: Seq<ProductView>, id: u128) -> Seq<ProductView> {
    if has_id(s, id) {
        s.remove(index_of_id(s, id))
    } else {
        s
    }
}

/// What deleting each identifier of `ds` in turn leaves of the store.
pub open spec fn after_deletes(s: Seq<ProductView>, ds: Seq<u128>) -> Seq<ProductView>
    decreases ds.len(),
{
    if ds.len() == 0 {
        s
    } else {
        after_deletes(delete_one(s, ds[0]), ds.drop_first())
    }
}

/// The in-memory product store.
pub struct Catalog {
    products: Vec<Product>,
}

impl View for Catalog {
    type V = Seq<ProductView>;

    closed spec fn view(&self) -> Seq<ProductView> {
        views_of(self.products@)
    }
}

impl Catalog {
    /// The store invariant: identifiers are unique.
    pub open spec fn wf(&self) -> bool {
        unique_ids(self@)
    }

    /// An empty store.
    pub fn new() -> (r: Catalog)
        ensures
            r@ == Seq::<ProductView>::empty(),
            r.wf(),
    {
        let r = Catalog { products: Vec::new() };
        proof {
            assert(r@ =~= Seq::<ProductView>::empty());
        }
        r
    }

    /// The position of the record carrying `id`, if any.
    fn find_index(&self, id: u128) -> (r: Option<usize>)
        ensures
            match r {
                Some(k) => k < self@.len() && self@[k as int].id == id,
                None => !has_id(self@, id),
            },
    {
        let mut i: usize = 0;
        while i < self.products.len()
            invariant
                i <= self.products.len(),
                self@.len() == self.products.len(),
                forall|j: int| 0 <= j < i ==> self@[j].id != id,
            decreases self.products.len() - i,
        {
            if self.products[i].id == id {
                return Some(i);
            }
            i += 1;
        }
        None
    }

    /// All records, in store order.
    pub fn list(&self) -> (r: Vec<Product>)
        ensures
            views_of(r@) == self@,
    {
        let mut out: Vec<Product> = Vec::new();
        let mut i: usize = 0;
        while i < self.products.len()
            invariant
                i <= self.products.len(),
                self@.len() == self.products.len(),
                out@.len() == i,
                forall|j: int| 0 <= j < i ==> out@[j]@ == self@[j],
            decreases self.products.len() - i,
        {
            out.push(self.products[i].duplicate());
            i += 1;
        }
        proof {
            assert(views_of(out@) =~= self@);
        }
        out
    }

    /// Stores a new record under the given identifier and returns it.
    /// When the store already holds the identifier, the insert is
    /// rejected and the store left unchanged.
    pub fn create_with_id(&mut self, id: u128, new_product: NewProduct) -> (r: Result<
        Product,
        RepoError,
    >)
        requires
            old(self).wf(),
        ensures
            final(self).wf(),
            !has_id(old(self)@, id) ==> (r matches Ok(p) && p@ == new_product@.with_id(id)
                && final(self)@ == old(self)@.push(new_product@.with_id(id))),
            has_id(old(self)@, id) ==> (r matches Err(e) && e == RepoError::QueryFailed && final(self)@ == old(self)@),
    {
        match self.find_index(id) {
            Some(_) => Err(RepoError::QueryFailed),
            None => {
                let p = Product {
                    id,
                    name: new_product.name,
                    image: new_product.image,
                    price: new_product.price,
                };
                let ret = p.duplicate();
                self.products.push(p);
                proof {
                    assert(self@ =~= old(self)@.push(new_product@.with_id(id)));
                    assert forall|i: int, j: int| 0 <= i < j < self@.len() implies self@[i].id
                        != self@[j].id by {
                        if j == self@.len() - 1 {
                            assert(self@[i] == old(self)@[i]);
                        }
                    }
                }
                Ok(ret)
            },
        }
    }

    /// Draws a fresh identifier, stores a new record under it and returns
    /// the record.  The drawn identifier is never one the store already
    /// holds: a collision makes the insert fail instead, which an empty
    /// store rules out.
    pub fn create_product(&mut self, new_product: NewProduct) -> (r: Result<Product, RepoError>)
        requires
            old(self).wf(),
        ensures
            final(self).wf(),
            match r {
                Ok(p) => p@.name == new_product@.name && p@.image == new_product@.image
                    && p@.price == new_product@.price && !has_id(old(self)@, p@.id) && final(self)@ == old(self)@.push(p@),
                Err(e) => e == RepoError::QueryFailed && final(self)@ == old(self)@,
            },
            r matches Err(_) ==> old(self)@.len() > 0,
    {
        let id = fresh_id();
        self.create_with_id(id, new_product)
    }

    /// The record carrying `id`, or `NotFound` when the store holds none.
    pub fn get_product(&self, id: u128) -> (r: Result<Product, RepoError>)
        requires
            self.wf(),
        ensures
            match r {
                Ok(p) => has_id(self@, id) && p@ == record_at(self@, id),
                Err(e) => e == RepoError::NotFound && !has_id(self@, id),
            },
    {
        match self.find_index(id) {
            Some(k) => {
                proof {
                    lemma_index_unique(self@, id, k as int);
                }
                Ok(self.products[k].duplicate())
            },
            None => Err(RepoError::NotFound),
        }
    }

    /// Replaces every mutable field of the record carrying `id` and returns
    /// the new record; `NotFound` when the store holds none.  (The store
    /// never reports success for an identifier it does not hold.)
    pub fn update_product(&mut self, id: u128, new_product: NewProduct) -> (r: Result<
        Product,
        RepoError,
    >)
        requires
            old(self).wf(),
        ensures
            final(self).wf(),
            has_id(old(self)@, id) ==> (r matches Ok(p) && p@ == new_product@.with_id(id)
                && final(self)@ == old(self)@.update(
                index_of_id(old(self)@, id),
                new_product@.with_id(id),
            )),
            !has_id(old(self)@, id) ==> (r matches Err(e) && e == RepoError::NotFound && final(self)@ == old(self)@),
    {
        match self.find_index(id) {
            None => Err(RepoError::NotFound),
            Some(k) => {
                proof {
                    lemma_index_unique(self@, id, k as int);
                }
                let p = Product {
                    id,
                    name: new_product.name,
                    image: new_product.image,
                    price: new_product.price,
                };
                let ret = p.duplicate();
                self.products.set(k, p);
                proof {
                    assert(self@ =~= old(self)@.update(k as int, new_product@.with_id(id)));
                    assert forall|i: int, j: int| 0 <= i < j < self@.len() implies self@[i].id
                        != self@[j].id by {
                        assert(self@[i].id == old(self)@[i].id);
                        assert(self@[j].id == old(self)@[j].id);
                    }
                }
                Ok(ret)
            },
        }
    }

    /// Removes the record carrying `id`, if any, and returns the identifier.
    /// A missing identifier is a no-op, not an error.  Either way the store
    /// no longer holds the identifier.
    pub fn delete_product(&mut self, id: u128) -> (r: u128)
        requires
            old(self).wf(),
        ensures
            r == id,
            final(self).wf(),
            final(self)@ == delete_one(old(self)@, id),
            !has_id(final(self)@, id),
    {
        match self.find_index(id) {
            None => id,
            Some(k) => {
                proof {
                    lemma_index_unique(self@, id, k as int);
                }
                self.products.remove(k);
                proof {
                    assert(self@ =~= old(self)@.remove(k as int));
                    assert forall|i: int| 0 <= i < self@.len() implies self@[i].id != id by {
                        if i < k {
                            assert(self@[i] == old(self)@[i]);
                        } else {
                            assert(self@[i] == old(self)@[i + 1]);
                        }
                    }
                    assert forall|i: int, j: int| 0 <= i < j < self@.len() implies self@[i].id
                        != self@[j].id by {
                        if j < k {
                        } else if i < k {
                            assert(self@[i] == old(self)@[i]);
                            assert(self@[j] == old(self)@[j + 1]);
                        } else {
                            assert(self@[i] == old(self)@[i + 1]);
                            assert(self@[j] == old(self)@[j + 1]);
                        }
                    }
                }
                id
            },
        }
    }
}

/// Creating a record under an identifier the store does not hold, then
/// looking that identifier up, yields exactly the record created.
pub proof fn lemma_create_then_get(s: Seq<ProductView>, p: ProductView)
    requires
        unique_ids(s),
        !has_id(s, p.id),
    ensures
        unique_ids(s.push(p)),
        has_id(s.push(p), p.id),
        record_at(s.push(p), p.id) == p,
{
    let t = s.push(p);
    assert forall|i: int, j: int| 0 <= i < j < t.len() implies t[i].id != t[j].id by {
        if j == t.len() - 1 {
            assert(t[i] == s[i]);
        }
    }
    assert(t[s.len() as int] == p);
    lemma_index_unique(t, p.id, s.len() as int);
}

/// Updating the record under a held identifier, then looking it up, yields
/// the updated fields, never the previous ones.
pub proof fn lemma_update_then_get(s: Seq<ProductView>, id: u128, p: ProductView)
    requires
        unique_ids(s),
        has_id(s, id),
        p.id == id,
    ensures
        unique_ids(s.update(index_of_id(s, id), p)),
        has_id(s.update(index_of_id(s, id), p), id),
        record_at(s.update(index_of_id(s, id), p), id) == p,
{
    let k = index_of_id(s, id);
    assert(0 <= k < s.len() && s[k].id == id);
    let t = s.update(k, p);
    assert forall|i: int, j: int| 0 <= i < j < t.len() implies t[i].id != t[j].id by {
        assert(t[i].id == s[i].id);
        assert(t[j].id == s[j].id);
    }
    lemma_index_unique(t, id, k);
}

/// Deleting a held identifier, then looking it up, finds no record.
pub proof fn lemma_delete_then_get(s: Seq<ProductView>, id: u128)
    requires
        unique_ids(s),
        has_id(s, id),
    ensures
        !has_id(s.remove(index_of_id(s, id)), id),
{
    let k = index_of_id(s, id);
    assert(0 <= k < s.len() && s[k].id == id);
    let t = s.remove(k);
    assert forall|i: int| 0 <= i < t.len() implies t[i].id != id by {
        if i < k {
            assert(t[i] == s[i]);
        } else {
            assert(t[i] == s[i + 1]);
        }
    }
}

/// Listing after some creates and deletes: a store of `n` records with
/// unique identifiers (what `n` creates of fresh identifiers build up
/// from the empty store) loses exactly one record to each of `m` deletes
/// of distinct identifiers drawn from among them, so `n - m` records
/// remain, and an identifier is held afterwards exactly when it was
/// created and not deleted.
pub proof fn lemma_list_after_creates_and_deletes(s: Seq<ProductView>, ds: Seq<u128>)
    requires
        unique_ids(s),
        forall|i: int, j: int| 0 <= i < j < ds.len() ==> ds[i] != ds[j],
        forall|i: int| 0 <= i < ds.len() ==> has_id(s, #[trigger] ds[i]),
    ensures
        after_deletes(s, ds).len() == s.len() - ds.len(),
        unique_ids(after_deletes(s, ds)),
        forall|id: u128|
            #[trigger] has_id(after_deletes(s, ds), id) <==> (has_id(s, id) && !ds.contains(id)),
    decreases ds.len(),
{
    if ds.len() == 0 {
        assert(forall|id: u128| !ds.contains(id));
    } else {
        let d0 = ds[0];
        let rest = ds.drop_first();
        assert(has_id(s, d0));
        lemma_delete_counts(s, d0);
        lemma_delete_then_get(s, d0);
        let s1 = delete_one(s, d0);
        assert forall|i: int| 0 <= i < rest.len() implies has_id(s1, #[trigger] rest[i]) by {
            assert(rest[i] == ds[i + 1]);
            assert(ds[i + 1] != d0);
            assert(has_id(s, ds[i + 1]));
        }
        lemma_list_after_creates_and_deletes(s1, rest);
        assert(after_deletes(s, ds) == after_deletes(s1, rest));
        assert forall|id: u128|
            #[trigger] has_id(after_deletes(s, ds), id) <==> (has_id(s, id) && !ds.contains(
                id,
            )) by {
            if ds.contains(id) {
                let i = choose|i: int| 0 <= i < ds.len() && ds[i] == id;
                if i > 0 {
                    assert(rest[i - 1] == id);
                    assert(rest.contains(id));
                }
            }
            if rest.contains(id) {
                let i = choose|i: int| 0 <= i < rest.len() && rest[i] == id;
                assert(ds[i + 1] == id);
                assert(ds.contains(id));
            }
        }
    }
}

/// Deleting a held identifier removes exactly one record: the length drops
/// by one, identifiers stay unique, and every other identifier is held
/// afterwards exactly when it was held before.
pub proof fn lemma_delete_counts(s: Seq<ProductView>, id: u128)
    requires
        unique_ids(s),
        has_id(s, id),
    ensures
        s.remove(index_of_id(s, id)).len() == s.len() - 1,
        unique_ids(s.remove(index_of_id(s, id))),
        forall|id2: u128|
            id2 != id ==> (has_id(s.remove(index_of_id(s, id)), id2) <==> has_id(s, id2)),
{
    let k = index_of_id(s, id);
    assert(0 <= k < s.len() && s[k].id == id);
    let t = s.remove(k);
    assert forall|i: int, j: int| 0 <= i < j < t.len() implies t[i].id != t[j].id by {
        if j < k {
        } else if i < k {
            assert(t[i] == s[i]);
            assert(t[j] == s[j + 1]);
        } else {
            assert(t[i] == s[i + 1]);
            assert(t[j] == s[j + 1]);
        }
    }
    assert forall|id2: u128| id2 != id implies (has_id(t, id2) <==> has_id(s, id2)) by {
        if has_id(t, id2) {
            let i = choose|i: int| 0 <= i < t.len() && t[i].id == id2;
            if i < k {
                assert(s[i].id == id2);
            } else {
                assert(s[i + 1].id == id2);
            }
        }
        if has_id(s, id2) {
            let i = choose|i: int| 0 <= i < s.len() && s[i].id == id2;
            if i < k {
                assert(t[i].id == id2);
            } else {
                assert(i != k);
                assert(t[i - 1] == s[i]);
            }
        }
    }
}

} // verus!
