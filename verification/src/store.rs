//! The storage engine: one owned value holding the product ledger, the
//! sales ledger and the administrator credentials, with the
//! well-formedness invariant every operation preserves, and the
//! product-catalog operations.
use vstd::prelude::*;

use crate::domain::{AppError, Date, Product, ProductInput, Sale, User};

verus! {

/// Index of the first product with the given id, or -1.
pub open spec fn first_product_by_id(ps: Seq<Product>, id: u64) -> int
    decreases ps.len(),
{
    if ps.len() == 0 {
        -1
    } else if ps[0].id == id {
        0
    } else {
        let r = first_product_by_id(ps.skip(1), id);
        if r == -1 {
            -1
        } else {
            r + 1
        }
    }
}

/// Index of the first product with the given name, or -1.
pub open spec fn first_product_by_name(ps: Seq<Product>, name: Seq<char>) -> int
    decreases ps.len(),
{
    if ps.len() == 0 {
        -1
    } else if ps[0].name@ == name {
        0
    } else {
        let r = first_product_by_name(ps.skip(1), name);
        if r == -1 {
            -1
        } else {
            r + 1
        }
    }
}

/// Index of the first sale with the given id, or -1.
pub open spec fn first_sale_by_id(ss: Seq<Sale>, id: u64) -> int
    decreases ss.len(),
{
    if ss.len() == 0 {
        -1
    } else if ss[0].id == id {
        0
    } else {
        let r = first_sale_by_id(ss.skip(1), id);
        if r == -1 {
            -1
        } else {
            r + 1
        }
    }
}

pub proof fn lemma_first_product_by_id(ps: Seq<Product>, id: u64)
    ensures
        ({
            let k = first_product_by_id(ps, id);
            &&& -1 <= k < ps.len()
            &&& k >= 0 ==> ps[k].id == id && (forall|j: int| 0 <= j < k ==> ps[j].id != id)
            &&& k == -1 ==> (forall|j: int| 0 <= j < ps.len() ==> ps[j].id != id)
        }),
    decreases ps.len(),
{
    if ps.len() > 0 && ps[0].id != id {
        lemma_first_product_by_id(ps.skip(1), id);
        let k1 = first_product_by_id(ps.skip(1), id);
        if k1 == -1 {
            assert forall|j: int| 0 <= j < ps.len() implies ps[j].id != id by {
                if j > 0 {
                    assert(ps[j] == ps.skip(1)[j - 1]);
                }
            }
        } else {
            assert(ps[k1 + 1] == ps.skip(1)[k1]);
            assert forall|j: int| 0 <= j < k1 + 1 implies ps[j].id != id by {
                if j > 0 {
                    assert(ps[j] == ps.skip(1)[j - 1]);
                }
            }
        }
    }
}

pub proof fn lemma_first_product_by_name(ps: Seq<Product>, name: Seq<char>)
    ensures
        ({
            let k = first_product_by_name(ps, name);
            &&& -1 <= k < ps.len()
            &&& k >= 0 ==> ps[k].name@ == name && (forall|j: int| 0 <= j < k ==> ps[j].name@ != name)
            &&& k == -1 ==> (forall|j: int| 0 <= j < ps.len() ==> ps[j].name@ != name)
        }),
    decreases ps.len(),
{
    if ps.len() > 0 && ps[0].name@ != name {
        lemma_first_product_by_name(ps.skip(1), name);
        let k1 = first_product_by_name(ps.skip(1), name);
        if k1 == -1 {
            assert forall|j: int| 0 <= j < ps.len() implies ps[j].name@ != name by {
                if j > 0 {
                    assert(ps[j] == ps.skip(1)[j - 1]);
                }
            }
        } else {
            assert(ps[k1 + 1] == ps.skip(1)[k1]);
            assert forall|j: int| 0 <= j < k1 + 1 implies ps[j].name@ != name by {
                if j > 0 {
                    assert(ps[j] == ps.skip(1)[j - 1]);
                }
            }
        }
    }
}

pub proof fn lemma_first_sale_by_id(ss: Seq<Sale>, id: u64)
    ensures
        ({
            let k = first_sale_by_id(ss, id);
            &&& -1 <= k < ss.len()
            &&& k >= 0 ==> ss[k].id == id && (forall|j: int| 0 <= j < k ==> ss[j].id != id)
            &&& k == -1 ==> (forall|j: int| 0 <= j < ss.len() ==> ss[j].id != id)
        }),
    decreases ss.len(),
{
    if ss.len() > 0 && ss[0].id != id {
        lemma_first_sale_by_id(ss.skip(1), id);
        let k1 = first_sale_by_id(ss.skip(1), id);
        if k1 == -1 {
            assert forall|j: int| 0 <= j < ss.len() implies ss[j].id != id by {
                if j > 0 {
                    assert(ss[j] == ss.skip(1)[j - 1]);
                }
            }
        } else {
            assert(ss[k1 + 1] == ss.skip(1)[k1]);
            assert forall|j: int| 0 <= j < k1 + 1 implies ss[j].id != id by {
                if j > 0 {
                    assert(ss[j] == ss.skip(1)[j - 1]);
                }
            }
        }
    }
}

/// The store: products, sales and users, with the id counters the
/// ledgers draw from. All operations go through one owned value of
/// this type; the caller serializes access to it.
pub struct Store {
    pub products: Vec<Product>,
    pub sales: Vec<Sale>,
    pub users: Vec<User>,
    pub next_product_id: u64,
    pub next_sale_id: u64,
}

impl Store {
    /// Well-formedness, preserved by every operation: product ids and
    /// names unique, sale ids unique, ids below the counters, and every
    /// sale's total the exact product of its price and quantity.
    /// Stock can never go negative in any committed state: quantities
    /// are unsigned, and each operation that lowers one proves the
    /// subtraction in range or fails without writing.
    pub open spec fn wf(self) -> bool {
        &&& forall|i: int, j: int|
            0 <= i < j < self.products@.len() ==> self.products@[i].id != self.products@[j].id
        &&& forall|i: int, j: int|
            0 <= i < j < self.products@.len() ==> self.products@[i].name@ != self.products@[j].name@
        &&& forall|i: int|
            0 <= i < self.products@.len() ==> self.products@[i].id < self.next_product_id
        &&& forall|i: int, j: int|
            0 <= i < j < self.sales@.len() ==> self.sales@[i].id != self.sales@[j].id
        &&& forall|i: int| 0 <= i < self.sales@.len() ==> self.sales@[i].id < self.next_sale_id
        &&& forall|i: int|
            0 <= i < self.sales@.len() ==> self.sales@[i].total_amount as int == self.sales@[i].price
                as int * self.sales@[i].quantity as int
    }

    /// An empty store.
    pub fn new() -> (s: Store)
        ensures
            s.wf(),
            s.products@.len() == 0,
            s.sales@.len() == 0,
            s.users@.len() == 0,
            s.next_product_id == 1,
            s.next_sale_id == 1,
    {
        Store {
            products: Vec::new(),
            sales: Vec::new(),
            users: Vec::new(),
            next_product_id: 1,
            next_sale_id: 1,
        }
    }

    /// Seeds the administrator credential if and only if no user exists
    /// yet; a store that already has one is left as it is.
    pub fn seed_admin(&mut self, username: String, password_hash: String) -> (seeded: bool)
        requires
            old(self).wf(),
        ensures
            final(self).wf(),
            seeded == (old(self).users@.len() == 0),
            seeded ==> final(self).users@ == old(self).users@.push(
                User { id: 1u64, username: username, password: password_hash },
            ),
            !seeded ==> *final(self) == *old(self),
            final(self).products == old(self).products,
            final(self).sales == old(self).sales,
            final(self).next_product_id == old(self).next_product_id,
            final(self).next_sale_id == old(self).next_sale_id,
    {
        if self.users.len() == 0 {
            self.users.push(User { id: 1, username, password: password_hash });
            true
        } else {
            false
        }
    }

    /// Finds a product by id; the result names the first (and, in a
    /// well-formed store, only) index holding it.
    #[verifier::loop_isolation(false)]
    pub fn find_product_by_id(&self, id: u64) -> (r: Option<usize>)
        ensures
            ({
                let k = first_product_by_id(self.products@, id);
                match r {
                    Some(i) => i < self.products@.len() && self.products@[i as int].id == id && k
                        == i as int,
                    None => k == -1,
                }
            }),
    {
        proof {
            lemma_first_product_by_id(self.products@, id);
        }
        let mut i: usize = 0;
        while i < self.products.len()
            invariant
                i <= self.products@.len(),
                forall|j: int| 0 <= j < i ==> self.products@[j].id != id,
            decreases self.products@.len() - i,
        {
            if self.products[i].id == id {
                return Some(i);
            }
            i = i + 1;
        }
        None
    }

    /// Finds a product by name, exactly as the ledger compares names.
    #[verifier::loop_isolation(false)]
    pub fn find_product_by_name(&self, name: &String) -> (r: Option<usize>)
        ensures
            ({
                let k = first_product_by_name(self.products@, name@);
                match r {
                    Some(i) => i < self.products@.len() && self.products@[i as int].name@ == name@
                        && k == i as int,
                    None => k == -1,
                }
            }),
    {
        proof {
            lemma_first_product_by_name(self.products@, name@);
        }
        let mut i: usize = 0;
        while i < self.products.len()
            invariant
                i <= self.products@.len(),
                forall|j: int| 0 <= j < i ==> self.products@[j].name@ != name@,
            decreases self.products@.len() - i,
        {
            if self.products[i].name == *name {
                return Some(i);
            }
            i = i + 1;
        }
        None
    }

    /// Finds a sale by id.
    #[verifier::loop_isolation(false)]
    pub fn find_sale_by_id(&self, id: u64) -> (r: Option<usize>)
        ensures
            ({
                let k = first_sale_by_id(self.sales@, id);
                match r {
                    Some(i) => i < self.sales@.len() && self.sales@[i as int].id == id && k == i
                        as int,
                    None => k == -1,
                }
            }),
    {
        proof {
            lemma_first_sale_by_id(self.sales@, id);
        }
        let mut i: usize = 0;
        while i < self.sales.len()
            invariant
                i <= self.sales@.len(),
                forall|j: int| 0 <= j < i ==> self.sales@[j].id != id,
            decreases self.sales@.len() - i,
        {
            if self.sales[i].id == id {
                return Some(i);
            }
            i = i + 1;
        }
        None
    }

    /// Adds a product with the given fields, stamped created and
    /// updated today. Fails with `UniqueViolation` when the name is
    /// already taken, and with `Storage` only when the id counter is
    /// exhausted; nothing changes on failure.
    pub fn add_product(&mut self, input: &ProductInput, today: Date) -> (r: Result<u64, AppError>)
        requires
            old(self).wf(),
        ensures
            final(self).wf(),
            ({
                let k = first_product_by_name(old(self).products@, input.name@);
                match r {
                    Ok(id) => {
                        &&& k == -1
                        &&& old(self).next_product_id < u64::MAX
                        &&& id == old(self).next_product_id
                        &&& final(self).products@ == old(self).products@.push(
                            Product {
                                id: id,
                                name: input.name,
                                price: input.price,
                                quantity: input.quantity,
                                cost_price: input.cost_price,
                                brand: input.brand,
                                material: input.material,
                                image: input.image,
                                created: today,
                                updated: today,
                            },
                        )
                        &&& final(self).next_product_id == old(self).next_product_id + 1
                        &&& final(self).sales == old(self).sales
                        &&& final(self).users == old(self).users
                        &&& final(self).next_sale_id == old(self).next_sale_id
                    },
                    Err(AppError::UniqueViolation) => k >= 0 && *final(self) == *old(self),
                    Err(AppError::Storage) => k == -1 && old(self).next_product_id == u64::MAX
                        && *final(self) == *old(self),
                    Err(_) => false,
                }
            }),
    {
        proof {
            lemma_first_product_by_name(self.products@, input.name@);
        }
        if let Some(_i) = self.find_product_by_name(&input.name) {
            return Err(AppError::UniqueViolation);
        }
        if self.next_product_id == u64::MAX {
            return Err(AppError::Storage);
        }
        let id = self.next_product_id;
        let p = Product {
            id,
            name: input.name.clone(),
            price: input.price,
            quantity: input.quantity,
            cost_price: input.cost_price,
            brand: input.brand.clone(),
            material: input.material.clone(),
            image: crate::domain::dup_opt_string(&input.image),
            created: today,
            updated: today,
        };
        self.products.push(p);
        self.next_product_id = id + 1;
        Ok(id)
    }

    /// All products, newest first (the reverse of insertion order).
    #[verifier::loop_isolation(false)]
    pub fn get_products(&self) -> (r: Vec<Product>)
        ensures
            r@.len() == self.products@.len(),
            forall|i: int|
                0 <= i < r@.len() ==> r@[i] == self.products@[self.products@.len() - 1 - i],
    {
        let mut out: Vec<Product> = Vec::new();
        let n = self.products.len();
        let mut i: usize = 0;
        while i < n
            invariant
                n == self.products@.len(),
                i <= n,
                out@.len() == i,
                forall|j: int| 0 <= j < i ==> out@[j] == self.products@[n - 1 - j],
            decreases n - i,
        {
            out.push(self.products[n - 1 - i].duplicate());
            i = i + 1;
        }
        out
    }

    /// One product by id, or `NotFound`.
    pub fn get_product(&self, id: u64) -> (r: Result<Product, AppError>)
        ensures
            ({
                let k = first_product_by_id(self.products@, id);
                match r {
                    Ok(p) => k >= 0 && p == self.products@[k],
                    Err(e) => k == -1 && e == AppError::NotFound,
                }
            }),
    {
        match self.find_product_by_id(id) {
            Some(i) => Ok(self.products[i].duplicate()),
            None => Err(AppError::NotFound),
        }
    }

    /// Replaces every mutable field of the product with the given id
    /// and refreshes its update stamp; the id and the creation stamp
    /// are kept. A missing id changes nothing (and is not an error,
    /// as a replace of no rows); a name already held by another
    /// product fails with `UniqueViolation` and changes nothing.
    #[verifier::loop_isolation(false)]
    pub fn update_product(&mut self, id: u64, input: &ProductInput, today: Date) -> (r: Result<
        (),
        AppError,
    >)
        requires
            old(self).wf(),
        ensures
            final(self).wf(),
            ({
                let k = first_product_by_id(old(self).products@, id);
                let conflict = exists|j: int|
                    0 <= j < old(self).products@.len() && j != k && old(self).products@[j].name@
                        == input.name@;
                let replaced = Product {
                    id: id,
                    name: input.name,
                    price: input.price,
                    quantity: input.quantity,
                    cost_price: input.cost_price,
                    brand: input.brand,
                    material: input.material,
                    image: input.image,
                    created: old(self).products@[k].created,
                    updated: today,
                };
                match r {
                    Ok(()) => {
                        &&& (k == -1 ==> *final(self) == *old(self))
                        &&& (k >= 0 ==> {
                            &&& !conflict
                            &&& final(self).products@ == old(self).products@.update(k, replaced)
                            &&& final(self).sales == old(self).sales
                            &&& final(self).users == old(self).users
                            &&& final(self).next_product_id == old(self).next_product_id
                            &&& final(self).next_sale_id == old(self).next_sale_id
                        })
                    },
                    Err(AppError::UniqueViolation) => {
                        &&& k >= 0
                        &&& conflict
                        &&& *final(self) == *old(self)
                    },
                    Err(_) => false,
                }
            }),
    {
        proof {
            lemma_first_product_by_id(self.products@, id);
        }
        let k = match self.find_product_by_id(id) {
            Some(k) => k,
            None => {
                return Ok(());
            },
        };
        // reject a name that another product already holds
        let mut j: usize = 0;
        while j < self.products.len()
            invariant
                k < self.products@.len(),
                j <= self.products@.len(),
                forall|t: int| 0 <= t < j && t != k ==> self.products@[t].name@ != input.name@,
            decreases self.products@.len() - j,
        {
            if j != k && self.products[j].name == input.name {
                return Err(AppError::UniqueViolation);
            }
            j = j + 1;
        }
        let created = self.products[k].created;
        let p = Product {
            id,
            name: input.name.clone(),
            price: input.price,
            quantity: input.quantity,
            cost_price: input.cost_price,
            brand: input.brand.clone(),
            material: input.material.clone(),
            image: crate::domain::dup_opt_string(&input.image),
            created,
            updated: today,
        };
        self.products[k] = p;
        Ok(())
    }

    /// Removes the product with the given id, if any; sales that name
    /// it are left as historical records. Never an error.
    pub fn delete_product(&mut self, id: u64)
        requires
            old(self).wf(),
        ensures
            final(self).wf(),
            ({
                let k = first_product_by_id(old(self).products@, id);
                &&& (k == -1 ==> *final(self) == *old(self))
                &&& (k >= 0 ==> {
                    &&& final(self).products@ == old(self).products@.remove(k)
                    &&& final(self).sales == old(self).sales
                    &&& final(self).users == old(self).users
                    &&& final(self).next_product_id == old(self).next_product_id
                    &&& final(self).next_sale_id == old(self).next_sale_id
                })
            }),
    {
        proof {
            lemma_first_product_by_id(self.products@, id);
        }
        match self.find_product_by_id(id) {
            Some(i) => {
                self.products.remove(i);
            },
            None => {},
        }
    }

    /// All sales, newest first (the reverse of insertion order).
    #[verifier::loop_isolation(false)]
    pub fn get_sales(&self) -> (r: Vec<Sale>)
        ensures
            r@.len() == self.sales@.len(),
            forall|i: int| 0 <= i < r@.len() ==> r@[i] == self.sales@[self.sales@.len() - 1 - i],
    {
        let mut out: Vec<Sale> = Vec::new();
        let n = self.sales.len();
        let mut i: usize = 0;
        while i < n
            invariant
                n == self.sales@.len(),
                i <= n,
                out@.len() == i,
                forall|j: int| 0 <= j < i ==> out@[j] == self.sales@[n - 1 - j],
            decreases n - i,
        {
            out.push(self.sales[n - 1 - i].duplicate());
            i = i + 1;
        }
        out
    }

    /// One sale by id, or `NotFound`.
    pub fn get_sale_by_id(&self, id: u64) -> (r: Result<Sale, AppError>)
        ensures
            ({
                let k = first_sale_by_id(self.sales@, id);
                match r {
                    Ok(s) => k >= 0 && s == self.sales@[k],
                    Err(e) => k == -1 && e == AppError::NotFound,
                }
            }),
    {
        match self.find_sale_by_id(id) {
            Some(i) => Ok(self.sales[i].duplicate()),
            None => Err(AppError::NotFound),
        }
    }
}

} // verus!
