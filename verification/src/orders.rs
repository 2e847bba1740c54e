//! The order processor and the mutating sales-ledger operations: the
//! multi-step mutations that must keep the sales ledger and the product
//! stock consistent. Each either completes wholly or leaves the store
//! exactly as it was.
use vstd::prelude::*;

use crate::domain::{AppError, Date, Order, Product, Sale};
use crate::store::{
    first_product_by_name, first_sale_by_id, lemma_first_product_by_name, lemma_first_sale_by_id,
    Store,
};

verus! {

/// The given product with its stock replaced, all else kept.
pub open spec fn with_quantity(p: Product, q: u64) -> Product {
    Product {
        id: p.id,
        name: p.name,
        price: p.price,
        quantity: q,
        cost_price: p.cost_price,
        brand: p.brand,
        material: p.material,
        image: p.image,
        created: p.created,
        updated: p.updated,
    }
}

/// The sale row an order produces: a snapshot of the product's price
/// and image at order time, and the exact total.
pub open spec fn sale_of_order(order: Order, p: Product, id: u64, today: Date) -> Sale {
    Sale {
        id: id,
        client_name: order.client_name,
        status: order.status,
        product_name: order.product_name,
        product_image: p.image,
        quantity: order.quantity,
        price: p.price,
        total_amount: (p.price * order.quantity) as u64,
        date: order.date,
        created: today,
        updated: today,
    }
}

/// A sale row after an edit: the caller's fields, the given price and
/// image snapshot, a recomputed total, the original creation stamp.
pub open spec fn edited_sale(
    s0: Sale,
    input: Order,
    price: u64,
    image: Option<String>,
    today: Date,
) -> Sale {
    Sale {
        id: s0.id,
        client_name: input.client_name,
        status: input.status,
        product_name: input.product_name,
        product_image: image,
        quantity: input.quantity,
        price: price,
        total_amount: (price * input.quantity) as u64,
        date: input.date,
        created: s0.created,
        updated: today,
    }
}

impl Store {
    /// The order processor. Atomically: looks the product up by name,
    /// checks the requested quantity against the stock on hand,
    /// snapshots price and image into a new sale row, and decrements
    /// the stock. On any failure the store is exactly as it was: no
    /// sale without its stock decrement, no decrement without its sale.
    pub fn save_order(&mut self, order: &Order, today: Date) -> (r: Result<u64, AppError>)
        requires
            old(self).wf(),
        ensures
            final(self).wf(),
            ({
                let k = first_product_by_name(old(self).products@, order.product_name@);
                let p = old(self).products@[k];
                match r {
                    Ok(id) => {
                        &&& k >= 0
                        &&& order.quantity <= p.quantity
                        &&& p.price as int * order.quantity as int <= u64::MAX as int
                        &&& old(self).next_sale_id < u64::MAX
                        &&& id == old(self).next_sale_id
                        &&& final(self).sales@ == old(self).sales@.push(
                            sale_of_order(*order, p, id, today),
                        )
                        &&& final(self).products@ == old(self).products@.update(
                            k,
                            with_quantity(p, (p.quantity - order.quantity) as u64),
                        )
                        &&& final(self).next_sale_id == old(self).next_sale_id + 1
                        &&& final(self).users == old(self).users
                        &&& final(self).next_product_id == old(self).next_product_id
                    },
                    Err(AppError::NotFound) => k == -1 && *final(self) == *old(self),
                    Err(AppError::InsufficientStock { available, requested }) => {
                        &&& k >= 0
                        &&& available == p.quantity
                        &&& requested == order.quantity
                        &&& requested > available
                        &&& *final(self) == *old(self)
                    },
                    Err(AppError::Storage) => {
                        &&& k >= 0
                        &&& order.quantity <= p.quantity
                        &&& (p.price as int * order.quantity as int > u64::MAX as int || old(self).next_sale_id == u64::MAX)
                        &&& *final(self) == *old(self)
                    },
                    Err(_) => false,
                }
            }),
    {
        proof {
            lemma_first_product_by_name(self.products@, order.product_name@);
        }
        let k = match self.find_product_by_name(&order.product_name) {
            Some(k) => k,
            None => {
                return Err(AppError::NotFound);
            },
        };
        let available = self.products[k].quantity;
        if available < order.quantity {
            return Err(
                AppError::InsufficientStock { available, requested: order.quantity },
            );
        }
        let price = self.products[k].price;
        let total = match price.checked_mul(order.quantity) {
            Some(t) => t,
            None => {
                return Err(AppError::Storage);
            },
        };
        if self.next_sale_id == u64::MAX {
            return Err(AppError::Storage);
        }
        let id = self.next_sale_id;
        let sale = Sale {
            id,
            client_name: order.client_name.clone(),
            status: order.status.clone(),
            product_name: order.product_name.clone(),
            product_image: crate::domain::dup_opt_string(&self.products[k].image),
            quantity: order.quantity,
            price,
            total_amount: total,
            date: order.date,
            created: today,
            updated: today,
        };
        self.sales.push(sale);
        let mut p = self.products[k].duplicate();
        p.quantity = available - order.quantity;
        self.products[k] = p;
        self.next_sale_id = id + 1;
        Ok(id)
    }

    /// Removes a sale and returns its quantity to the product it names,
    /// when that product still exists; a sale whose product is gone is
    /// removed with no stock change. Atomic: on failure nothing moved.
    pub fn delete_sale(&mut self, id: u64) -> (r: Result<(), AppError>)
        requires
            old(self).wf(),
        ensures
            final(self).wf(),
            ({
                let ks = first_sale_by_id(old(self).sales@, id);
                let s0 = old(self).sales@[ks];
                let kp = first_product_by_name(old(self).products@, s0.product_name@);
                let p = old(self).products@[kp];
                match r {
                    Ok(()) => {
                        &&& ks >= 0
                        &&& final(self).sales@ == old(self).sales@.remove(ks)
                        &&& (kp == -1 ==> final(self).products@ == old(self).products@)
                        &&& (kp >= 0 ==> {
                            &&& p.quantity as int + s0.quantity as int <= u64::MAX as int
                            &&& final(self).products@ == old(self).products@.update(
                                kp,
                                with_quantity(p, (p.quantity + s0.quantity) as u64),
                            )
                        })
                        &&& final(self).users == old(self).users
                        &&& final(self).next_product_id == old(self).next_product_id
                        &&& final(self).next_sale_id == old(self).next_sale_id
                    },
                    Err(AppError::NotFound) => ks == -1 && *final(self) == *old(self),
                    Err(AppError::Storage) => {
                        &&& ks >= 0
                        &&& kp >= 0
                        &&& p.quantity as int + s0.quantity as int > u64::MAX as int
                        &&& *final(self) == *old(self)
                    },
                    Err(_) => false,
                }
            }),
    {
        proof {
            lemma_first_sale_by_id(self.sales@, id);
        }
        let ks = match self.find_sale_by_id(id) {
            Some(i) => i,
            None => {
                return Err(AppError::NotFound);
            },
        };
        proof {
            lemma_first_product_by_name(self.products@, self.sales@[ks as int].product_name@);
        }
        let kp = self.find_product_by_name(&self.sales[ks].product_name);
        match kp {
            Some(kp) => {
                let restored = match self.products[kp].quantity.checked_add(
                    self.sales[ks].quantity,
                ) {
                    Some(q) => q,
                    None => {
                        return Err(AppError::Storage);
                    },
                };
                let mut p = self.products[kp].duplicate();
                p.quantity = restored;
                self.products[kp] = p;
                self.sales.remove(ks);
            },
            None => {
                self.sales.remove(ks);
            },
        }
        Ok(())
    }

    /// Edits a sale. When the product name changes, the new product's
    /// current price and image are snapshotted (a missing new product
    /// fails the whole edit); otherwise the original snapshot is kept.
    /// The total is recomputed, and the inventory is reconciled: a
    /// changed product gets the old quantity back on the old product
    /// and the new quantity taken from the new one, a same-product
    /// quantity change adjusts the stock by the signed difference.
    /// Atomic: on failure the store is exactly as it was. Stock can
    /// never be driven below zero; an edit that would do so fails with
    /// `InsufficientStock`.
    pub fn update_sale(&mut self, id: u64, input: &Order, today: Date) -> (r: Result<
        (),
        AppError,
    >)
        requires
            old(self).wf(),
        ensures
            final(self).wf(),
            ({
                let ks = first_sale_by_id(old(self).sales@, id);
                let s0 = old(self).sales@[ks];
                let changed = s0.product_name@ != input.product_name@;
                let kn = first_product_by_name(old(self).products@, input.product_name@);
                let ko = first_product_by_name(old(self).products@, s0.product_name@);
                let pn = old(self).products@[kn];
                let po = old(self).products@[ko];
                let price = if changed {
                    pn.price
                } else {
                    s0.price
                };
                let image = if changed {
                    pn.image
                } else {
                    s0.product_image
                };
                let s1 = edited_sale(s0, *input, price, image, today);
                match r {
                    Ok(()) => {
                        &&& ks >= 0
                        &&& price as int * input.quantity as int <= u64::MAX as int
                        &&& final(self).sales@ == old(self).sales@.update(ks, s1)
                        &&& (changed ==> {
                            &&& kn >= 0
                            &&& input.quantity <= pn.quantity
                            &&& (ko >= 0 ==> po.quantity as int + s0.quantity as int
                                <= u64::MAX as int && final(self).products@ == old(self).products@.update(
                                ko,
                                with_quantity(po, (po.quantity + s0.quantity) as u64),
                            ).update(kn, with_quantity(pn, (pn.quantity - input.quantity) as u64)))
                            &&& (ko == -1 ==> final(self).products@ == old(self).products@.update(
                                kn,
                                with_quantity(pn, (pn.quantity - input.quantity) as u64),
                            ))
                        })
                        &&& (!changed ==> {
                            &&& (s0.quantity == input.quantity || ko == -1 ==> final(self).products@ == old(self).products@)
                            &&& (s0.quantity != input.quantity && ko >= 0 ==> {
                                let avail = po.quantity as int + s0.quantity as int;
                                &&& avail <= u64::MAX as int
                                &&& input.quantity <= avail
                                &&& final(self).products@ == old(self).products@.update(
                                    ko,
                                    with_quantity(po, (avail - input.quantity) as u64),
                                )
                            })
                        })
                        &&& final(self).users == old(self).users
                        &&& final(self).next_product_id == old(self).next_product_id
                        &&& final(self).next_sale_id == old(self).next_sale_id
                    },
                    Err(AppError::NotFound) => {
                        &&& (ks == -1 || (ks >= 0 && changed && kn == -1))
                        &&& *final(self) == *old(self)
                    },
                    Err(AppError::InsufficientStock { available, requested }) => {
                        &&& ks >= 0
                        &&& requested == input.quantity
                        &&& price as int * input.quantity as int <= u64::MAX as int
                        &&& (changed ==> kn >= 0 && available == pn.quantity && (ko >= 0
                            ==> po.quantity as int + s0.quantity as int <= u64::MAX as int))
                        &&& (!changed ==> s0.quantity != input.quantity && ko >= 0 && available
                            as int == po.quantity as int + s0.quantity as int)
                        &&& available < requested
                        &&& *final(self) == *old(self)
                    },
                    Err(AppError::Storage) => {
                        &&& ks >= 0
                        &&& (changed ==> kn >= 0)
                        &&& (price as int * input.quantity as int > u64::MAX as int || (changed
                            && ko >= 0 && po.quantity as int + s0.quantity as int > u64::MAX as int)
                            || (!changed && s0.quantity != input.quantity && ko >= 0 && po.quantity
                            as int + s0.quantity as int > u64::MAX as int))
                        &&& *final(self) == *old(self)
                    },
                    Err(_) => false,
                }
            }),
    {
        proof {
            lemma_first_sale_by_id(self.sales@, id);
        }
        let ks = match self.find_sale_by_id(id) {
            Some(i) => i,
            None => {
                return Err(AppError::NotFound);
            },
        };
        proof {
            lemma_first_product_by_name(self.products@, input.product_name@);
            lemma_first_product_by_name(self.products@, self.sales@[ks as int].product_name@);
        }
        let changed = !(self.sales[ks].product_name == input.product_name);
        let kn = self.find_product_by_name(&input.product_name);
        let ko = self.find_product_by_name(&self.sales[ks].product_name);
        let (price, image) = if changed {
            match kn {
                Some(i) => (
                    self.products[i].price,
                    crate::domain::dup_opt_string(&self.products[i].image),
                ),
                None => {
                    return Err(AppError::NotFound);
                },
            }
        } else {
            (self.sales[ks].price, crate::domain::dup_opt_string(&self.sales[ks].product_image))
        };
        let total = match price.checked_mul(input.quantity) {
            Some(t) => t,
            None => {
                return Err(AppError::Storage);
            },
        };
        // validate the inventory reconciliation before touching anything
        if changed {
            let kn = kn.unwrap();
            if let Some(ko) = ko {
                if self.products[ko].quantity.checked_add(self.sales[ks].quantity).is_none() {
                    return Err(AppError::Storage);
                }
            }
            if self.products[kn].quantity < input.quantity {
                return Err(
                    AppError::InsufficientStock {
                        available: self.products[kn].quantity,
                        requested: input.quantity,
                    },
                );
            }
        } else if !(self.sales[ks].quantity == input.quantity) {
            if let Some(ko) = ko {
                let avail = match self.products[ko].quantity.checked_add(self.sales[ks].quantity) {
                    Some(q) => q,
                    None => {
                        return Err(AppError::Storage);
                    },
                };
                if avail < input.quantity {
                    return Err(
                        AppError::InsufficientStock { available: avail, requested: input.quantity },
                    );
                }
            }
        }
        // write the sale row
        let s1 = Sale {
            id,
            client_name: input.client_name.clone(),
            status: input.status.clone(),
            product_name: input.product_name.clone(),
            product_image: image,
            quantity: input.quantity,
            price,
            total_amount: total,
            date: input.date,
            created: self.sales[ks].created,
            updated: today,
        };
        let old_qty = self.sales[ks].quantity;
        self.sales[ks] = s1;
        // reconcile the inventory
        if changed {
            let kn = kn.unwrap();
            if let Some(ko) = ko {
                let mut po = self.products[ko].duplicate();
                po.quantity = po.quantity + old_qty;
                self.products[ko] = po;
            }
            let mut pn = self.products[kn].duplicate();
            pn.quantity = pn.quantity - input.quantity;
            self.products[kn] = pn;
        } else if !(old_qty == input.quantity) {
            if let Some(ko) = ko {
                let mut po = self.products[ko].duplicate();
                po.quantity = po.quantity + old_qty - input.quantity;
                self.products[ko] = po;
            }
        }
        Ok(())
    }
}

} // verus!
