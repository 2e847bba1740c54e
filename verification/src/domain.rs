//! Core data model of the ledger: calendar dates, products, sales,
//! the administrator credential, sessions, and the error taxonomy.
use vstd::prelude::*;

verus! {

/// A calendar date, kept as plain year / month / day fields.
/// Sales carry a user-supplied transaction date; products and sales
/// also carry creation and last-update dates.
#[derive(Debug, Clone, Copy, PartialEq, Eq, Structural)]
pub struct Date {
    pub year: u16,
    pub month: u8,
    pub day: u8,
}

/// A product of the inventory ledger. `quantity` is the current
/// on-hand stock, mutated by orders and edits; it can never be
/// negative, being unsigned. Money is in whole currency units.
#[derive(Debug)]
pub struct Product {
    pub id: u64,
    pub name: String,
    pub price: u64,
    pub quantity: u64,
    pub cost_price: u64,
    pub brand: String,
    pub material: String,
    pub image: Option<String>,
    pub created: Date,
    pub updated: Date,
}

/// The mutable fields of a product, as a caller supplies them.
#[derive(Debug)]
pub struct ProductInput {
    pub name: String,
    pub price: u64,
    pub quantity: u64,
    pub cost_price: u64,
    pub brand: String,
    pub material: String,
    pub image: Option<String>,
}

/// A sale transaction. `product_name`, `product_image` and `price`
/// are point-in-time snapshots of the product, not live references.
/// Invariant (kept by the store): `total_amount == price * quantity`.
#[derive(Debug)]
pub struct Sale {
    pub id: u64,
    pub client_name: String,
    pub status: String,
    pub product_name: String,
    pub product_image: Option<String>,
    pub quantity: u64,
    pub price: u64,
    pub total_amount: u64,
    pub date: Date,
    pub created: Date,
    pub updated: Date,
}

/// A client order, as handed to the order processor.
#[derive(Debug)]
pub struct Order {
    pub client_name: String,
    pub status: String,
    pub product_name: String,
    pub date: Date,
    pub quantity: u64,
}

/// The administrator credential: a username and a salted password hash
/// in PHC string form.
#[derive(Debug)]
pub struct User {
    pub id: u64,
    pub username: String,
    pub password: String,
}

/// A bearer session: an opaque token and its expiry, in seconds of
/// Unix time.
#[derive(Debug)]
pub struct AuthSession {
    pub token: String,
    pub expires_at: i64,
}

/// One tile of the metrics summary, already formatted for display.
#[derive(Debug)]
pub struct Metric {
    pub title: String,
    pub value: String,
    pub icon: String,
    pub color: String,
}

/// The error taxonomy. `InsufficientStock` carries the numbers the
/// caller displays.
#[derive(Debug, Clone, Copy, PartialEq, Eq, Structural)]
pub enum AppError {
    /// An id or name lookup missed.
    NotFound,
    /// A duplicate product name.
    UniqueViolation,
    /// An order (or sale edit) asked for more than is on hand.
    InsufficientStock { available: u64, requested: u64 },
    /// A rejected input or a wrong current password.
    Validation,
    /// Bad credentials or a missing user.
    Auth,
    /// An underlying store or arithmetic failure.
    Storage,
}

/// Copies an optional string, field for field.
pub fn dup_opt_string(s: &Option<String>) -> (r: Option<String>)
    ensures
        r == *s,
{
    match s {
        Some(x) => Some(x.clone()),
        None => None,
    }
}

impl Product {
    /// An owned copy, equal to `self` as a value.
    pub fn duplicate(&self) -> (r: Product)
        ensures
            r == *self,
    {
        Product {
            id: self.id,
            name: self.name.clone(),
            price: self.price,
            quantity: self.quantity,
            cost_price: self.cost_price,
            brand: self.brand.clone(),
            material: self.material.clone(),
            image: dup_opt_string(&self.image),
            created: self.created,
            updated: self.updated,
        }
    }
}

impl Sale {
    /// An owned copy, equal to `self` as a value.
    pub fn duplicate(&self) -> (r: Sale)
        ensures
            r == *self,
    {
        Sale {
            id: self.id,
            client_name: self.client_name.clone(),
            status: self.status.clone(),
            product_name: self.product_name.clone(),
            product_image: dup_opt_string(&self.product_image),
            quantity: self.quantity,
            price: self.price,
            total_amount: self.total_amount,
            date: self.date,
            created: self.created,
            updated: self.updated,
        }
    }
}

} // verus!
