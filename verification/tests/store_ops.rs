//! The inventory/sales consistency layer on concrete stores: the order
//! flow, atomic failure, sale deletion and edits, and the catalog
//! operations.
use stockbook::domain::{AppError, Date, Order, ProductInput};
use stockbook::store::Store;

fn d(year: u16, month: u8, day: u8) -> Date {
    Date { year, month, day }
}

fn chair_input(qty: u64) -> ProductInput {
    ProductInput {
        name: "Chair".to_string(),
        price: 50,
        quantity: qty,
        cost_price: 20,
        brand: "Acme".to_string(),
        material: "wood".to_string(),
        image: Some("chair.png".to_string()),
    }
}

fn table_input(qty: u64) -> ProductInput {
    ProductInput {
        name: "Table".to_string(),
        price: 120,
        quantity: qty,
        cost_price: 60,
        brand: "Acme".to_string(),
        material: "oak".to_string(),
        image: None,
    }
}

fn order(product: &str, client: &str, status: &str, qty: u64, date: Date) -> Order {
    Order {
        client_name: client.to_string(),
        status: status.to_string(),
        product_name: product.to_string(),
        date,
        quantity: qty,
    }
}

#[test]
fn order_flow_and_insufficient_stock() {
    let mut st = Store::new();
    let today = d(2024, 1, 15);
    let pid = st.add_product(&chair_input(10), today).unwrap();
    assert_eq!(pid, 1);

    let sid = st
        .save_order(&order("Chair", "Alice", "Payé", 3, today), today)
        .unwrap();
    assert_eq!(sid, 1);
    let sale = st.get_sale_by_id(sid).unwrap();
    assert_eq!(sale.total_amount, 150);
    assert_eq!(sale.price, 50);
    assert_eq!(sale.quantity, 3);
    assert_eq!(sale.client_name, "Alice");
    let chair = st.get_product(pid).unwrap();
    assert_eq!(chair.quantity, 7);

    // a second order for more than remains fails with the numbers, and
    // nothing changes
    let err = st
        .save_order(&order("Chair", "Alice", "Payé", 8, today), today)
        .unwrap_err();
    assert_eq!(
        err,
        AppError::InsufficientStock {
            available: 7,
            requested: 8
        }
    );
    assert_eq!(st.get_product(pid).unwrap().quantity, 7);
    assert_eq!(st.get_sales().len(), 1);
}

#[test]
fn order_unknown_product_is_not_found() {
    let mut st = Store::new();
    let today = d(2024, 1, 15);
    let err = st
        .save_order(&order("Ghost", "Alice", "Payé", 1, today), today)
        .unwrap_err();
    assert_eq!(err, AppError::NotFound);
    assert!(st.get_sales().is_empty());
}

#[test]
fn order_total_overflow_is_storage() {
    let mut st = Store::new();
    let today = d(2024, 1, 15);
    let mut input = chair_input(10);
    input.price = u64::MAX;
    st.add_product(&input, today).unwrap();
    let err = st
        .save_order(&order("Chair", "Alice", "Payé", 2, today), today)
        .unwrap_err();
    assert_eq!(err, AppError::Storage);
    assert!(st.get_sales().is_empty());
    assert_eq!(st.get_product(1).unwrap().quantity, 10);
}

#[test]
fn duplicate_product_name_is_unique_violation() {
    let mut st = Store::new();
    let today = d(2024, 1, 15);
    st.add_product(&chair_input(10), today).unwrap();
    let err = st.add_product(&chair_input(4), today).unwrap_err();
    assert_eq!(err, AppError::UniqueViolation);
    assert_eq!(st.get_products().len(), 1);
}

#[test]
fn delete_sale_restores_stock_exactly() {
    let mut st = Store::new();
    let today = d(2024, 1, 15);
    st.add_product(&chair_input(10), today).unwrap();
    let sid = st
        .save_order(&order("Chair", "Alice", "Payé", 4, today), today)
        .unwrap();
    assert_eq!(st.get_product(1).unwrap().quantity, 6);
    st.delete_sale(sid).unwrap();
    assert_eq!(st.get_product(1).unwrap().quantity, 10);
    assert!(st.get_sales().is_empty());
}

#[test]
fn delete_missing_sale_is_not_found() {
    let mut st = Store::new();
    assert_eq!(st.delete_sale(9).unwrap_err(), AppError::NotFound);
}

#[test]
fn delete_sale_of_deleted_product_leaves_stock_alone() {
    let mut st = Store::new();
    let today = d(2024, 1, 15);
    st.add_product(&chair_input(10), today).unwrap();
    let sid = st
        .save_order(&order("Chair", "Alice", "Payé", 4, today), today)
        .unwrap();
    st.delete_product(1);
    st.delete_sale(sid).unwrap();
    assert!(st.get_sales().is_empty());
    assert!(st.get_products().is_empty());
}

#[test]
fn update_sale_quantity_adjusts_stock_by_delta() {
    let mut st = Store::new();
    let today = d(2024, 1, 15);
    st.add_product(&chair_input(10), today).unwrap();
    let sid = st
        .save_order(&order("Chair", "Alice", "Payé", 4, today), today)
        .unwrap();
    assert_eq!(st.get_product(1).unwrap().quantity, 6);

    // raising 4 -> 6 takes two more
    st.update_sale(sid, &order("Chair", "Alice", "Payé", 6, today), today)
        .unwrap();
    assert_eq!(st.get_product(1).unwrap().quantity, 4);
    let sale = st.get_sale_by_id(sid).unwrap();
    assert_eq!(sale.quantity, 6);
    assert_eq!(sale.total_amount, 300);

    // lowering 6 -> 1 gives five back
    st.update_sale(sid, &order("Chair", "Alice", "Payé", 1, today), today)
        .unwrap();
    assert_eq!(st.get_product(1).unwrap().quantity, 9);
    assert_eq!(st.get_sale_by_id(sid).unwrap().total_amount, 50);
}

#[test]
fn update_sale_product_change_moves_stock() {
    let mut st = Store::new();
    let today = d(2024, 1, 15);
    st.add_product(&chair_input(10), today).unwrap();
    st.add_product(&table_input(5), today).unwrap();
    let sid = st
        .save_order(&order("Chair", "Alice", "Payé", 4, today), today)
        .unwrap();
    assert_eq!(st.get_product(1).unwrap().quantity, 6);

    // moving the sale to the table restores the chair's 4 and takes 2
    // tables, at the table's price
    st.update_sale(sid, &order("Table", "Alice", "Payé", 2, today), today)
        .unwrap();
    assert_eq!(st.get_product(1).unwrap().quantity, 10);
    assert_eq!(st.get_product(2).unwrap().quantity, 3);
    let sale = st.get_sale_by_id(sid).unwrap();
    assert_eq!(sale.product_name, "Table");
    assert_eq!(sale.price, 120);
    assert_eq!(sale.total_amount, 240);
    assert_eq!(sale.product_image, None);
}

#[test]
fn update_sale_to_unknown_product_is_not_found() {
    let mut st = Store::new();
    let today = d(2024, 1, 15);
    st.add_product(&chair_input(10), today).unwrap();
    let sid = st
        .save_order(&order("Chair", "Alice", "Payé", 4, today), today)
        .unwrap();
    let err = st
        .update_sale(sid, &order("Ghost", "Alice", "Payé", 1, today), today)
        .unwrap_err();
    assert_eq!(err, AppError::NotFound);
    assert_eq!(st.get_product(1).unwrap().quantity, 6);
    assert_eq!(st.get_sale_by_id(sid).unwrap().product_name, "Chair");
}

#[test]
fn update_sale_cannot_drive_stock_negative() {
    let mut st = Store::new();
    let today = d(2024, 1, 15);
    st.add_product(&chair_input(10), today).unwrap();
    let sid = st
        .save_order(&order("Chair", "Alice", "Payé", 4, today), today)
        .unwrap();
    // 6 remain; the edit may use at most 6 + 4
    let err = st
        .update_sale(sid, &order("Chair", "Alice", "Payé", 11, today), today)
        .unwrap_err();
    assert_eq!(
        err,
        AppError::InsufficientStock {
            available: 10,
            requested: 11
        }
    );
    assert_eq!(st.get_product(1).unwrap().quantity, 6);
    assert_eq!(st.get_sale_by_id(sid).unwrap().quantity, 4);
}

#[test]
fn quantities_stay_nonnegative_through_a_mixed_sequence() {
    let mut st = Store::new();
    let today = d(2024, 3, 2);
    st.add_product(&chair_input(5), today).unwrap();
    st.add_product(&table_input(2), today).unwrap();
    let s1 = st
        .save_order(&order("Chair", "Ali", "Crédit", 5, today), today)
        .unwrap();
    assert!(st
        .save_order(&order("Chair", "Ali", "Payé", 1, today), today)
        .is_err());
    st.update_sale(s1, &order("Chair", "Ali", "Crédit", 2, today), today)
        .unwrap();
    st.save_order(&order("Table", "Bea", "Payé", 2, today), today)
        .unwrap();
    st.delete_sale(s1).unwrap();
    for p in st.get_products() {
        // quantities are unsigned; the checks above never undershot
        assert!(p.quantity <= 10);
    }
    assert_eq!(st.get_product(1).unwrap().quantity, 5);
    assert_eq!(st.get_product(2).unwrap().quantity, 0);
}

#[test]
fn products_listed_newest_first() {
    let mut st = Store::new();
    let today = d(2024, 1, 15);
    st.add_product(&chair_input(1), today).unwrap();
    st.add_product(&table_input(1), today).unwrap();
    let ps = st.get_products();
    assert_eq!(ps.len(), 2);
    assert_eq!(ps[0].name, "Table");
    assert_eq!(ps[1].name, "Chair");
}

#[test]
fn sales_listed_newest_first() {
    let mut st = Store::new();
    let today = d(2024, 1, 15);
    st.add_product(&chair_input(9), today).unwrap();
    st.save_order(&order("Chair", "Alice", "Payé", 1, today), today)
        .unwrap();
    st.save_order(&order("Chair", "Bob", "Crédit", 2, today), today)
        .unwrap();
    let ss = st.get_sales();
    assert_eq!(ss.len(), 2);
    assert_eq!(ss[0].client_name, "Bob");
    assert_eq!(ss[1].client_name, "Alice");
}

#[test]
fn get_missing_product_and_sale_are_not_found() {
    let st = Store::new();
    assert_eq!(st.get_product(1).unwrap_err(), AppError::NotFound);
    assert_eq!(st.get_sale_by_id(1).unwrap_err(), AppError::NotFound);
}

#[test]
fn update_product_replaces_fields_and_keeps_creation() {
    let mut st = Store::new();
    let created = d(2024, 1, 15);
    let later = d(2024, 2, 2);
    st.add_product(&chair_input(10), created).unwrap();
    let mut input = chair_input(25);
    input.price = 55;
    st.update_product(1, &input, later).unwrap();
    let p = st.get_product(1).unwrap();
    assert_eq!(p.price, 55);
    assert_eq!(p.quantity, 25);
    assert_eq!(p.created, created);
    assert_eq!(p.updated, later);
}

#[test]
fn update_product_to_taken_name_is_unique_violation() {
    let mut st = Store::new();
    let today = d(2024, 1, 15);
    st.add_product(&chair_input(10), today).unwrap();
    st.add_product(&table_input(5), today).unwrap();
    let mut input = table_input(5);
    input.name = "Chair".to_string();
    let err = st.update_product(2, &input, today).unwrap_err();
    assert_eq!(err, AppError::UniqueViolation);
    assert_eq!(st.get_product(2).unwrap().name, "Table");
}

#[test]
fn update_missing_product_changes_nothing() {
    let mut st = Store::new();
    let today = d(2024, 1, 15);
    st.update_product(7, &chair_input(1), today).unwrap();
    assert!(st.get_products().is_empty());
}

#[test]
fn delete_product_keeps_sales_as_history() {
    let mut st = Store::new();
    let today = d(2024, 1, 15);
    st.add_product(&chair_input(10), today).unwrap();
    st.save_order(&order("Chair", "Alice", "Payé", 2, today), today)
        .unwrap();
    st.delete_product(1);
    assert!(st.get_products().is_empty());
    let ss = st.get_sales();
    assert_eq!(ss.len(), 1);
    assert_eq!(ss[0].product_name, "Chair");
}
