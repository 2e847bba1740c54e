//! The reporting aggregates on concrete ledgers: expense
//! reconstruction per period, client invoices under each filter, and
//! the metrics summary.
use stockbook::domain::{Date, Order, ProductInput};
use stockbook::store::Store;

fn d(year: u16, month: u8, day: u8) -> Date {
    Date { year, month, day }
}

fn product(name: &str, price: u64, cost: u64, qty: u64) -> ProductInput {
    ProductInput {
        name: name.to_string(),
        price,
        quantity: qty,
        cost_price: cost,
        brand: "Acme".to_string(),
        material: "wood".to_string(),
        image: None,
    }
}

fn order(product: &str, client: &str, status: &str, qty: u64, date: Date) -> Order {
    Order {
        client_name: client.to_string(),
        status: status.to_string(),
        product_name: product.to_string(),
        date,
        quantity: qty,
    }
}

/// A store with one product created in January 2024 (cost 20, initial
/// stock 10) and two units sold in January, three in February.
fn seeded() -> Store {
    let mut st = Store::new();
    let jan = d(2024, 1, 10);
    let feb = d(2024, 2, 5);
    st.add_product(&product("Chair", 50, 20, 10), jan).unwrap();
    st.save_order(&order("Chair", "Alice", "Payé", 2, jan), jan)
        .unwrap();
    st.save_order(&order("Chair", "Bob", "Crédit", 3, feb), feb)
        .unwrap();
    st
}

#[test]
fn expenses_in_creation_month_price_original_stock() {
    let st = seeded();
    // current stock is 10 - 2 - 5 = 5; January sold 2, so the January
    // aggregate reconstructs 5 + 2 = 7 at cost 20
    let rep = st.get_expenses_by_month(2024, 1).unwrap();
    assert_eq!(rep.period, "Janvier 2024");
    assert_eq!(rep.expenses.len(), 1);
    assert_eq!(rep.expenses[0].product_name, "Chair");
    assert_eq!(rep.expenses[0].quantity, 7);
    assert_eq!(rep.expenses[0].total_cost, 140);
    assert_eq!(rep.total_cost, 140);
}

#[test]
fn expenses_in_other_month_count_only_sold_units() {
    let st = seeded();
    // created in January, so February counts only the 3 units sold then
    let rep = st.get_expenses_by_month(2024, 2).unwrap();
    assert_eq!(rep.period, "Février 2024");
    assert_eq!(rep.expenses.len(), 1);
    assert_eq!(rep.expenses[0].quantity, 3);
    assert_eq!(rep.expenses[0].total_cost, 60);
    assert_eq!(rep.total_cost, 60);
}

#[test]
fn expenses_skip_months_without_activity() {
    let st = seeded();
    let rep = st.get_expenses_by_month(2024, 3).unwrap();
    assert!(rep.expenses.is_empty());
    assert_eq!(rep.total_cost, 0);
}

#[test]
fn expenses_by_year_cover_both_months() {
    let st = seeded();
    let rep = st.get_expenses_by_year(2024).unwrap();
    assert_eq!(rep.period, "2024");
    assert_eq!(rep.expenses.len(), 1);
    // created in 2024: current 5 plus the 5 sold in 2024
    assert_eq!(rep.expenses[0].quantity, 10);
    assert_eq!(rep.total_cost, 200);
    let other = st.get_expenses_by_year(2023).unwrap();
    assert!(other.expenses.is_empty());
    assert_eq!(other.total_cost, 0);
}

#[test]
fn year_labels_are_four_digit() {
    let st = Store::new();
    assert_eq!(st.get_expenses_by_year(86).unwrap().period, "0086");
    assert_eq!(st.get_client_invoices_by_year(86).unwrap().period, "0086");
    assert_eq!(st.get_client_invoices_by_year(2024).unwrap().period, "2024");
}

#[test]
fn expenses_by_day_use_the_date_label() {
    let st = seeded();
    let rep = st.get_expenses_by_day(d(2024, 2, 5)).unwrap();
    assert_eq!(rep.period, "2024-02-05");
    assert_eq!(rep.expenses.len(), 1);
    assert_eq!(rep.expenses[0].quantity, 3);
    assert_eq!(rep.total_cost, 60);
}

#[test]
fn expense_rows_come_newest_product_first() {
    let mut st = Store::new();
    let jan = d(2024, 1, 10);
    st.add_product(&product("Chair", 50, 20, 1), jan).unwrap();
    st.add_product(&product("Table", 100, 60, 2), jan).unwrap();
    let rep = st.get_expenses_by_month(2024, 1).unwrap();
    assert_eq!(rep.expenses.len(), 2);
    assert_eq!(rep.expenses[0].product_name, "Table");
    assert_eq!(rep.expenses[1].product_name, "Chair");
    assert_eq!(rep.total_cost, 20 + 120);
}

#[test]
fn invoices_split_credit_and_paid() {
    let st = seeded();
    let rep = st.get_client_invoices_by_year(2024).unwrap();
    assert_eq!(rep.period, "2024");
    assert_eq!(rep.items.len(), 2);
    assert_eq!(rep.total, 100 + 150);
    assert_eq!(rep.credit_total, 150);
    assert_eq!(rep.paid_total, 100);
    assert_eq!(rep.total, rep.credit_total + rep.paid_total);
    let sum: u64 = rep.items.iter().map(|i| i.total_amount).sum();
    assert_eq!(sum, rep.total);
    // the client resolves to the newest matching row
    assert_eq!(rep.client_name, "Bob");
}

#[test]
fn invoices_by_month_filter_on_the_sale_date() {
    let st = seeded();
    let rep = st.get_client_invoices_by_month(2024, 1).unwrap();
    assert_eq!(rep.period, "2024-01");
    assert_eq!(rep.items.len(), 1);
    assert_eq!(rep.items[0].client_name, "Alice");
    assert_eq!(rep.total, 100);
    assert_eq!(rep.credit_total, 0);
    assert_eq!(rep.paid_total, 100);
}

#[test]
fn invoices_by_client_and_combinations() {
    let st = seeded();
    let rep = st
        .get_client_invoices("Alice".to_string(), None, None, None)
        .unwrap();
    assert_eq!(rep.client_name, "Alice");
    assert_eq!(rep.period, "all");
    assert_eq!(rep.items.len(), 1);
    assert_eq!(rep.total, 100);

    let rep = st
        .get_client_invoices("Bob".to_string(), Some(2024), Some(2), None)
        .unwrap();
    assert_eq!(rep.period, "2024-02");
    assert_eq!(rep.total, 150);
    assert_eq!(rep.credit_total, 150);

    let rep = st
        .get_client_invoices("Bob".to_string(), Some(2024), None, None)
        .unwrap();
    assert_eq!(rep.period, "2024");
    assert_eq!(rep.total, 150);

    let rep = st
        .get_client_invoices("Alice".to_string(), None, None, Some(d(2024, 1, 10)))
        .unwrap();
    assert_eq!(rep.period, "2024-01-10");
    assert_eq!(rep.total, 100);

    let rep = st
        .get_client_invoices("Alice".to_string(), None, None, Some(d(2024, 1, 11)))
        .unwrap();
    assert!(rep.items.is_empty());
    assert_eq!(rep.total, 0);
    assert_eq!(rep.total, rep.credit_total + rep.paid_total);
}

#[test]
fn month_only_filter_matches_across_years() {
    let mut st = Store::new();
    let a = d(2023, 4, 1);
    let b = d(2024, 4, 2);
    st.add_product(&product("Chair", 50, 20, 10), a).unwrap();
    st.save_order(&order("Chair", "Ann", "Payé", 1, a), a).unwrap();
    st.save_order(&order("Chair", "Ann", "Payé", 2, b), b).unwrap();
    let rep = st
        .get_client_invoices("Ann".to_string(), None, Some(4), None)
        .unwrap();
    assert_eq!(rep.items.len(), 2);
    assert_eq!(rep.total, 50 + 100);
}

#[test]
fn expenses_go_by_the_sale_creation_date_invoices_by_its_user_date() {
    let mut st = Store::new();
    let march = d(2024, 3, 1);
    let april = d(2024, 4, 20);
    st.add_product(&product("Chair", 50, 20, 10), march).unwrap();
    // booked in April with a user-supplied March transaction date
    st.save_order(&order("Chair", "Ann", "Payé", 2, march), april)
        .unwrap();
    // the expense aggregate counts the sale where it was created
    let march_exp = st.get_expenses_by_month(2024, 3).unwrap();
    assert_eq!(march_exp.expenses[0].quantity, 8);
    let april_exp = st.get_expenses_by_month(2024, 4).unwrap();
    assert_eq!(april_exp.expenses[0].quantity, 2);
    // the invoice aggregate filters on the transaction date
    assert_eq!(st.get_client_invoices_by_month(2024, 3).unwrap().total, 100);
    assert_eq!(st.get_client_invoices_by_month(2024, 4).unwrap().total, 0);
}

#[test]
fn expenses_exclude_idle_zero_stock_products() {
    let mut st = Store::new();
    let jan = d(2024, 1, 10);
    st.add_product(&product("Chair", 50, 20, 0), jan).unwrap();
    let rep = st.get_expenses_by_month(2024, 1).unwrap();
    assert!(rep.expenses.is_empty());
    assert_eq!(rep.total_cost, 0);
}

#[test]
fn metrics_summary_formats_the_four_tiles() {
    let st = seeded();
    let ms = st.get_metrics_summary().unwrap();
    assert_eq!(ms.len(), 4);
    // revenue 250; inventory cost 5 * 20 = 100; sold cost 5 * 20 = 100;
    // expenses 200; benefit 50
    assert_eq!(ms[0].title, " Gains Total");
    assert_eq!(ms[0].value, "250 TND");
    assert_eq!(ms[0].icon, "💰");
    assert_eq!(ms[1].title, "Produits Total");
    assert_eq!(ms[1].value, "1");
    assert_eq!(ms[2].title, "Dépenses Total");
    assert_eq!(ms[2].value, "200 TND");
    assert_eq!(ms[3].title, "Bénéfice Total");
    assert_eq!(ms[3].value, "50 TND");
}

#[test]
fn metrics_benefit_can_be_negative_and_groups_digits() {
    let mut st = Store::new();
    let jan = d(2024, 1, 10);
    st.add_product(&product("Chair", 1, 2000, 1000), jan).unwrap();
    let ms = st.get_metrics_summary().unwrap();
    // no sales: revenue 0, expenses 2 000 000, benefit -2 000 000
    assert_eq!(ms[0].value, "0 TND");
    assert_eq!(ms[2].value, "2 000 000 TND");
    assert_eq!(ms[3].value, "-2 000 000 TND");
}
