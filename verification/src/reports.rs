//! The reporting engine: period-scoped expense aggregates, client
//! invoice aggregates, and the metrics summary. A product's stored
//! quantity is its current remaining stock, so the expense aggregate
//! reconstructs per-period purchased quantity from the product's
//! creation date, its current stock and the dated sales that name it.
use vstd::prelude::*;

use crate::domain::{AppError, Date, Metric, Product, Sale};
use crate::store::{first_product_by_name, Store};
use crate::textfmt::{
    ascii_chars, ascii_string, date_string, format_number, format_signed, lemma_padded_ascii,
    month_name, push_padded, spec_date_str, spec_digits, spec_format_number, spec_format_signed,
    spec_month_name, spec_padded, u64_string,
};

verus! {

/// A reporting period: a whole year, one month of a year, or one day.
#[derive(Debug, Clone, Copy, PartialEq, Eq, Structural)]
pub enum Period {
    Year { year: u16 },
    Month { year: u16, month: u8 },
    Day { date: Date },
}

/// Whether a date falls inside a period.
pub open spec fn period_contains(per: Period, d: Date) -> bool {
    match per {
        Period::Year { year } => d.year == year,
        Period::Month { year, month } => d.year == year && d.month == month,
        Period::Day { date } => d == date,
    }
}

/// Exec mirror of `period_contains`.
pub fn period_matches(per: &Period, d: &Date) -> (b: bool)
    ensures
        b == period_contains(*per, *d),
{
    match per {
        Period::Year { year } => d.year == *year,
        Period::Month { year, month } => d.year == *year && d.month == *month,
        Period::Day { date } => d.year == date.year && d.month == date.month && d.day == date.day,
    }
}

/// One row of an expense report: a product with its reconstructed
/// in-period quantity and the cost of that quantity.
#[derive(Debug)]
pub struct Expense {
    pub id: u64,
    pub product_name: String,
    pub cost_price: u64,
    pub quantity: u64,
    pub total_cost: u64,
    pub date: Date,
    pub created_at: Date,
}

/// An expense report: the displayed period, the rows (newest product
/// first) and the period's total cost.
#[derive(Debug)]
pub struct ExpensesInvoiceData {
    pub period: String,
    pub expenses: Vec<Expense>,
    pub total_cost: u64,
}

/// Total quantity sold of the named product inside the period, going
/// by each sale's creation date.
pub open spec fn sold_in_period(ss: Seq<Sale>, name: Seq<char>, per: Period) -> int
    decreases ss.len(),
{
    if ss.len() == 0 {
        0
    } else {
        sold_in_period(ss.drop_last(), name, per) + (if ss.last().product_name@ == name
            && period_contains(per, ss.last().created) {
            ss.last().quantity as int
        } else {
            0
        })
    }
}

pub proof fn lemma_sold_in_period_bounds(ss: Seq<Sale>, name: Seq<char>, per: Period)
    ensures
        0 <= sold_in_period(ss, name, per) <= ss.len() * (u64::MAX as int),
    decreases ss.len(),
{
    if ss.len() > 0 {
        lemma_sold_in_period_bounds(ss.drop_last(), name, per);
    }
}

/// The quantity a product contributes to a period's expenses: its
/// current stock when it was created inside the period (reconstructing
/// the original purchase), plus everything sold in-period under its
/// name.
pub open spec fn reconstructed_qty(p: Product, ss: Seq<Sale>, per: Period) -> int {
    (if period_contains(per, p.created) {
        p.quantity as int
    } else {
        0
    }) + sold_in_period(ss, p.name@, per)
}

/// The expense row of one product.
pub open spec fn expense_of(p: Product, ss: Seq<Sale>, per: Period) -> Expense {
    Expense {
        id: p.id,
        product_name: p.name,
        cost_price: p.cost_price,
        quantity: reconstructed_qty(p, ss, per) as u64,
        total_cost: (p.cost_price * reconstructed_qty(p, ss, per)) as u64,
        date: p.created,
        created_at: p.created,
    }
}

/// The report's rows: every product with a positive reconstructed
/// quantity, newest creation first.
pub open spec fn expense_rows(ps: Seq<Product>, ss: Seq<Sale>, per: Period) -> Seq<Expense>
    decreases ps.len(),
{
    if ps.len() == 0 {
        Seq::empty()
    } else {
        (if reconstructed_qty(ps.last(), ss, per) > 0 {
            seq![expense_of(ps.last(), ss, per)]
        } else {
            Seq::empty()
        }) + expense_rows(ps.drop_last(), ss, per)
    }
}

/// The report's total: the summed cost of every included row.
pub open spec fn expense_total(ps: Seq<Product>, ss: Seq<Sale>, per: Period) -> int
    decreases ps.len(),
{
    if ps.len() == 0 {
        0
    } else {
        (if reconstructed_qty(ps.last(), ss, per) > 0 {
            ps.last().cost_price as int * reconstructed_qty(ps.last(), ss, per)
        } else {
            0
        }) + expense_total(ps.drop_last(), ss, per)
    }
}

/// Whether every value of the report fits the machine word it is
/// returned in; the report fails (changing nothing) where one does not.
pub open spec fn expenses_fit(ps: Seq<Product>, ss: Seq<Sale>, per: Period) -> bool {
    &&& forall|i: int|
        0 <= i < ps.len() && #[trigger] reconstructed_qty(ps[i], ss, per) > 0 ==> {
            &&& reconstructed_qty(ps[i], ss, per) <= u64::MAX as int
            &&& ps[i].cost_price as int * reconstructed_qty(ps[i], ss, per) <= u64::MAX as int
        }
    &&& expense_total(ps, ss, per) <= u64::MAX as int
}

pub proof fn lemma_expense_total_nonneg(ps: Seq<Product>, ss: Seq<Sale>, per: Period)
    ensures
        expense_total(ps, ss, per) >= 0,
    decreases ps.len(),
{
    if ps.len() > 0 {
        lemma_expense_total_nonneg(ps.drop_last(), ss, per);
        let q = reconstructed_qty(ps.last(), ss, per);
        if q > 0 {
            assert(ps.last().cost_price as int * q >= 0) by (nonlinear_arith)
                requires
                    ps.last().cost_price as int >= 0,
                    q > 0,
            ;
        }
    }
}

/// For a product created inside the period, the aggregate prices the
/// original stock: cost times (current quantity plus the quantity sold
/// in-period under its name).
pub proof fn lemma_expense_created_in_period(p: Product, ss: Seq<Sale>, per: Period)
    requires
        period_contains(per, p.created),
    ensures
        reconstructed_qty(p, ss, per) == p.quantity as int + sold_in_period(ss, p.name@, per),
        p.cost_price as int * reconstructed_qty(p, ss, per) == p.cost_price as int * (p.quantity
            as int + sold_in_period(ss, p.name@, per)),
{
}

/// For a product created in some other period, only the in-period
/// sold quantity counts: the expense is cost times that quantity.
pub proof fn lemma_expense_created_elsewhere(p: Product, ss: Seq<Sale>, per: Period)
    requires
        !period_contains(per, p.created),
    ensures
        reconstructed_qty(p, ss, per) == sold_in_period(ss, p.name@, per),
        p.cost_price as int * reconstructed_qty(p, ss, per) == p.cost_price as int * sold_in_period(
            ss,
            p.name@,
            per,
        ),
{
}

impl Store {
    /// Quantity of the named product sold inside the period.
    #[verifier::loop_isolation(false)]
    fn sold_in_period_exec(&self, name: &String, per: &Period) -> (r: u128)
        ensures
            r as int == sold_in_period(self.sales@, name@, *per),
    {
        proof {
            lemma_sold_in_period_bounds(self.sales@, name@, *per);
        }
        let mut acc: u128 = 0;
        let mut j: usize = 0;
        while j < self.sales.len()
            invariant
                j <= self.sales@.len(),
                acc as int == sold_in_period(self.sales@.take(j as int), name@, *per),
                acc as int <= (j as int) * (u64::MAX as int),
            decreases self.sales@.len() - j,
        {
            proof {
                assert(self.sales@.take(j + 1 as int).drop_last() =~= self.sales@.take(j as int));
                assert(self.sales@.take(j + 1 as int).last() == self.sales@[j as int]);
            }
            if self.sales[j].product_name == *name && period_matches(per, &self.sales[j].created) {
                acc = acc + self.sales[j].quantity as u128;
            }
            j = j + 1;
        }
        proof {
            assert(self.sales@.take(self.sales@.len() as int) =~= self.sales@);
        }
        acc
    }

    /// The expense aggregate over one period, under the given display
    /// label. Read-only; `Storage` exactly when some row or the total
    /// does not fit the returned word.
    #[verifier::loop_isolation(false)]
    fn expense_report(&self, per: &Period, label: String) -> (r: Result<
        ExpensesInvoiceData,
        AppError,
    >)
        ensures
            ({
                match r {
                    Ok(rep) => {
                        &&& expenses_fit(self.products@, self.sales@, *per)
                        &&& rep.period == label
                        &&& rep.expenses@ == expense_rows(self.products@, self.sales@, *per)
                        &&& rep.total_cost as int == expense_total(self.products@, self.sales@, *per)
                    },
                    Err(e) => e == AppError::Storage && !expenses_fit(
                        self.products@,
                        self.sales@,
                        *per,
                    ),
                }
            }),
    {
        let ps = Ghost(self.products@);
        let ss = Ghost(self.sales@);
        let mut out: Vec<Expense> = Vec::new();
        let mut tot: u64 = 0;
        let mut m: usize = self.products.len();
        proof {
            assert(ps@.take(m as int) =~= ps@);
            assert(out@ + expense_rows(ps@.take(m as int), ss@, *per) =~= expense_rows(
                ps@,
                ss@,
                *per,
            ));
        }
        while m > 0
            invariant
                m <= ps@.len(),
                ps@ == self.products@,
                ss@ == self.sales@,
                expense_rows(ps@, ss@, *per) == out@ + expense_rows(ps@.take(m as int), ss@, *per),
                expense_total(ps@, ss@, *per) == tot as int + expense_total(
                    ps@.take(m as int),
                    ss@,
                    *per,
                ),
                forall|i: int|
                    m <= i < ps@.len() && #[trigger] reconstructed_qty(ps@[i], ss@, *per) > 0 ==> {
                        &&& reconstructed_qty(ps@[i], ss@, *per) <= u64::MAX as int
                        &&& ps@[i].cost_price as int * reconstructed_qty(ps@[i], ss@, *per)
                            <= u64::MAX as int
                    },
            decreases m,
        {
            let i = m - 1;
            proof {
                assert(ps@.take(m as int).drop_last() =~= ps@.take(i as int));
                assert(ps@.take(m as int).last() == ps@[i as int]);
            }
            let p = &self.products[i];
            let sold = self.sold_in_period_exec(&p.name, per);
            let created_in = period_matches(per, &p.created);
            let nsales = self.sales.len();
            proof {
                lemma_sold_in_period_bounds(ss@, ps@[i as int].name@, *per);
                assert((nsales as int) * (u64::MAX as int) <= (u64::MAX as int) * (u64::MAX as int))
                    by (nonlinear_arith)
                    requires
                        0 <= nsales as int <= u64::MAX as int,
                ;
            }
            let recon: u128 = (if created_in {
                p.quantity as u128
            } else {
                0
            }) + sold;
            if recon > 0 {
                if recon > u64::MAX as u128 {
                    return Err(AppError::Storage);
                }
                let cost = p.cost_price as u128;
                proof {
                    assert(cost * recon <= (u64::MAX as u128) * (u64::MAX as u128))
                        by (nonlinear_arith)
                        requires
                            cost <= u64::MAX as u128,
                            recon <= u64::MAX as u128,
                            cost >= 0,
                            recon >= 0,
                    ;
                }
                let rowcost = cost * recon;
                if rowcost > u64::MAX as u128 {
                    return Err(AppError::Storage);
                }
                let row = Expense {
                    id: p.id,
                    product_name: p.name.clone(),
                    cost_price: p.cost_price,
                    quantity: recon as u64,
                    total_cost: rowcost as u64,
                    date: p.created,
                    created_at: p.created,
                };
                proof {
                    assert(row == expense_of(ps@[i as int], ss@, *per));
                }
                let tot1 = match tot.checked_add(rowcost as u64) {
                    Some(t) => t,
                    None => {
                        proof {
                            lemma_expense_total_nonneg(ps@.take(i as int), ss@, *per);
                        }
                        return Err(AppError::Storage);
                    },
                };
                out.push(row);
                tot = tot1;
                proof {
                    assert(out@ + expense_rows(ps@.take(i as int), ss@, *per) =~= expense_rows(
                        ps@,
                        ss@,
                        *per,
                    ));
                }
            } else {
                proof {
                    assert(out@ + expense_rows(ps@.take(i as int), ss@, *per) =~= out@
                        + expense_rows(ps@.take(m as int), ss@, *per));
                }
            }
            m = i;
        }
        proof {
            assert(ps@.take(0) =~= Seq::<Product>::empty());
            assert(expense_rows(ps@, ss@, *per) =~= out@);
        }
        Ok(ExpensesInvoiceData { period: label, expenses: out, total_cost: tot })
    }

    /// The expense aggregate of one year; the label is the plain year.
    pub fn get_expenses_by_year(&self, year: u16) -> (r: Result<ExpensesInvoiceData, AppError>)
        ensures
            ({
                let per = Period::Year { year };
                match r {
                    Ok(rep) => {
                        &&& expenses_fit(self.products@, self.sales@, per)
                        &&& rep.period@ == ascii_chars(spec_padded(year as nat, 4))
                        &&& rep.expenses@ == expense_rows(self.products@, self.sales@, per)
                        &&& rep.total_cost as int == expense_total(self.products@, self.sales@, per)
                    },
                    Err(e) => e == AppError::Storage && !expenses_fit(
                        self.products@,
                        self.sales@,
                        per,
                    ),
                }
            }),
    {
        let label = year_label(year);
        self.expense_report(&Period::Year { year }, label)
    }

    /// The expense aggregate of one month; the label is the localized
    /// month name and the year.
    pub fn get_expenses_by_month(&self, year: u16, month: u8) -> (r: Result<
        ExpensesInvoiceData,
        AppError,
    >)
        requires
            1 <= month <= 12,
        ensures
            ({
                let per = Period::Month { year, month };
                match r {
                    Ok(rep) => {
                        &&& expenses_fit(self.products@, self.sales@, per)
                        &&& rep.period@ == spec_month_name(month) + " "@ + ascii_chars(
                            spec_digits(year as nat),
                        )
                        &&& rep.expenses@ == expense_rows(self.products@, self.sales@, per)
                        &&& rep.total_cost as int == expense_total(self.products@, self.sales@, per)
                    },
                    Err(e) => e == AppError::Storage && !expenses_fit(
                        self.products@,
                        self.sales@,
                        per,
                    ),
                }
            }),
    {
        let mut label = String::from_str(month_name(month));
        label.append(" ");
        let y = u64_string(year as u64);
        label.append(y.as_str());
        self.expense_report(&Period::Month { year, month }, label)
    }

    /// The expense aggregate of one day; the label is the date itself.
    pub fn get_expenses_by_day(&self, date: Date) -> (r: Result<ExpensesInvoiceData, AppError>)
        ensures
            ({
                let per = Period::Day { date };
                match r {
                    Ok(rep) => {
                        &&& expenses_fit(self.products@, self.sales@, per)
                        &&& rep.period@ == spec_date_str(date)
                        &&& rep.expenses@ == expense_rows(self.products@, self.sales@, per)
                        &&& rep.total_cost as int == expense_total(self.products@, self.sales@, per)
                    },
                    Err(e) => e == AppError::Storage && !expenses_fit(
                        self.products@,
                        self.sales@,
                        per,
                    ),
                }
            }),
    {
        let label = date_string(&date);
        self.expense_report(&Period::Day { date }, label)
    }
}

/// A client-invoice filter; each present field must match.
#[derive(Debug)]
pub struct InvoiceFilter {
    pub client: Option<String>,
    pub year: Option<u16>,
    pub month: Option<u8>,
    pub day: Option<Date>,
}

/// Whether a sale matches a filter: client by name, year and month by
/// the sale's own transaction date, day by exact date.
pub open spec fn invoice_match(s: Sale, f: InvoiceFilter) -> bool {
    &&& match f.client {
        Some(c) => s.client_name@ == c@,
        None => true,
    }
    &&& match f.year {
        Some(y) => s.date.year == y,
        None => true,
    }
    &&& match f.month {
        Some(m) => s.date.month == m,
        None => true,
    }
    &&& match f.day {
        Some(d) => s.date == d,
        None => true,
    }
}

/// One row of a client-invoice report, a sale as displayed.
#[derive(Debug)]
pub struct InvoiceItem {
    pub id: u64,
    pub client_name: String,
    pub status: String,
    pub product_name: String,
    pub product_image: Option<String>,
    pub quantity: u64,
    pub price: u64,
    pub total_amount: u64,
    pub date: Date,
    pub created_at: Date,
    pub updated_at: Date,
}

/// A client-invoice report: the resolved client, the displayed period,
/// the matching rows (newest first), and the three totals.
#[derive(Debug)]
pub struct ClientInvoiceData {
    pub client_name: String,
    pub period: String,
    pub items: Vec<InvoiceItem>,
    pub total: u64,
    pub credit_total: u64,
    pub paid_total: u64,
}

/// The invoice row of one sale.
pub open spec fn item_of_sale(s: Sale) -> InvoiceItem {
    InvoiceItem {
        id: s.id,
        client_name: s.client_name,
        status: s.status,
        product_name: s.product_name,
        product_image: s.product_image,
        quantity: s.quantity,
        price: s.price,
        total_amount: s.total_amount,
        date: s.date,
        created_at: s.created,
        updated_at: s.updated,
    }
}

/// The status marking a sale as unpaid; every other status is paid.
pub open spec fn is_credit(status: Seq<char>) -> bool {
    status == "Crédit"@
}

/// The matching rows, newest first.
pub open spec fn invoice_items(ss: Seq<Sale>, f: InvoiceFilter) -> Seq<InvoiceItem>
    decreases ss.len(),
{
    if ss.len() == 0 {
        Seq::empty()
    } else {
        (if invoice_match(ss.last(), f) {
            seq![item_of_sale(ss.last())]
        } else {
            Seq::empty()
        }) + invoice_items(ss.drop_last(), f)
    }
}

/// The summed amount of every matching sale.
pub open spec fn invoice_total(ss: Seq<Sale>, f: InvoiceFilter) -> int
    decreases ss.len(),
{
    if ss.len() == 0 {
        0
    } else {
        invoice_total(ss.drop_last(), f) + (if invoice_match(ss.last(), f) {
            ss.last().total_amount as int
        } else {
            0
        })
    }
}

/// The summed amount of the matching credit-status sales.
pub open spec fn credit_total(ss: Seq<Sale>, f: InvoiceFilter) -> int
    decreases ss.len(),
{
    if ss.len() == 0 {
        0
    } else {
        credit_total(ss.drop_last(), f) + (if invoice_match(ss.last(), f) && is_credit(
            ss.last().status@,
        ) {
            ss.last().total_amount as int
        } else {
            0
        })
    }
}

/// The summed amount of the matching paid sales (every non-credit
/// status counts as paid).
pub open spec fn paid_total(ss: Seq<Sale>, f: InvoiceFilter) -> int
    decreases ss.len(),
{
    if ss.len() == 0 {
        0
    } else {
        paid_total(ss.drop_last(), f) + (if invoice_match(ss.last(), f) && !is_credit(
            ss.last().status@,
        ) {
            ss.last().total_amount as int
        } else {
            0
        })
    }
}

/// Law: for every filter, the grand total splits exactly into the
/// credit subtotal and the paid subtotal.
pub proof fn lemma_invoice_total_split(ss: Seq<Sale>, f: InvoiceFilter)
    ensures
        invoice_total(ss, f) == credit_total(ss, f) + paid_total(ss, f),
    decreases ss.len(),
{
    if ss.len() > 0 {
        lemma_invoice_total_split(ss.drop_last(), f);
    }
}

/// The summed amount of a row list.
pub open spec fn items_amount_sum(items: Seq<InvoiceItem>) -> int
    decreases items.len(),
{
    if items.len() == 0 {
        0
    } else {
        items[0].total_amount as int + items_amount_sum(items.skip(1))
    }
}

/// Law: the rows a filter returns sum to the total it returns.
pub proof fn lemma_invoice_rows_sum(ss: Seq<Sale>, f: InvoiceFilter)
    ensures
        items_amount_sum(invoice_items(ss, f)) == invoice_total(ss, f),
    decreases ss.len(),
{
    if ss.len() > 0 {
        lemma_invoice_rows_sum(ss.drop_last(), f);
        let rest = invoice_items(ss.drop_last(), f);
        if invoice_match(ss.last(), f) {
            let one = seq![item_of_sale(ss.last())];
            assert((one + rest)[0] == item_of_sale(ss.last()));
            assert((one + rest).skip(1) =~= rest);
        } else {
            assert(Seq::<InvoiceItem>::empty() + rest =~= rest);
        }
    }
}

pub proof fn lemma_invoice_totals_nonneg(ss: Seq<Sale>, f: InvoiceFilter)
    ensures
        invoice_total(ss, f) >= 0,
        credit_total(ss, f) >= 0,
        paid_total(ss, f) >= 0,
    decreases ss.len(),
{
    if ss.len() > 0 {
        lemma_invoice_totals_nonneg(ss.drop_last(), f);
    }
}

/// The client name a period-only report resolves: the newest matching
/// row's client, or empty when nothing matches.
pub open spec fn resolved_client(ss: Seq<Sale>, f: InvoiceFilter) -> Seq<char> {
    if invoice_items(ss, f).len() > 0 {
        invoice_items(ss, f)[0].client_name@
    } else {
        Seq::<char>::empty()
    }
}

/// Exec mirror of `invoice_match`.
pub fn invoice_match_exec(s: &Sale, f: &InvoiceFilter) -> (b: bool)
    ensures
        b == invoice_match(*s, *f),
{
    let client_ok = match &f.client {
        Some(c) => s.client_name == *c,
        None => true,
    };
    let year_ok = match &f.year {
        Some(y) => s.date.year == *y,
        None => true,
    };
    let month_ok = match &f.month {
        Some(m) => s.date.month == *m,
        None => true,
    };
    let day_ok = match &f.day {
        Some(d) => s.date == *d,
        None => true,
    };
    client_ok && year_ok && month_ok && day_ok
}

/// Exec mirror of `is_credit`.
pub fn is_credit_exec(status: &String) -> (b: bool)
    ensures
        b == is_credit(status@),
{
    let marker = String::from_str("Crédit");
    *status == marker
}

impl Store {
    /// The matching rows, newest first, with the three totals. Fails
    /// with `Storage` exactly when the grand total does not fit the
    /// returned word (the subtotals then cannot either be trusted, so
    /// nothing is returned).
    #[verifier::loop_isolation(false)]
    fn invoice_collect(&self, f: &InvoiceFilter) -> (r: Result<
        (Vec<InvoiceItem>, u64, u64, u64),
        AppError,
    >)
        ensures
            ({
                match r {
                    Ok((items, tot, credit, paid)) => {
                        &&& invoice_total(self.sales@, *f) <= u64::MAX as int
                        &&& items@ == invoice_items(self.sales@, *f)
                        &&& tot as int == invoice_total(self.sales@, *f)
                        &&& credit as int == credit_total(self.sales@, *f)
                        &&& paid as int == paid_total(self.sales@, *f)
                    },
                    Err(e) => e == AppError::Storage && invoice_total(self.sales@, *f)
                        > u64::MAX as int,
                }
            }),
    {
        let ss = Ghost(self.sales@);
        let mut items: Vec<InvoiceItem> = Vec::new();
        let mut tot: u64 = 0;
        let mut credit: u64 = 0;
        let mut paid: u64 = 0;
        let mut m: usize = self.sales.len();
        proof {
            assert(ss@.take(m as int) =~= ss@);
            assert(items@ + invoice_items(ss@.take(m as int), *f) =~= invoice_items(ss@, *f));
        }
        while m > 0
            invariant
                m <= ss@.len(),
                ss@ == self.sales@,
                invoice_items(ss@, *f) == items@ + invoice_items(ss@.take(m as int), *f),
                invoice_total(ss@, *f) == tot as int + invoice_total(ss@.take(m as int), *f),
                credit_total(ss@, *f) == credit as int + credit_total(ss@.take(m as int), *f),
                paid_total(ss@, *f) == paid as int + paid_total(ss@.take(m as int), *f),
                credit as int + paid as int == tot as int,
            decreases m,
        {
            let i = m - 1;
            proof {
                assert(ss@.take(m as int).drop_last() =~= ss@.take(i as int));
                assert(ss@.take(m as int).last() == ss@[i as int]);
            }
            let s = &self.sales[i];
            if invoice_match_exec(s, f) {
                let amount = s.total_amount;
                let tot1 = match tot.checked_add(amount) {
                    Some(t) => t,
                    None => {
                        proof {
                            lemma_invoice_totals_nonneg(ss@.take(i as int), *f);
                        }
                        return Err(AppError::Storage);
                    },
                };
                let row = InvoiceItem {
                    id: s.id,
                    client_name: s.client_name.clone(),
                    status: s.status.clone(),
                    product_name: s.product_name.clone(),
                    product_image: crate::domain::dup_opt_string(&s.product_image),
                    quantity: s.quantity,
                    price: s.price,
                    total_amount: s.total_amount,
                    date: s.date,
                    created_at: s.created,
                    updated_at: s.updated,
                };
                proof {
                    assert(row == item_of_sale(ss@[i as int]));
                }
                items.push(row);
                tot = tot1;
                if is_credit_exec(&s.status) {
                    credit = credit + amount;
                } else {
                    paid = paid + amount;
                }
                proof {
                    assert(items@ + invoice_items(ss@.take(i as int), *f) =~= invoice_items(
                        ss@,
                        *f,
                    ));
                }
            } else {
                proof {
                    assert(items@ + invoice_items(ss@.take(i as int), *f) =~= items@
                        + invoice_items(ss@.take(m as int), *f));
                }
            }
            m = i;
        }
        proof {
            assert(ss@.take(0) =~= Seq::<Sale>::empty());
            assert(invoice_items(ss@, *f) =~= items@);
        }
        Ok((items, tot, credit, paid))
    }

    /// The newest matching row's client name, or empty.
    fn first_client_of(items: &Vec<InvoiceItem>) -> (r: String)
        ensures
            items@.len() > 0 ==> r@ == items@[0].client_name@,
            items@.len() == 0 ==> r@ == Seq::<char>::empty(),
    {
        if items.len() > 0 {
            items[0].client_name.clone()
        } else {
            String::new()
        }
    }

    /// Invoices of one year, client resolved from the newest match.
    pub fn get_client_invoices_by_year(&self, year: u16) -> (r: Result<
        ClientInvoiceData,
        AppError,
    >)
        ensures
            ({
                let f = InvoiceFilter { client: None, year: Some(year), month: None, day: None };
                match r {
                    Ok(d) => {
                        &&& invoice_total(self.sales@, f) <= u64::MAX as int
                        &&& d.items@ == invoice_items(self.sales@, f)
                        &&& d.total as int == invoice_total(self.sales@, f)
                        &&& d.credit_total as int == credit_total(self.sales@, f)
                        &&& d.paid_total as int == paid_total(self.sales@, f)
                        &&& d.client_name@ == resolved_client(self.sales@, f)
                        &&& d.period@ == ascii_chars(spec_padded(year as nat, 4))
                    },
                    Err(e) => e == AppError::Storage && invoice_total(self.sales@, f)
                        > u64::MAX as int,
                }
            }),
    {
        let f = InvoiceFilter { client: None, year: Some(year), month: None, day: None };
        let (items, tot, credit, paid) = match self.invoice_collect(&f) {
            Ok(x) => x,
            Err(e) => {
                return Err(e);
            },
        };
        let client_name = Self::first_client_of(&items);
        let period = year_label(year);
        Ok(
            ClientInvoiceData {
                client_name,
                period,
                items,
                total: tot,
                credit_total: credit,
                paid_total: paid,
            },
        )
    }

    /// Invoices of one month of a year; the label is `YYYY-MM`.
    pub fn get_client_invoices_by_month(&self, year: u16, month: u8) -> (r: Result<
        ClientInvoiceData,
        AppError,
    >)
        ensures
            ({
                let f = InvoiceFilter {
                    client: None,
                    year: Some(year),
                    month: Some(month),
                    day: None,
                };
                match r {
                    Ok(d) => {
                        &&& invoice_total(self.sales@, f) <= u64::MAX as int
                        &&& d.items@ == invoice_items(self.sales@, f)
                        &&& d.total as int == invoice_total(self.sales@, f)
                        &&& d.credit_total as int == credit_total(self.sales@, f)
                        &&& d.paid_total as int == paid_total(self.sales@, f)
                        &&& d.client_name@ == resolved_client(self.sales@, f)
                        &&& d.period@ == ascii_chars(
                            spec_padded(year as nat, 4) + seq![45u8] + spec_padded(month as nat, 2),
                        )
                    },
                    Err(e) => e == AppError::Storage && invoice_total(self.sales@, f)
                        > u64::MAX as int,
                }
            }),
    {
        let f = InvoiceFilter { client: None, year: Some(year), month: Some(month), day: None };
        let (items, tot, credit, paid) = match self.invoice_collect(&f) {
            Ok(x) => x,
            Err(e) => {
                return Err(e);
            },
        };
        let client_name = Self::first_client_of(&items);
        let period = year_month_label(year, month);
        Ok(
            ClientInvoiceData {
                client_name,
                period,
                items,
                total: tot,
                credit_total: credit,
                paid_total: paid,
            },
        )
    }

    /// Invoices of one client, optionally narrowed by year, month (of
    /// any year) or exact date, in any combination.
    pub fn get_client_invoices(
        &self,
        client_name: String,
        year: Option<u16>,
        month: Option<u8>,
        date: Option<Date>,
    ) -> (r: Result<ClientInvoiceData, AppError>)
        ensures
            ({
                let f = InvoiceFilter { client: Some(client_name), year, month, day: date };
                match r {
                    Ok(d) => {
                        &&& invoice_total(self.sales@, f) <= u64::MAX as int
                        &&& d.items@ == invoice_items(self.sales@, f)
                        &&& d.total as int == invoice_total(self.sales@, f)
                        &&& d.credit_total as int == credit_total(self.sales@, f)
                        &&& d.paid_total as int == paid_total(self.sales@, f)
                        &&& d.client_name@ == client_name@
                        &&& d.period@ == spec_client_period(year, month, date)
                    },
                    Err(e) => e == AppError::Storage && invoice_total(self.sales@, f)
                        > u64::MAX as int,
                }
            }),
    {
        let period = client_period_label(&year, &month, &date);
        let f = InvoiceFilter { client: Some(client_name.clone()), year, month, day: date };
        let (items, tot, credit, paid) = match self.invoice_collect(&f) {
            Ok(x) => x,
            Err(e) => {
                return Err(e);
            },
        };
        Ok(
            ClientInvoiceData {
                client_name,
                period,
                items,
                total: tot,
                credit_total: credit,
                paid_total: paid,
            },
        )
    }
}

/// The `YYYY-MM` period label.
pub open spec fn spec_year_month(year: u16, month: u8) -> Seq<char> {
    ascii_chars(spec_padded(year as nat, 4) + seq![45u8] + spec_padded(month as nat, 2))
}

/// The four-digit year label.
fn year_label(year: u16) -> (r: String)
    ensures
        r@ == ascii_chars(spec_padded(year as nat, 4)),
{
    let mut v: Vec<u8> = Vec::new();
    push_padded(year as u64, 4, &mut v);
    proof {
        lemma_padded_ascii(year as nat, 4);
    }
    ascii_string(v)
}

fn year_month_label(year: u16, month: u8) -> (r: String)
    ensures
        r@ == spec_year_month(year, month),
{
    let mut v: Vec<u8> = Vec::new();
    push_padded(year as u64, 4, &mut v);
    v.push(45);
    push_padded(month as u64, 2, &mut v);
    proof {
        lemma_padded_ascii(year as nat, 4);
        lemma_padded_ascii(month as nat, 2);
        assert(v@ =~= spec_padded(year as nat, 4) + seq![45u8] + spec_padded(month as nat, 2));
    }
    ascii_string(v)
}

/// The label of a client report: year and month where both are given,
/// the year alone, the exact date, or `all`.
pub open spec fn spec_client_period(year: Option<u16>, month: Option<u8>, date: Option<Date>)
    -> Seq<char> {
    match year {
        Some(y) => match month {
            Some(m) => spec_year_month(y, m),
            None => ascii_chars(spec_digits(y as nat)),
        },
        None => match date {
            Some(d) => spec_date_str(d),
            None => "all"@,
        },
    }
}

fn client_period_label(year: &Option<u16>, month: &Option<u8>, date: &Option<Date>) -> (r: String)
    ensures
        r@ == spec_client_period(*year, *month, *date),
{
    match year {
        Some(y) => match month {
            Some(m) => year_month_label(*y, *m),
            None => u64_string(*y as u64),
        },
        None => match date {
            Some(d) => date_string(d),
            None => String::from_str("all"),
        },
    }
}

/// Total revenue: the summed amount of every sale.
pub open spec fn sales_revenue(ss: Seq<Sale>) -> int
    decreases ss.len(),
{
    if ss.len() == 0 {
        0
    } else {
        sales_revenue(ss.drop_last()) + ss.last().total_amount as int
    }
}

/// Cost value of the stock on hand.
pub open spec fn inventory_cost(ps: Seq<Product>) -> int
    decreases ps.len(),
{
    if ps.len() == 0 {
        0
    } else {
        inventory_cost(ps.drop_last()) + ps.last().cost_price as int * ps.last().quantity as int
    }
}

/// Cost value of everything sold, at the named product's current cost;
/// a sale whose product is gone contributes nothing (an inner join).
pub open spec fn sold_goods_cost(ss: Seq<Sale>, ps: Seq<Product>) -> int
    decreases ss.len(),
{
    if ss.len() == 0 {
        0
    } else {
        sold_goods_cost(ss.drop_last(), ps) + ({
            let k = first_product_by_name(ps, ss.last().product_name@);
            if k >= 0 {
                ss.last().quantity as int * ps[k].cost_price as int
            } else {
                0
            }
        })
    }
}

/// The expense figure of the metrics summary: current inventory cost
/// plus historical sold cost. (Summing both counts cost basis twice
/// against revenue; the display convention is kept as it stands.)
pub open spec fn metrics_expenses(ps: Seq<Product>, ss: Seq<Sale>) -> int {
    inventory_cost(ps) + sold_goods_cost(ss, ps)
}

/// Whether both summary figures fit the displayed word.
pub open spec fn metrics_fit(ps: Seq<Product>, ss: Seq<Sale>) -> bool {
    &&& sales_revenue(ss) <= u64::MAX as int
    &&& metrics_expenses(ps, ss) <= u64::MAX as int
}

pub proof fn lemma_revenue_nonneg(ss: Seq<Sale>)
    ensures
        sales_revenue(ss) >= 0,
    decreases ss.len(),
{
    if ss.len() > 0 {
        lemma_revenue_nonneg(ss.drop_last());
    }
}

pub proof fn lemma_revenue_mono(ss: Seq<Sale>, m: int)
    requires
        0 <= m <= ss.len(),
    ensures
        sales_revenue(ss.take(m)) <= sales_revenue(ss),
    decreases ss.len(),
{
    if m == ss.len() {
        assert(ss.take(m) =~= ss);
    } else {
        lemma_revenue_mono(ss.drop_last(), m);
        assert(ss.drop_last().take(m) =~= ss.take(m));
    }
}

pub proof fn lemma_inventory_cost_nonneg(ps: Seq<Product>)
    ensures
        inventory_cost(ps) >= 0,
    decreases ps.len(),
{
    if ps.len() > 0 {
        lemma_inventory_cost_nonneg(ps.drop_last());
        let p = ps.last();
        assert(p.cost_price as int * p.quantity as int >= 0) by (nonlinear_arith)
            requires
                p.cost_price as int >= 0,
                p.quantity as int >= 0,
        ;
    }
}

pub proof fn lemma_inventory_cost_mono(ps: Seq<Product>, m: int)
    requires
        0 <= m <= ps.len(),
    ensures
        inventory_cost(ps.take(m)) <= inventory_cost(ps),
    decreases ps.len(),
{
    if m == ps.len() {
        assert(ps.take(m) =~= ps);
    } else {
        lemma_inventory_cost_mono(ps.drop_last(), m);
        assert(ps.drop_last().take(m) =~= ps.take(m));
        let p = ps.last();
        assert(p.cost_price as int * p.quantity as int >= 0) by (nonlinear_arith)
            requires
                p.cost_price as int >= 0,
                p.quantity as int >= 0,
        ;
    }
}

pub proof fn lemma_sold_goods_cost_nonneg(ss: Seq<Sale>, ps: Seq<Product>)
    ensures
        sold_goods_cost(ss, ps) >= 0,
    decreases ss.len(),
{
    if ss.len() > 0 {
        lemma_sold_goods_cost_nonneg(ss.drop_last(), ps);
        let s = ss.last();
        let k = first_product_by_name(ps, s.product_name@);
        if k >= 0 {
            crate::store::lemma_first_product_by_name(ps, s.product_name@);
            assert(s.quantity as int * ps[k].cost_price as int >= 0) by (nonlinear_arith)
                requires
                    s.quantity as int >= 0,
                    ps[k].cost_price as int >= 0,
            ;
        }
    }
}

pub proof fn lemma_sold_goods_cost_mono(ss: Seq<Sale>, ps: Seq<Product>, m: int)
    requires
        0 <= m <= ss.len(),
    ensures
        sold_goods_cost(ss.take(m), ps) <= sold_goods_cost(ss, ps),
    decreases ss.len(),
{
    if m == ss.len() {
        assert(ss.take(m) =~= ss);
    } else {
        lemma_sold_goods_cost_mono(ss.drop_last(), ps, m);
        assert(ss.drop_last().take(m) =~= ss.take(m));
        let s = ss.last();
        let k = first_product_by_name(ps, s.product_name@);
        if k >= 0 {
            crate::store::lemma_first_product_by_name(ps, s.product_name@);
            assert(s.quantity as int * ps[k].cost_price as int >= 0) by (nonlinear_arith)
                requires
                    s.quantity as int >= 0,
                    ps[k].cost_price as int >= 0,
            ;
        }
    }
}

impl Store {
    /// Total revenue of all sales, or `Storage` when it does not fit.
    #[verifier::loop_isolation(false)]
    fn revenue_exec(&self) -> (r: Result<u64, AppError>)
        ensures
            ({
                match r {
                    Ok(v) => v as int == sales_revenue(self.sales@),
                    Err(e) => e == AppError::Storage && sales_revenue(self.sales@)
                        > u64::MAX as int,
                }
            }),
    {
        let ss = Ghost(self.sales@);
        let mut acc: u64 = 0;
        let mut j: usize = 0;
        while j < self.sales.len()
            invariant
                j <= ss@.len(),
                ss@ == self.sales@,
                acc as int == sales_revenue(ss@.take(j as int)),
            decreases ss@.len() - j,
        {
            proof {
                assert(ss@.take(j + 1 as int).drop_last() =~= ss@.take(j as int));
                assert(ss@.take(j + 1 as int).last() == ss@[j as int]);
            }
            acc = match acc.checked_add(self.sales[j].total_amount) {
                Some(t) => t,
                None => {
                    proof {
                        lemma_revenue_mono(ss@, j + 1 as int);
                    }
                    return Err(AppError::Storage);
                },
            };
            j = j + 1;
        }
        proof {
            assert(ss@.take(ss@.len() as int) =~= ss@);
        }
        Ok(acc)
    }

    /// The metrics expense figure, or `Storage` when it does not fit.
    #[verifier::loop_isolation(false)]
    fn expenses_exec(&self) -> (r: Result<u64, AppError>)
        ensures
            ({
                match r {
                    Ok(v) => v as int == metrics_expenses(self.products@, self.sales@),
                    Err(e) => e == AppError::Storage && metrics_expenses(
                        self.products@,
                        self.sales@,
                    ) > u64::MAX as int,
                }
            }),
    {
        let ps = Ghost(self.products@);
        let ss = Ghost(self.sales@);
        let mut acc: u64 = 0;
        let mut j: usize = 0;
        while j < self.products.len()
            invariant
                j <= ps@.len(),
                ps@ == self.products@,
                ss@ == self.sales@,
                acc as int == inventory_cost(ps@.take(j as int)),
            decreases ps@.len() - j,
        {
            proof {
                assert(ps@.take(j + 1 as int).drop_last() =~= ps@.take(j as int));
                assert(ps@.take(j + 1 as int).last() == ps@[j as int]);
            }
            let p = &self.products[j];
            proof {
                assert((p.cost_price as u128) * (p.quantity as u128) <= (u64::MAX as u128) * (
                u64::MAX as u128)) by (nonlinear_arith)
                    requires
                        p.cost_price as u128 <= u64::MAX as u128,
                        p.quantity as u128 <= u64::MAX as u128,
                ;
            }
            let term: u128 = (p.cost_price as u128) * (p.quantity as u128);
            let sum = acc as u128 + term;
            if sum > u64::MAX as u128 {
                proof {
                    lemma_inventory_cost_mono(ps@, j + 1 as int);
                    lemma_sold_goods_cost_nonneg(ss@, ps@);
                }
                return Err(AppError::Storage);
            }
            acc = sum as u64;
            j = j + 1;
        }
        proof {
            assert(ps@.take(ps@.len() as int) =~= ps@);
        }
        let mut k: usize = 0;
        while k < self.sales.len()
            invariant
                k <= ss@.len(),
                ps@ == self.products@,
                ss@ == self.sales@,
                acc as int == inventory_cost(ps@) + sold_goods_cost(ss@.take(k as int), ps@),
            decreases ss@.len() - k,
        {
            proof {
                assert(ss@.take(k + 1 as int).drop_last() =~= ss@.take(k as int));
                assert(ss@.take(k + 1 as int).last() == ss@[k as int]);
            }
            let s = &self.sales[k];
            let term: u128 = match self.find_product_by_name(&s.product_name) {
                Some(i) => {
                    let c = self.products[i].cost_price;
                    proof {
                        assert((s.quantity as u128) * (c as u128) <= (u64::MAX as u128) * (u64::MAX
                        as u128)) by (nonlinear_arith)
                            requires
                                s.quantity as u128 <= u64::MAX as u128,
                                c as u128 <= u64::MAX as u128,
                        ;
                    }
                    (s.quantity as u128) * (c as u128)
                },
                None => 0,
            };
            let sum = acc as u128 + term;
            if sum > u64::MAX as u128 {
                proof {
                    lemma_sold_goods_cost_mono(ss@, ps@, k + 1 as int);
                }
                return Err(AppError::Storage);
            }
            acc = sum as u64;
            k = k + 1;
        }
        proof {
            assert(ss@.take(ss@.len() as int) =~= ss@);
        }
        Ok(acc)
    }

    /// The four metric tiles: total revenue, product count, the expense
    /// figure, and the benefit (revenue less expenses), each formatted
    /// for display. `Storage` exactly when a figure does not fit.
    pub fn get_metrics_summary(&self) -> (r: Result<Vec<Metric>, AppError>)
        ensures
            ({
                let revenue = sales_revenue(self.sales@);
                let expenses = metrics_expenses(self.products@, self.sales@);
                match r {
                    Ok(ms) => {
                        &&& metrics_fit(self.products@, self.sales@)
                        &&& ms@.len() == 4
                        &&& ms@[0].title@ == " Gains Total"@
                        &&& ms@[0].value@ == spec_format_number(revenue as nat) + " TND"@
                        &&& ms@[0].icon@ == "💰"@
                        &&& ms@[1].title@ == "Produits Total"@
                        &&& ms@[1].value@ == spec_format_number(self.products@.len())
                        &&& ms@[1].icon@ == "📦"@
                        &&& ms@[2].title@ == "Dépenses Total"@
                        &&& ms@[2].value@ == spec_format_number(expenses as nat) + " TND"@
                        &&& ms@[2].icon@ == "💸"@
                        &&& ms@[3].title@ == "Bénéfice Total"@
                        &&& ms@[3].value@ == spec_format_signed(revenue - expenses) + " TND"@
                        &&& ms@[3].icon@ == "📈"@
                    },
                    Err(e) => e == AppError::Storage && !metrics_fit(self.products@, self.sales@),
                }
            }),
    {
        proof {
            lemma_revenue_nonneg(self.sales@);
            lemma_inventory_cost_nonneg(self.products@);
            lemma_sold_goods_cost_nonneg(self.sales@, self.products@);
        }
        let revenue = match self.revenue_exec() {
            Ok(v) => v,
            Err(e) => {
                return Err(e);
            },
        };
        let expenses = match self.expenses_exec() {
            Ok(v) => v,
            Err(e) => {
                return Err(e);
            },
        };
        let count = self.products.len() as u64;
        let benefit: i128 = revenue as i128 - expenses as i128;
        let mut ms: Vec<Metric> = Vec::new();
        ms.push(
            Metric {
                title: String::from_str(" Gains Total"),
                value: format_number(revenue).concat(" TND"),
                icon: String::from_str("💰"),
                color: String::from_str(
                    "bg-green-100 dark:bg-gray-800 text-gray-800 dark:text-gray-200",
                ),
            },
        );
        ms.push(
            Metric {
                title: String::from_str("Produits Total"),
                value: format_number(count),
                icon: String::from_str("📦"),
                color: String::from_str(
                    "bg-blue-100 dark:bg-gray-800 text-gray-800 dark:text-gray-200",
                ),
            },
        );
        ms.push(
            Metric {
                title: String::from_str("Dépenses Total"),
                value: format_number(expenses).concat(" TND"),
                icon: String::from_str("💸"),
                color: String::from_str(
                    "bg-red-100 dark:bg-gray-800 text-gray-800 dark:text-gray-200",
                ),
            },
        );
        ms.push(
            Metric {
                title: String::from_str("Bénéfice Total"),
                value: format_signed(benefit).concat(" TND"),
                icon: String::from_str("📈"),
                color: String::from_str(
                    "bg-purple-100 dark:bg-gray-800 text-gray-800 dark:text-gray-200",
                ),
            },
        );
        Ok(ms)
    }
}

} // verus!

