//! Reading a journal from a database: which query is run, and how the
//! columns of a row make a transaction.
use crate::date::Date;
use crate::models::Transaction;
use crate::money::Money;
use crate::text::push_str;
use vstd::prelude::*;

verus! {

/// The kind of database.
#[derive(PartialEq, Eq, Structural, Clone, Copy, Debug)]
pub enum DatabaseType {
    MySQL,
    PostgreSQL,
}

/// Where and what to read.
#[derive(Clone, Debug)]
pub struct DatabaseConfig {
    pub connection_string: String,
    pub db_type: DatabaseType,
    /// A query to run as it is.
    pub query: Option<String>,
    /// The table to read, where no query is given (`transactions` if none).
    pub table_name: Option<String>,
}

/// The columns read from a table.
pub open spec fn default_columns() -> Seq<char> {
    "date, voucher_id, account_code, account_name, description, debit, credit"@
}

/// The query for a configuration: its own query, else all journal columns
/// of its table ordered by date.
pub open spec fn query_text(query: Option<Seq<char>>, table: Option<Seq<char>>) -> Seq<char> {
    match query {
        Some(q) => q,
        None => "SELECT "@ + default_columns() + " FROM "@ + match table {
            Some(t) => t,
            None => "transactions"@,
        } + " ORDER BY date"@,
    }
}

pub open spec fn opt_text(o: Option<String>) -> Option<Seq<char>> {
    match o {
        Some(s) => Some(s@),
        None => None,
    }
}

impl DatabaseConfig {
    /// The query to run.
    pub fn get_query(&self) -> (r: String)
        ensures
            r@ == query_text(opt_text(self.query), opt_text(self.table_name)),
    {
        match &self.query {
            Some(q) => q.clone(),
            None => {
                let mut s = String::from_str("SELECT ");
                push_str(&mut s, "date, voucher_id, account_code, account_name, description, debit, credit");
                push_str(&mut s, " FROM ");
                match &self.table_name {
                    Some(t) => push_str(&mut s, t.as_str()),
                    None => push_str(&mut s, "transactions"),
                }
                push_str(&mut s, " ORDER BY date");
                s
            },
        }
    }
}

/// The transaction of the row at `index` (from 0) of a query's result: its
/// row number is `index + 1`; a text column that could not be read is
/// empty, and an amount that could not be read is zero.
pub fn transaction_from_columns(
    index: usize,
    date: Date,
    voucher_id: Option<String>,
    account_code: Option<String>,
    account_name: Option<String>,
    description: Option<String>,
    debit: Option<Money>,
    credit: Option<Money>,
) -> (r: Transaction)
    requires
        index < usize::MAX,
    ensures
        r.row_index == index + 1,
        r.date == date,
        r.voucher_id@ == text_or_empty(opt_text(voucher_id)),
        r.account_code@ == text_or_empty(opt_text(account_code)),
        r.account_name@ == text_or_empty(opt_text(account_name)),
        r.description@ == text_or_empty(opt_text(description)),
        amount_or_zero(debit, r.debit),
        amount_or_zero(credit, r.credit),
{
    Transaction {
        row_index: index + 1,
        date,
        voucher_id: or_empty(voucher_id),
        account_code: or_empty(account_code),
        account_name: or_empty(account_name),
        description: or_empty(description),
        debit: or_zero(debit),
        credit: or_zero(credit),
    }
}

pub open spec fn text_or_empty(o: Option<Seq<char>>) -> Seq<char> {
    match o {
        Some(s) => s,
        None => Seq::empty(),
    }
}

/// Whether `m` is the amount read, or zero (at scale 0) where none was.
pub open spec fn amount_or_zero(o: Option<Money>, m: Money) -> bool {
    match o {
        Some(a) => m == a,
        None => m.spec_mantissa() == 0 && m.spec_scale() == 0,
    }
}

fn or_empty(o: Option<String>) -> (r: String)
    ensures
        r@ == text_or_empty(opt_text(o)),
{
    match o {
        Some(s) => s,
        None => String::new(),
    }
}

fn or_zero(o: Option<Money>) -> (r: Money)
    ensures
        amount_or_zero(o, r),
{
    match o {
        Some(m) => m,
        None => Money::zero(),
    }
}

} // verus!
