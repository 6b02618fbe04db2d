//! Turning the text fields of a journal's rows into transactions: dates in
//! several formats, amounts with thousands separators, Excel day numbers.
use crate::date::{chrono_parse_date, chrono_parse_datetime, days_from_ce, max_year, min_year, Date};
use crate::models::{Transaction, TxnView};
use crate::money::{decimal_parse, Money, Parts};
use crate::text::{chars_of, remove_char, remove_char_exec, str_eq, string_of, trim, trim_str};
use vstd::prelude::*;

verus! {

/// Why a row could not be read.
#[derive(Clone, Debug)]
pub enum DataError {
    /// No known format reads the date text.
    InvalidDate(String),
    /// The amount text is no decimal number.
    InvalidAmount(String),
    /// An Excel day number outside 1..=2958465.
    SerialOutOfRange(i64),
    /// The date cell is empty.
    EmptyDateCell,
}

/// The fields of a CSV row, as text.
#[derive(Clone, Debug)]
pub struct CsvRecord {
    pub date: String,
    pub voucher_id: String,
    pub account_code: String,
    pub account_name: String,
    pub description: String,
    pub debit: String,
    pub credit: String,
}

impl CsvRecord {
    /// A copy of the row.
    pub fn duplicate(&self) -> (r: CsvRecord)
        ensures
            r.date@ == self.date@,
            r.voucher_id@ == self.voucher_id@,
            r.account_code@ == self.account_code@,
            r.account_name@ == self.account_name@,
            r.description@ == self.description@,
            r.debit@ == self.debit@,
            r.credit@ == self.credit@,
    {
        CsvRecord {
            date: self.date.clone(),
            voucher_id: self.voucher_id.clone(),
            account_code: self.account_code.clone(),
            account_name: self.account_name.clone(),
            description: self.description.clone(),
            debit: self.debit.clone(),
            credit: self.credit.clone(),
        }
    }
}

/// The date formats a CSV date may have, tried in order.
pub open spec fn csv_date_formats() -> Seq<Seq<char>> {
    seq!["%Y-%m-%d"@, "%Y/%m/%d"@, "%Y年%m月%d日"@, "%d/%m/%Y"@, "%m/%d/%Y"@, "%Y.%m.%d"@]
}

/// The date-time formats an Excel date text may have, tried first.
pub open spec fn datetime_formats() -> Seq<Seq<char>> {
    seq!["%Y-%m-%d %H:%M:%S"@, "%Y-%m-%dT%H:%M:%S"@, "%Y/%m/%d %H:%M:%S"@, "%Y-%m-%d %H:%M:%S%.f"@]
}

/// The date formats an Excel date text may have, tried after the date-times.
pub open spec fn excel_date_formats() -> Seq<Seq<char>> {
    seq!["%Y-%m-%d"@, "%Y/%m/%d"@, "%Y年%m月%d日"@, "%Y.%m.%d"@, "%d/%m/%Y"@, "%m/%d/%Y"@]
}

/// The date of the first format, from position `i` on, that reads `text`.
pub open spec fn first_date(text: Seq<char>, formats: Seq<Seq<char>>, i: int) -> Option<(int, int, int)>
    decreases formats.len() - i,
{
    if i >= formats.len() || i < 0 {
        None
    } else {
        match chrono_parse_date(text, formats[i]) {
            Some(d) => Some(d),
            None => first_date(text, formats, i + 1),
        }
    }
}

/// The date of the first date-time format, from position `i` on, that reads `text`.
pub open spec fn first_datetime(text: Seq<char>, formats: Seq<Seq<char>>, i: int) -> Option<(int, int, int)>
    decreases formats.len() - i,
{
    if i >= formats.len() || i < 0 {
        None
    } else {
        match chrono_parse_datetime(text, formats[i]) {
            Some(d) => Some(d),
            None => first_datetime(text, formats, i + 1),
        }
    }
}

/// What a CSV date text gives: the first of the formats that reads the
/// trimmed text.
pub open spec fn csv_date(text: Seq<char>) -> Option<(int, int, int)> {
    first_date(trim(text), csv_date_formats(), 0)
}

/// What an Excel date text gives: the first date-time format that reads the
/// trimmed text, else the first date format.
pub open spec fn excel_date(text: Seq<char>) -> Option<(int, int, int)> {
    match first_datetime(trim(text), datetime_formats(), 0) {
        Some(d) => Some(d),
        None => first_date(trim(text), excel_date_formats(), 0),
    }
}

/// What an amount text gives: zero for an empty text, "-" or "0" (after
/// trimming); otherwise the decimal the text gives without its commas.
pub open spec fn amount_of(text: Seq<char>) -> Option<Parts> {
    let t = trim(text);
    if t.len() == 0 || t == "-"@ || t == "0"@ {
        Some((0, 0))
    } else {
        match decimal_parse(remove_char(t, ',')) {
            Some(p) => Some((p.0, p.1 as nat)),
            None => None,
        }
    }
}

pub open spec fn date_ymd(d: Date) -> (int, int, int) {
    (d.spec_year(), d.spec_month(), d.spec_day())
}

fn try_formats(text: &str, formats: &Vec<&'static str>, datetime: bool) -> (r: Option<Date>)
    ensures
        ({
            let fs = formats@.map_values(|f: &str| f@);
            let want = if datetime {
                first_datetime(text@, fs, 0)
            } else {
                first_date(text@, fs, 0)
            };
            (r is Some <==> want is Some) && (r is Some ==> want == Some(date_ymd(r.unwrap())))
        }),
{
    let ghost fs = formats@.map_values(|f: &str| f@);
    let mut i: usize = formats.len();
    let mut found: Option<Date> = None;
    while i > 0
        invariant
            i <= formats@.len(),
            fs == formats@.map_values(|f: &str| f@),
            ({
                let want = if datetime {
                    first_datetime(text@, fs, i as int)
                } else {
                    first_date(text@, fs, i as int)
                };
                (found is Some <==> want is Some) && (found is Some ==> want == Some(date_ymd(found.unwrap())))
            }),
        decreases i,
    {
        i = i - 1;
        let fmt = formats[i];
        let attempt = if datetime {
            Date::parse_datetime_from_str(text, fmt)
        } else {
            Date::parse_from_str(text, fmt)
        };
        if attempt.is_some() {
            found = attempt;
        }
    }
    found
}

/// Reads a CSV date: the trimmed text in the first of the formats
/// `%Y-%m-%d`, `%Y/%m/%d`, `%Y年%m月%d日`, `%d/%m/%Y`, `%m/%d/%Y`, `%Y.%m.%d`
/// that reads it.
pub fn parse_date(s: &str) -> (r: Result<Date, DataError>)
    ensures
        r is Ok <==> csv_date(s@) is Some,
        r is Ok ==> csv_date(s@) == Some(date_ymd(r.unwrap())),
{
    let t = trim_str(s);
    let mut formats: Vec<&'static str> = Vec::new();
    formats.push("%Y-%m-%d");
    formats.push("%Y/%m/%d");
    formats.push("%Y年%m月%d日");
    formats.push("%d/%m/%Y");
    formats.push("%m/%d/%Y");
    formats.push("%Y.%m.%d");
    assert(formats@.map_values(|f: &str| f@) =~= csv_date_formats());
    match try_formats(t.as_str(), &formats, false) {
        Some(d) => Ok(d),
        None => Err(DataError::InvalidDate(t)),
    }
}

/// Reads a date text from a spreadsheet: the trimmed text in the first of
/// the date-time formats `%Y-%m-%d %H:%M:%S`, `%Y-%m-%dT%H:%M:%S`,
/// `%Y/%m/%d %H:%M:%S`, `%Y-%m-%d %H:%M:%S%.f` that reads it, else in the
/// first of the date formats `%Y-%m-%d`, `%Y/%m/%d`, `%Y年%m月%d日`,
/// `%Y.%m.%d`, `%d/%m/%Y`, `%m/%d/%Y`.
pub fn try_parse_date_str(s: &str) -> (r: Result<Date, DataError>)
    ensures
        r is Ok <==> excel_date(s@) is Some,
        r is Ok ==> excel_date(s@) == Some(date_ymd(r.unwrap())),
{
    let t = trim_str(s);
    let mut dt_formats: Vec<&'static str> = Vec::new();
    dt_formats.push("%Y-%m-%d %H:%M:%S");
    dt_formats.push("%Y-%m-%dT%H:%M:%S");
    dt_formats.push("%Y/%m/%d %H:%M:%S");
    dt_formats.push("%Y-%m-%d %H:%M:%S%.f");
    assert(dt_formats@.map_values(|f: &str| f@) =~= datetime_formats());
    if let Some(d) = try_formats(t.as_str(), &dt_formats, true) {
        return Ok(d);
    }
    let mut formats: Vec<&'static str> = Vec::new();
    formats.push("%Y-%m-%d");
    formats.push("%Y/%m/%d");
    formats.push("%Y年%m月%d日");
    formats.push("%Y.%m.%d");
    formats.push("%d/%m/%Y");
    formats.push("%m/%d/%Y");
    assert(formats@.map_values(|f: &str| f@) =~= excel_date_formats());
    match try_formats(t.as_str(), &formats, false) {
        Some(d) => Ok(d),
        None => Err(DataError::InvalidDate(t)),
    }
}

/// Reads an amount: zero for an empty text, "-" or "0" (after trimming);
/// otherwise the trimmed text without its thousands separators (',') as a
/// decimal.
pub fn parse_amount(s: &str) -> (r: Result<Money, DataError>)
    ensures
        r is Ok <==> amount_of(s@) is Some,
        r is Ok ==> amount_of(s@) == Some(r.unwrap().parts()),
{
    let t = trim_str(s);
    if t.as_str().is_empty() || str_eq(t.as_str(), "-") || str_eq(t.as_str(), "0") {
        return Ok(Money::zero());
    }
    let chars = chars_of(t.as_str());
    let cleaned = remove_char_exec(&chars, ',');
    let text = string_of(cleaned.as_slice());
    match Money::parse(text.as_str()) {
        Some(m) => Ok(m),
        None => Err(DataError::InvalidAmount(t)),
    }
}

/// The transaction a CSV row gives: its date and amounts read as above,
/// its text fields trimmed.
pub open spec fn record_view(
    row_index: usize,
    date: Date,
    debit: Money,
    credit: Money,
    voucher_id: Seq<char>,
    account_code: Seq<char>,
    account_name: Seq<char>,
    description: Seq<char>,
) -> TxnView {
    TxnView {
        row_index,
        date,
        voucher_id: trim(voucher_id),
        account_code: trim(account_code),
        account_name: trim(account_name),
        description: trim(description),
        debit,
        credit,
    }
}

/// Turns a CSV row into a transaction; fails on the first field that does
/// not read: the date, then the debit, then the credit.
pub fn parse_record(record: CsvRecord, row_index: usize) -> (r: Result<Transaction, DataError>)
    ensures
        r is Ok <==> (csv_date(record.date@) is Some && amount_of(record.debit@) is Some && amount_of(
            record.credit@,
        ) is Some),
        r is Ok ==> ({
            let t = r.unwrap();
            &&& csv_date(record.date@) == Some(date_ymd(t.date))
            &&& amount_of(record.debit@) == Some(t.debit.parts())
            &&& amount_of(record.credit@) == Some(t.credit.parts())
            &&& t@ == record_view(
                row_index,
                t.date,
                t.debit,
                t.credit,
                record.voucher_id@,
                record.account_code@,
                record.account_name@,
                record.description@,
            )
        }),
{
    let date = parse_date(record.date.as_str())?;
    let debit = parse_amount(record.debit.as_str())?;
    let credit = parse_amount(record.credit.as_str())?;
    Ok(
        Transaction {
            row_index,
            date,
            voucher_id: trim_str(record.voucher_id.as_str()),
            account_code: trim_str(record.account_code.as_str()),
            account_name: trim_str(record.account_name.as_str()),
            description: trim_str(record.description.as_str()),
            debit,
            credit,
        },
    )
}

/// The largest Excel day number read as a date (9999-12-31).
pub const EXCEL_MAX_SERIAL: i64 = 2958465;

/// The date of an Excel day number, counted from 1899-12-30; fails outside
/// 1..=2958465.
pub fn excel_days_to_date(days: i64) -> (r: Result<Date, DataError>)
    ensures
        r is Ok <==> 1 <= days <= 2958465,
        r is Ok ==> r.unwrap().spec_days() == days_from_ce(1899, 12, 30) + days,
{
    if days < 1 || days > EXCEL_MAX_SERIAL {
        return Err(DataError::SerialOutOfRange(days));
    }
    proof {
        reveal_with_fuel(crate::date::days_before_month, 13);
        assert(days_from_ce(1899, 12, 30) == 693594);
        assert(days_from_ce(max_year(), 12, 31) > 693594 + 2958465);
        assert(days_from_ce(min_year(), 1, 1) < 693594);
    }
    match Date::from_ymd_opt(1899, 12, 30) {
        Some(base) => {
            match base.checked_add_days(days) {
                Some(d) => Ok(d),
                None => Err(DataError::SerialOutOfRange(days)),
            }
        },
        None => Err(DataError::SerialOutOfRange(days)),
    }
}

/// Reads journal rows from CSV files.
pub struct CsvParser;

/// Whether every field of a CSV row reads.
pub open spec fn record_reads(r: CsvRecord) -> bool {
    &&& csv_date(r.date@) is Some
    &&& amount_of(r.debit@) is Some
    &&& amount_of(r.credit@) is Some
}

/// Whether `t` is what the CSV row `r` at file row `row_index` gives.
pub open spec fn record_gives(r: CsvRecord, row_index: usize, t: Transaction) -> bool {
    &&& csv_date(r.date@) == Some(date_ymd(t.date))
    &&& amount_of(r.debit@) == Some(t.debit.parts())
    &&& amount_of(r.credit@) == Some(t.credit.parts())
    &&& t@ == record_view(
        row_index,
        t.date,
        t.debit,
        t.credit,
        r.voucher_id@,
        r.account_code@,
        r.account_name@,
        r.description@,
    )
}

impl CsvParser {
    /// Turns the data rows of a CSV file (after its header) into
    /// transactions; row `i` is file row `i + 2`. Fails at the first row
    /// that does not read, with its file row.
    pub fn parse_records(&self, records: Vec<CsvRecord>) -> (r: Result<Vec<Transaction>, (usize, DataError)>)
        requires
            records@.len() + 2 <= usize::MAX,
        ensures
            r is Ok <==> forall|i: int| 0 <= i < records@.len() ==> #[trigger] record_reads(records@[i]),
            r matches Ok(v) ==> v@.len() == records@.len() && forall|i: int|
                0 <= i < records@.len() ==> record_gives(records@[i], (i + 2) as usize, #[trigger] v@[i]),
            r matches Err((row, e)) ==> row >= 2 && row - 2 < records@.len() && !record_reads(
                records@[row - 2],
            ) && forall|i: int| 0 <= i < row - 2 ==> #[trigger] record_reads(records@[i]),
    {
        let ghost rs = records@;
        let mut out: Vec<Transaction> = Vec::new();
        let mut i: usize = 0;
        let n = records.len();
        while i < n
            invariant
                n == rs.len(),
                records@ == rs,
                n + 2 <= usize::MAX,
                i <= n,
                out@.len() == i,
                forall|k: int| 0 <= k < i ==> #[trigger] record_reads(rs[k]),
                forall|k: int| 0 <= k < i ==> record_gives(rs[k], (k + 2) as usize, #[trigger] out@[k]),
            decreases n - i,
        {
            let rec = records[i].duplicate();
            match parse_record(rec, i + 2) {
                Ok(t) => {
                    out.push(t);
                },
                Err(e) => {
                    assert(!record_reads(records@[i as int]));
                    return Err((i + 2, e));
                },
            }
            i = i + 1;
        }
        Ok(out)
    }
}

/// A number cell of a spreadsheet, in the forms the reader needs; floating
/// point stays with the caller, who fills these in from the cell's value.
#[derive(Clone, Debug)]
pub struct NumberCell {
    /// The value truncated to an integer (`as i64`).
    pub truncated: i64,
    /// Whether the value has no fractional part.
    pub whole: bool,
    /// The value as `Display` writes it.
    pub text: String,
    /// The value with two decimals (`{:.2}`).
    pub fixed2: String,
}

/// A date-time cell of a spreadsheet: the text `Display` writes for it, and
/// that text read as a number and truncated, where it is one.
#[derive(Clone, Debug)]
pub struct DateTimeCell {
    pub text: String,
    pub serial: Option<i64>,
}

/// A cell of a spreadsheet.
#[derive(Clone, Debug)]
pub enum Cell {
    Empty,
    Text(String),
    Int(i64),
    Float(NumberCell),
    Bool(bool),
    DateTime(DateTimeCell),
    DateTimeIso(String),
    /// Any other kind, by its `Debug` text.
    Other(String),
}

/// The `Debug` text of a boolean cell.
pub open spec fn bool_cell_text(b: bool) -> Seq<char> {
    if b {
        "Bool(true)"@
    } else {
        "Bool(false)"@
    }
}

/// Whether `r` is what reading an Excel day number gives.
pub open spec fn serial_result(days: int, r: Result<Date, DataError>) -> bool {
    &&& (r is Ok <==> 1 <= days <= 2958465)
    &&& (r matches Ok(d) ==> d.spec_days() == days_from_ce(1899, 12, 30) + days)
}

/// Whether `r` is what reading a date text of a spreadsheet gives.
pub open spec fn text_date_result(text: Seq<char>, r: Result<Date, DataError>) -> bool {
    &&& (r is Ok <==> excel_date(text) is Some)
    &&& (r matches Ok(d) ==> excel_date(text) == Some(date_ymd(d)))
}

/// Whether `r` is what reading the date cell `c` gives: a text as a date
/// text; a number as a day number; a date-time by its text, else by its
/// number; an empty cell fails; any other by its `Debug` text.
pub open spec fn cell_date_result(c: Cell, r: Result<Date, DataError>) -> bool {
    match c {
        Cell::Text(s) => text_date_result(s@, r),
        Cell::DateTimeIso(s) => text_date_result(s@, r),
        Cell::Int(i) => serial_result(i as int, r),
        Cell::Float(f) => serial_result(f.truncated as int, r),
        Cell::DateTime(d) => if excel_date(d.text@) is Some {
            text_date_result(d.text@, r)
        } else {
            match d.serial {
                Some(n) => serial_result(n as int, r),
                None => r is Err,
            }
        },
        Cell::Empty => r is Err,
        Cell::Bool(b) => text_date_result(bool_cell_text(b), r),
        Cell::Other(s) => text_date_result(s@, r),
    }
}

/// Reads the date of a cell.
pub fn extract_date(cell: &Cell) -> (r: Result<Date, DataError>)
    ensures
        cell_date_result(*cell, r),
{
    match cell {
        Cell::DateTime(d) => {
            match try_parse_date_str(d.text.as_str()) {
                Ok(date) => Ok(date),
                Err(e) => match d.serial {
                    Some(n) => excel_days_to_date(n),
                    None => Err(e),
                },
            }
        },
        Cell::DateTimeIso(s) => try_parse_date_str(s.as_str()),
        Cell::Text(s) => try_parse_date_str(s.as_str()),
        Cell::Float(f) => excel_days_to_date(f.truncated),
        Cell::Int(i) => excel_days_to_date(*i),
        Cell::Empty => Err(DataError::EmptyDateCell),
        Cell::Bool(b) => {
            if *b {
                try_parse_date_str("Bool(true)")
            } else {
                try_parse_date_str("Bool(false)")
            }
        },
        Cell::Other(s) => try_parse_date_str(s.as_str()),
    }
}

/// The text of a cell: a text trimmed; a whole number without decimals;
/// other numbers and booleans as `Display` writes them; date-times by their
/// text; nothing for the rest.
pub open spec fn cell_text(c: Cell) -> Seq<char> {
    match c {
        Cell::Text(s) => trim(s@),
        Cell::Float(f) => if f.whole {
            crate::money::int_text(f.truncated as int)
        } else {
            f.text@
        },
        Cell::Int(i) => crate::money::int_text(i as int),
        Cell::Bool(b) => if b {
            "true"@
        } else {
            "false"@
        },
        Cell::DateTime(d) => d.text@,
        Cell::DateTimeIso(s) => s@,
        Cell::Empty => Seq::empty(),
        Cell::Other(_) => Seq::empty(),
    }
}

/// Reads the text of a cell.
pub fn extract_string(cell: &Cell) -> (r: String)
    ensures
        r@ == cell_text(*cell),
{
    match cell {
        Cell::Text(s) => trim_str(s.as_str()),
        Cell::Float(f) => if f.whole {
            crate::text::int_to_text(f.truncated)
        } else {
            f.text.clone()
        },
        Cell::Int(i) => crate::text::int_to_text(*i),
        Cell::Bool(b) => if *b {
            String::from_str("true")
        } else {
            String::from_str("false")
        },
        Cell::DateTime(d) => d.text.clone(),
        Cell::DateTimeIso(s) => s.clone(),
        Cell::Empty => String::new(),
        Cell::Other(_) => String::new(),
    }
}

/// What an amount text of a spreadsheet gives: zero for an empty text or
/// "-" (after trimming); otherwise the decimal of the text without commas.
pub open spec fn cell_amount_text(text: Seq<char>) -> Option<Parts> {
    let t = trim(text);
    if t.len() == 0 || t == "-"@ {
        Some((0, 0))
    } else {
        match decimal_parse(remove_char(t, ',')) {
            Some(p) => Some((p.0, p.1 as nat)),
            None => None,
        }
    }
}

/// What the amount of a cell is: a number by its two-decimal text; an
/// integer exactly; a text as above; zero for the rest.
pub open spec fn cell_amount(c: Cell) -> Option<Parts> {
    match c {
        Cell::Float(f) => match decimal_parse(f.fixed2@) {
            Some(p) => Some((p.0, p.1 as nat)),
            None => None,
        },
        Cell::Int(i) => Some((i as int, 0)),
        Cell::Text(s) => cell_amount_text(s@),
        _ => Some((0, 0)),
    }
}

/// Reads the amount of a cell.
pub fn extract_decimal(cell: &Cell) -> (r: Result<Money, DataError>)
    ensures
        r is Ok <==> cell_amount(*cell) is Some,
        r matches Ok(m) ==> cell_amount(*cell) == Some(m.parts()),
{
    match cell {
        Cell::Float(f) => match Money::parse(f.fixed2.as_str()) {
            Some(m) => Ok(m),
            None => Err(DataError::InvalidAmount(f.fixed2.clone())),
        },
        Cell::Int(i) => Ok(Money::new(*i, 0)),
        Cell::Text(s) => {
            let t = trim_str(s.as_str());
            if t.as_str().is_empty() || str_eq(t.as_str(), "-") {
                return Ok(Money::zero());
            }
            let chars = chars_of(t.as_str());
            let cleaned = remove_char_exec(&chars, ',');
            let text = string_of(cleaned.as_slice());
            match Money::parse(text.as_str()) {
                Some(m) => Ok(m),
                None => Err(DataError::InvalidAmount(t)),
            }
        },
        _ => Ok(Money::zero()),
    }
}

/// Whether `t` is what the spreadsheet row `row` at file row `row_index`
/// gives (where it reads).
/// Whether a spreadsheet row of at least seven cells reads: its first cell
/// gives a date and its sixth and seventh cells give amounts.
pub open spec fn row_reads(row: Seq<Cell>) -> bool {
    &&& exists|d: Date| cell_date_result(row[0], Ok(d))
    &&& cell_amount(row[5]) is Some
    &&& cell_amount(row[6]) is Some
}

pub open spec fn row_gives(row: Seq<Cell>, row_index: usize, t: Transaction) -> bool {
    &&& cell_date_result(row[0], Ok(t.date))
    &&& t.row_index == row_index
    &&& t.voucher_id@ == cell_text(row[1])
    &&& t.account_code@ == cell_text(row[2])
    &&& t.account_name@ == cell_text(row[3])
    &&& t.description@ == cell_text(row[4])
    &&& cell_amount(row[5]) == Some(t.debit.parts())
    &&& cell_amount(row[6]) == Some(t.credit.parts())
}

/// Turns a spreadsheet row of at least seven cells into a transaction:
/// date, voucher, account code, account name, description, debit, credit.
pub fn parse_excel_row(row: &Vec<Cell>, row_index: usize) -> (r: Result<Transaction, DataError>)
    requires
        row@.len() >= 7,
    ensures
        r matches Ok(t) ==> row_gives(row@, row_index, t),
        r is Err ==> (forall|d: Date| !cell_date_result(row@[0], Ok(d))) || cell_amount(row@[5]) is None
            || cell_amount(row@[6]) is None,
        cell_amount(row@[5]) is Some && cell_amount(row@[6]) is Some && (exists|d: Date| cell_date_result(row@[0], Ok(d)))
            ==> r is Ok,
{
    let date = match extract_date(&row[0]) {
        Ok(d) => d,
        Err(e) => {
            proof {
                assert forall|d: Date| !cell_date_result(row@[0], Ok(d)) by {
                    if cell_date_result(row@[0], Ok(d)) {
                        lemma_cell_date_ok_unique(row@[0], Ok(d), Err(e));
                    }
                }
            }
            return Err(e);
        },
    };
    let voucher_id = extract_string(&row[1]);
    let account_code = extract_string(&row[2]);
    let account_name = extract_string(&row[3]);
    let description = extract_string(&row[4]);
    let debit = extract_decimal(&row[5])?;
    let credit = extract_decimal(&row[6])?;
    Ok(Transaction { row_index, date, voucher_id, account_code, account_name, description, debit, credit })
}

/// Reading a date cell either succeeds or fails, whatever date it gives.
proof fn lemma_cell_date_ok_unique(c: Cell, a: Result<Date, DataError>, b: Result<Date, DataError>)
    requires
        cell_date_result(c, a),
        cell_date_result(c, b),
    ensures
        a is Ok <==> b is Ok,
{
}

/// Reads journal rows from Excel files.
pub struct ExcelParser;

impl ExcelParser {
    /// Turns the data rows of the first sheet (after its header) into
    /// transactions; row `i` is file row `i + 2`, and rows of fewer than
    /// seven cells are skipped. Fails at the first row that does not read,
    /// with its file row.
    pub fn parse_rows(&self, rows: Vec<Vec<Cell>>) -> (r: Result<Vec<Transaction>, (usize, DataError)>)
        requires
            rows@.len() + 2 <= usize::MAX,
        ensures
            r matches Ok(v) ==> v@.len() == kept_rows(rows@, rows@.len() as int).len() && forall|k: int|
                0 <= k < v@.len() ==> row_gives(
                    rows@[kept_rows(rows@, rows@.len() as int)[k]]@,
                    (kept_rows(rows@, rows@.len() as int)[k] + 2) as usize,
                    #[trigger] v@[k],
                ),
            r is Ok <==> forall|j: int|
                0 <= j < rows@.len() && rows@[j]@.len() >= 7 ==> #[trigger] row_reads(rows@[j]@),
            r matches Err((row, e)) ==> row >= 2 && row - 2 < rows@.len() && rows@[row - 2]@.len() >= 7
                && !row_reads(rows@[row - 2]@) && forall|j: int|
                0 <= j < row - 2 && rows@[j]@.len() >= 7 ==> #[trigger] row_reads(rows@[j]@),
    {
        let ghost rs = rows@;
        let n = rows.len();
        let mut out: Vec<Transaction> = Vec::new();
        let mut i: usize = 0;
        while i < n
            invariant
                n == rs.len(),
                rows@ == rs,
                n + 2 <= usize::MAX,
                i <= n,
                out@.len() == kept_rows(rs, i as int).len(),
                forall|j: int| 0 <= j < i && rs[j]@.len() >= 7 ==> #[trigger] row_reads(rs[j]@),
                forall|k: int| 0 <= k < kept_rows(rs, i as int).len() ==> 0 <= #[trigger] kept_rows(rs, i as int)[k] < i,
                forall|k: int|
                    0 <= k < out@.len() ==> row_gives(
                        rs[kept_rows(rs, i as int)[k]]@,
                        (kept_rows(rs, i as int)[k] + 2) as usize,
                        #[trigger] out@[k],
                    ),
            decreases n - i,
        {
            let row = &rows[i];
            if row.len() >= 7 {
                match parse_excel_row(row, i + 2) {
                    Ok(t) => {
                        out.push(t);
                    },
                    Err(e) => {
                        assert(!row_reads(rs[i as int]@));
                        return Err((i + 2, e));
                    },
                }
            }
            i = i + 1;
        }
        Ok(out)
    }
}

/// The indices of the rows among the first `i` with at least seven cells.
pub open spec fn kept_rows(rows: Seq<Vec<Cell>>, i: int) -> Seq<int>
    decreases i,
{
    if i <= 0 {
        Seq::empty()
    } else if rows[i - 1]@.len() >= 7 {
        kept_rows(rows, i - 1).push(i - 1)
    } else {
        kept_rows(rows, i - 1)
    }
}

} // verus!
