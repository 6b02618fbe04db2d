use auditlens::data_parser::{
    excel_days_to_date, extract_decimal, extract_string, parse_amount, parse_date, try_parse_date_str, Cell,
    CsvParser, CsvRecord, DataError, ExcelParser, NumberCell,
};
use auditlens::date::Date;
use auditlens::money::Money;

fn float_cell(f: f64) -> Cell {
    Cell::Float(NumberCell {
        truncated: f as i64,
        whole: f == f.floor(),
        text: format!("{}", f),
        fixed2: format!("{:.2}", f),
    })
}

fn records_of(content: &str) -> Vec<CsvRecord> {
    let mut reader = csv::ReaderBuilder::new()
        .has_headers(true)
        .flexible(true)
        .trim(csv::Trim::All)
        .from_reader(content.as_bytes());
    reader
        .records()
        .map(|r| {
            let r = r.unwrap();
            CsvRecord {
                date: r[0].to_string(),
                voucher_id: r[1].to_string(),
                account_code: r[2].to_string(),
                account_name: r[3].to_string(),
                description: r[4].to_string(),
                debit: r[5].to_string(),
                credit: r[6].to_string(),
            }
        })
        .collect()
}

#[test]
fn test_parse_csv_basic() {
    let csv_content = "日期,凭证号,科目编码,科目名称,摘要,借方金额,贷方金额\n\
                       2024-01-15,V001,1001,库存现金,提取现金,5000.00,0.00\n\
                       2024-01-15,V001,1002,银行存款,提取现金,0.00,5000.00\n";
    let parser = CsvParser;
    let txns = parser.parse_records(records_of(csv_content)).unwrap();
    assert_eq!(txns.len(), 2);
    assert_eq!(txns[0].debit, Money::new(500000, 2));
    assert_eq!(txns[0].credit, Money::new(0, 2));
    assert_eq!(txns[1].debit, Money::new(0, 2));
    assert_eq!(txns[1].credit, Money::new(500000, 2));
}

#[test]
fn csv_rows_are_numbered_from_two_and_errors_name_the_row() {
    let csv_content = "日期,凭证号,科目编码,科目名称,摘要,借方金额,贷方金额\n\
                       2024-01-15,V001,1001,库存现金,提取现金,5000.00,0.00\n\
                       2024-13-15,V002,1001,库存现金,提取现金,1.00,0.00\n";
    let parser = CsvParser;
    let records = records_of(csv_content);
    let ok = parser.parse_records(vec![records[0].clone()]).unwrap();
    assert_eq!(ok[0].row_index, 2);
    match parser.parse_records(records) {
        Err((row, DataError::InvalidDate(text))) => {
            assert_eq!(row, 3);
            assert_eq!(text, "2024-13-15");
        }
        _ => panic!("expected a date error"),
    }
}

#[test]
fn test_parse_date_formats() {
    assert!(parse_date("2024-01-15").is_ok());
    assert!(parse_date("2024/01/15").is_ok());
    assert!(parse_date("2024.01.15").is_ok());
    assert!(parse_date("invalid").is_err());
}

#[test]
fn parse_date_reads_each_format() {
    let want = Date::from_ymd_opt(2024, 1, 15).unwrap();
    assert_eq!(parse_date(" 2024年01月15日 ").unwrap(), want);
    assert_eq!(parse_date("15/01/2024").unwrap(), want);
    assert_eq!(parse_date("01/15/2024").unwrap(), want);
}

#[test]
fn test_parse_amount() {
    assert_eq!(parse_amount("1000.50").unwrap(), Money::new(100050, 2));
    assert_eq!(parse_amount("1,000.50").unwrap(), Money::new(100050, 2));
    assert_eq!(parse_amount("").unwrap(), Money::new(0, 0));
    assert_eq!(parse_amount("-").unwrap(), Money::new(0, 0));
}

#[test]
fn parse_amount_rejects_text() {
    assert!(matches!(parse_amount("abc"), Err(DataError::InvalidAmount(_))));
    assert_eq!(parse_amount(" 12.5 ").unwrap().to_text(), "12.5");
}

#[test]
fn test_extract_string() {
    assert_eq!(extract_string(&Cell::Text("hello".to_string())), "hello");
    assert_eq!(extract_string(&float_cell(1001.0)), "1001");
    assert_eq!(extract_string(&Cell::Int(42)), "42");
    assert_eq!(extract_string(&Cell::Empty), "");
}

#[test]
fn test_extract_decimal() {
    let result = extract_decimal(&float_cell(1000.50)).unwrap();
    assert_eq!(result.to_text(), "1000.50");
    let result = extract_decimal(&Cell::Empty).unwrap();
    assert_eq!(result, Money::zero());
    let result = extract_decimal(&Cell::Text("1,234.56".to_string())).unwrap();
    assert_eq!(result.to_text(), "1234.56");
}

#[test]
fn test_try_parse_date_str() {
    assert!(try_parse_date_str("2024-01-15").is_ok());
    assert!(try_parse_date_str("2024/01/15").is_ok());
    assert!(try_parse_date_str("2024-01-15 10:30:00").is_ok());
    assert!(try_parse_date_str("invalid").is_err());
}

#[test]
fn test_excel_serial_to_date() {
    let serial: f64 = 45292.0;
    let date = excel_days_to_date(serial as i64).unwrap();
    assert_eq!(date, Date::from_ymd_opt(2024, 1, 1).unwrap());
}

#[test]
fn excel_serials_out_of_range() {
    assert!(matches!(excel_days_to_date(0), Err(DataError::SerialOutOfRange(0))));
    assert!(excel_days_to_date(2958465).is_ok());
    assert!(excel_days_to_date(2958466).is_err());
    assert_eq!(excel_days_to_date(1).unwrap(), Date::from_ymd_opt(1899, 12, 31).unwrap());
}

#[test]
fn excel_rows_skip_short_rows_and_count_from_two() {
    let row = |d: &str| {
        vec![
            Cell::Text(d.to_string()),
            Cell::Text("V1".to_string()),
            Cell::Int(1001),
            Cell::Text(" 现金 ".to_string()),
            Cell::Empty,
            float_cell(12.5),
            Cell::Text("-".to_string()),
        ]
    };
    let rows = vec![vec![Cell::Empty], row("2024-01-02"), row("2024/01/03")];
    let txns = ExcelParser.parse_rows(rows).unwrap();
    assert_eq!(txns.len(), 2);
    assert_eq!(txns[0].row_index, 3);
    assert_eq!(txns[1].row_index, 4);
    assert_eq!(txns[0].account_code, "1001");
    assert_eq!(txns[0].account_name, "现金");
    assert_eq!(txns[0].debit.to_text(), "12.50");
    assert_eq!(txns[0].credit, Money::zero());
}
