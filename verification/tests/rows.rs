use tally::json::{merge_metadata, read_fields, same_fields, write_fields};
use tally::model::{
    Category, CategorySource, Confidence, Filter, FilterOverride, Timestamp,
    TransactionEnrichment, Transfer, TransferSource,
};
use tally::store::rows::{
    category_row, enrichment_row, filter_row, parse_category, parse_enrichment, parse_filter,
    parse_transaction, parse_transfer, transaction_row, transfer_row, CategoryRow, EnrichmentRow,
    FilterRow, RowError, TransactionRow, TransferRow,
};
use tally::time::{datetime_text, find_date, parse_datetime, read_iso_date};

const T: Timestamp = Timestamp { seconds: 1_700_000_000, nanos: 123_456_789 };
const U: Timestamp = Timestamp { seconds: 0, nanos: 0 };

#[test]
fn times_are_written_in_full_and_read_back() {
    assert_eq!(datetime_text(U).unwrap(), "1970-01-01T00:00:00+00:00");
    assert_eq!(parse_datetime("1970-01-01T00:00:00Z"), Some(U));
    assert_eq!(parse_datetime("1970-01-01T02:00:00+02:00"), Some(U));
    assert_eq!(parse_datetime(&datetime_text(T).unwrap()), Some(T));
    assert_eq!(parse_datetime("yesterday"), None);
}

#[test]
fn times_beyond_four_digit_years_have_no_text() {
    assert!(datetime_text(Timestamp { seconds: 253402300799, nanos: 0 }).is_some());
    assert!(datetime_text(Timestamp { seconds: 253402300800, nanos: 0 }).is_none());
    assert!(datetime_text(Timestamp { seconds: -62167219200, nanos: 0 }).is_some());
    assert!(datetime_text(Timestamp { seconds: -62167219201, nanos: 0 }).is_none());
    assert!(datetime_text(Timestamp { seconds: 0, nanos: 1_000_000_000 }).is_none());
}

#[test]
fn dates_are_read_in_their_forms() {
    assert_eq!(read_iso_date("2024-03-05").as_deref(), Some("2024-03-05"));
    assert_eq!(read_iso_date("05/03/2024"), None);
    assert_eq!(find_date("05/03/2024").as_deref(), Some("2024-03-05"));
    assert_eq!(find_date("2024-02-30"), None);
}

#[test]
fn a_category_row_reads_back() {
    let category = Category { id: 7, path: "Food/Coffee".to_string(), created_at: T };
    let back = parse_category(&category_row(&category).unwrap()).unwrap();
    assert_eq!((back.id, back.path.as_str(), back.created_at), (7, "Food/Coffee", T));
    let bad = CategoryRow { id: 7, path: String::new(), created_at: "x".to_string() };
    assert!(matches!(parse_category(&bad), Err(RowError::Time(s)) if s == "x"));
}

fn transaction(date: &str) -> TransactionRow {
    TransactionRow {
        id: 1,
        bank_id: 2,
        account_id: 3,
        date: date.to_string(),
        description: "d".to_string(),
        amount_cents: -4,
        balance_cents: 5,
        hash: "h".to_string(),
        metadata: "{}".to_string(),
        source_file: "f".to_string(),
        import_batch_id: 6,
    }
}

#[test]
fn a_transaction_row_reads_back() {
    let tx = parse_transaction(&transaction("2024-07-19")).unwrap();
    let back = parse_transaction(&transaction_row(&tx)).unwrap();
    assert_eq!(back.date, "2024-07-19");
    assert_eq!((back.id, back.bank_id, back.account_id), (1, 2, 3));
    assert_eq!((back.amount_cents, back.balance_cents, back.import_batch_id), (-4, 5, 6));
    assert_eq!((back.hash.as_str(), back.source_file.as_str()), ("h", "f"));
    assert_eq!((back.description.as_str(), back.metadata.as_str()), ("d", "{}"));
    let bad = parse_transaction(&transaction("19/07/2024"));
    assert!(matches!(bad, Err(RowError::Date(s)) if s == "19/07/2024"));
}

#[test]
fn an_enrichment_row_reads_back() {
    let e = TransactionEnrichment {
        id: 1,
        transaction_id: 2,
        category_id: Some(3),
        category_source: Some(CategorySource::Rule),
        category_confirmed: true,
        ai_confidence: Some(Confidence { bits: 0.42f64.to_bits() }),
        created_at: T,
        updated_at: U,
    };
    assert_eq!(parse_enrichment(&enrichment_row(&e).unwrap()).unwrap(), e);
}

#[test]
fn an_unknown_category_source_reads_as_none() {
    let row = EnrichmentRow {
        id: 1,
        transaction_id: 2,
        category_id: None,
        category_source: Some("robot".to_string()),
        category_confirmed: 0,
        ai_confidence: None,
        created_at: "1970-01-01T00:00:00Z".to_string(),
        updated_at: "1970-01-01T00:00:00Z".to_string(),
    };
    let e = parse_enrichment(&row).unwrap();
    assert_eq!(e.category_source, None);
    assert!(!e.category_confirmed);
    let late = EnrichmentRow { updated_at: "late".to_string(), ..row };
    assert!(matches!(parse_enrichment(&late), Err(RowError::Time(s)) if s == "late"));
}

#[test]
fn a_transfer_row_reads_back() {
    let t = Transfer {
        id: 1,
        from_transaction_id: 2,
        to_transaction_id: 3,
        source: TransferSource::Auto,
        confirmed: false,
        created_at: T,
        ai_confidence: None,
    };
    let row = transfer_row(&t).unwrap();
    assert_eq!(parse_transfer(&row).unwrap(), t);
    let bad = TransferRow { source: "robot".to_string(), ..row };
    let error = parse_transfer(&bad).unwrap_err();
    assert_eq!(error.message(), "invalid transfer source: robot");
}

#[test]
fn a_filter_row_reads_back() {
    let f = Filter {
        id: 1,
        name: "n".to_string(),
        query: "q".to_string(),
        category_id: None,
        override_mode: FilterOverride::Ai,
        review_required: true,
        position: 4,
        created_at: T,
    };
    let row = filter_row(&f).unwrap();
    let back = parse_filter(&row).unwrap();
    assert_eq!((back.id, back.name.as_str(), back.query.as_str()), (1, "n", "q"));
    assert_eq!((back.override_mode, back.review_required), (FilterOverride::Ai, true));
    assert_eq!((back.category_id, back.position, back.created_at), (None, 4, T));
    let bad = FilterRow { override_mode: "some".to_string(), ..row };
    let error = parse_filter(&bad).unwrap_err();
    assert_eq!(error.message(), "invalid filter override: some");
}

#[test]
fn row_errors_speak_in_words() {
    assert_eq!(RowError::Time("x".to_string()).message(), "invalid time: x");
    assert_eq!(RowError::Date("x".to_string()).message(), "invalid date: x");
}

#[test]
fn enumerations_are_written_and_read_as_words() {
    for source in [CategorySource::Manual, CategorySource::Ai, CategorySource::Rule] {
        assert_eq!(CategorySource::parse(source.as_str()), Some(source));
    }
    for source in [TransferSource::Manual, TransferSource::Auto] {
        assert_eq!(TransferSource::parse(source.as_str()), Some(source));
    }
    for mode in [FilterOverride::Uncategorised, FilterOverride::Ai, FilterOverride::All] {
        assert_eq!(FilterOverride::parse(mode.as_str()), Some(mode));
    }
    assert_eq!(CategorySource::parse("Manual"), None);
}

#[test]
fn json_objects_are_read_merged_and_written() {
    let stored = read_fields("{\"b\": 1.50, \"a\": \"x\"}");
    assert_eq!(
        stored,
        vec![("a".to_string(), "\"x\"".to_string()), ("b".to_string(), "1.5".to_string())]
    );
    let incoming = read_fields("{\"b\":2,\"c\":null}");
    let all = merge_metadata(&stored, &incoming);
    assert_eq!(write_fields(&all), "{\"a\":\"x\",\"b\":2,\"c\":null}");
    assert!(!same_fields(&all, &stored));
    assert!(read_fields("not json").is_empty());
    assert!(read_fields("[1]").is_empty());
    let odd = vec![("q\"k".to_string(), "1".to_string())];
    assert_eq!(write_fields(&odd), "{\"q\\\"k\":1}");
}

#[test]
fn merging_fields_into_themselves_changes_nothing() {
    let fields = read_fields("{\"a\":1,\"b\":[2]}");
    assert!(same_fields(&merge_metadata(&fields, &fields), &fields));
}
