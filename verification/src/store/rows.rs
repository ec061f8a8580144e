//! The rows of the database: what a row says, and the row that says it.
//!
//! Times and enumerations are text there, flags are integers. Reading a row that
//! was written gives the value back.

use vstd::prelude::*;
use vstd::string::*;

use crate::model::{
    words_are_distinct, Category, CategorySource, Confidence, Filter, FilterOverride, Timestamp,
    Transaction, TransactionEnrichment, Transfer, TransferSource,
};
use crate::time::{datetime_text, parse_datetime, read_date, read_iso_date, read_time, writable};

verus! {

/// Why a row cannot be read: the text of the column at fault.
#[derive(Debug)]
pub enum RowError {
    Time(String),
    Date(String),
    TransferSource(String),
    Override(String),
}

impl RowError {
    pub open spec fn words(self) -> Seq<char> {
        match self {
            RowError::Time(s) => "invalid time: "@ + s@,
            RowError::Date(s) => "invalid date: "@ + s@,
            RowError::TransferSource(s) => "invalid transfer source: "@ + s@,
            RowError::Override(s) => "invalid filter override: "@ + s@,
        }
    }

    pub fn message(&self) -> (text: String)
        ensures
            text@ == self.words(),
    {
        let (mut text, rest): (String, &String) = match self {
            RowError::Time(s) => ("invalid time: ".to_owned(), s),
            RowError::Date(s) => ("invalid date: ".to_owned(), s),
            RowError::TransferSource(s) => ("invalid transfer source: ".to_owned(), s),
            RowError::Override(s) => ("invalid filter override: ".to_owned(), s),
        };
        text.append(rest);
        text
    }
}

fn time_in(text: &str) -> (time: Result<Timestamp, RowError>)
    ensures
        match time {
            Ok(t) => read_time(text@) == Some(t),
            Err(RowError::Time(s)) => s@ == text@ && read_time(text@) is None,
            Err(_) => false,
        },
{
    match parse_datetime(text) {
        Some(time) => Ok(time),
        None => Err(RowError::Time(text.to_owned())),
    }
}

// ==================== Categories ====================

pub struct CategoryRow {
    pub id: i64,
    pub path: String,
    pub created_at: String,
}

impl CategoryRow {
    /// What the row says.
    pub open spec fn says(self, c: Category) -> bool {
        c.id == self.id && c.path@ == self.path@ && read_time(self.created_at@) == Some(
            c.created_at,
        )
    }
}

pub fn parse_category(row: &CategoryRow) -> (result: Result<Category, RowError>)
    ensures
        match result {
            Ok(c) => row.says(c),
            Err(RowError::Time(s)) => s@ == row.created_at@ && read_time(s@) is None,
            Err(_) => false,
        },
{
    match time_in(&row.created_at) {
        Ok(created_at) => Ok(Category { id: row.id, path: row.path.clone(), created_at }),
        Err(e) => Err(e),
    }
}

/// The row of a category; `None` where its time has no text.
pub fn category_row(c: &Category) -> (row: Option<CategoryRow>)
    ensures
        row is Some <==> writable(c.created_at),
        row matches Some(r) ==> r.says(*c),
{
    match datetime_text(c.created_at) {
        Some(created_at) => Some(CategoryRow { id: c.id, path: c.path.clone(), created_at }),
        None => None,
    }
}

// ==================== Transactions ====================

pub struct TransactionRow {
    pub id: i64,
    pub bank_id: i64,
    pub account_id: i64,
    pub date: String,
    pub description: String,
    pub amount_cents: i64,
    pub balance_cents: i64,
    pub hash: String,
    pub metadata: String,
    pub source_file: String,
    pub import_batch_id: i64,
}

impl TransactionRow {
    /// What the row says.
    pub open spec fn says(self, tx: Transaction) -> bool {
        &&& tx.id == self.id && tx.bank_id == self.bank_id && tx.account_id == self.account_id
        &&& read_date(self.date@, "%Y-%m-%d"@) == Some(tx.date@)
        &&& tx.description@ == self.description@
        &&& tx.amount_cents == self.amount_cents && tx.balance_cents == self.balance_cents
        &&& tx.hash@ == self.hash@ && tx.metadata@ == self.metadata@
        &&& tx.source_file@ == self.source_file@ && tx.import_batch_id == self.import_batch_id
    }
}

pub fn parse_transaction(row: &TransactionRow) -> (result: Result<Transaction, RowError>)
    ensures
        match result {
            Ok(tx) => row.says(tx),
            Err(RowError::Date(s)) => s@ == row.date@ && read_date(s@, "%Y-%m-%d"@) is None,
            Err(_) => false,
        },
{
    let date = match read_iso_date(&row.date) {
        Some(date) => date,
        None => return Err(RowError::Date(row.date.clone())),
    };
    Ok(
        Transaction {
            id: row.id,
            bank_id: row.bank_id,
            account_id: row.account_id,
            date,
            description: row.description.clone(),
            amount_cents: row.amount_cents,
            balance_cents: row.balance_cents,
            hash: row.hash.clone(),
            metadata: row.metadata.clone(),
            source_file: row.source_file.clone(),
            import_batch_id: row.import_batch_id,
        },
    )
}

/// The row of a transaction. It says the transaction where its date is an ISO
/// date in the usual spelling.
pub fn transaction_row(tx: &Transaction) -> (row: TransactionRow)
    ensures
        row.date@ == tx.date@,
        read_date(tx.date@, "%Y-%m-%d"@) == Some(tx.date@) ==> row.says(*tx),
{
    TransactionRow {
        id: tx.id,
        bank_id: tx.bank_id,
        account_id: tx.account_id,
        date: tx.date.clone(),
        description: tx.description.clone(),
        amount_cents: tx.amount_cents,
        balance_cents: tx.balance_cents,
        hash: tx.hash.clone(),
        metadata: tx.metadata.clone(),
        source_file: tx.source_file.clone(),
        import_batch_id: tx.import_batch_id,
    }
}

// ==================== Enrichments ====================

pub struct EnrichmentRow {
    pub id: i64,
    pub transaction_id: i64,
    pub category_id: Option<i64>,
    pub category_source: Option<String>,
    pub category_confirmed: i32,
    pub ai_confidence: Option<Confidence>,
    pub created_at: String,
    pub updated_at: String,
}

/// The source that a column names; `None` where it names none.
pub open spec fn source_in(column: Option<String>, source: Option<CategorySource>) -> bool {
    match (column, source) {
        (Some(text), Some(s)) => text@ == s.word(),
        (Some(text), None) => forall|s: CategorySource| text@ != #[trigger] s.word(),
        (None, s) => s is None,
    }
}

impl EnrichmentRow {
    /// What the row says.
    pub open spec fn says(self, e: TransactionEnrichment) -> bool {
        &&& e.id == self.id && e.transaction_id == self.transaction_id
        &&& e.category_id == self.category_id
        &&& source_in(self.category_source, e.category_source)
        &&& e.category_confirmed == (self.category_confirmed != 0)
        &&& e.ai_confidence == self.ai_confidence
        &&& read_time(self.created_at@) == Some(e.created_at)
        &&& read_time(self.updated_at@) == Some(e.updated_at)
    }
}

pub fn parse_enrichment(row: &EnrichmentRow) -> (result: Result<TransactionEnrichment, RowError>)
    ensures
        match result {
            Ok(e) => row.says(e),
            Err(RowError::Time(s)) => read_time(s@) is None && (s@ == row.created_at@ || s@
                == row.updated_at@ && read_time(row.created_at@) is Some),
            Err(_) => false,
        },
{
    let category_source = match &row.category_source {
        Some(text) => CategorySource::parse(text),
        None => None,
    };
    let created_at = match time_in(&row.created_at) {
        Ok(time) => time,
        Err(e) => return Err(e),
    };
    let updated_at = match time_in(&row.updated_at) {
        Ok(time) => time,
        Err(e) => return Err(e),
    };
    Ok(
        TransactionEnrichment {
            id: row.id,
            transaction_id: row.transaction_id,
            category_id: row.category_id,
            category_source,
            category_confirmed: row.category_confirmed != 0,
            ai_confidence: row.ai_confidence,
            created_at,
            updated_at,
        },
    )
}

/// The row of an enrichment; `None` where one of its times has no text.
pub fn enrichment_row(e: &TransactionEnrichment) -> (row: Option<EnrichmentRow>)
    ensures
        row is Some <==> writable(e.created_at) && writable(e.updated_at),
        row matches Some(r) ==> r.says(*e),
{
    let created_at = match datetime_text(e.created_at) {
        Some(text) => text,
        None => return None,
    };
    let updated_at = match datetime_text(e.updated_at) {
        Some(text) => text,
        None => return None,
    };
    let category_source = match e.category_source {
        Some(source) => Some(source.as_str().to_owned()),
        None => None,
    };
    Some(
        EnrichmentRow {
            id: e.id,
            transaction_id: e.transaction_id,
            category_id: e.category_id,
            category_source,
            category_confirmed: flag(e.category_confirmed),
            ai_confidence: e.ai_confidence,
            created_at,
            updated_at,
        },
    )
}

fn flag(yes: bool) -> (n: i32)
    ensures
        yes == (n != 0),
{
    if yes {
        1
    } else {
        0
    }
}

// ==================== Transfers ====================

pub struct TransferRow {
    pub id: i64,
    pub from_transaction_id: i64,
    pub to_transaction_id: i64,
    pub source: String,
    pub confirmed: i32,
    pub created_at: String,
    pub ai_confidence: Option<Confidence>,
}

impl TransferRow {
    /// What the row says.
    pub open spec fn says(self, t: Transfer) -> bool {
        &&& t.id == self.id && t.from_transaction_id == self.from_transaction_id
        &&& t.to_transaction_id == self.to_transaction_id
        &&& t.source.word() == self.source@
        &&& t.confirmed == (self.confirmed != 0)
        &&& read_time(self.created_at@) == Some(t.created_at)
        &&& t.ai_confidence == self.ai_confidence
    }
}

pub fn parse_transfer(row: &TransferRow) -> (result: Result<Transfer, RowError>)
    ensures
        match result {
            Ok(t) => row.says(t),
            Err(RowError::TransferSource(s)) => s@ == row.source@ && forall|source: TransferSource|
                s@ != #[trigger] source.word(),
            Err(RowError::Time(s)) => s@ == row.created_at@ && read_time(s@) is None && exists|
                source: TransferSource,
            |
                row.source@ == #[trigger] source.word(),
            Err(_) => false,
        },
{
    let source = match TransferSource::parse(&row.source) {
        Some(source) => source,
        None => return Err(RowError::TransferSource(row.source.clone())),
    };
    match time_in(&row.created_at) {
        Ok(created_at) => Ok(
            Transfer {
                id: row.id,
                from_transaction_id: row.from_transaction_id,
                to_transaction_id: row.to_transaction_id,
                source,
                confirmed: row.confirmed != 0,
                created_at,
                ai_confidence: row.ai_confidence,
            },
        ),
        Err(e) => Err(e),
    }
}

/// The row of a transfer; `None` where its time has no text.
pub fn transfer_row(t: &Transfer) -> (row: Option<TransferRow>)
    ensures
        row is Some <==> writable(t.created_at),
        row matches Some(r) ==> r.says(*t),
{
    match datetime_text(t.created_at) {
        Some(created_at) => Some(
            TransferRow {
                id: t.id,
                from_transaction_id: t.from_transaction_id,
                to_transaction_id: t.to_transaction_id,
                source: t.source.as_str().to_owned(),
                confirmed: flag(t.confirmed),
                created_at,
                ai_confidence: t.ai_confidence,
            },
        ),
        None => None,
    }
}

// ==================== Saved filters ====================

pub struct FilterRow {
    pub id: i64,
    pub name: String,
    pub query: String,
    pub category_id: Option<i64>,
    pub override_mode: String,
    pub review_required: i32,
    pub position: i64,
    pub created_at: String,
}

impl FilterRow {
    /// What the row says.
    pub open spec fn says(self, f: Filter) -> bool {
        &&& f.id == self.id && f.name@ == self.name@ && f.query@ == self.query@
        &&& f.category_id == self.category_id
        &&& f.override_mode.word() == self.override_mode@
        &&& f.review_required == (self.review_required != 0)
        &&& f.position == self.position
        &&& read_time(self.created_at@) == Some(f.created_at)
    }
}

pub fn parse_filter(row: &FilterRow) -> (result: Result<Filter, RowError>)
    ensures
        match result {
            Ok(f) => row.says(f),
            Err(RowError::Override(s)) => s@ == row.override_mode@ && forall|mode: FilterOverride|
                s@ != #[trigger] mode.word(),
            Err(RowError::Time(s)) => s@ == row.created_at@ && read_time(s@) is None && exists|
                mode: FilterOverride,
            |
                row.override_mode@ == #[trigger] mode.word(),
            Err(_) => false,
        },
{
    let override_mode = match FilterOverride::parse(&row.override_mode) {
        Some(mode) => mode,
        None => return Err(RowError::Override(row.override_mode.clone())),
    };
    match time_in(&row.created_at) {
        Ok(created_at) => Ok(
            Filter {
                id: row.id,
                name: row.name.clone(),
                query: row.query.clone(),
                category_id: row.category_id,
                override_mode,
                review_required: row.review_required != 0,
                position: row.position,
                created_at,
            },
        ),
        Err(e) => Err(e),
    }
}

/// The row of a saved filter; `None` where its time has no text.
pub fn filter_row(f: &Filter) -> (row: Option<FilterRow>)
    ensures
        row is Some <==> writable(f.created_at),
        row matches Some(r) ==> r.says(*f),
{
    match datetime_text(f.created_at) {
        Some(created_at) => Some(
            FilterRow {
                id: f.id,
                name: f.name.clone(),
                query: f.query.clone(),
                category_id: f.category_id,
                override_mode: f.override_mode.as_str().to_owned(),
                review_required: flag(f.review_required),
                position: f.position,
                created_at,
            },
        ),
        None => None,
    }
}

// ==================== Laws ====================

/// A row says one category, so reading a written one gives it back.
pub proof fn a_category_row_says_one_category(row: CategoryRow, a: Category, b: Category)
    requires
        row.says(a),
        row.says(b),
    ensures
        a.id == b.id,
        a.path@ == b.path@,
        a.created_at == b.created_at,
{
}

/// A row says one transaction.
pub proof fn a_transaction_row_says_one_transaction(
    row: TransactionRow,
    a: Transaction,
    b: Transaction,
)
    requires
        row.says(a),
        row.says(b),
    ensures
        a.id == b.id && a.bank_id == b.bank_id && a.account_id == b.account_id,
        a.date@ == b.date@ && a.description@ == b.description@,
        a.amount_cents == b.amount_cents && a.balance_cents == b.balance_cents,
        a.hash@ == b.hash@ && a.metadata@ == b.metadata@,
        a.source_file@ == b.source_file@ && a.import_batch_id == b.import_batch_id,
{
}

/// A row says one enrichment.
pub proof fn an_enrichment_row_says_one_enrichment(
    row: EnrichmentRow,
    a: TransactionEnrichment,
    b: TransactionEnrichment,
)
    requires
        row.says(a),
        row.says(b),
    ensures
        a == b,
{
    if let (Some(x), Some(y)) = (a.category_source, b.category_source) {
        words_are_distinct(
            x,
            y,
            FilterOverride::All,
            FilterOverride::All,
            TransferSource::Auto,
            TransferSource::Auto,
        );
    }
}

/// A row says one transfer.
pub proof fn a_transfer_row_says_one_transfer(row: TransferRow, a: Transfer, b: Transfer)
    requires
        row.says(a),
        row.says(b),
    ensures
        a == b,
{
    words_are_distinct(
        CategorySource::Ai,
        CategorySource::Ai,
        FilterOverride::All,
        FilterOverride::All,
        a.source,
        b.source,
    );
}

/// A row says one saved filter.
pub proof fn a_filter_row_says_one_filter(row: FilterRow, a: Filter, b: Filter)
    requires
        row.says(a),
        row.says(b),
    ensures
        a.id == b.id && a.name@ == b.name@ && a.query@ == b.query@,
        a.category_id == b.category_id && a.override_mode == b.override_mode,
        a.review_required == b.review_required && a.position == b.position,
        a.created_at == b.created_at,
{
    words_are_distinct(
        CategorySource::Ai,
        CategorySource::Ai,
        a.override_mode,
        b.override_mode,
        TransferSource::Auto,
        TransferSource::Auto,
    );
}

} // verus!
