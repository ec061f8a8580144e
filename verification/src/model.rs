//! The rows of the ledger.

use vstd::prelude::*;
use vstd::string::*;

use crate::text::same;

verus! {

/// A point in time: seconds since the Unix epoch and nanoseconds.
#[derive(Debug, Clone, Copy, PartialEq, Eq, Structural)]
pub struct Timestamp {
    pub seconds: i64,
    pub nanos: u32,
}

/// A confidence between zero and one, as the bits of a double.
#[derive(Debug, Clone, Copy, PartialEq, Eq, Structural)]
pub struct Confidence {
    pub bits: u64,
}

#[derive(Debug)]
pub struct Transaction {
    pub id: i64,
    pub bank_id: i64,
    pub account_id: i64,
    /// ISO date, `YYYY-MM-DD`.
    pub date: String,
    pub description: String,
    pub amount_cents: i64,
    pub balance_cents: i64,
    pub hash: String,
    /// JSON object.
    pub metadata: String,
    pub source_file: String,
    pub import_batch_id: i64,
}

impl Clone for Transaction {
    fn clone(&self) -> (copy: Self)
        ensures
            copy == *self,
    {
        Transaction {
            id: self.id,
            bank_id: self.bank_id,
            account_id: self.account_id,
            date: self.date.clone(),
            description: self.description.clone(),
            amount_cents: self.amount_cents,
            balance_cents: self.balance_cents,
            hash: self.hash.clone(),
            metadata: self.metadata.clone(),
            source_file: self.source_file.clone(),
            import_batch_id: self.import_batch_id,
        }
    }
}

#[derive(Debug)]
pub struct Bank {
    pub id: i64,
    pub name: String,
    pub deleted_at: Option<Timestamp>,
}

impl Clone for Bank {
    fn clone(&self) -> (copy: Self)
        ensures
            copy == *self,
    {
        Bank { id: self.id, name: self.name.clone(), deleted_at: self.deleted_at }
    }
}

#[derive(Debug)]
pub struct Account {
    pub id: i64,
    pub bank_id: i64,
    pub name: String,
    pub deleted_at: Option<Timestamp>,
}

impl Clone for Account {
    fn clone(&self) -> (copy: Self)
        ensures
            copy == *self,
    {
        Account {
            id: self.id,
            bank_id: self.bank_id,
            name: self.name.clone(),
            deleted_at: self.deleted_at,
        }
    }
}

/// An account together with its bank; `path` is `Bank/Account`.
#[derive(Debug)]
pub struct AccountWithBank {
    pub id: i64,
    pub bank_id: i64,
    pub bank_name: String,
    pub name: String,
    pub path: String,
}

impl Clone for AccountWithBank {
    fn clone(&self) -> (copy: Self)
        ensures
            copy == *self,
    {
        AccountWithBank {
            id: self.id,
            bank_id: self.bank_id,
            bank_name: self.bank_name.clone(),
            name: self.name.clone(),
            path: self.path.clone(),
        }
    }
}

#[derive(Debug)]
pub struct Category {
    pub id: i64,
    pub path: String,
    pub created_at: Timestamp,
}

impl Clone for Category {
    fn clone(&self) -> (copy: Self)
        ensures
            copy == *self,
    {
        Category { id: self.id, path: self.path.clone(), created_at: self.created_at }
    }
}

/// Who assigned a category.
#[derive(Debug, Clone, Copy, PartialEq, Eq, Structural)]
pub enum CategorySource {
    Manual,
    Ai,
    Rule,
}

impl CategorySource {
    /// How the source is written in the database.
    pub open spec fn word(self) -> Seq<char> {
        match self {
            CategorySource::Manual => "manual"@,
            CategorySource::Ai => "ai"@,
            CategorySource::Rule => "rule"@,
        }
    }

    pub fn as_str(self) -> (s: &'static str)
        ensures
            s@ == self.word(),
    {
        match self {
            CategorySource::Manual => "manual",
            CategorySource::Ai => "ai",
            CategorySource::Rule => "rule",
        }
    }

    pub fn parse(s: &str) -> (source: Option<Self>)
        ensures
            match source {
                Some(source) => s@ == source.word(),
                None => forall|source: CategorySource| s@ != #[trigger] source.word(),
            },
    {
        if same(s, "manual") {
            Some(CategorySource::Manual)
        } else if same(s, "ai") {
            Some(CategorySource::Ai)
        } else if same(s, "rule") {
            Some(CategorySource::Rule)
        } else {
            None
        }
    }
}

/// Who linked a transfer.
#[derive(Debug, Clone, Copy, PartialEq, Eq, Structural)]
pub enum TransferSource {
    Manual,
    Auto,
}

impl TransferSource {
    /// How the source is written in the database.
    pub open spec fn word(self) -> Seq<char> {
        match self {
            TransferSource::Manual => "manual"@,
            TransferSource::Auto => "auto"@,
        }
    }

    pub fn as_str(self) -> (s: &'static str)
        ensures
            s@ == self.word(),
    {
        match self {
            TransferSource::Manual => "manual",
            TransferSource::Auto => "auto",
        }
    }

    pub fn parse(s: &str) -> (source: Option<Self>)
        ensures
            match source {
                Some(source) => s@ == source.word(),
                None => forall|source: TransferSource| s@ != #[trigger] source.word(),
            },
    {
        if same(s, "manual") {
            Some(TransferSource::Manual)
        } else if same(s, "auto") {
            Some(TransferSource::Auto)
        } else {
            None
        }
    }
}

#[derive(Debug, Clone, Copy, PartialEq, Eq, Structural)]
pub struct Transfer {
    pub id: i64,
    pub from_transaction_id: i64,
    pub to_transaction_id: i64,
    pub source: TransferSource,
    pub confirmed: bool,
    pub created_at: Timestamp,
    pub ai_confidence: Option<Confidence>,
}

/// The category assigned to a transaction.
#[derive(Debug, Clone, Copy, PartialEq, Eq, Structural)]
pub struct TransactionEnrichment {
    pub id: i64,
    pub transaction_id: i64,
    pub category_id: Option<i64>,
    pub category_source: Option<CategorySource>,
    pub category_confirmed: bool,
    pub ai_confidence: Option<Confidence>,
    pub created_at: Timestamp,
    pub updated_at: Timestamp,
}

#[derive(Debug)]
pub struct TransactionWithEnrichment {
    pub transaction: Transaction,
    pub enrichment: Option<TransactionEnrichment>,
    pub category: Option<Category>,
}

#[derive(Debug)]
pub struct TransferWithTransactions {
    pub transfer: Transfer,
    pub from_transaction: Transaction,
    pub to_transaction: Transaction,
}

/// Which existing categories a filter may replace.
#[derive(Debug, Clone, Copy, PartialEq, Eq, Structural)]
pub enum FilterOverride {
    /// None: only transactions without a category.
    Uncategorised,
    /// Those suggested automatically.
    Ai,
    /// All.
    All,
}

impl FilterOverride {
    /// How the mode is written in the database.
    pub open spec fn word(self) -> Seq<char> {
        match self {
            FilterOverride::Uncategorised => "uncategorised"@,
            FilterOverride::Ai => "ai"@,
            FilterOverride::All => "all"@,
        }
    }

    pub fn as_str(self) -> (s: &'static str)
        ensures
            s@ == self.word(),
    {
        match self {
            FilterOverride::Uncategorised => "uncategorised",
            FilterOverride::Ai => "ai",
            FilterOverride::All => "all",
        }
    }

    pub fn parse(s: &str) -> (mode: Option<Self>)
        ensures
            match mode {
                Some(mode) => s@ == mode.word(),
                None => forall|mode: FilterOverride| s@ != #[trigger] mode.word(),
            },
    {
        if same(s, "uncategorised") {
            Some(FilterOverride::Uncategorised)
        } else if same(s, "ai") {
            Some(FilterOverride::Ai)
        } else if same(s, "all") {
            Some(FilterOverride::All)
        } else {
            None
        }
    }
}

/// The words of each enumeration differ, so parsing a written value gives it
/// back.
pub proof fn words_are_distinct(
    a: CategorySource,
    b: CategorySource,
    c: FilterOverride,
    d: FilterOverride,
    e: TransferSource,
    f: TransferSource,
)
    ensures
        a.word() == b.word() ==> a == b,
        c.word() == d.word() ==> c == d,
        e.word() == f.word() ==> e == f,
{
    reveal_strlit("manual");
    reveal_strlit("ai");
    reveal_strlit("rule");
    reveal_strlit("auto");
    reveal_strlit("uncategorised");
    reveal_strlit("all");
    assert("all"@[2] == 'l');
    assert("manual"@.len() == 6 && "ai"@.len() == 2 && "rule"@.len() == 4 && "auto"@.len() == 4
        && "uncategorised"@.len() == 13 && "all"@.len() == 3);
}

/// A saved search that assigns a category.
#[derive(Debug)]
pub struct Filter {
    pub id: i64,
    pub name: String,
    pub query: String,
    pub category_id: Option<i64>,
    pub override_mode: FilterOverride,
    pub review_required: bool,
    pub position: i64,
    pub created_at: Timestamp,
}

impl Clone for Filter {
    fn clone(&self) -> (copy: Self)
        ensures
            copy == *self,
    {
        Filter {
            id: self.id,
            name: self.name.clone(),
            query: self.query.clone(),
            category_id: self.category_id,
            override_mode: self.override_mode,
            review_required: self.review_required,
            position: self.position,
            created_at: self.created_at,
        }
    }
}

/// What a refresh did.
#[derive(Debug, Clone, Copy, PartialEq, Eq, Structural)]
pub struct RefreshReport {
    pub banks_added: usize,
    pub banks_deleted: usize,
    pub accounts_added: usize,
    pub accounts_deleted: usize,
    pub files_processed: usize,
    pub transactions_added: usize,
    pub transactions_updated: usize,
    pub transactions_skipped: usize,
}

impl Default for RefreshReport {
    fn default() -> (report: Self)
        ensures
            report == (RefreshReport {
                banks_added: 0,
                banks_deleted: 0,
                accounts_added: 0,
                accounts_deleted: 0,
                files_processed: 0,
                transactions_added: 0,
                transactions_updated: 0,
                transactions_skipped: 0,
            }),
    {
        RefreshReport {
            banks_added: 0,
            banks_deleted: 0,
            accounts_added: 0,
            accounts_deleted: 0,
            files_processed: 0,
            transactions_added: 0,
            transactions_updated: 0,
            transactions_skipped: 0,
        }
    }
}

} // verus!
