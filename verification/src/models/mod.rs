//! The data that the crate reads and produces.

pub mod api;
pub mod financial_statements;
pub mod quarterly_report;
pub mod xbrl;

pub use api::{DocumentInfo, DocumentListAPIResponse, DocumentListMetadata, ResultSet};
pub use financial_statements::{
    Assets, BalanceField, BalanceSheet, Equity, IncomeField, IncomeStatement, Liabilities,
    StatementRecord,
};
pub use quarterly_report::QuarterlyReport;
pub use xbrl::{DynamicXBRLContent, XBRLElement};
