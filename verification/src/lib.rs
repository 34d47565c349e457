//! Extraction of financial facts from XBRL filings published through EDINET.
//!
//! The crate turns the markup of a filing into a tree of tagged elements and
//! resolves named, context-qualified facts of that tree into flat statement
//! records. Every function is verified against the contract it carries.
//!
//! Two things are taken on trust. The markup is split into events by
//! `quick_xml`, whose reader stands behind the wrappers of [`events`]; what
//! the reader gives for a document has a name there and no definition.
//! Bytes are decoded with `core::str::from_utf8`, behind a wrapper of
//! [`text`]. Everything else, from the events to the statements, is proved.
//!
//! Numbers are kept as the text that the filing writes. The crate decides
//! which text is a number and leaves the conversion to the caller.

pub mod archive;
pub mod endpoints;
pub mod error;
pub mod events;
pub mod mapping;
pub mod models;
pub mod numeric;
pub mod parser;
pub mod pipeline;
pub mod resolver;
pub mod string_map;
pub mod text;

pub use error::{ParseFailure, StructuralFault};
pub use models::{
    Assets, BalanceField, BalanceSheet, DocumentInfo, DocumentListAPIResponse,
    DocumentListMetadata, DynamicXBRLContent, Equity, IncomeField, IncomeStatement, Liabilities,
    QuarterlyReport, ResultSet, XBRLElement,
};
pub use parser::parse_dynamic_xbrl;
pub use pipeline::{extract_statements, Statements};
pub use resolver::{extract_balance_sheet, extract_income_statement};
pub use string_map::StringMap;
