//! A quarterly report with what was read out of it.

use crate::models::financial_statements::{BalanceSheet, IncomeStatement};
use crate::models::xbrl::DynamicXBRLContent;
use vstd::prelude::*;

verus! {

/// One quarterly report of the document list, with the tree and the
/// statements of its filing where they could be read.
#[derive(Debug)]
pub struct QuarterlyReport {
    pub date: String,
    pub doc_id: String,
    pub sec_code: Option<String>,
    pub doc_type_code: String,
    pub submit_date_time: Option<String>,
    pub edinet_code: Option<String>,
    pub filer_name: Option<String>,
    pub xbrl_zip_path: Option<String>,
    pub xbrl_content: Option<DynamicXBRLContent>,
    pub income_statement: Option<IncomeStatement>,
    pub balance_sheet: Option<BalanceSheet>,
}

} // verus!
