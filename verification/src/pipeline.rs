//! From the markup of a filing to its statements.

use crate::error::ParseFailure;
use crate::events::xml_events;
use crate::mapping::{balance_entries, balance_mapping, income_entries, income_mapping};
use crate::models::financial_statements::{
    BalanceField, BalanceSheet, IncomeField, IncomeStatement,
};
use crate::models::xbrl::preorder_forest;
use crate::parser::{document_of, parse_dynamic_xbrl};
use crate::resolver::{resolve_balance_sheet, resolve_income_statement, resolved};
use vstd::prelude::*;

verus! {

/// The two statements of one filing.
#[derive(Debug, PartialEq, Eq)]
pub struct Statements {
    pub income_statement: IncomeStatement,
    pub balance_sheet: BalanceSheet,
}

/// Reads the markup of a filing once and resolves both statements from the
/// one tree: the income statement under `income_qualifier`, the balance sheet
/// under `balance_qualifier`.
///
/// Where the markup cannot be read into a tree, the failure comes back and no
/// statement.
pub fn extract_statements(
    content: &str,
    income_qualifier: &str,
    balance_qualifier: &str,
) -> (outcome: Result<Statements, ParseFailure>)
    ensures
        match document_of(xml_events(content@)) {
            Ok(document) => match outcome {
                Ok(statements) => {
                    &&& forall|field: IncomeField|
                        statements.income_statement.field(field) == resolved(
                            preorder_forest(document.elements),
                            income_qualifier@,
                            income_entries(),
                            field,
                        )
                    &&& forall|field: BalanceField|
                        statements.balance_sheet.field(field) == resolved(
                            preorder_forest(document.elements),
                            balance_qualifier@,
                            balance_entries(),
                            field,
                        )
                },
                Err(_) => false,
            },
            Err(failure) => match outcome {
                Ok(_) => false,
                Err(reported) => reported == failure,
            },
        },
{
    let document = match parse_dynamic_xbrl(content) {
        Ok(document) => document,
        Err(failure) => {
            return Err(failure);
        },
    };
    let income_table = income_mapping();
    let balance_table = balance_mapping();
    let income_statement = resolve_income_statement(&document, income_qualifier, &income_table);
    let balance_sheet = resolve_balance_sheet(&document, balance_qualifier, &balance_table);
    Ok(Statements { income_statement, balance_sheet })
}

} // verus!
