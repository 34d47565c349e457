//! What the document list of the disclosure service holds.

use crate::text::str_equal;
use vstd::prelude::*;

verus! {

/// The status with which the service answers a request that it served.
pub const STATUS_OK: &'static str = "200";

/// The document type of a quarterly report.
pub const QUARTERLY_REPORT: &'static str = "140";

/// The document type of an amended quarterly report.
pub const AMENDED_QUARTERLY_REPORT: &'static str = "150";

/// The answer to a request for the documents of one day.
#[derive(Debug)]
pub struct DocumentListAPIResponse {
    pub metadata: DocumentListMetadata,
    pub results: Vec<DocumentInfo>,
}

/// What the service says of its answer.
#[derive(Debug)]
pub struct DocumentListMetadata {
    pub title: String,
    pub status: String,
    pub message: String,
    pub process_date: String,
    pub result_set: ResultSet,
}

/// The size of an answer.
#[derive(Debug)]
pub struct ResultSet {
    pub count: i32,
}

/// One document of the list.
#[derive(Debug)]
pub struct DocumentInfo {
    pub seq_number: i32,
    pub doc_id: String,
    pub edinet_code: Option<String>,
    pub sec_code: Option<String>,
    pub doc_type_code: Option<String>,
    pub submit_date_time: Option<String>,
    pub filer_name: Option<String>,
}

impl DocumentListAPIResponse {
    /// The service served the request.
    pub open spec fn served(&self) -> bool {
        self.metadata.status@ == STATUS_OK@
    }

    /// Whether the service served the request.
    pub fn is_success(&self) -> (served: bool)
        ensures
            served == self.served(),
    {
        str_equal(self.metadata.status.as_str(), STATUS_OK)
    }
}

impl DocumentInfo {
    /// The document is a quarterly report or an amendment of one.
    pub open spec fn quarterly(&self) -> bool {
        match self.doc_type_code {
            Some(code) => code@ == QUARTERLY_REPORT@ || code@ == AMENDED_QUARTERLY_REPORT@,
            None => false,
        }
    }

    /// Whether the document is a quarterly report or an amendment of one.
    pub fn is_quarterly_report(&self) -> (quarterly: bool)
        ensures
            quarterly == self.quarterly(),
    {
        match &self.doc_type_code {
            Some(code) => str_equal(code.as_str(), QUARTERLY_REPORT) || str_equal(
                code.as_str(),
                AMENDED_QUARTERLY_REPORT,
            ),
            None => false,
        }
    }
}

} // verus!
