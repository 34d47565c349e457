//! The addresses of the disclosure service and the names under which its
//! archives are kept.

use vstd::prelude::*;
use vstd::string::StringExecFns;

verus! {

/// The address of the document list, up to the date.
pub const DOCUMENT_LIST: &'static str = "https://api.edinet-fsa.go.jp/api/v2/documents.json?date=";

/// What follows the date in the address of the document list, up to the key.
pub const DOCUMENT_LIST_KEY: &'static str = "&type=2&Subscription-Key=";

/// The address of a document, up to its identifier.
pub const DOCUMENT: &'static str = "https://api.edinet-fsa.go.jp/api/v2/documents/";

/// What follows the identifier in the address of a document, up to the key.
pub const DOCUMENT_KEY: &'static str = "?type=1&Subscription-Key=";

/// The directory of the archives, with the separator after it.
pub const ARCHIVE_DIRECTORY: &'static str = "xbrl/";

/// What follows the identifier in the name of a document's archive.
pub const ARCHIVE_SUFFIX: &'static str = "_xbrl.zip";

/// The address that lists the documents filed on `date`.
pub fn document_list_url(date: &str, subscription_key: &str) -> (url: String)
    ensures
        url@ == DOCUMENT_LIST@ + date@ + DOCUMENT_LIST_KEY@ + subscription_key@,
{
    let mut url = String::from_str(DOCUMENT_LIST);
    url.append(date);
    url.append(DOCUMENT_LIST_KEY);
    url.append(subscription_key);
    url
}

/// The address of the archive of the document `doc_id`.
pub fn document_url(doc_id: &str, subscription_key: &str) -> (url: String)
    ensures
        url@ == DOCUMENT@ + doc_id@ + DOCUMENT_KEY@ + subscription_key@,
{
    let mut url = String::from_str(DOCUMENT);
    url.append(doc_id);
    url.append(DOCUMENT_KEY);
    url.append(subscription_key);
    url
}

/// The name of the file in which the archive of the document `doc_id` is
/// kept.
pub fn archive_file_name(doc_id: &str) -> (name: String)
    ensures
        name@ == doc_id@ + ARCHIVE_SUFFIX@,
{
    let mut name = String::from_str(doc_id);
    name.append(ARCHIVE_SUFFIX);
    name
}

/// The path of the archive of the document `doc_id`, from the directory of
/// all documents.
pub fn archive_path(doc_id: &str) -> (path: String)
    ensures
        path@ == ARCHIVE_DIRECTORY@ + doc_id@ + ARCHIVE_SUFFIX@,
{
    let mut path = String::from_str(ARCHIVE_DIRECTORY);
    path.append(doc_id);
    path.append(ARCHIVE_SUFFIX);
    path
}

} // verus!
