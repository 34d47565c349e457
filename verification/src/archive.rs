//! Choosing the entry of a filing's archive that holds its markup.

use crate::text::{ends_with, has_suffix};
use vstd::prelude::*;

verus! {

/// What the name of an archive entry with a filing's markup ends with.
pub const XBRL_SUFFIX: &'static str = ".xbrl";

/// The name is that of an entry with a filing's markup.
pub open spec fn names_markup(name: Seq<char>) -> bool {
    ends_with(name, XBRL_SUFFIX@)
}

/// Whether an archive entry of this name holds a filing's markup.
pub fn is_xbrl_entry(name: &str) -> (found: bool)
    ensures
        found == names_markup(name@),
{
    has_suffix(name, XBRL_SUFFIX)
}

/// The place of the first entry that holds a filing's markup, among the
/// names of an archive's entries in the order of the archive.
pub fn find_xbrl_entry(names: &Vec<String>) -> (place: Option<usize>)
    ensures
        match place {
            Some(i) => i < names@.len() && names_markup(names@[i as int]@) && forall|j: int|
                0 <= j < i ==> !names_markup(#[trigger] names@[j]@),
            None => forall|j: int| 0 <= j < names@.len() ==> !names_markup(#[trigger] names@[j]@),
        },
{
    let mut i: usize = 0;
    while i < names.len()
        invariant
            i <= names@.len(),
            forall|j: int| 0 <= j < i ==> !names_markup(#[trigger] names@[j]@),
        decreases names@.len() - i,
    {
        if is_xbrl_entry(names[i].as_str()) {
            return Some(i);
        }
        i += 1;
    }
    None
}

} // verus!
