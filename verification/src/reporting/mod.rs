//! What the exports hold: the selected records, as CSV lines or as a report.
use vstd::prelude::*;

use crate::usn_record::UsnRecord;

pub mod csv;
pub mod json;

verus! {

/// The records named by `indices`, in that order, skipping positions past the end.
pub open spec fn selected_records(rs: Seq<UsnRecord>, indices: Seq<usize>) -> Seq<UsnRecord>
    decreases indices.len(),
{
    if indices.len() == 0 {
        Seq::empty()
    } else {
        let prev = selected_records(rs, indices.drop_last());
        let i = indices.last();
        if i < rs.len() {
            prev.push(rs[i as int])
        } else {
            prev
        }
    }
}

} // verus!
