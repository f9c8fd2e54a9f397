//! The CSV export: a header line and one line per selected record.
use vstd::prelude::*;

use crate::reporting::selected_records;
use crate::text::{dec, hex_digits, push_char, push_decimal, push_hex, push_signed_decimal, push_str_chars, signed_dec};
use crate::usn_record::UsnRecord;

verus! {

broadcast use vstd::string::group_string_axioms;

/// The header line of the CSV export.
pub open spec fn csv_header_text() -> Seq<char> {
    "Timestamp,Path,Reason,USN,FileReference,ParentFileReference,Attributes,Ghost"@
}

/// The header line of the CSV export.
pub fn csv_header() -> (s: &'static str)
    ensures
        s@ == csv_header_text(),
{
    "Timestamp,Path,Reason,USN,FileReference,ParentFileReference,Attributes,Ghost"
}

/// A text for a quoted CSV field: every `"` doubled.
pub open spec fn csv_escape(s: Seq<char>) -> Seq<char>
    decreases s.len(),
{
    if s.len() == 0 {
        Seq::empty()
    } else {
        csv_escape(s.drop_last()) + if s.last() == '"' {
            seq!['"', '"']
        } else {
            seq![s.last()]
        }
    }
}

/// `true` or `false`.
pub open spec fn bool_text(b: bool) -> Seq<char> {
    if b {
        "true"@
    } else {
        "false"@
    }
}

/// The CSV line of a record: quoted time, path and reasons (quotes doubled in path
/// and reasons), update number, file and parent references, attributes as `0x` and
/// eight hexadecimal digits, and whether the record was carved.
pub open spec fn csv_row(r: UsnRecord) -> Seq<char> {
    seq!['"'] + r.timestamp_formatted@ + "\",\""@ + csv_escape(r.full_path@) + "\",\""@
        + csv_escape(r.reason_str@) + "\","@ + signed_dec(r.usn as int) + seq![','] + dec(
        r.file_ref_number as nat,
    ) + seq![','] + dec(r.parent_file_ref_number as nat) + ",0x"@ + hex_digits(
        r.file_attributes as nat,
        8,
    ) + seq![','] + bool_text(r.is_ghost)
}

/// Appends `t` with every `"` doubled.
fn push_escaped(s: &mut String, t: &str)
    ensures
        final(s)@ == old(s)@ + csv_escape(t@),
{
    let ghost start = s@;
    for c in it: t.chars()
        invariant
            s@ == start + csv_escape(it.seq().take(it.index() as int)),
            it.seq() == t@,
    {
        proof {
            let p = it.seq().take(it.index() + 1);
            assert(p.drop_last() =~= it.seq().take(it.index() as int));
            assert(p.last() == c);
        }
        if c == '"' {
            push_char(s, '"');
            push_char(s, '"');
        } else {
            push_char(s, c);
        }
        proof {
            let p = it.seq().take(it.index() + 1);
            assert(s@ =~= start + csv_escape(p));
        }
    }
    assert(t@.take(t@.len() as int) =~= t@);
}

/// Appends `true` or `false`.
fn push_bool(s: &mut String, b: bool)
    ensures
        final(s)@ == old(s)@ + bool_text(b),
{
    if b {
        push_str_chars(s, "true");
    } else {
        push_str_chars(s, "false");
    }
}

/// The CSV line of a record (see [`csv_row`]).
pub fn csv_row_text(r: &UsnRecord) -> (s: String)
    ensures
        s@ == csv_row(*r),
{
    let mut s = String::new();
    push_char(&mut s, '"');
    push_str_chars(&mut s, r.timestamp_formatted.as_str());
    push_str_chars(&mut s, "\",\"");
    push_escaped(&mut s, r.full_path.as_str());
    push_str_chars(&mut s, "\",\"");
    push_escaped(&mut s, r.reason_str.as_str());
    push_str_chars(&mut s, "\",");
    push_signed_decimal(&mut s, r.usn);
    push_char(&mut s, ',');
    push_decimal(&mut s, r.file_ref_number);
    push_char(&mut s, ',');
    push_decimal(&mut s, r.parent_file_ref_number);
    push_str_chars(&mut s, ",0x");
    push_hex(&mut s, r.file_attributes as u64, 8);
    push_char(&mut s, ',');
    push_bool(&mut s, r.is_ghost);
    s
}

/// The CSV lines of the records named by `indices`, in that order; positions past the
/// end are skipped. Their number is the number of exported records.
pub fn csv_selected_rows(records: &[UsnRecord], indices: &[usize]) -> (rows: Vec<String>)
    ensures
        rows@.len() == selected_records(records@, indices@).len(),
        forall|k: int|
            0 <= k < rows@.len() ==> (#[trigger] rows@[k])@ == csv_row(
                selected_records(records@, indices@)[k],
            ),
{
    let mut rows: Vec<String> = Vec::new();
    let mut j: usize = 0;
    while j < indices.len()
        invariant
            j <= indices@.len(),
            rows@.len() == selected_records(records@, indices@.take(j as int)).len(),
            forall|k: int|
                0 <= k < rows@.len() ==> (#[trigger] rows@[k])@ == csv_row(
                    selected_records(records@, indices@.take(j as int))[k],
                ),
        decreases indices@.len() - j,
    {
        assert(indices@.take(j + 1).drop_last() =~= indices@.take(j as int));
        let idx = indices[j];
        if idx < records.len() {
            let line = csv_row_text(&records[idx]);
            rows.push(line);
        }
        j = j + 1;
    }
    assert(indices@.take(j as int) =~= indices@);
    rows
}

} // verus!
