//! The export sink: the in-memory batch of records accumulated across all
//! walked profiles, and its encoding as comma-separated rows.

use vstd::prelude::*;

use crate::record::{record_views, BookmarkRecord, RecordModel};

verus! {

/// The ordered, append-only batch of records for one export run.
pub struct BookmarkList {
    pub data: Vec<BookmarkRecord>,
}

impl BookmarkList {
    /// An empty batch.
    pub fn new() -> (r: BookmarkList)
        ensures
            r.data@.len() == 0,
    {
        BookmarkList { data: Vec::new() }
    }

    /// Appends one record at the end of the batch.
    pub fn push(&mut self, value: BookmarkRecord)
        ensures
            final(self).data@ == old(self).data@.push(value),
    {
        self.data.push(value);
    }

    /// Appends a whole walk's records at the end of the batch, in their
    /// order, draining `records`.
    pub fn append(&mut self, records: &mut Vec<BookmarkRecord>)
        ensures
            final(self).data@ == old(self).data@ + old(records)@,
            final(records)@.len() == 0,
    {
        self.data.append(records);
    }
}

/// The comma-separated encoding of one row of three fields, as the `csv`
/// crate's default writer produces it: fields separated by commas, quoted
/// only where needed, the row ended by one newline.
pub uninterp spec fn csv_row_of(folder_path: Seq<char>, url: Seq<char>, source_label: Seq<char>) -> Seq<u8>;

/// Relies on `csv::Writer::write_record` (with `csv`'s default writer
/// configuration, writing into an in-memory buffer): it encodes exactly one
/// row from the three fields, and the bytes depend on the fields alone.
/// Writing into a `Vec<u8>` cannot hit an I/O error, so neither call below
/// can fail.
#[verifier::external_body]
fn csv_row(folder_path: &str, url: &str, source_label: &str) -> (r: Vec<u8>)
    ensures
        r@ == csv_row_of(folder_path@, url@, source_label@),
{
    let mut w = csv::Writer::from_writer(Vec::new());
    w.write_record(&[folder_path, url, source_label]).unwrap();
    w.into_inner().unwrap()
}

/// The concatenated row encodings of a sequence of records, in order.
pub open spec fn csv_rows_of(rs: Seq<RecordModel>) -> Seq<u8>
    decreases rs,
{
    if rs.len() == 0 {
        Seq::empty()
    } else {
        csv_row_of(rs[0].folder_path, rs[0].url, rs[0].source_label) + csv_rows_of(rs.drop_first())
    }
}

/// Encodes the records `list.data[i..]`.
fn to_csv_from(list: &BookmarkList, i: usize) -> (r: Vec<u8>)
    requires
        i <= list.data@.len(),
    ensures
        r@ == csv_rows_of(record_views(list.data@.skip(i as int))),
    decreases list.data@.len() - i,
{
    let ghost rs = record_views(list.data@.skip(i as int));
    if i == list.data.len() {
        let r: Vec<u8> = Vec::new();
        proof {
            assert(rs =~= Seq::<RecordModel>::empty());
        }
        r
    } else {
        let rec = &list.data[i];
        let mut row = csv_row(rec.folder_path.as_str(), rec.url.as_str(), rec.source_label.as_str());
        let mut rest = to_csv_from(list, i + 1);
        row.append(&mut rest);
        proof {
            assert(rs[0] == list.data@[i as int]@);
            assert(rs.drop_first() =~= record_views(list.data@.skip(i as int + 1)));
        }
        row
    }
}

/// Encodes the whole batch as comma-separated rows, one row per record, in
/// arrival order, with no header row.
pub fn to_csv(list: &BookmarkList) -> (r: Vec<u8>)
    ensures
        r@ == csv_rows_of(record_views(list.data@)),
{
    let r = to_csv_from(list, 0);
    proof {
        assert(list.data@.skip(0) =~= list.data@);
    }
    r
}

} // verus!
