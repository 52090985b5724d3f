//! The output unit of the export: one flattened bookmark record.

use vstd::prelude::*;

verus! {

/// The fixed tag written into every exported record's source-label column.
pub open spec fn source_tag() -> Seq<char> {
    "testing"@
}

/// Returns the constant source label carried by every exported record.
pub fn source_label() -> (r: String)
    ensures
        r@ == source_tag(),
{
    "testing".to_owned()
}

/// Mathematical model of a [`BookmarkRecord`]: the three columns as
/// character sequences.
#[verifier::ext_equal]
pub struct RecordModel {
    pub folder_path: Seq<char>,
    pub url: Seq<char>,
    pub source_label: Seq<char>,
}

/// One exported bookmark: the fully qualified `/`-joined folder path (profile
/// label, ancestor folder names, and the bookmark's own name), the bookmark's
/// URL, and the constant source label of the export run.
#[derive(Debug, Clone)]
pub struct BookmarkRecord {
    pub folder_path: String,
    pub url: String,
    pub source_label: String,
}

impl View for BookmarkRecord {
    type V = RecordModel;

    open spec fn view(&self) -> RecordModel {
        RecordModel {
            folder_path: self.folder_path@,
            url: self.url@,
            source_label: self.source_label@,
        }
    }
}

/// The views of a sequence of records, record by record.
pub open spec fn record_views(rs: Seq<BookmarkRecord>) -> Seq<RecordModel> {
    rs.map_values(|r: BookmarkRecord| r@)
}

} // verus!
