//! Which declarations of a preprocessed header belong to the header itself: the line
//! markers of the preprocessor tell the file each declaration comes from.
use vstd::prelude::*;
use vstd::string::StringExecFns;
use crate::text::bytes_len;

verus! {

/// The file that the preprocessor's line markers (`# <line> "<file>" <flags>`) place the
/// byte offset `start` of the preprocessed text `source` in: the file of the last marker
/// line before the line holding `start`, or the empty text when there is none.
pub uninterp spec fn marker_file(source: Seq<char>, start: usize) -> Seq<char>;

/// `lang_c::loc::get_location_for_offset(source, start).0.file`: the file that the line
/// markers place `start` in, as `lang_c` reads them. It slices the text from each line
/// start before `start`, so it panics when `start` lies more than one byte past the end.
#[verifier::external_body]
fn location_file(source: &str, start: usize) -> (r: String)
    requires
        start <= bytes_len(source@) + 1,
    ensures
        r@ == marker_file(source@, start),
{
    lang_c::loc::get_location_for_offset(source, start).0.file.to_string()
}

/// The file the declaration at byte offset `start` of the preprocessed text comes from,
/// or `None` when no line marker names one (such a declaration is never the header's).
pub fn declaration_file(source: &str, start: usize) -> (r: Option<String>)
    requires
        start <= bytes_len(source@) + 1,
    ensures
        marker_file(source@, start).len() == 0 ==> r is None,
        marker_file(source@, start).len() > 0 ==> (r matches Some(f) && f@ == marker_file(source@, start)),
{
    let file = location_file(source, start);
    if file.as_str().unicode_len() == 0 {
        None
    } else {
        Some(file)
    }
}

/// Whether a declaration from the file `file` belongs to the header being packaged: the
/// file is not empty, and it is the header itself (`file_is_header`: both name the same
/// file on disk) or has the same file name (`file_name`, `header_name`: the last path
/// components, if any).
pub fn belongs_to_header(file: &str, file_is_header: bool, file_name: Option<&str>, header_name: Option<&str>) -> (r: bool)
    ensures
        r == (file@.len() > 0 && (file_is_header || match (file_name, header_name) {
            (Some(a), Some(b)) => a@ == b@,
            (None, None) => true,
            _ => false,
        })),
{
    if file.unicode_len() == 0 {
        return false;
    }
    if file_is_header {
        return true;
    }
    match (file_name, header_name) {
        (Some(a), Some(b)) => crate::text::str_eq(a, b),
        (None, None) => true,
        _ => false,
    }
}

} // verus!
