//! Reading the clipboard text, optionally preserving the text formats
//! already on the clipboard.
use vstd::prelude::*;

use crate::chars::contains_seq;
use crate::error::AppError;

verus! {

/// `CF_TEXT`.
pub const CF_TEXT: u32 = 1;

/// `CF_OEMTEXT`.
pub const CF_OEMTEXT: u32 = 7;

/// `CF_UNICODETEXT`.
pub const CF_UNICODETEXT: u32 = 13;

/// The first registered (named) clipboard format.
pub const CF_REGISTERED_MIN: u32 = 0xC000;

/// One clipboard format and its raw data.
#[derive(Debug, Clone, PartialEq, Eq)]
pub struct ClipboardFormatData {
    pub format: u32,
    pub data: Vec<u8>,
}

/// A registered format name that marks a text format.
pub open spec fn text_format_name(name: Seq<char>) -> bool {
    contains_seq(name, "HTML Format"@) || contains_seq(name, "Rich Text Format"@) || contains_seq(
        name,
        "UniformResourceLocator"@,
    )
}

/// Whether a clipboard format holds text: the standard text formats, and
/// registered formats whose name (`None` when it could not be read) is one
/// of HTML, RTF or URL.
pub fn is_text_format(format: u32, registered_name: Option<String>) -> (r: bool)
    ensures
        format == CF_UNICODETEXT || format == CF_TEXT || format == CF_OEMTEXT ==> r,
        !(format == CF_UNICODETEXT || format == CF_TEXT || format == CF_OEMTEXT) && format
            >= CF_REGISTERED_MIN ==> r == (match registered_name {
            Some(n) => text_format_name(n@),
            None => false,
        }),
        !(format == CF_UNICODETEXT || format == CF_TEXT || format == CF_OEMTEXT) && format
            < CF_REGISTERED_MIN ==> !r,
{
    if format == CF_UNICODETEXT || format == CF_TEXT || format == CF_OEMTEXT {
        return true;
    }
    if format >= CF_REGISTERED_MIN {
        return match registered_name {
            Some(n) => {
                let s = n.as_str();
                crate::chars::contains_str(s, "HTML Format") || crate::chars::contains_str(
                    s,
                    "Rich Text Format",
                ) || crate::chars::contains_str(s, "UniformResourceLocator")
            },
            None => false,
        };
    }
    false
}

/// The clipboard text, or an empty text when there is none or it cannot be read.
pub fn read_text_or_empty(read: Result<String, AppError>) -> (r: String)
    ensures
        read matches Ok(t) ==> r == t,
        read is Err ==> r@.len() == 0,
{
    match read {
        Ok(t) => t,
        Err(_) => String::new(),
    }
}

/// Reading with restore: the text read, and the snapshot to put back when
/// one was taken (a failed snapshot falls back to a plain read).
pub fn read_text_with_restore(
    snapshot: Result<Vec<ClipboardFormatData>, AppError>,
    read: Result<String, AppError>,
) -> (r: (String, Option<Vec<ClipboardFormatData>>))
    ensures
        read matches Ok(t) ==> r.0 == t,
        read is Err ==> r.0@.len() == 0,
        snapshot matches Ok(s) ==> r.1 == Some(s),
        snapshot is Err ==> r.1 is None,
{
    let text = read_text_or_empty(read);
    match snapshot {
        Ok(s) => (text, Some(s)),
        Err(_) => (text, None),
    }
}

/// Formats with empty data are not written back.
pub fn should_write(entry: &ClipboardFormatData) -> (r: bool)
    ensures
        r == (entry.data@.len() > 0),
{
    entry.data.len() > 0
}

} // verus!
