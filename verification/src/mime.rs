//! Content types by file extension.

use vstd::prelude::*;
use vstd::string::*;
use crate::path::{extension, extension_of};
use crate::text::{lowercase, same_text, to_lowercase};

verus! {

/// The content type of a file whose extension the table does not hold.
pub const DEFAULT_MIME: &'static str = "text/plain";

/// The content type that goes with a file extension: the table's entry
/// where the extension is one of its keys, letter for letter and in lower
/// case as the keys are, and [`DEFAULT_MIME`] otherwise.
pub open spec fn mime_of(extension: Seq<char>) -> Seq<char> {
    if extension == "html"@ {
        "text/html; charset=utf8"@
    } else if extension == "css"@ {
        "text/css"@
    } else if extension == "csv"@ {
        "text/csv"@
    } else if extension == "rtf"@ {
        "text/rtf"@
    } else if extension == "js"@ {
        "application/javascript"@
    } else if extension == "json"@ {
        "application/json"@
    } else if extension == "xml"@ {
        "application/xml"@
    } else if extension == "png"@ {
        "image/png"@
    } else if extension == "jpeg"@ || extension == "jpg"@ {
        "image/jpg"@
    } else if extension == "gif"@ {
        "image/gif"@
    } else if extension == "bmp"@ {
        "image/bmp"@
    } else if extension == "svg"@ {
        "image/svg+xml"@
    } else if extension == "tiff"@ {
        "image/tiff"@
    } else {
        DEFAULT_MIME@
    }
}

/// The extension of a path in lower case, where it has one.
pub open spec fn lowered_extension(path: Seq<char>) -> Option<Seq<char>> {
    match extension_of(path) {
        Some(extension) => Some(lowercase(extension)),
        None => None,
    }
}

/// The content type of the file at `path`: that of its extension in lower
/// case, and [`DEFAULT_MIME`] where it has none.
pub open spec fn content_type_of(path: Seq<char>) -> Seq<char> {
    match lowered_extension(path) {
        Some(extension) => mime_of(extension),
        None => DEFAULT_MIME@,
    }
}

/// Looks an extension up in the content-type table.
pub fn get_mimetype(extension: &str) -> (mime: String)
    ensures
        mime@ == mime_of(extension@),
{
    let found: &str = if same_text(extension, "html") {
        "text/html; charset=utf8"
    } else if same_text(extension, "css") {
        "text/css"
    } else if same_text(extension, "csv") {
        "text/csv"
    } else if same_text(extension, "rtf") {
        "text/rtf"
    } else if same_text(extension, "js") {
        "application/javascript"
    } else if same_text(extension, "json") {
        "application/json"
    } else if same_text(extension, "xml") {
        "application/xml"
    } else if same_text(extension, "png") {
        "image/png"
    } else if same_text(extension, "jpeg") || same_text(extension, "jpg") {
        "image/jpg"
    } else if same_text(extension, "gif") {
        "image/gif"
    } else if same_text(extension, "bmp") {
        "image/bmp"
    } else if same_text(extension, "svg") {
        "image/svg+xml"
    } else if same_text(extension, "tiff") {
        "image/tiff"
    } else {
        DEFAULT_MIME
    };
    String::from_str(found)
}

/// Finds the content type of the file at `path`.
pub fn content_type(path: &str) -> (mime: String)
    ensures
        mime@ == content_type_of(path@),
{
    match extension(path) {
        Some(found) => get_mimetype(to_lowercase(found.as_str()).as_str()),
        None => String::from_str(DEFAULT_MIME),
    }
}

/// The content type depends on nothing but the extension in lower case:
/// two paths whose extensions are the same but for the case of their
/// letters, or which both have none, get the same content type, and it is
/// the table's entry for that extension.
pub proof fn content_type_by_extension(first: Seq<char>, second: Seq<char>)
    requires
        lowered_extension(first) == lowered_extension(second),
    ensures
        content_type_of(first) == content_type_of(second),
        lowered_extension(first) matches Some(extension) ==> content_type_of(first) == mime_of(
            extension,
        ),
        lowered_extension(first) is None ==> content_type_of(first) == DEFAULT_MIME@,
{
}

} // verus!
