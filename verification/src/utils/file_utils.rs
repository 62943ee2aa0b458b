//! What a text replacement did to a file, and which files it leaves alone.
use vstd::prelude::*;
use crate::error::GitError;
use crate::text::str_eq;
use crate::utils::filter::{regex_replaced, CompiledPattern};

verus! {

/// What replacing text in one file did.
#[derive(Debug, Clone, Copy, PartialEq, Eq, Structural)]
pub enum FileStatus {
    /// The file is of a kind that is never edited.
    Skipped,
    /// Nothing in the file matched.
    NoChanges,
    /// The file was rewritten.
    Modified,
}

/// The extensions of files that are never edited: images, archives and jars.
pub open spec fn skipped_extension(ext: Seq<char>) -> bool {
    ||| ext == "png"@ || ext == "jpg"@ || ext == "jpeg"@ || ext == "gif"@ || ext == "bmp"@
    ||| ext == "tiff"@ || ext == "svg"@ || ext == "webp"@ || ext == "ico"@ || ext == "heic"@
    ||| ext == "zip"@ || ext == "gz"@ || ext == "tgz"@ || ext == "snappy"@ || ext == "jar"@
    ||| ext == "ai"@
}

/// Whether a file with extension `ext` (empty when it has none) is left alone.
pub fn skip_file(ext: &str) -> (r: bool)
    ensures
        r == skipped_extension(ext@),
{
    str_eq(ext, "png") || str_eq(ext, "jpg") || str_eq(ext, "jpeg") || str_eq(ext, "gif")
        || str_eq(ext, "bmp") || str_eq(ext, "tiff") || str_eq(ext, "svg") || str_eq(ext, "webp")
        || str_eq(ext, "ico") || str_eq(ext, "heic") || str_eq(ext, "zip") || str_eq(ext, "gz")
        || str_eq(ext, "tgz") || str_eq(ext, "snappy") || str_eq(ext, "jar") || str_eq(ext, "ai")
}

/// What a replacement did to a file that is not skipped: whether its text changed.
pub fn replacement_status(old_content: &str, new_content: &str) -> (r: FileStatus)
    ensures
        old_content@ == new_content@ ==> r == FileStatus::NoChanges,
        old_content@ != new_content@ ==> r == FileStatus::Modified,
{
    if str_eq(old_content, new_content) {
        FileStatus::NoChanges
    } else {
        FileStatus::Modified
    }
}

/// The text of a file after every match of `re` is replaced by `replacement`, and whether that
/// changed it; a search that failed is a [`GitError::RegexError`].
pub fn replace_in_text(re: &CompiledPattern, content: &str, replacement: &str) -> (r: Result<(String, FileStatus), GitError>)
    ensures
        r is Ok <==> regex_replaced(re@, content@, replacement@) is Some,
        r matches Ok((t, status)) ==> Some(t@) == regex_replaced(re@, content@, replacement@)
            && (status == FileStatus::NoChanges <==> t@ == content@) && status != FileStatus::Skipped,
        r matches Err(e) ==> e is RegexError,
{
    let new_content = re.replace_all(content, replacement)?;
    let status = replacement_status(content, new_content.as_str());
    Ok((new_content, status))
}

} // verus!
