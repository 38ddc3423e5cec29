//! The language profile registry and the extension ignore-list: a file
//! extension names a language, whose profile carries the literal comment
//! markers the classifier and the TODO search work with; extensions of
//! known binary formats are excluded from searching before any read.

use vstd::prelude::*;

use crate::text::is_ws;
use crate::text::str_eq;

verus! {

/// Mathematical shape of a language profile.
pub struct LanguageV {
    pub name: Seq<char>,
    pub single_line_comment: Seq<char>,
    pub block_line_comment_begin: Option<Seq<char>>,
    pub block_line_comment_end: Option<Seq<char>>,
}

/// Comment-detection profile of a recognized language.  The markers are
/// literal character sequences: a single-line comment marker that opens a
/// comment after leading whitespace, and optional block-comment begin and
/// end markers that are recognized anywhere on a line.
pub struct Language {
    name: String,
    single_line_comment: String,
    block_line_comment_begin: Option<String>,
    block_line_comment_end: Option<String>,
}

impl View for Language {
    type V = LanguageV;

    closed spec fn view(&self) -> LanguageV {
        LanguageV {
            name: self.name@,
            single_line_comment: self.single_line_comment@,
            block_line_comment_begin: match self.block_line_comment_begin {
                Some(m) => Some(m@),
                None => None,
            },
            block_line_comment_end: match self.block_line_comment_end {
                Some(m) => Some(m@),
                None => None,
            },
        }
    }
}

/// A usable profile: the single-line marker is nonempty and does not begin
/// with whitespace (so the run of leading whitespace it may follow is
/// unambiguous), and block markers, when present, are nonempty.
pub open spec fn lang_wf(l: LanguageV) -> bool {
    &&& l.single_line_comment.len() > 0
    &&& !is_ws(l.single_line_comment[0])
    &&& (l.block_line_comment_begin matches Some(m) ==> m.len() > 0)
    &&& (l.block_line_comment_end matches Some(m) ==> m.len() > 0)
}

impl Language {
    /// The language identifier.
    pub fn get_name(&self) -> (r: &str)
        ensures
            r@ == self@.name,
    {
        self.name.as_str()
    }

    /// The literal single-line comment marker.
    pub fn get_single_line_comment(&self) -> (r: &str)
        ensures
            r@ == self@.single_line_comment,
    {
        self.single_line_comment.as_str()
    }

    /// The literal block-comment begin marker, when the language has block
    /// comments.
    pub fn get_block_line_comment_begin(&self) -> (r: Option<&String>)
        ensures
            match r {
                Some(m) => self@.block_line_comment_begin == Some(m@),
                None => self@.block_line_comment_begin is None,
            },
    {
        self.block_line_comment_begin.as_ref()
    }

    /// The literal block-comment end marker, when the language has block
    /// comments.
    pub fn get_block_line_comment_end(&self) -> (r: Option<&String>)
        ensures
            match r {
                Some(m) => self@.block_line_comment_end == Some(m@),
                None => self@.block_line_comment_end is None,
            },
    {
        self.block_line_comment_end.as_ref()
    }
}

/// The C-family profile under a given name: `//` line comments and
/// `/*` ... `*/` block comments.
pub open spec fn c_style_profile(name: Seq<char>) -> LanguageV {
    LanguageV {
        name: name,
        single_line_comment: "//"@,
        block_line_comment_begin: Some("/*"@),
        block_line_comment_end: Some("*/"@),
    }
}

/// The language a file extension is mapped to, if any.
pub open spec fn spec_language_for_extension(ext: Seq<char>) -> Option<LanguageV> {
    if ext == "cpp"@ || ext == "cc"@ || ext == "C"@ {
        Some(c_style_profile("C++"@))
    } else if ext == "java"@ {
        Some(c_style_profile("Java"@))
    } else if ext == "rs"@ {
        Some(c_style_profile("Rust"@))
    } else {
        None
    }
}

/// Every profile the registry hands out is well formed.
pub proof fn lemma_recognized_language_wf(ext: Seq<char>)
    ensures
        spec_language_for_extension(ext) matches Some(l) ==> lang_wf(l),
{
    reveal_strlit("//");
    reveal_strlit("/*");
    reveal_strlit("*/");
}

fn c_style(name: &str) -> (l: Language)
    ensures
        l@ == c_style_profile(name@),
{
    Language {
        name: name.to_owned(),
        single_line_comment: String::from_str("//"),
        block_line_comment_begin: Some(String::from_str("/*")),
        block_line_comment_end: Some(String::from_str("*/")),
    }
}

/// Looks an extension up in the registry, matching
/// `spec_language_for_extension`.
pub fn language_for_extension(ext: &str) -> (r: Option<Language>)
    ensures
        match r {
            Some(l) => spec_language_for_extension(ext@) == Some(l@),
            None => spec_language_for_extension(ext@) is None,
        },
{
    if str_eq(ext, "cpp") || str_eq(ext, "cc") || str_eq(ext, "C") {
        Some(c_style("C++"))
    } else if str_eq(ext, "java") {
        Some(c_style("Java"))
    } else if str_eq(ext, "rs") {
        Some(c_style("Rust"))
    } else {
        None
    }
}

/// Extensions of file formats that are never text: images, archives,
/// audio and video, office documents and compiled artifacts.
pub open spec fn is_ignored_extension(ext: Seq<char>) -> bool {
    ext == "pdf"@
        || ext == "png"@
        || ext == "jpg"@
        || ext == "jpeg"@
        || ext == "gif"@
        || ext == "svg"@
        || ext == "ico"@
        || ext == "bmp"@
        || ext == "tiff"@
        || ext == "tif"@
        || ext == "webp"@
        || ext == "psd"@
        || ext == "eps"@
        || ext == "raw"@
        || ext == "cr2"@
        || ext == "nef"@
        || ext == "orf"@
        || ext == "sr2"@
        || ext == "arw"@
        || ext == "dng"@
        || ext == "heic"@
        || ext == "heif"@
        || ext == "indd"@
        || ext == "zip"@
        || ext == "rar"@
        || ext == "tar"@
        || ext == "gz"@
        || ext == "7z"@
        || ext == "bz2"@
        || ext == "dmg"@
        || ext == "iso"@
        || ext == "mp3"@
        || ext == "mp4"@
        || ext == "wav"@
        || ext == "flac"@
        || ext == "aac"@
        || ext == "ogg"@
        || ext == "wma"@
        || ext == "m4a"@
        || ext == "avi"@
        || ext == "mov"@
        || ext == "wmv"@
        || ext == "mpg"@
        || ext == "mpeg"@
        || ext == "3gp"@
        || ext == "mkv"@
        || ext == "flv"@
        || ext == "swf"@
        || ext == "f4v"@
        || ext == "f4p"@
        || ext == "f4a"@
        || ext == "f4b"@
        || ext == "doc"@
        || ext == "docx"@
        || ext == "xls"@
        || ext == "xlsx"@
        || ext == "ppt"@
        || ext == "pptx"@
        || ext == "odt"@
        || ext == "ods"@
        || ext == "odp"@
        || ext == "bluej"@
        || ext == "class"@
        || ext == "jar"@
        || ext == "out"@
}

/// Tests an extension against the ignore-list, matching
/// `is_ignored_extension`.
pub fn extension_is_ignored(ext: &str) -> (r: bool)
    ensures
        r == is_ignored_extension(ext@),
{
    str_eq(ext, "pdf")
        || str_eq(ext, "png")
        || str_eq(ext, "jpg")
        || str_eq(ext, "jpeg")
        || str_eq(ext, "gif")
        || str_eq(ext, "svg")
        || str_eq(ext, "ico")
        || str_eq(ext, "bmp")
        || str_eq(ext, "tiff")
        || str_eq(ext, "tif")
        || str_eq(ext, "webp")
        || str_eq(ext, "psd")
        || str_eq(ext, "eps")
        || str_eq(ext, "raw")
        || str_eq(ext, "cr2")
        || str_eq(ext, "nef")
        || str_eq(ext, "orf")
        || str_eq(ext, "sr2")
        || str_eq(ext, "arw")
        || str_eq(ext, "dng")
        || str_eq(ext, "heic")
        || str_eq(ext, "heif")
        || str_eq(ext, "indd")
        || str_eq(ext, "zip")
        || str_eq(ext, "rar")
        || str_eq(ext, "tar")
        || str_eq(ext, "gz")
        || str_eq(ext, "7z")
        || str_eq(ext, "bz2")
        || str_eq(ext, "dmg")
        || str_eq(ext, "iso")
        || str_eq(ext, "mp3")
        || str_eq(ext, "mp4")
        || str_eq(ext, "wav")
        || str_eq(ext, "flac")
        || str_eq(ext, "aac")
        || str_eq(ext, "ogg")
        || str_eq(ext, "wma")
        || str_eq(ext, "m4a")
        || str_eq(ext, "avi")
        || str_eq(ext, "mov")
        || str_eq(ext, "wmv")
        || str_eq(ext, "mpg")
        || str_eq(ext, "mpeg")
        || str_eq(ext, "3gp")
        || str_eq(ext, "mkv")
        || str_eq(ext, "flv")
        || str_eq(ext, "swf")
        || str_eq(ext, "f4v")
        || str_eq(ext, "f4p")
        || str_eq(ext, "f4a")
        || str_eq(ext, "f4b")
        || str_eq(ext, "doc")
        || str_eq(ext, "docx")
        || str_eq(ext, "xls")
        || str_eq(ext, "xlsx")
        || str_eq(ext, "ppt")
        || str_eq(ext, "pptx")
        || str_eq(ext, "odt")
        || str_eq(ext, "ods")
        || str_eq(ext, "odp")
        || str_eq(ext, "bluej")
        || str_eq(ext, "class")
        || str_eq(ext, "jar")
        || str_eq(ext, "out")
}

} // verus!
