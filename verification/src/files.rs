//! Which files are taken for translation, and what the translated file is
//! called.

use vstd::prelude::*;
use crate::text::{lowercase_of, same_text, to_lowercase};
use crate::text_map::text_views;

verus! {

/// The kinds of files that are translated.
#[allow(clippy::upper_case_acronyms)]
#[derive(Debug, Clone, Copy, PartialEq, Eq, Structural)]
pub enum FileType {
    PDF,
    Word,
    Excel,
    PowerPoint,
    HTML,
    CSV,
    Text,
}

/// What is known of a file.
#[derive(Debug, Clone)]
pub struct FileMetadata {
    pub file_name: String,
    pub file_size: u64,
    pub creation_date: String,
    pub last_modified: String,
    pub author: Option<String>,
    pub title: Option<String>,
}

/// A file whose text was read.
#[derive(Debug, Clone)]
pub struct ProcessedFile {
    pub content: String,
    pub file_type: FileType,
    pub metadata: FileMetadata,
}

/// Why a file is not taken.
#[derive(Debug, Clone, Copy, PartialEq, Eq, Structural)]
pub enum FileError {
    /// The extension names no kind of file that is translated.
    UnsupportedType,
    /// The file is larger than the limit.
    TooLarge,
}

/// The largest file that is taken: ten mebibytes.
pub const MAX_FILE_SIZE: u64 = 10485760;

/// The kind of file that a lower-case extension names.
pub open spec fn type_named(ext: Seq<char>) -> Option<FileType> {
    if ext == "pdf"@ {
        Some(FileType::PDF)
    } else if ext == "doc"@ || ext == "docx"@ {
        Some(FileType::Word)
    } else if ext == "xls"@ || ext == "xlsx"@ {
        Some(FileType::Excel)
    } else if ext == "ppt"@ || ext == "pptx"@ {
        Some(FileType::PowerPoint)
    } else if ext == "html"@ || ext == "htm"@ {
        Some(FileType::HTML)
    } else if ext == "csv"@ {
        Some(FileType::CSV)
    } else if ext == "txt"@ {
        Some(FileType::Text)
    } else {
        None
    }
}

/// The extension under which a translated file of a kind is saved.
pub open spec fn saved_extension(file_type: FileType) -> Seq<char> {
    match file_type {
        FileType::PDF => "pdf"@,
        FileType::Word => "docx"@,
        FileType::Excel => "xlsx"@,
        FileType::PowerPoint => "pptx"@,
        FileType::HTML => "html"@,
        FileType::CSV => "csv"@,
        FileType::Text => "txt"@,
    }
}

/// The name of a translated file: the stem of the original's name, the
/// word `translated`, a time stamp, and the extension of the kind.
pub open spec fn translated_name(stem: Seq<char>, stamp: Seq<char>, file_type: FileType) -> Seq<char> {
    stem + "_translated_"@ + stamp + "."@ + saved_extension(file_type)
}

/// The extensions of the files that are translated.
pub open spec fn supported() -> Seq<Seq<char>> {
    seq![
        "pdf"@,
        "doc"@,
        "docx"@,
        "xls"@,
        "xlsx"@,
        "ppt"@,
        "pptx"@,
        "html"@,
        "htm"@,
        "csv"@,
        "txt"@,
    ]
}

/// An extension is supported exactly where it names a kind of file.
pub proof fn lemma_supported_are_named(ext: Seq<char>)
    ensures
        supported().contains(ext) <==> type_named(ext) is Some,
{
    let list = supported();
    if type_named(ext) is Some {
        if ext == "pdf"@ {
            assert(list[0] == ext);
        } else if ext == "doc"@ {
            assert(list[1] == ext);
        } else if ext == "docx"@ {
            assert(list[2] == ext);
        } else if ext == "xls"@ {
            assert(list[3] == ext);
        } else if ext == "xlsx"@ {
            assert(list[4] == ext);
        } else if ext == "ppt"@ {
            assert(list[5] == ext);
        } else if ext == "pptx"@ {
            assert(list[6] == ext);
        } else if ext == "html"@ {
            assert(list[7] == ext);
        } else if ext == "htm"@ {
            assert(list[8] == ext);
        } else if ext == "csv"@ {
            assert(list[9] == ext);
        } else {
            assert(list[10] == ext);
        }
    }
}

/// Decides which files are read.
pub struct FileProcessor {
    max_file_size: u64,
    supported_extensions: Vec<String>,
}

impl FileProcessor {
    /// The size limit.
    pub closed spec fn limit(&self) -> u64 {
        self.max_file_size
    }

    /// The extensions that the processor takes.
    pub closed spec fn extensions(&self) -> Seq<Seq<char>> {
        text_views(self.supported_extensions@)
    }

    /// Decides whether the processor takes files with this extension,
    /// letter case aside.
    pub fn supports(&self, extension: &str) -> (r: bool)
        ensures
            r == self.extensions().contains(lowercase_of(extension@)),
    {
        let lower: String = to_lowercase(extension);
        let mut i: usize = 0;
        while i < self.supported_extensions.len()
            invariant
                0 <= i <= self.supported_extensions@.len(),
                lower@ == lowercase_of(extension@),
                forall|t: int| 0 <= t < i ==> #[trigger] self.extensions()[t] != lower@,
            decreases self.supported_extensions@.len() - i,
        {
            if same_text(self.supported_extensions[i].as_str(), lower.as_str()) {
                assert(self.extensions()[i as int] == lower@);
                return true;
            }
            i += 1;
        }
        false
    }

    /// A processor with a limit of ten mebibytes.
    pub fn new() -> (p: Self)
        ensures
            p.limit() == MAX_FILE_SIZE,
            p.extensions() == supported(),
    {
        let mut supported_extensions: Vec<String> = Vec::new();
        supported_extensions.push(String::from_str("pdf"));
        supported_extensions.push(String::from_str("doc"));
        supported_extensions.push(String::from_str("docx"));
        supported_extensions.push(String::from_str("xls"));
        supported_extensions.push(String::from_str("xlsx"));
        supported_extensions.push(String::from_str("ppt"));
        supported_extensions.push(String::from_str("pptx"));
        supported_extensions.push(String::from_str("html"));
        supported_extensions.push(String::from_str("htm"));
        supported_extensions.push(String::from_str("csv"));
        supported_extensions.push(String::from_str("txt"));
        let p = FileProcessor { max_file_size: MAX_FILE_SIZE, supported_extensions };
        assert(p.extensions() =~= supported());
        p
    }

    /// Decides whether a file with the given extension and size is taken,
    /// and as what kind. The extension counts in lower case; it is looked
    /// at before the size.
    pub fn accept(&self, extension: &str, file_size: u64) -> (r: Result<FileType, FileError>)
        requires
            self.extensions() == supported(),
        ensures
            match r {
                Ok(t) => type_named(lowercase_of(extension@)) == Some(t) && file_size <= self.limit(),
                Err(FileError::UnsupportedType) => type_named(lowercase_of(extension@)) is None,
                Err(FileError::TooLarge) => type_named(lowercase_of(extension@)) is Some && file_size
                    > self.limit(),
            },
    {
        proof {
            lemma_supported_are_named(lowercase_of(extension@));
        }
        if !self.supports(extension) {
            return Err(FileError::UnsupportedType);
        }
        let lower: String = to_lowercase(extension);
        let file_type: FileType = match classify(lower.as_str()) {
            Some(t) => t,
            None => {
                return Err(FileError::UnsupportedType);
            },
        };
        if file_size > self.max_file_size {
            return Err(FileError::TooLarge);
        }
        Ok(file_type)
    }
}

/// The kind of file that a lower-case extension names.
pub fn classify(ext: &str) -> (r: Option<FileType>)
    ensures
        r == type_named(ext@),
{
    if same_text(ext, "pdf") {
        Some(FileType::PDF)
    } else if same_text(ext, "doc") || same_text(ext, "docx") {
        Some(FileType::Word)
    } else if same_text(ext, "xls") || same_text(ext, "xlsx") {
        Some(FileType::Excel)
    } else if same_text(ext, "ppt") || same_text(ext, "pptx") {
        Some(FileType::PowerPoint)
    } else if same_text(ext, "html") || same_text(ext, "htm") {
        Some(FileType::HTML)
    } else if same_text(ext, "csv") {
        Some(FileType::CSV)
    } else if same_text(ext, "txt") {
        Some(FileType::Text)
    } else {
        None
    }
}

/// Names the translated file.
pub fn default_file_name(stem: &str, stamp: &str, file_type: FileType) -> (name: String)
    ensures
        name@ == translated_name(stem@, stamp@, file_type),
{
    let extension: &str = match file_type {
        FileType::PDF => "pdf",
        FileType::Word => "docx",
        FileType::Excel => "xlsx",
        FileType::PowerPoint => "pptx",
        FileType::HTML => "html",
        FileType::CSV => "csv",
        FileType::Text => "txt",
    };
    String::from_str(stem).concat("_translated_").concat(stamp).concat(".").concat(extension)
}

} // verus!
