use vstd::prelude::*;
use vstd::string::StringExecFns;
use crate::text::{decimal_of, lowercased, push_decimal, push_replaced, replaced, text_eq, to_lowercase};

verus! {

/// The kinds of context file that are told apart.
#[derive(Debug, Clone, Copy, PartialEq, Eq, Structural)]
pub enum FileType {
    Text,
    Csv,
    Json,
    Markdown,
}

/// The kind of file that a lower-case extension stands for.
pub open spec fn file_type_of(lower: Seq<char>) -> FileType {
    if lower == "csv"@ || lower == "tsv"@ {
        FileType::Csv
    } else if lower == "json"@ {
        FileType::Json
    } else if lower == "md"@ || lower == "markdown"@ {
        FileType::Markdown
    } else {
        FileType::Text
    }
}

/// The name under which a kind of file is shown.
pub open spec fn kind_name(t: FileType) -> Seq<char> {
    match t {
        FileType::Text => "text"@,
        FileType::Csv => "csv"@,
        FileType::Json => "json"@,
        FileType::Markdown => "markdown"@,
    }
}

impl FileType {
    /// The kind of file that a lower-case extension stands for: `csv` and
    /// `tsv` are tables, `json` is JSON, `md` and `markdown` are Markdown,
    /// anything else is plain text.
    pub fn from_lowercase(lower: &str) -> (r: Self)
        ensures
            r == file_type_of(lower@),
    {
        if text_eq(lower, "csv") || text_eq(lower, "tsv") {
            FileType::Csv
        } else if text_eq(lower, "json") {
            FileType::Json
        } else if text_eq(lower, "md") || text_eq(lower, "markdown") {
            FileType::Markdown
        } else {
            FileType::Text
        }
    }

    /// The kind of file that an extension stands for, whatever its case.
    pub fn from_extension(ext: &str) -> (r: Self)
        ensures
            r == file_type_of(lowercased(ext@)),
    {
        let lower = to_lowercase(ext);
        FileType::from_lowercase(lower.as_str())
    }

    /// The name under which this kind is shown.
    pub fn display_name(self) -> (r: &'static str)
        ensures
            r@ == kind_name(self),
    {
        match self {
            FileType::Text => "text",
            FileType::Csv => "csv",
            FileType::Json => "json",
            FileType::Markdown => "markdown",
        }
    }
}

/// What is known of one context file.
#[derive(Debug, Clone)]
pub struct FileInfo {
    pub filename: String,
    pub file_type: FileType,
    pub size_bytes: u64,
    pub preview: String,
}

/// Mathematical value of a [`FileInfo`].
pub struct FileInfoView {
    pub filename: Seq<char>,
    pub file_type: FileType,
    pub size_bytes: nat,
    pub preview: Seq<char>,
}

impl View for FileInfo {
    type V = FileInfoView;

    open spec fn view(&self) -> FileInfoView {
        FileInfoView {
            filename: self.filename@,
            file_type: self.file_type,
            size_bytes: self.size_bytes as nat,
            preview: self.preview@,
        }
    }
}

impl DeepView for FileInfo {
    type V = FileInfoView;

    open spec fn deep_view(&self) -> FileInfoView {
        self@
    }
}

/// One file as a line of a listing: `name (kind, N bytes): preview...`,
/// with the line feeds of the preview turned into spaces.
pub open spec fn info_shown(f: FileInfoView) -> Seq<char> {
    f.filename + " ("@ + kind_name(f.file_type) + ", "@ + decimal_of(f.size_bytes) + " bytes): "@
        + replaced(f.preview, '\n', ' ') + "..."@
}

impl FileInfo {
    /// Formats the file for a listing.
    pub fn display(&self) -> (s: String)
        ensures
            s@ == info_shown(self@),
    {
        let mut out = self.filename.clone();
        out.append(" (");
        out.append(self.file_type.display_name());
        out.append(", ");
        push_decimal(&mut out, self.size_bytes);
        out.append(" bytes): ");
        push_replaced(&mut out, self.preview.as_str(), '\n', ' ');
        out.append("...");
        out
    }

    /// A copy of the record.
    pub fn copy(&self) -> (r: FileInfo)
        ensures
            r@ == self@,
    {
        FileInfo {
            filename: self.filename.clone(),
            file_type: self.file_type,
            size_bytes: self.size_bytes,
            preview: self.preview.clone(),
        }
    }
}

} // verus!
