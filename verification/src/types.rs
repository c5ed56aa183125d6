//! The data that requests, documents and outcomes are made of.

use crate::text::{decimal, push_decimal, same_text};
use vstd::prelude::*;

verus! {

/// The largest number of bytes a converted file of one target format may have.
#[derive(Debug, Clone)]
pub struct SizeLimit {
    pub format: String,
    pub max_bytes: u64,
}

/// The limit that `limits` gives for `format`: that of the first entry with
/// this format, and no limit (`u64::MAX`) where there is none.
pub open spec fn size_limit_for(limits: Seq<SizeLimit>, format: Seq<char>) -> u64
    decreases limits.len(),
{
    if limits.len() == 0 {
        u64::MAX
    } else if limits[0].format@ == format {
        limits[0].max_bytes
    } else {
        size_limit_for(limits.drop_first(), format)
    }
}

/// Looks up the size limit for `format`.
pub fn max_size_for(limits: &Vec<SizeLimit>, format: &str) -> (limit: u64)
    ensures
        limit == size_limit_for(limits@, format@),
{
    let mut i: usize = 0;
    assert(limits@.skip(0) == limits@);
    while i < limits.len()
        invariant
            i <= limits.len(),
            size_limit_for(limits@, format@) == size_limit_for(limits@.skip(i as int), format@),
        decreases limits.len() - i,
    {
        let ghost rest = limits@.skip(i as int);
        assert(rest[0] == limits@[i as int]);
        assert(rest.drop_first() == limits@.skip(i + 1));
        if same_text(limits[i].format.as_str(), format) {
            return limits[i].max_bytes;
        }
        i += 1;
    }
    u64::MAX
}

/// A named exam profile: the formats it asks for and their size limits.
#[derive(Debug, Clone)]
pub struct ExamConfig {
    pub name: String,
    pub formats: Vec<String>,
    pub max_sizes: Vec<SizeLimit>,
}

/// A document as it enters conversion.
#[derive(Debug, Clone)]
pub struct DocumentInfo {
    pub name: String,
    pub content: Vec<u8>,
    pub mime_type: String,
    pub size: u64,
}

impl DocumentInfo {
    /// The recorded size is the length of the content.
    pub open spec fn wf(&self) -> bool {
        self.size == self.content@.len()
    }

    /// A document whose size is the length of `content`.
    pub fn new(name: String, content: Vec<u8>, mime_type: String) -> (document: Self)
        ensures
            document.wf(),
            document.name == name,
            document.content == content,
            document.mime_type == mime_type,
    {
        let size = content.len() as u64;
        DocumentInfo { name, content, mime_type, size }
    }
}

/// Why a conversion failed.
#[derive(Debug, Clone)]
pub enum ConversionError {
    /// The image codec refused the input or the output; holds its message.
    Image(String),
    /// The PDF could not be written; holds a message.
    Pdf(String),
    /// The transport encoding of a document could not be decoded.
    Base64(String),
    /// There is no conversion for this pair of formats.
    UnsupportedFormat { format: String },
    /// The converted file is larger than its limit.
    SizeLimit { actual: u64, limit: u64 },
    /// The content is not what its type announces.
    InvalidContent { message: String },
    /// No attempt of the compression ladder fitted the limit.
    CompressionFailed { message: String },
}

impl ConversionError {
    /// The text that describes the error to a reader.
    pub open spec fn message_text(self) -> Seq<char> {
        match self {
            ConversionError::Image(m) => "Image processing error: "@ + m@,
            ConversionError::Pdf(m) => "PDF processing error: "@ + m@,
            ConversionError::Base64(m) => "Base64 decode error: "@ + m@,
            ConversionError::UnsupportedFormat { format } => "Unsupported format: "@ + format@,
            ConversionError::SizeLimit { actual, limit } => "File size "@ + decimal(actual as nat)
                + " exceeds limit "@ + decimal(limit as nat),
            ConversionError::InvalidContent { message } => "Invalid file content: "@ + message@,
            ConversionError::CompressionFailed { message } => "Compression failed: "@ + message@,
        }
    }

    /// Describes the error.
    pub fn message(&self) -> (out: String)
        ensures
            out@ == self.message_text(),
    {
        match self {
            ConversionError::Image(m) => {
                let mut out = String::from_str("Image processing error: ");
                out.append(m.as_str());
                out
            },
            ConversionError::Pdf(m) => {
                let mut out = String::from_str("PDF processing error: ");
                out.append(m.as_str());
                out
            },
            ConversionError::Base64(m) => {
                let mut out = String::from_str("Base64 decode error: ");
                out.append(m.as_str());
                out
            },
            ConversionError::UnsupportedFormat { format } => {
                let mut out = String::from_str("Unsupported format: ");
                out.append(format.as_str());
                out
            },
            ConversionError::SizeLimit { actual, limit } => {
                let mut out = String::from_str("File size ");
                push_decimal(&mut out, *actual);
                out.append(" exceeds limit ");
                push_decimal(&mut out, *limit);
                out
            },
            ConversionError::InvalidContent { message } => {
                let mut out = String::from_str("Invalid file content: ");
                out.append(message.as_str());
                out
            },
            ConversionError::CompressionFailed { message } => {
                let mut out = String::from_str("Compression failed: ");
                out.append(message.as_str());
                out
            },
        }
    }
}

/// The size of a converted file against the size of its source, as the exact
/// fraction `converted / original`.
#[derive(Debug, Clone, Copy, PartialEq, Eq, Structural)]
pub struct SizeRatio {
    pub converted: u64,
    pub original: u64,
}

/// The ratio recorded for a conversion from `original` to `converted` bytes:
/// none where the source was empty.
pub open spec fn ratio_of(converted: u64, original: u64) -> Option<SizeRatio> {
    if original > 0 {
        Some(SizeRatio { converted, original })
    } else {
        None
    }
}

/// One outcome of a batch: a stored artifact, or the record of a failed pair.
/// The record of a failure has an empty `storage_handle`.
#[derive(Debug, Clone)]
pub struct ConvertedFile {
    pub original_name: String,
    pub converted_name: String,
    pub storage_handle: String,
    pub format: String,
    pub size: u64,
    pub compression_ratio: Option<SizeRatio>,
}

impl ConvertedFile {
    /// Whether this outcome records a failure.
    pub open spec fn is_error_entry(&self) -> bool {
        self.storage_handle@.len() == 0
    }

    /// Whether this outcome records a failure.
    pub fn is_error(&self) -> (r: bool)
        ensures
            r == self.is_error_entry(),
    {
        self.storage_handle.as_str().unicode_len() == 0
    }
}

/// One uploaded file: its name, its content in base64, and its MIME type.
#[derive(Debug, Clone)]
pub struct FileData {
    pub name: String,
    pub content: String,
    pub mime_type: String,
}

/// A batch: the files, the target formats, and the size limit of each format.
#[derive(Debug, Clone)]
pub struct ConvertRequest {
    pub files: Vec<FileData>,
    pub exam_type: String,
    pub target_formats: Vec<String>,
    pub max_sizes: Vec<SizeLimit>,
}

/// What a caller is told of a batch.
#[derive(Debug, Clone)]
pub struct ConvertResponse {
    pub success: bool,
    pub files: Vec<ConvertedFile>,
    pub error: Option<String>,
}

/// How images are compressed.
#[derive(Debug, Clone, Copy, PartialEq, Eq, Structural)]
pub struct CompressionSettings {
    /// JPEG quality of the first attempt, 1 to 100.
    pub quality: u8,
    /// PNG compression level, 0 to 9.
    pub png_compression: u8,
    /// How many attempts each compression ladder makes.
    pub max_iterations: u32,
}

impl CompressionSettings {
    /// Quality 85, PNG level 6, five attempts.
    pub open spec fn standard() -> CompressionSettings {
        CompressionSettings { quality: 85, png_compression: 6, max_iterations: 5 }
    }
}

impl Default for CompressionSettings {
    /// The standard settings.
    fn default() -> (settings: Self)
        ensures
            settings == CompressionSettings::standard(),
    {
        CompressionSettings { quality: 85, png_compression: 6, max_iterations: 5 }
    }
}

} // verus!
