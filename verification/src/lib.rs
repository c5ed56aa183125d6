//! Conversion of uploaded documents (images, PDFs, plain text) to PDF, JPEG,
//! PNG or DOCX, each result held against a size limit.

pub mod batch;
pub mod codec;
pub mod converter;
pub mod dispatch;
pub mod html_escape;
pub mod image_processor;
pub mod layout;
pub mod outcome;
pub mod pdf_processor;
pub mod store;
pub mod text;
pub mod types;

pub use converter::DocumentConverter;
pub use types::{
    CompressionSettings, ConversionError, ConvertRequest, ConvertResponse, ConvertedFile,
    DocumentInfo, ExamConfig, FileData, SizeLimit, SizeRatio,
};
