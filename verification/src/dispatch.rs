//! Which conversion a document and a target format call for.

use crate::text::{same_text, to_upper, upper_case};
use vstd::prelude::*;

verus! {

/// A format that documents are converted to.
#[derive(Debug, Clone, Copy, PartialEq, Eq, Structural)]
pub enum Target {
    Pdf,
    Jpeg,
    Png,
    Docx,
}

/// A kind of document that can be converted.
#[derive(Debug, Clone, Copy, PartialEq, Eq, Structural)]
pub enum Source {
    Pdf,
    Jpeg,
    Png,
    Webp,
    Text,
    Docx,
    Doc,
}

/// A conversion.
#[derive(Debug, Clone, Copy, PartialEq, Eq, Structural)]
pub enum Route {
    OptimizePdf,
    ImageToPdf,
    TextToPdf,
    CompressJpeg,
    ConvertToJpeg,
    PdfToJpeg,
    CompressPng,
    ConvertToPng,
    PdfToPng,
    KeepDocument,
    TextToDocx,
}

/// The target that the name `format` stands for, whatever its case.
pub open spec fn target_of(format: Seq<char>) -> Option<Target> {
    let upper = upper_case(format);
    if upper == "PDF"@ {
        Some(Target::Pdf)
    } else if upper == "JPEG"@ || upper == "JPG"@ {
        Some(Target::Jpeg)
    } else if upper == "PNG"@ {
        Some(Target::Png)
    } else if upper == "DOCX"@ {
        Some(Target::Docx)
    } else {
        None
    }
}

/// The kind of document that the MIME type `mime` announces.
pub open spec fn source_of(mime: Seq<char>) -> Option<Source> {
    if mime == "application/pdf"@ {
        Some(Source::Pdf)
    } else if mime == "image/jpeg"@ || mime == "image/jpg"@ {
        Some(Source::Jpeg)
    } else if mime == "image/png"@ {
        Some(Source::Png)
    } else if mime == "image/webp"@ {
        Some(Source::Webp)
    } else if mime == "text/plain"@ {
        Some(Source::Text)
    } else if mime == "application/vnd.openxmlformats-officedocument.wordprocessingml.document"@ {
        Some(Source::Docx)
    } else if mime == "application/msword"@ {
        Some(Source::Doc)
    } else {
        None
    }
}

/// The conversion from `source` to `target`, where there is one.
pub open spec fn route_of(source: Option<Source>, target: Target) -> Option<Route> {
    match (target, source) {
        (Target::Pdf, Some(Source::Pdf)) => Some(Route::OptimizePdf),
        (Target::Pdf, Some(Source::Jpeg)) => Some(Route::ImageToPdf),
        (Target::Pdf, Some(Source::Png)) => Some(Route::ImageToPdf),
        (Target::Pdf, Some(Source::Webp)) => Some(Route::ImageToPdf),
        (Target::Pdf, Some(Source::Text)) => Some(Route::TextToPdf),
        (Target::Jpeg, Some(Source::Jpeg)) => Some(Route::CompressJpeg),
        (Target::Jpeg, Some(Source::Png)) => Some(Route::ConvertToJpeg),
        (Target::Jpeg, Some(Source::Webp)) => Some(Route::ConvertToJpeg),
        (Target::Jpeg, Some(Source::Pdf)) => Some(Route::PdfToJpeg),
        (Target::Png, Some(Source::Png)) => Some(Route::CompressPng),
        (Target::Png, Some(Source::Jpeg)) => Some(Route::ConvertToPng),
        (Target::Png, Some(Source::Webp)) => Some(Route::ConvertToPng),
        (Target::Png, Some(Source::Pdf)) => Some(Route::PdfToPng),
        (Target::Docx, Some(Source::Docx)) => Some(Route::KeepDocument),
        (Target::Docx, Some(Source::Doc)) => Some(Route::KeepDocument),
        (Target::Docx, Some(Source::Text)) => Some(Route::TextToDocx),
        _ => None,
    }
}

/// The name of `target` in messages.
pub open spec fn target_label(target: Target) -> Seq<char> {
    match target {
        Target::Pdf => "PDF"@,
        Target::Jpeg => "JPEG"@,
        Target::Png => "PNG"@,
        Target::Docx => "DOCX"@,
    }
}

/// Reads a target format, whatever its case.
pub fn target_kind(format: &str) -> (target: Option<Target>)
    ensures
        target == target_of(format@),
{
    let upper = to_upper(format);
    if same_text(upper.as_str(), "PDF") {
        Some(Target::Pdf)
    } else if same_text(upper.as_str(), "JPEG") || same_text(upper.as_str(), "JPG") {
        Some(Target::Jpeg)
    } else if same_text(upper.as_str(), "PNG") {
        Some(Target::Png)
    } else if same_text(upper.as_str(), "DOCX") {
        Some(Target::Docx)
    } else {
        None
    }
}

/// Reads a MIME type.
pub fn source_kind(mime: &str) -> (source: Option<Source>)
    ensures
        source == source_of(mime@),
{
    if same_text(mime, "application/pdf") {
        Some(Source::Pdf)
    } else if same_text(mime, "image/jpeg") || same_text(mime, "image/jpg") {
        Some(Source::Jpeg)
    } else if same_text(mime, "image/png") {
        Some(Source::Png)
    } else if same_text(mime, "image/webp") {
        Some(Source::Webp)
    } else if same_text(mime, "text/plain") {
        Some(Source::Text)
    } else if same_text(
        mime,
        "application/vnd.openxmlformats-officedocument.wordprocessingml.document",
    ) {
        Some(Source::Docx)
    } else if same_text(mime, "application/msword") {
        Some(Source::Doc)
    } else {
        None
    }
}

/// Looks up the conversion from `source` to `target`.
pub fn route(source: Option<Source>, target: Target) -> (route: Option<Route>)
    ensures
        route == route_of(source, target),
{
    match (target, source) {
        (Target::Pdf, Some(Source::Pdf)) => Some(Route::OptimizePdf),
        (Target::Pdf, Some(Source::Jpeg)) => Some(Route::ImageToPdf),
        (Target::Pdf, Some(Source::Png)) => Some(Route::ImageToPdf),
        (Target::Pdf, Some(Source::Webp)) => Some(Route::ImageToPdf),
        (Target::Pdf, Some(Source::Text)) => Some(Route::TextToPdf),
        (Target::Jpeg, Some(Source::Jpeg)) => Some(Route::CompressJpeg),
        (Target::Jpeg, Some(Source::Png)) => Some(Route::ConvertToJpeg),
        (Target::Jpeg, Some(Source::Webp)) => Some(Route::ConvertToJpeg),
        (Target::Jpeg, Some(Source::Pdf)) => Some(Route::PdfToJpeg),
        (Target::Png, Some(Source::Png)) => Some(Route::CompressPng),
        (Target::Png, Some(Source::Jpeg)) => Some(Route::ConvertToPng),
        (Target::Png, Some(Source::Webp)) => Some(Route::ConvertToPng),
        (Target::Png, Some(Source::Pdf)) => Some(Route::PdfToPng),
        (Target::Docx, Some(Source::Docx)) => Some(Route::KeepDocument),
        (Target::Docx, Some(Source::Doc)) => Some(Route::KeepDocument),
        (Target::Docx, Some(Source::Text)) => Some(Route::TextToDocx),
        _ => None,
    }
}

} // verus!
