//! What a conversion is to give: the file, the failure or the page that the
//! document, the target format and the size limit decide.

use crate::codec::{decoded, Raster};
use crate::converter::{PageDraft, PdfYield};
use crate::dispatch::{route_of, source_of, target_label, target_of, Route};
use crate::image_processor::{exhausted_text, unreadable, FitOutcome};
use crate::image_processor::{jpeg_compression, jpeg_conversion, png_compression, png_conversion};
use crate::layout::{docx_document, text_sheet, TextSheet};
use crate::pdf_processor::{optimizes, pdf_raster, pdf_read};
use crate::pdf_processor::{PdfContents, RasterFormat};
use crate::text::{base_name, lower_case};
use crate::types::{ratio_of, CompressionSettings, ConversionError, ConvertedFile, DocumentInfo};
use vstd::prelude::*;

verus! {

/// A document, as a model.
pub struct Paper {
    pub name: Seq<char>,
    pub content: Seq<u8>,
    pub mime_type: Seq<char>,
}

impl View for DocumentInfo {
    type V = Paper;

    open spec fn view(&self) -> Paper {
        Paper { name: self.name@, content: self.content@, mime_type: self.mime_type@ }
    }
}

/// Why a conversion gives no file.
pub enum Failure {
    /// There is no such conversion; the text says which.
    Unsupported(Seq<char>),
    /// The image codec failed.
    Codec,
    /// The image has no pixels.
    NoPixels,
    /// The compression ladder ran out; the text is the message.
    Exhausted(Seq<char>),
}

/// What a conversion is to give, as far as the document, the target and the
/// limit decide it.
pub enum Expected {
    /// Exactly this file.
    File(Seq<u8>),
    /// No file.
    Failure(Failure),
    /// The file of the document that was read, optimised, or, only where
    /// that cannot be written, the failure to write it.
    Optimized(PdfContents),
    /// The page that shows this image.
    ImagePage(Raster),
    /// The page with these lines.
    TextPage(TextSheet),
}

/// Whether `error` is the error for `failure`.
pub open spec fn tells(error: ConversionError, failure: Failure) -> bool {
    match failure {
        Failure::Unsupported(text) => error matches ConversionError::UnsupportedFormat { format }
            && format@ == text,
        Failure::Codec => error is Image,
        Failure::NoPixels => error is InvalidContent,
        Failure::Exhausted(text) => error matches ConversionError::CompressionFailed { message }
            && message@ == text,
    }
}

/// What the end of a compression ladder means for the conversion.
pub open spec fn expected_of_fit(
    outcome: FitOutcome,
    kind: Seq<char>,
    ceiling: u64,
    iterations: u32,
) -> Expected {
    match outcome {
        FitOutcome::Fitted(file) => Expected::File(file),
        FitOutcome::CodecFailed => Expected::Failure(Failure::Codec),
        FitOutcome::NoPixels => Expected::Failure(Failure::NoPixels),
        FitOutcome::Exhausted => Expected::Failure(
            Failure::Exhausted(exhausted_text(kind, ceiling, iterations)),
        ),
    }
}

/// What the conversion `route` of `content` under `ceiling` is to give, for
/// an image processor with `settings`.
pub open spec fn expected_on(
    route: Route,
    content: Seq<u8>,
    ceiling: u64,
    settings: CompressionSettings,
) -> Expected {
    let rungs = settings.max_iterations;
    match route {
        Route::OptimizePdf => match pdf_read(content) {
            Some(read) => Expected::Optimized(read),
            None => Expected::File(content),
        },
        Route::ImageToPdf => match decoded(content) {
            Some(image) => Expected::ImagePage(image),
            None => Expected::Failure(
                if unreadable(content) is NoPixels {
                    Failure::NoPixels
                } else {
                    Failure::Codec
                },
            ),
        },
        Route::TextToPdf => Expected::TextPage(text_sheet(content)),
        Route::CompressJpeg => expected_of_fit(
            jpeg_compression(content, ceiling, settings),
            "JPEG"@,
            ceiling,
            rungs,
        ),
        Route::ConvertToJpeg => expected_of_fit(
            jpeg_conversion(content, ceiling, settings),
            "JPEG"@,
            ceiling,
            rungs,
        ),
        Route::PdfToJpeg => expected_of_fit(
            pdf_raster(RasterFormat::Jpeg, ceiling),
            "JPEG"@,
            ceiling,
            CompressionSettings::standard().max_iterations,
        ),
        Route::CompressPng => expected_of_fit(
            png_compression(content, ceiling, settings),
            "PNG"@,
            ceiling,
            rungs,
        ),
        Route::ConvertToPng => expected_of_fit(
            png_conversion(content, ceiling, settings),
            "PNG"@,
            ceiling,
            rungs,
        ),
        Route::PdfToPng => expected_of_fit(
            pdf_raster(RasterFormat::Png, ceiling),
            "PNG"@,
            ceiling,
            CompressionSettings::standard().max_iterations,
        ),
        Route::KeepDocument => Expected::File(content),
        Route::TextToDocx => Expected::File(docx_document(content)),
    }
}

/// What converting `paper` to `format` under `ceiling` is to give. A target
/// that is not known, and a document that has no conversion to the target,
/// are failures.
pub open spec fn expected(
    paper: Paper,
    format: Seq<char>,
    ceiling: u64,
    settings: CompressionSettings,
) -> Expected {
    match target_of(format) {
        None => Expected::Failure(Failure::Unsupported(format)),
        Some(target) => match route_of(source_of(paper.mime_type), target) {
            None => Expected::Failure(
                Failure::Unsupported(paper.mime_type + " to "@ + target_label(target)),
            ),
            Some(route) => expected_on(route, paper.content, ceiling, settings),
        },
    }
}

/// Whether `result`, which holds a file or an error, is what `expected` asks
/// for.
pub open spec fn delivers_file(result: Result<Vec<u8>, ConversionError>, expected: Expected) -> bool {
    match expected {
        Expected::File(file) => result matches Ok(bytes) && bytes@ == file,
        Expected::Failure(failure) => result matches Err(error) && tells(error, failure),
        Expected::Optimized(read) => optimizes(result, read),
        _ => false,
    }
}

/// Whether `result` of a conversion to PDF is what `expected` asks for.
pub open spec fn delivers(
    result: Result<PdfYield, ConversionError>,
    expected: Expected,
    ceiling: Option<u64>,
) -> bool {
    match expected {
        Expected::ImagePage(image) => {
            &&& result matches Ok(PdfYield::Page(PageDraft::Image(draft)))
            &&& draft.wf()
            &&& draft.source@ == image
            &&& draft.target_size == ceiling
            &&& draft.attempt == 0
        },
        Expected::TextPage(lines) => result matches Ok(PdfYield::Page(PageDraft::Text(page)))
            && page@ == lines,
        Expected::File(file) => result matches Ok(PdfYield::File(bytes)) && bytes@ == file,
        Expected::Optimized(read) => match result {
            Ok(PdfYield::File(bytes)) => optimizes(Ok(bytes), read),
            Ok(PdfYield::Page(_)) => false,
            Err(error) => optimizes(Err(error), read),
        },
        Expected::Failure(failure) => result matches Err(error) && tells(error, failure),
    }
}

/// The name of the converted file: the name of the document up to its first
/// dot, and the target format in lower case as its extension.
pub open spec fn converted_name(name: Seq<char>, format: Seq<char>) -> Seq<char> {
    base_name(name) + "."@ + lower_case(format)
}

/// The name under which a failed conversion is recorded.
pub open spec fn error_name(name: Seq<char>, format: Seq<char>) -> Seq<char> {
    "ERROR_"@ + converted_name(name, format)
}

/// Whether `file` records that converting the document `name` to `format`
/// failed.
pub open spec fn is_error_record(file: ConvertedFile, name: Seq<char>, format: Seq<char>) -> bool {
    &&& file.original_name@ == name
    &&& file.converted_name@ == error_name(name, format)
    &&& file.storage_handle@ == Seq::<char>::empty()
    &&& file.format@ == format
    &&& file.size == 0
    &&& file.compression_ratio is None
}

/// Whether `file` describes `size` bytes converted from the document `name`
/// of `original_size` bytes to `format`.
pub open spec fn is_artifact(
    file: ConvertedFile,
    name: Seq<char>,
    original_size: u64,
    format: Seq<char>,
    size: nat,
) -> bool {
    &&& file.original_name@ == name
    &&& file.converted_name@ == converted_name(name, format)
    &&& file.storage_handle@.len() > 0
    &&& file.format@ == format
    &&& file.size == size
    &&& file.compression_ratio == ratio_of(file.size, original_size)
}

} // verus!
