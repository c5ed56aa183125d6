//! The conversion engine: it converts a batch document by document and
//! format by format, holds every result against its size limit, and keeps
//! the files until they are cleared.
//!
//! The engine draws no PDF page. Where a page is needed, it hands out the
//! plan of the page and takes back the assembled file.

use crate::batch::{all_decode, answers, answers_so_far, completes, concludes, grows, keeps};
use crate::batch::{lemma_answers_grow, lemma_answers_more, lemma_answers_next};
use crate::batch::{lemma_answers_push, lemma_concludes_settles, lemma_concludes_takes_in};
use crate::batch::{lemma_takes_in_push, live_papers, takes_in};
use crate::dispatch::{route, route_of, source_kind, source_of, target_kind, Route, Target};
use crate::html_escape::encode_text;
use crate::image_processor::ImageProcessor;
use crate::layout::{docx_document, text_layout, text_sheet, TextLine, TextPage};
use crate::layout::{FONT_SIZE, LETTER_HEIGHT, LETTER_WIDTH};
use crate::layout::{LINE_PITCH, MAX_DOCX_CHARS, MAX_LINES, MAX_LINE_CHARS, TEXT_LEFT, TEXT_TOP};
use crate::outcome::{converted_name, delivers, delivers_file, expected_on, is_error_record};
use crate::outcome::{tells, Failure};
use crate::pdf_processor::{copy_of, DraftStep, PdfDraft, PdfProcessor, RasterFormat};
use crate::store::{distinct, holds, lookup, total_bytes, unused_id};
use crate::store::{ArtifactStore, Entry};
use crate::text::{chars_of, clip_lines, find_char, from_utf8_lossy, slice_chars, string_of};
use crate::text::{base_name, to_lower, truncated};
use crate::types::{max_size_for, CompressionSettings, ConversionError, ConvertRequest};
use crate::types::{ConvertedFile, DocumentInfo, FileData, SizeRatio};
use vstd::prelude::*;

verus! {

#[verifier::external_type_specification]
#[verifier::external_body]
pub struct ExDecodeError(base64::DecodeError);

/// What the standard base64 alphabet with padding decodes `text` to, or
/// nothing where `text` is not such an encoding.
pub uninterp spec fn base64_decoded(text: Seq<char>) -> Option<Seq<u8>>;

/// Calls `Engine::decode` of `base64::engine::general_purpose::STANDARD`.
#[verifier::external_body]
fn decode_base64(text: &str) -> (r: Result<Vec<u8>, base64::DecodeError>)
    ensures
        match r {
            Ok(bytes) => base64_decoded(text@) == Some(bytes@),
            Err(_) => base64_decoded(text@) is None,
        },
{
    base64::Engine::decode(&base64::engine::general_purpose::STANDARD, text)
}

/// What `base64::DecodeError` displays as.
#[verifier::external_body]
fn decode_error_text(error: &base64::DecodeError) -> String {
    error.to_string()
}

/// Calls `uuid::Uuid::new_v4` and writes the random identifier in its usual
/// form: 32 hexadecimal digits in five groups, 36 characters in all.
#[verifier::external_body]
fn new_v4() -> (id: String)
    ensures
        id@.len() == 36,
{
    uuid::Uuid::new_v4().to_string()
}

/// The page to assemble for a conversion that waits for it.
#[derive(Debug, Clone)]
pub enum PageDraft {
    Text(TextPage),
    Image(PdfDraft),
}

/// What a conversion to PDF gives: the file, or the page to assemble.
#[derive(Debug, Clone)]
pub enum PdfYield {
    File(Vec<u8>),
    Page(PageDraft),
}

/// The part of `name` before its first dot.
fn base_of(name: &str) -> (out: String)
    ensures
        out@ == base_name(name@),
{
    let chars = chars_of(name);
    let dot = find_char(&chars, 0, '.');
    assert(chars@.skip(0) == chars@);
    let base = slice_chars(&chars, 0, dot);
    string_of(&base)
}

/// The name of the file converted from `name` to `format`.
fn name_for(name: &str, format: &str) -> (out: String)
    ensures
        out@ == converted_name(name@, format@),
{
    let mut out = base_of(name);
    out.append(".");
    out.append(to_lower(format).as_str());
    out
}

/// The record of a failed conversion of the document `name` to `format`.
pub fn error_entry(name: &str, format: &str) -> (file: ConvertedFile)
    ensures
        is_error_record(file, name@, format@),
{
    let mut converted = String::from_str("ERROR_");
    converted.append(name_for(name, format).as_str());
    ConvertedFile {
        original_name: String::from_str(name),
        converted_name: converted,
        storage_handle: String::new(),
        format: String::from_str(format),
        size: 0,
        compression_ratio: None,
    }
}

/// The error for a document of type `mime` that has no conversion to `label`.
fn unsupported(mime: &str, label: &str) -> (error: ConversionError)
    ensures
        error matches ConversionError::UnsupportedFormat { format } && format@ == mime@ + " to "@
            + label@,
{
    let mut format = String::from_str(mime);
    format.append(" to ");
    format.append(label);
    ConversionError::UnsupportedFormat { format }
}

/// A conversion that was started: it is done, or it waits for a page.
#[derive(Debug, Clone)]
pub enum Conversion {
    /// The outcome: a stored file, or the record of a failure.
    Finished(ConvertedFile),
    /// The page has to be assembled first.
    AwaitingPage(PendingPage),
}

/// A conversion that waits for its page to be assembled.
#[derive(Debug, Clone)]
pub struct PendingPage {
    pub original_name: String,
    pub original_size: u64,
    pub format: String,
    pub max_size: u64,
    pub draft: PageDraft,
}

impl PendingPage {
    /// The page is the one to assemble, and is held against the limit.
    pub open spec fn wf(&self) -> bool {
        match self.draft {
            PageDraft::Text(_) => true,
            PageDraft::Image(draft) => draft.wf() && draft.target_size == Some(self.max_size),
        }
    }
}

/// Converts documents, and keeps what it converted until it is cleared.
pub struct DocumentConverter {
    pub temp_storage: ArtifactStore,
    image_processor: ImageProcessor,
    pdf_processor: PdfProcessor,
}

impl DocumentConverter {
    /// The files in the store.
    pub closed spec fn store(&self) -> Seq<Entry> {
        self.temp_storage@
    }

    /// The settings of the image processor.
    pub closed spec fn settings(&self) -> CompressionSettings {
        self.image_processor.settings()
    }

    /// A converter with an empty store and the standard settings.
    pub fn new() -> (converter: Self)
        ensures
            converter.store() == Seq::<Entry>::empty(),
            converter.settings() == CompressionSettings::standard(),
    {
        DocumentConverter {
            temp_storage: ArtifactStore::new(),
            image_processor: ImageProcessor::new(),
            pdf_processor: PdfProcessor::new(),
        }
    }

    /// Lays out the text file `text_content` as a page: US Letter, type of
    /// twelve points, the first lines of the text one below the other.
    pub fn create_text_pdf(&self, text_content: &[u8]) -> (page: TextPage)
        ensures
            page@ == text_sheet(text_content@),
    {
        let text = from_utf8_lossy(text_content);
        let chars = chars_of(text.as_str());
        let pieces = clip_lines(&chars, MAX_LINES, MAX_LINE_CHARS);
        let mut lines: Vec<TextLine> = Vec::new();
        let mut k: usize = 0;
        let ghost want = text_layout(text_content@);
        while k < pieces.len()
            invariant
                k <= pieces@.len(),
                want == text_layout(text_content@),
                pieces@.len() == want.len(),
                pieces@.len() <= MAX_LINES,
                lines@.len() == k,
                forall|j: int| 0 <= j < pieces@.len() ==> (#[trigger] pieces@[j])@ == want[j].text,
                forall|j: int| 0 <= j < k ==> (#[trigger] lines@[j])@ == want[j],
            decreases pieces.len() - k,
        {
            let y: u32 = TEXT_TOP - LINE_PITCH * (k as u32);
            let line = TextLine { x: TEXT_LEFT, y, text: string_of(&pieces[k]) };
            assert(line@ == want[k as int]);
            lines.push(line);
            k += 1;
        }
        let page = TextPage {
            width: LETTER_WIDTH,
            height: LETTER_HEIGHT,
            font_size: FONT_SIZE,
            lines,
        };
        assert(page@.lines =~= want);
        page
    }

    /// Writes the text file `text_content` as a DOCX document: one paragraph
    /// with the first characters of the text, escaped.
    pub fn create_docx_from_text(&self, text_content: &[u8]) -> (bytes: Vec<u8>)
        ensures
            bytes@ == docx_document(text_content@),
    {
        let text = from_utf8_lossy(text_content);
        let chars = chars_of(text.as_str());
        let kept: usize = if chars.len() <= MAX_DOCX_CHARS {
            chars.len()
        } else {
            MAX_DOCX_CHARS
        };
        let first = slice_chars(&chars, 0, kept);
        assert(first@ == truncated(text@, MAX_DOCX_CHARS as nat));
        let mut xml = String::from_str(
            "<?xml version=\"1.0\" encoding=\"UTF-8\" standalone=\"yes\"?>\n<w:document xmlns:w=\"http://schemas.openxmlformats.org/wordprocessingml/2006/main\">\n    <w:body>\n        <w:p>\n            <w:r>\n                <w:t>",
        );
        xml.append(encode_text(string_of(&first).as_str()).as_str());
        xml.append("</w:t>\n            </w:r>\n        </w:p>\n    </w:body>\n</w:document>");
        copy_of(xml.as_str().as_bytes())
    }

    /// Converts `document` to PDF.
    pub fn convert_to_pdf(&self, document: &DocumentInfo, max_size: Option<u64>) -> (r: Result<
        PdfYield,
        ConversionError,
    >)
        ensures
            match route_of(source_of(document.mime_type@), Target::Pdf) {
                Some(route) => delivers(
                    r,
                    expected_on(route, document.content@, 0, self.settings()),
                    max_size,
                ),
                None => r matches Err(error) && tells(
                    error,
                    Failure::Unsupported(document.mime_type@ + " to "@ + "PDF"@),
                ),
            },
    {
        match route(source_kind(document.mime_type.as_str()), Target::Pdf) {
            Some(Route::OptimizePdf) => {
                let bytes = self.pdf_processor.optimize_pdf(document.content.as_slice())?;
                Ok(PdfYield::File(bytes))
            },
            Some(Route::ImageToPdf) => {
                let draft = self.pdf_processor.create_pdf_from_image(
                    document.content.as_slice(),
                    max_size,
                )?;
                Ok(PdfYield::Page(PageDraft::Image(draft)))
            },
            Some(Route::TextToPdf) => Ok(
                PdfYield::Page(PageDraft::Text(self.create_text_pdf(document.content.as_slice()))),
            ),
            _ => Err(unsupported(document.mime_type.as_str(), "PDF")),
        }
    }

    /// Converts `document` to JPEG.
    pub fn convert_to_jpeg(&self, document: &DocumentInfo, max_size: u64) -> (r: Result<
        Vec<u8>,
        ConversionError,
    >)
        ensures
            match route_of(source_of(document.mime_type@), Target::Jpeg) {
                Some(route) => delivers_file(
                    r,
                    expected_on(route, document.content@, max_size, self.settings()),
                ),
                None => r matches Err(error) && tells(
                    error,
                    Failure::Unsupported(document.mime_type@ + " to "@ + "JPEG"@),
                ),
            },
    {
        let content = document.content.as_slice();
        match route(source_kind(document.mime_type.as_str()), Target::Jpeg) {
            Some(Route::CompressJpeg) => self.image_processor.compress_jpeg_to_size(
                content,
                max_size,
            ),
            Some(Route::ConvertToJpeg) => self.image_processor.convert_to_jpeg(content, max_size),
            Some(Route::PdfToJpeg) => self.pdf_processor.pdf_to_image(
                content,
                RasterFormat::Jpeg,
                max_size,
            ),
            _ => Err(unsupported(document.mime_type.as_str(), "JPEG")),
        }
    }

    /// Converts `document` to PNG.
    pub fn convert_to_png(&self, document: &DocumentInfo, max_size: u64) -> (r: Result<
        Vec<u8>,
        ConversionError,
    >)
        ensures
            match route_of(source_of(document.mime_type@), Target::Png) {
                Some(route) => delivers_file(
                    r,
                    expected_on(route, document.content@, max_size, self.settings()),
                ),
                None => r matches Err(error) && tells(
                    error,
                    Failure::Unsupported(document.mime_type@ + " to "@ + "PNG"@),
                ),
            },
    {
        let content = document.content.as_slice();
        match route(source_kind(document.mime_type.as_str()), Target::Png) {
            Some(Route::CompressPng) => self.image_processor.compress_png_to_size(
                content,
                max_size,
            ),
            Some(Route::ConvertToPng) => self.image_processor.convert_to_png(content, max_size),
            Some(Route::PdfToPng) => self.pdf_processor.pdf_to_image(
                content,
                RasterFormat::Png,
                max_size,
            ),
            _ => Err(unsupported(document.mime_type.as_str(), "PNG")),
        }
    }

    /// Converts `document` to DOCX. A document that is DOCX or DOC already
    /// is handed through as it is.
    pub fn convert_to_docx(&self, document: &DocumentInfo) -> (r: Result<Vec<u8>, ConversionError>)
        ensures
            match route_of(source_of(document.mime_type@), Target::Docx) {
                Some(route) => delivers_file(
                    r,
                    expected_on(route, document.content@, 0, self.settings()),
                ),
                None => r matches Err(error) && tells(
                    error,
                    Failure::Unsupported(document.mime_type@ + " to "@ + "DOCX"@),
                ),
            },
    {
        match route(source_kind(document.mime_type.as_str()), Target::Docx) {
            Some(Route::KeepDocument) => Ok(copy_of(document.content.as_slice())),
            Some(Route::TextToDocx) => Ok(
                self.create_docx_from_text(document.content.as_slice()),
            ),
            _ => Err(unsupported(document.mime_type.as_str(), "DOCX")),
        }
    }
    /// Checks the converted file `content` against `max_size`, stores it,
    /// and describes it. The file is stored under `file_id`, or, where that
    /// is empty or in use, under the unused identifier that the store makes
    /// of it.
    ///
    /// Fails with `SizeLimit` where, and only where, the file is over the
    /// limit.
    pub fn store_converted_as(
        &mut self,
        file_id: String,
        original_name: &str,
        original_size: u64,
        target_format: &str,
        max_size: u64,
        content: Vec<u8>,
    ) -> (r: Result<ConvertedFile, ConversionError>)
        ensures
            final(self).settings() == old(self).settings(),
            keeps(
                old(self).store(),
                final(self).store(),
                r,
                original_name@,
                original_size,
                target_format@,
                max_size,
                content@,
            ),
            r is Ok <==> content@.len() <= max_size,
            r matches Ok(file) ==> file.storage_handle@ == unused_id(
                old(self).store(),
                file_id@,
            ),
    {
        let size = content.len() as u64;
        if size > max_size {
            return Err(ConversionError::SizeLimit { actual: size, limit: max_size });
        }
        let compression_ratio = if original_size > 0 {
            Some(SizeRatio { converted: size, original: original_size })
        } else {
            None
        };
        let converted_name = name_for(original_name, target_format);
        let storage_handle = self.temp_storage.unused_id(file_id);
        let _ = self.temp_storage.insert(storage_handle.clone(), content);
        Ok(
            ConvertedFile {
                original_name: String::from_str(original_name),
                converted_name,
                storage_handle,
                format: String::from_str(target_format),
                size,
                compression_ratio,
            },
        )
    }

    /// Checks the converted file `content` against `max_size`, stores it
    /// under a new identifier, and describes it.
    ///
    /// Fails with `SizeLimit` where, and only where, the file is over the
    /// limit.
    pub fn store_converted(
        &mut self,
        original_name: &str,
        original_size: u64,
        target_format: &str,
        max_size: u64,
        content: Vec<u8>,
    ) -> (r: Result<ConvertedFile, ConversionError>)
        ensures
            final(self).settings() == old(self).settings(),
            keeps(
                old(self).store(),
                final(self).store(),
                r,
                original_name@,
                original_size,
                target_format@,
                max_size,
                content@,
            ),
            r is Ok <==> content@.len() <= max_size,
    {
        self.store_converted_as(
            new_v4(),
            original_name,
            original_size,
            target_format,
            max_size,
            content,
        )
    }

    /// Converts `document` to `target_format`, to a file of at most
    /// `max_size` bytes. A file is stored and described. A PDF page is not
    /// drawn here: its plan is handed out, to be followed by
    /// `complete_page`.
    pub fn convert_to_format(
        &mut self,
        document: &DocumentInfo,
        target_format: &str,
        max_size: u64,
    ) -> (r: Result<Conversion, ConversionError>)
        ensures
            final(self).settings() == old(self).settings(),
            concludes(
                old(self).store(),
                final(self).store(),
                document@,
                document.size,
                target_format@,
                max_size,
                old(self).settings(),
                r,
            ),
    {
        let target = match target_kind(target_format) {
            Some(target) => target,
            None => {
                return Err(
                    ConversionError::UnsupportedFormat { format: String::from_str(target_format) },
                );
            },
        };
        let content: Vec<u8> = match target {
            Target::Pdf => match self.convert_to_pdf(document, Some(max_size))? {
                PdfYield::File(bytes) => bytes,
                PdfYield::Page(draft) => {
                    return Ok(
                        Conversion::AwaitingPage(
                            PendingPage {
                                original_name: document.name.clone(),
                                original_size: document.size,
                                format: String::from_str(target_format),
                                max_size,
                                draft,
                            },
                        ),
                    );
                },
            },
            Target::Jpeg => self.convert_to_jpeg(document, max_size)?,
            Target::Png => self.convert_to_png(document, max_size)?,
            Target::Docx => self.convert_to_docx(document)?,
        };
        let file = self.store_converted(
            document.name.as_str(),
            document.size,
            target_format,
            max_size,
            content,
        )?;
        Ok(Conversion::Finished(file))
    }

    /// Converts every file of `request` to every target format, file by
    /// file and format by format, and answers with one entry for each pair.
    /// An entry is the outcome of the conversion, or, for a PDF page, the
    /// plan of the page, to be followed by `complete_page`.
    ///
    /// A file that decodes to nothing is passed over. A file that cannot be
    /// decoded fails the whole batch with `Base64`; what was stored until
    /// then stays stored.
    pub fn convert_documents(&mut self, request: &ConvertRequest) -> (r: Result<
        Vec<Conversion>,
        ConversionError,
    >)
        ensures
            final(self).settings() == old(self).settings(),
            distinct(final(self).store()),
            grows(old(self).store(), final(self).store()),
            r is Ok <==> all_decode(request.files@),
            r matches Err(error) ==> error is Base64,
            r matches Ok(entries) ==> answers(
                entries@,
                final(self).store(),
                *request,
                old(self).settings(),
            ) && takes_in(old(self).store(), final(self).store(), entries@),
    {
        let mut entries: Vec<Conversion> = Vec::new();
        let count = request.target_formats.len();
        let ghost settings = self.settings();
        let ghost start = self.store();
        let mut i: usize = 0;
        proof {
            assert(start.take(start.len() as int) =~= start);
            assert(request.files@.take(0) =~= Seq::<FileData>::empty());
            assert(0 * count == 0) by (nonlinear_arith);
            assert(crate::batch::ids_of(start.skip(start.len() as int)) =~= Seq::<Seq<char>>::empty());
            assert(takes_in(start, start, entries@));
        }
        while i < request.files.len()
            invariant
                i <= request.files@.len(),
                count == request.target_formats@.len(),
                settings == old(self).settings(),
                start == old(self).store(),
                self.settings() == settings,
                takes_in(start, self.store(), entries@),
                forall|k: int|
                    0 <= k < i ==> base64_decoded((#[trigger] request.files@[k]).content@) is Some,
                answers_so_far(
                    entries@,
                    self.store(),
                    live_papers(request.files@.take(i as int)),
                    *request,
                    settings,
                    live_papers(request.files@.take(i as int)).len() as int,
                    0,
                ),
            decreases request.files.len() - i,
        {
            let file = &request.files[i];
            let ghost papers = live_papers(request.files@.take(i as int));
            proof {
                let next = request.files@.take(i + 1);
                assert(next.drop_last() =~= request.files@.take(i as int));
                assert(next.last() == request.files@[i as int]);
            }
            let content = match decode_base64(file.content.as_str()) {
                Ok(content) => content,
                Err(e) => {
                    proof {
                        use_type_invariant(&self.temp_storage);
                    }
                    return Err(ConversionError::Base64(decode_error_text(&e)));
                },
            };
            if content.len() > 0 {
                let document = DocumentInfo::new(
                    file.name.clone(),
                    content,
                    file.mime_type.clone(),
                );
                let ghost paper = document@;
                let ghost more = papers.push(paper);
                let ghost full = papers.len() as int;
                proof {
                    lemma_answers_more(entries@, self.store(), papers, paper, *request, settings);
                    assert(more == live_papers(request.files@.take(i + 1)));
                }
                let mut f: usize = 0;
                while f < count
                    invariant
                        f <= count,
                        count == request.target_formats@.len(),
                        self.settings() == settings,
                        takes_in(start, self.store(), entries@),
                        document@ == paper,
                        document.size == paper.content.len() as u64,
                        0 <= full,
                        more.len() == full + 1,
                        more[full] == paper,
                        answers_so_far(
                            entries@,
                            self.store(),
                            more,
                            *request,
                            settings,
                            full,
                            f as int,
                        ),
                    decreases count - f,
                {
                    let format = request.target_formats[f].as_str();
                    let max_size = max_size_for(&request.max_sizes, format);
                    let ghost before = self.store();
                    let result = self.convert_to_format(&document, format, max_size);
                    let ghost outcome = result;
                    let entry = match result {
                        Ok(conversion) => conversion,
                        Err(_) => Conversion::Finished(
                            error_entry(document.name.as_str(), format),
                        ),
                    };
                    proof {
                        use_type_invariant(&self.temp_storage);
                        let after = self.store();
                        lemma_concludes_settles(
                            before,
                            after,
                            paper,
                            format@,
                            max_size,
                            settings,
                            outcome,
                            entry,
                        );
                        lemma_answers_grow(
                            entries@,
                            before,
                            after,
                            more,
                            *request,
                            settings,
                            full,
                            f as int,
                        );
                        lemma_answers_push(
                            entries@,
                            after,
                            more,
                            *request,
                            settings,
                            full,
                            f as int,
                            entry,
                        );
                        lemma_concludes_takes_in(
                            before,
                            after,
                            paper,
                            format@,
                            max_size,
                            settings,
                            outcome,
                            entry,
                        );
                        lemma_takes_in_push(start, before, after, entries@, entry);
                    }
                    entries.push(entry);
                    f += 1;
                }
                proof {
                    lemma_answers_next(entries@, self.store(), more, *request, settings, full);
                }
            }
            i += 1;
        }
        proof {
            assert(request.files@.take(request.files@.len() as int) =~= request.files@);
            use_type_invariant(&self.temp_storage);
        }
        Ok(entries)
    }

    /// Stores the assembled page `content`, or records that it is over its
    /// limit.
    fn store_page(
        &mut self,
        original_name: &str,
        original_size: u64,
        format: &str,
        max_size: u64,
        content: Vec<u8>,
    ) -> (file: ConvertedFile)
        ensures
            final(self).settings() == old(self).settings(),
            if content@.len() <= max_size {
                keeps(
                    old(self).store(),
                    final(self).store(),
                    Ok(file),
                    original_name@,
                    original_size,
                    format@,
                    max_size,
                    content@,
                )
            } else {
                is_error_record(file, original_name@, format@) && final(self).store() == old(
                    self,
                ).store()
            },
    {
        match self.store_converted(original_name, original_size, format, max_size, content) {
            Ok(file) => file,
            Err(_) => error_entry(original_name, format),
        }
    }

    /// Takes the assembled page of `pending` and says what follows: the
    /// outcome of the conversion, or a further page to assemble.
    pub fn complete_page(&mut self, pending: PendingPage, assembled: Vec<u8>) -> (r: Conversion)
        ensures
            final(self).settings() == old(self).settings(),
            distinct(final(self).store()),
            completes(old(self).store(), final(self).store(), pending, assembled@, r),
    {
        let PendingPage { original_name, original_size, format, max_size, draft } = pending;
        let (name, kind) = (original_name.as_str(), format.as_str());
        let outcome = match draft {
            PageDraft::Text(_) => Conversion::Finished(
                self.store_page(name, original_size, kind, max_size, assembled),
            ),
            PageDraft::Image(draft) => match self.pdf_processor.settle(draft, assembled) {
                DraftStep::Accepted(bytes) => Conversion::Finished(
                    self.store_page(name, original_size, kind, max_size, bytes),
                ),
                DraftStep::Retry(next) => Conversion::AwaitingPage(
                    PendingPage {
                        original_name: String::from_str(name),
                        original_size,
                        format: String::from_str(kind),
                        max_size,
                        draft: PageDraft::Image(next),
                    },
                ),
                DraftStep::Failed(_) => Conversion::Finished(error_entry(name, kind)),
            },
        };
        proof {
            use_type_invariant(&self.temp_storage);
        }
        outcome
    }

    /// The stored file with the identifier `file_id`.
    pub fn get_stored_file(&self, file_id: &str) -> (r: Option<&Vec<u8>>)
        ensures
            match r {
                Some(content) => lookup(self.store(), file_id@) == Some(content@),
                None => lookup(self.store(), file_id@) is None,
            },
    {
        self.temp_storage.get(file_id)
    }

    /// The number of stored files, and the number of their bytes; a number
    /// of bytes over `u64::MAX` is given as `u64::MAX`.
    pub fn get_storage_stats(&self) -> (stats: (usize, u64))
        ensures
            stats.0 == self.store().len(),
            stats.1 == if total_bytes(self.store()) <= u64::MAX {
                total_bytes(self.store())
            } else {
                u64::MAX as nat
            },
    {
        (self.temp_storage.len(), self.temp_storage.size())
    }

    /// Removes every stored file, and says what was removed: the number of
    /// files and the number of their bytes, as `get_storage_stats` gives them.
    pub fn cleanup_temp_files(&mut self) -> (removed: (usize, u64))
        ensures
            final(self).settings() == old(self).settings(),
            final(self).store() == Seq::<Entry>::empty(),
            removed.0 == old(self).store().len(),
            removed.1 == if total_bytes(old(self).store()) <= u64::MAX {
                total_bytes(old(self).store())
            } else {
                u64::MAX as nat
            },
    {
        let removed = self.get_storage_stats();
        self.temp_storage.clear();
        removed
    }
}

} // verus!
