//! What goes into a PDF: the optimiser for existing files, the plan of the
//! page that shows an image, and the stand-in picture of a PDF page.
//!
//! This module decides; it draws no page. A page plan is handed to the
//! caller, who assembles the file and hands its bytes back.

use crate::codec::{decode, decoded, encode, encoded_image, rgb_raster};
use crate::codec::{Encoding, PixelBuffer, PixelLayout, Raster};
use crate::image_processor::{jpeg_compression, png_compression, reports, unreadable};
use crate::image_processor::{FitOutcome, ImageProcessor};
use crate::text::{decimal, push_decimal};
use crate::types::{CompressionSettings, ConversionError};
use vstd::prelude::*;

verus! {

#[verifier::external_type_specification]
#[verifier::external_body]
pub struct ExDocument(lopdf::Document);

#[verifier::external_type_specification]
#[verifier::external_body]
pub struct ExPdfError(lopdf::Error);

/// A stream object, as a model: the keys of its dictionary, and its
/// content.
pub struct StreamModel {
    pub keys: Set<Seq<u8>>,
    pub content: Seq<u8>,
}

/// What a PDF document holds, as far as the optimiser looks at it: the
/// identifiers of its objects, its stream objects, and the identifiers that
/// are referred to.
pub struct PdfContents {
    pub objects: Set<(u32, u16)>,
    pub streams: Map<(u32, u16), StreamModel>,
    pub referenced: Set<(u32, u16)>,
}

/// What `lopdf::Document::load_mem` reads from `content`, or nothing where
/// it fails.
pub uninterp spec fn pdf_read(content: Seq<u8>) -> Option<PdfContents>;

/// The identifiers of the objects that `document` holds.
pub uninterp spec fn pdf_objects(document: lopdf::Document) -> Set<(u32, u16)>;

/// The stream objects of `document`, each under its identifier.
pub uninterp spec fn pdf_streams(document: lopdf::Document) -> Map<(u32, u16), StreamModel>;

/// The identifiers that `lopdf::Document::traverse_objects` reaches from the
/// trailer of `document`.
pub uninterp spec fn pdf_referenced(document: lopdf::Document) -> Set<(u32, u16)>;

/// What `lopdf::Stream::compress` puts in place of `content` in a stream
/// without a filter: the deflated content, where that is more than 19 bytes
/// shorter; nothing where it leaves the stream as it is.
pub uninterp spec fn deflated(content: Seq<u8>) -> Option<Seq<u8>>;

/// The document as a file: the bytes that `lopdf::Document::save_to` writes
/// for it, or nothing where it fails.
pub uninterp spec fn pdf_file(document: lopdf::Document) -> Option<Seq<u8>>;

/// What `document` holds.
pub open spec fn contents_of(document: lopdf::Document) -> PdfContents {
    PdfContents {
        objects: pdf_objects(document),
        streams: pdf_streams(document),
        referenced: pdf_referenced(document),
    }
}

/// The key under which a stream names its filter: `Filter`.
pub open spec fn filter_key() -> Seq<u8> {
    seq![70u8, 105u8, 108u8, 116u8, 101u8, 114u8]
}

/// The key under which a stream says how long its content is: `Length`.
pub open spec fn length_key() -> Seq<u8> {
    seq![76u8, 101u8, 110u8, 103u8, 116u8, 104u8]
}

impl StreamModel {
    /// Whether the stream names no filter.
    pub open spec fn is_plain(self) -> bool {
        !self.keys.contains(filter_key())
    }

    /// Whether the compressor gives the stream a filter: it has none, and
    /// deflating its content pays.
    pub open spec fn takes_filter(self) -> bool {
        self.is_plain() && deflated(self.content) is Some
    }

    /// The stream with `content` in place of its content, under the filter.
    pub open spec fn packed(self, content: Seq<u8>) -> StreamModel {
        StreamModel { keys: self.keys.insert(filter_key()).insert(length_key()), content }
    }

    /// The stream as the compressor leaves it: deflated under the filter
    /// where it had none and deflating pays, else as it is.
    pub open spec fn compressed(self) -> StreamModel {
        if self.takes_filter() {
            self.packed(deflated(self.content)->0)
        } else {
            self
        }
    }
}

/// Calls `lopdf::Document::load_mem`, which parses `content`.
#[verifier::external_body]
fn load_mem(content: &[u8]) -> (r: Result<lopdf::Document, lopdf::Error>)
    ensures
        match r {
            Ok(document) => pdf_read(content@) == Some(contents_of(document)),
            Err(_) => pdf_read(content@) is None,
        },
{
    lopdf::Document::load_mem(content)
}

/// Calls `lopdf::Document::prune_objects`, which removes the objects that
/// nothing reachable from the trailer refers to, and leaves the others as
/// they are.
#[verifier::external_body]
fn prune_objects(document: &mut lopdf::Document)
    ensures
        pdf_objects(*final(document)) == pdf_objects(*old(document)).intersect(
            pdf_referenced(*old(document)),
        ),
        pdf_streams(*final(document)) == pdf_streams(*old(document)).restrict(
            pdf_referenced(*old(document)),
        ),
{
    document.prune_objects();
}

/// The keys of `Document::objects`: the identifier of every object, and so
/// of every stream.
#[verifier::external_body]
fn object_ids(document: &lopdf::Document) -> (ids: Vec<(u32, u16)>)
    ensures
        forall|id: (u32, u16)|
            pdf_streams(*document).contains_key(id) ==> #[trigger] ids@.contains(id),
{
    document.objects.keys().copied().collect()
}

/// Calls `lopdf::Dictionary::has` on the dictionary of the stream `id`:
/// whether it holds `key`. Nothing where `id` is no stream.
#[verifier::external_body]
fn stream_has(document: &lopdf::Document, id: (u32, u16), key: &[u8]) -> (r: Option<bool>)
    ensures
        r == if pdf_streams(*document).contains_key(id) {
            Some(pdf_streams(*document)[id].keys.contains(key@))
        } else {
            None
        },
{
    match document.objects.get(&id) {
        Some(lopdf::Object::Stream(stream)) => Some(stream.dict.has(key)),
        _ => None,
    }
}

/// Calls `lopdf::Stream::compress` on the object `id`. A stream without a
/// filter is deflated; where that pays, it takes the deflated content, the
/// filter and the new length. Any other object is left alone. No other
/// object changes, and no object comes or goes.
#[verifier::external_body]
fn compress_stream(document: &mut lopdf::Document, id: (u32, u16))
    ensures
        pdf_objects(*final(document)) == pdf_objects(*old(document)),
        pdf_streams(*final(document)).dom() == pdf_streams(*old(document)).dom(),
        forall|other: (u32, u16)|
            #![trigger pdf_streams(*final(document))[other]]
            pdf_streams(*old(document)).contains_key(other) ==> pdf_streams(
                *final(document),
            )[other] == if other == id && pdf_streams(*old(document))[other].is_plain()
                && deflated(pdf_streams(*old(document))[other].content) is Some {
                pdf_streams(*old(document))[other].packed(
                    deflated(pdf_streams(*old(document))[other].content)->0,
                )
            } else {
                pdf_streams(*old(document))[other]
            },
{
    if let Some(lopdf::Object::Stream(stream)) = document.objects.get_mut(&id) {
        let _ = stream.compress();
    }
}

/// Calls `lopdf::Document::save_to`, which writes the document as a file.
#[verifier::external_body]
fn save_to(document: &mut lopdf::Document) -> (r: Result<Vec<u8>, lopdf::Error>)
    ensures
        match r {
            Ok(bytes) => pdf_file(*old(document)) == Some(bytes@),
            Err(_) => pdf_file(*old(document)) is None,
        },
{
    let mut out = Vec::new();
    document.save_to(&mut out)?;
    Ok(out)
}

/// What `lopdf::Error` displays as.
#[verifier::external_body]
fn error_text(error: &lopdf::Error) -> String {
    error.to_string()
}

/// The width of an A4 page, in points.
pub const A4_WIDTH: u64 = 595;

/// The height of an A4 page, in points.
pub const A4_HEIGHT: u64 = 842;

/// Attempts at a smaller image before an image page is given up.
pub const PDF_ATTEMPTS: u8 = 5;

/// The JPEG quality of the first such attempt.
pub const PDF_FIRST_QUALITY: u8 = 85;

/// What each further attempt takes off the quality.
pub const PDF_QUALITY_STEP: u8 = 15;

/// The quality that no attempt goes below.
pub const PDF_QUALITY_FLOOR: u8 = 20;

/// The width of the stand-in picture of a PDF page, in pixels.
pub const PLACEHOLDER_WIDTH: u32 = 800;

/// The height of the stand-in picture of a PDF page, in pixels.
pub const PLACEHOLDER_HEIGHT: u32 = 600;

/// A length in points, as the exact fraction `numerator / denominator`.
#[derive(Debug, Clone, Copy, PartialEq, Eq, Structural)]
pub struct Length {
    pub numerator: u64,
    pub denominator: u64,
}

/// The size of a page.
#[derive(Debug, Clone, Copy, PartialEq, Eq, Structural)]
pub struct PageSize {
    pub width: Length,
    pub height: Length,
}

/// The page for an image of `width` by `height` pixels: the largest page
/// with the proportions of the image that an A4 page holds. An image wider
/// than A4 gets the full width, any other the full height.
pub open spec fn page_size(width: nat, height: nat) -> PageSize {
    if width * A4_HEIGHT as nat > A4_WIDTH as nat * height {
        PageSize {
            width: Length { numerator: A4_WIDTH, denominator: 1 },
            height: Length {
                numerator: (A4_WIDTH as nat * height) as u64,
                denominator: width as u64,
            },
        }
    } else {
        PageSize {
            width: Length {
                numerator: (A4_HEIGHT as nat * width) as u64,
                denominator: height as u64,
            },
            height: Length { numerator: A4_HEIGHT, denominator: 1 },
        }
    }
}

/// A page that one image covers: the size of the page, and the image as
/// interleaved RGB.
#[derive(Debug, Clone)]
pub struct ImagePage {
    pub page: PageSize,
    pub pixels: PixelBuffer,
}

impl ImagePage {
    /// The pixels are RGB, and the page is the one that fits them.
    pub open spec fn wf(&self) -> bool {
        &&& self.pixels.wf()
        &&& self.pixels.layout == PixelLayout::Rgb
        &&& self.page == page_size(self.pixels.width as nat, self.pixels.height as nat)
    }

    /// Whether this is the page that shows `image`.
    pub open spec fn shows(&self, image: Raster) -> bool {
        &&& self.pixels@ == rgb_raster(image)
        &&& self.page == page_size(image.width, image.height)
    }
}

/// The quality of the attempt after one at `quality`.
pub open spec fn next_pdf_quality(quality: u8) -> u8 {
    if quality - PDF_QUALITY_STEP < PDF_QUALITY_FLOOR {
        PDF_QUALITY_FLOOR
    } else {
        (quality - PDF_QUALITY_STEP) as u8
    }
}

/// The quality of attempt `attempt`, counted from one: 85, 70, 55, 40, 25.
pub open spec fn pdf_quality(attempt: nat) -> u8
    decreases attempt,
{
    if attempt <= 1 {
        PDF_FIRST_QUALITY
    } else {
        next_pdf_quality(pdf_quality((attempt - 1) as nat))
    }
}

/// The image that the page of an attempt shows: `source` after a round
/// through JPEG at `quality`.
pub open spec fn recompressed(source: Raster, quality: u8) -> Result<Raster, FitOutcome> {
    match encoded_image(source, Encoding::Jpeg { quality }) {
        None => Err(FitOutcome::CodecFailed),
        Some(file) => match decoded(file) {
            None => Err(unreadable(file)),
            Some(image) => Ok(image),
        },
    }
}

/// An image page on its way to a PDF: the page to assemble now, and what is
/// needed to try again with a smaller image.
#[derive(Debug, Clone)]
pub struct PdfDraft {
    pub page: ImagePage,
    pub source: PixelBuffer,
    pub target_size: Option<u64>,
    /// How many attempts at a smaller image led to `page`; none at first.
    pub attempt: u8,
}

impl PdfDraft {
    /// The page is the one for this attempt.
    pub open spec fn wf(&self) -> bool {
        &&& self.page.wf()
        &&& self.source.wf()
        &&& self.attempt <= PDF_ATTEMPTS
        &&& self.attempt == 0 ==> self.page.shows(self.source@)
        &&& self.attempt >= 1 ==> {
            &&& recompressed(self.source@, pdf_quality(self.attempt as nat)) matches Ok(image)
            &&& self.page.shows(image)
        }
    }

    /// Whether a file of `size` bytes is within the limit of this draft.
    pub open spec fn fits(&self, size: nat) -> bool {
        match self.target_size {
            None => true,
            Some(limit) => size <= limit,
        }
    }

    /// The limit, where there is one; no limit reads as `u64::MAX`.
    pub open spec fn limit(&self) -> u64 {
        match self.target_size {
            None => u64::MAX,
            Some(limit) => limit,
        }
    }
}

/// What follows once the page of a draft has been assembled.
#[derive(Debug, Clone)]
pub enum DraftStep {
    /// The assembled file is the result.
    Accepted(Vec<u8>),
    /// The file was too large: assemble the page of this draft instead.
    Retry(PdfDraft),
    /// No file will come of it.
    Failed(ConversionError),
}

/// The message of the error that ends the attempts.
pub open spec fn oversize_text(limit: u64) -> Seq<char> {
    "Could not create PDF under "@ + decimal(limit as nat) + " bytes"@
}

/// Whether `result` reports `outcome`, the end of reading an image.
pub open spec fn reports_failure(error: ConversionError, outcome: FitOutcome) -> bool {
    match outcome {
        FitOutcome::CodecFailed => error is Image,
        FitOutcome::NoPixels => error is InvalidContent,
        _ => false,
    }
}

/// Whether `step` is what follows for `draft` once its page was assembled to
/// `assembled`: the file is accepted where it fits; else a further attempt
/// follows, as long as there are attempts left and the codec plays along.
pub open spec fn settles(draft: PdfDraft, assembled: Seq<u8>, step: DraftStep) -> bool {
    if draft.fits(assembled.len()) {
        step matches DraftStep::Accepted(file) && file@ == assembled
    } else if draft.attempt >= PDF_ATTEMPTS {
        step matches DraftStep::Failed(ConversionError::CompressionFailed { message })
            && message@ == oversize_text(draft.limit())
    } else if !draft.source.wf() {
        step matches DraftStep::Failed(error) && error is InvalidContent
    } else {
        match recompressed(draft.source@, pdf_quality((draft.attempt + 1) as nat)) {
            Ok(image) => {
                &&& step matches DraftStep::Retry(next)
                &&& next.wf()
                &&& next.page.shows(image)
                &&& next.source@ == draft.source@
                &&& next.target_size == draft.target_size
                &&& next.attempt == draft.attempt + 1
            },
            Err(outcome) => step matches DraftStep::Failed(error) && reports_failure(
                error,
                outcome,
            ),
        }
    }
}

/// The grey level of the stand-in picture at column `x` and row `y`: a dark
/// frame one pixel wide, a block in the middle, light grey elsewhere.
pub open spec fn placeholder_level(x: int, y: int) -> u8 {
    if x == 0 || x == PLACEHOLDER_WIDTH - 1 || y == 0 || y == PLACEHOLDER_HEIGHT - 1 {
        100
    } else if 350 <= x < 450 && 280 <= y < 320 {
        200
    } else {
        240
    }
}

/// The stand-in picture of a PDF page. It is the same for every PDF.
pub open spec fn placeholder() -> Raster {
    Raster {
        width: PLACEHOLDER_WIDTH as nat,
        height: PLACEHOLDER_HEIGHT as nat,
        layout: PixelLayout::Rgb,
        samples: Seq::new(
            (PLACEHOLDER_WIDTH * PLACEHOLDER_HEIGHT * 3) as nat,
            |i: int| placeholder_level((i / 3) % (PLACEHOLDER_WIDTH as int), (i / 3) / (PLACEHOLDER_WIDTH as int)),
        ),
    }
}

/// The format of the picture that stands for a PDF page.
#[derive(Debug, Clone, Copy, PartialEq, Eq, Structural)]
pub enum RasterFormat {
    Jpeg,
    Png,
}

impl RasterFormat {
    /// How the stand-in picture is first encoded.
    pub open spec fn encoding(self) -> Encoding {
        match self {
            RasterFormat::Jpeg => Encoding::Jpeg { quality: 85 },
            RasterFormat::Png => Encoding::Png,
        }
    }

    /// The name of the format in messages.
    pub open spec fn kind(self) -> Seq<char> {
        match self {
            RasterFormat::Jpeg => "JPEG"@,
            RasterFormat::Png => "PNG"@,
        }
    }
}

/// How making the picture of a PDF ends, whatever the PDF holds: the
/// stand-in picture is encoded; where that file is too large it is
/// compressed like any image, with the standard settings.
pub open spec fn pdf_raster(format: RasterFormat, ceiling: u64) -> FitOutcome {
    match encoded_image(placeholder(), format.encoding()) {
        None => FitOutcome::CodecFailed,
        Some(first) => if first.len() <= ceiling {
            FitOutcome::Fitted(first)
        } else {
            match format {
                RasterFormat::Jpeg => jpeg_compression(
                    first,
                    ceiling,
                    CompressionSettings::standard(),
                ),
                RasterFormat::Png => png_compression(
                    first,
                    ceiling,
                    CompressionSettings::standard(),
                ),
            }
        },
    }
}

/// Whether the streams `after` are the streams `before`, each as the
/// compressor leaves it.
pub open spec fn compressed(
    before: Map<(u32, u16), StreamModel>,
    after: Map<(u32, u16), StreamModel>,
) -> bool {
    &&& after.dom() == before.dom()
    &&& forall|id: (u32, u16)|
        #![trigger after[id]]
        before.contains_key(id) ==> after[id] == before[id].compressed()
}

/// Whether `written` is what the optimiser makes of a document that holds
/// `read`: it holds the objects that are referred to, their streams
/// compressed.
pub open spec fn is_optimized(written: lopdf::Document, read: PdfContents) -> bool {
    &&& pdf_objects(written) == read.objects.intersect(read.referenced)
    &&& compressed(read.streams.restrict(read.referenced), pdf_streams(written))
}

/// Whether `result` is what optimising a document that holds `read` gives:
/// the file of the optimised document, or, only where that document cannot
/// be written, the failure to write it.
pub open spec fn optimizes(result: Result<Vec<u8>, ConversionError>, read: PdfContents) -> bool {
    exists|written: lopdf::Document|
        is_optimized(written, read) && match #[trigger] pdf_file(written) {
            Some(file) => result matches Ok(bytes) && bytes@ == file,
            None => result matches Err(error) && tells_save_failure(error),
        }
}

/// Whether `error` tells that the optimised document could not be written.
pub open spec fn tells_save_failure(error: ConversionError) -> bool {
    error matches ConversionError::Pdf(message) && save_failure_head().is_prefix_of(message@)
}

/// What the message of a failure to write begins with.
pub open spec fn save_failure_head() -> Seq<char> {
    "Failed to save optimized PDF: "@
}

/// `prefix` followed by `detail`.
fn failure_message(prefix: &str, detail: &str) -> (out: String)
    ensures
        out@ == prefix@ + detail@,
{
    let mut out = String::from_str(prefix);
    out.append(detail);
    out
}

/// Optimises PDF files and plans the pages of new ones.
pub struct PdfProcessor;

impl PdfProcessor {
    /// A processor. It holds no state.
    pub fn new() -> Self {
        PdfProcessor
    }

    /// Drops the objects of `document` that nothing refers to.
    pub fn remove_unused_objects(&self, document: &mut lopdf::Document)
        ensures
            pdf_objects(*final(document)) == pdf_objects(*old(document)).intersect(
                pdf_referenced(*old(document)),
            ),
            pdf_streams(*final(document)) == pdf_streams(*old(document)).restrict(
                pdf_referenced(*old(document)),
            ),
    {
        prune_objects(document);
    }

    /// Hands every stream of `document` that names no filter to the
    /// compressor. Such a stream is deflated under the filter where that
    /// pays; every other stream stays as it is. No object comes or goes.
    pub fn compress_streams(&self, document: &mut lopdf::Document)
        ensures
            pdf_objects(*final(document)) == pdf_objects(*old(document)),
            compressed(pdf_streams(*old(document)), pdf_streams(*final(document))),
    {
        let ids = object_ids(document);
        // The bytes of `Filter`, the key under which a stream names its filter.
        let filter: Vec<u8> = vec![70u8, 105u8, 108u8, 116u8, 101u8, 114u8];
        assert(filter@ =~= filter_key());
        let ghost before = pdf_streams(*document);
        let ghost mut done: Set<(u32, u16)> = Set::empty();
        let mut i: usize = 0;
        while i < ids.len()
            invariant
                i <= ids.len(),
                filter@ == filter_key(),
                before == pdf_streams(*old(document)),
                pdf_objects(*document) == pdf_objects(*old(document)),
                forall|j: int| 0 <= j < i ==> done.contains(#[trigger] ids@[j]),
                pdf_streams(*document).dom() == before.dom(),
                forall|id: (u32, u16)|
                    #![trigger pdf_streams(*document)[id]]
                    before.contains_key(id) ==> pdf_streams(*document)[id] == if done.contains(
                        id,
                    ) {
                        before[id].compressed()
                    } else {
                        before[id]
                    },
            decreases ids.len() - i,
        {
            let ghost now = pdf_streams(*document);
            let lacks_filter = match stream_has(document, ids[i], filter.as_slice()) {
                Some(found) => !found,
                None => false,
            };
            if lacks_filter {
                compress_stream(document, ids[i]);
            }
            proof {
                let id = ids@[i as int];
                let after = pdf_streams(*document);
                assert(now.contains_key(id) == before.contains_key(id));
                assert forall|k: (u32, u16)| #![trigger after[k]] before.contains_key(k) implies after[k]
                    == if done.insert(id).contains(k) {
                    before[k].compressed()
                } else {
                    before[k]
                } by {
                    assert(now.contains_key(k));
                    let _ = now[k];
                    if k == id {
                        assert(before[k].packed(deflated(before[k].content)->0).keys.contains(
                            filter_key(),
                        ));
                    }
                }
                done = done.insert(id);
            }
            i += 1;
        }
        proof {
            let after = pdf_streams(*document);
            assert forall|id: (u32, u16)| #![trigger after[id]] before.contains_key(id) implies after[id]
                == before[id].compressed() by {
                assert(ids@.contains(id));
                let j = choose|j: int| 0 <= j < ids@.len() && ids@[j] == id;
                assert(done.contains(ids@[j]));
            }
        }
    }

    /// Optimises a document that was read: drops what is not referred to,
    /// compresses the streams without a filter, and writes the file. The
    /// file is that of the document so optimised.
    ///
    /// Fails with `ConversionError::Pdf` where, and only where, the
    /// optimised document cannot be written.
    pub fn optimize_document(&self, document: lopdf::Document) -> (r: Result<
        Vec<u8>,
        ConversionError,
    >)
        ensures
            optimizes(r, contents_of(document)),
    {
        let ghost read = contents_of(document);
        let mut document = document;
        self.remove_unused_objects(&mut document);
        self.compress_streams(&mut document);
        let ghost written = document;
        assert(is_optimized(written, read));
        match save_to(&mut document) {
            Ok(bytes) => {
                assert(pdf_file(written) == Some(bytes@));
                Ok(bytes)
            },
            Err(e) => {
                let message = failure_message(
                    "Failed to save optimized PDF: ",
                    error_text(&e).as_str(),
                );
                assert(save_failure_head() =~= message@.subrange(
                    0,
                    save_failure_head().len() as int,
                ));
                assert(pdf_file(written) is None);
                Err(ConversionError::Pdf(message))
            },
        }
    }

    /// Optimises the PDF file `content`: the result is the file of the
    /// document that was read, optimised. Content that cannot be read as a
    /// PDF is no error: it is returned as it came.
    ///
    /// Fails with `ConversionError::Pdf` where, and only where, the
    /// optimised document cannot be written.
    pub fn optimize_pdf(&self, content: &[u8]) -> (r: Result<Vec<u8>, ConversionError>)
        ensures
            match pdf_read(content@) {
                None => r matches Ok(bytes) && bytes@ == content@,
                Some(read) => optimizes(r, read),
            },
    {
        match load_mem(content) {
            Ok(document) => self.optimize_document(document),
            Err(_) => Ok(crate::pdf_processor::copy_of(content)),
        }
    }

    /// The size of the page for an image of `img_width` by `img_height`
    /// pixels.
    pub fn calculate_page_size(&self, img_width: u32, img_height: u32) -> (page: PageSize)
        ensures
            page == page_size(img_width as nat, img_height as nat),
    {
        let (w, h): (u64, u64) = (img_width as u64, img_height as u64);
        if w * A4_HEIGHT > A4_WIDTH * h {
            PageSize {
                width: Length { numerator: A4_WIDTH, denominator: 1 },
                height: Length { numerator: A4_WIDTH * h, denominator: w },
            }
        } else {
            PageSize {
                width: Length { numerator: A4_HEIGHT * w, denominator: h },
                height: Length { numerator: A4_HEIGHT, denominator: 1 },
            }
        }
    }

    /// The page that shows `image`.
    pub fn plan_image_page(&self, image: &PixelBuffer) -> (page: ImagePage)
        requires
            image.wf(),
        ensures
            page.wf(),
            page.shows(image@),
    {
        ImagePage {
            page: self.calculate_page_size(image.width, image.height),
            pixels: image.to_rgb(),
        }
    }

    /// Plans the PDF page that shows the image file `image_content`. Where
    /// `target_size` is given, the assembled file is held against it.
    ///
    /// Fails where the image cannot be decoded.
    pub fn create_pdf_from_image(&self, image_content: &[u8], target_size: Option<u64>) -> (r:
        Result<PdfDraft, ConversionError>)
        ensures
            match decoded(image_content@) {
                Some(image) => {
                    &&& r matches Ok(draft)
                    &&& draft.wf()
                    &&& draft.source@ == image
                    &&& draft.target_size == target_size
                    &&& draft.attempt == 0
                },
                None => r matches Err(error) && reports_failure(error, unreadable(image_content@)),
            },
    {
        let source = decode(image_content)?;
        let page = self.plan_image_page(&source);
        Ok(PdfDraft { page, source, target_size, attempt: 0 })
    }

    /// Plans the page of one attempt at a smaller file: `source` goes through
    /// JPEG at `quality`, and what comes back is shown.
    pub fn create_compressed_pdf_from_image(&self, source: &PixelBuffer, quality: u8) -> (r:
        Result<ImagePage, ConversionError>)
        requires
            source.wf(),
        ensures
            match recompressed(source@, quality) {
                Ok(image) => r matches Ok(page) && page.wf() && page.shows(image),
                Err(outcome) => r matches Err(error) && reports_failure(error, outcome),
            },
    {
        let file = encode(source, Encoding::Jpeg { quality })?;
        let image = decode(file.as_slice())?;
        Ok(self.plan_image_page(&image))
    }

    /// The quality of attempt `attempt` at a smaller image, counted from one.
    pub fn quality_of_attempt(&self, attempt: u8) -> (quality: u8)
        ensures
            quality == pdf_quality(attempt as nat),
            quality >= PDF_QUALITY_FLOOR,
    {
        let mut quality: u8 = PDF_FIRST_QUALITY;
        let mut done: u8 = 1;
        while done < attempt
            invariant
                1 <= done,
                done <= attempt || (attempt == 0 && done == 1),
                quality == pdf_quality(done as nat),
                quality >= PDF_QUALITY_FLOOR,
            decreases attempt - done,
        {
            quality = if quality < PDF_QUALITY_FLOOR + PDF_QUALITY_STEP {
                PDF_QUALITY_FLOOR
            } else {
                quality - PDF_QUALITY_STEP
            };
            done += 1;
        }
        assert(pdf_quality(0) == PDF_FIRST_QUALITY && pdf_quality(1) == PDF_FIRST_QUALITY);
        quality
    }

    /// Decides what follows once the page of `draft` was assembled to
    /// `assembled`.
    pub fn settle(&self, draft: PdfDraft, assembled: Vec<u8>) -> (step: DraftStep)
        ensures
            settles(draft, assembled@, step),
    {
        let limit: u64 = match draft.target_size {
            None => {
                return DraftStep::Accepted(assembled);
            },
            Some(limit) => limit,
        };
        if assembled.len() as u64 <= limit {
            return DraftStep::Accepted(assembled);
        }
        if draft.attempt >= PDF_ATTEMPTS {
            let mut message = String::from_str("Could not create PDF under ");
            push_decimal(&mut message, limit);
            message.append(" bytes");
            return DraftStep::Failed(ConversionError::CompressionFailed { message });
        }
        if !draft.source.is_well_formed() {
            return DraftStep::Failed(
                ConversionError::InvalidContent { message: String::from_str("image has no pixels") },
            );
        }
        let attempt: u8 = draft.attempt + 1;
        let quality = self.quality_of_attempt(attempt);
        match self.create_compressed_pdf_from_image(&draft.source, quality) {
            Ok(page) => DraftStep::Retry(
                PdfDraft { page, source: draft.source, target_size: draft.target_size, attempt },
            ),
            Err(error) => DraftStep::Failed(error),
        }
    }

    /// The stand-in picture of a PDF page.
    pub fn create_pdf_placeholder_image(&self) -> (picture: PixelBuffer)
        ensures
            picture@ == placeholder(),
            picture.wf(),
    {
        let mut samples: Vec<u8> = Vec::new();
        let mut y: u32 = 0;
        while y < PLACEHOLDER_HEIGHT
            invariant
                y <= PLACEHOLDER_HEIGHT,
                samples@.len() == y * PLACEHOLDER_WIDTH * 3,
                forall|i: int| 0 <= i < samples@.len() ==> samples@[i] == placeholder().samples[i],
            decreases PLACEHOLDER_HEIGHT - y,
        {
            let mut x: u32 = 0;
            while x < PLACEHOLDER_WIDTH
                invariant
                    y < PLACEHOLDER_HEIGHT,
                    x <= PLACEHOLDER_WIDTH,
                    samples@.len() == (y * PLACEHOLDER_WIDTH + x) * 3,
                    forall|i: int|
                        0 <= i < samples@.len() ==> samples@[i] == placeholder().samples[i],
                decreases PLACEHOLDER_WIDTH - x,
            {
                let level: u8 = if x == 0 || x == PLACEHOLDER_WIDTH - 1 || y == 0 || y
                    == PLACEHOLDER_HEIGHT - 1 {
                    100
                } else if 350 <= x && x < 450 && 280 <= y && y < 320 {
                    200
                } else {
                    240
                };
                let ghost before = samples@;
                samples.push(level);
                samples.push(level);
                samples.push(level);
                proof {
                    let pixel = y * PLACEHOLDER_WIDTH + x;
                    assert forall|i: int| 0 <= i < samples@.len() implies samples@[i]
                        == placeholder().samples[i] by {
                        if i < before.len() {
                            assert(samples@[i] == before[i]);
                        } else {
                            assert(i / 3 == pixel);
                            assert(pixel % (PLACEHOLDER_WIDTH as int) == x);
                            assert(pixel / (PLACEHOLDER_WIDTH as int) == y);
                        }
                    }
                }
                x += 1;
            }
            y += 1;
        }
        assert(samples@ =~= placeholder().samples);
        PixelBuffer {
            width: PLACEHOLDER_WIDTH,
            height: PLACEHOLDER_HEIGHT,
            layout: PixelLayout::Rgb,
            samples,
        }
    }

    /// Makes the picture that stands for the first page of the PDF file
    /// `content`, of at most `max_size` bytes. The page is not rendered, and
    /// the file is not read: the picture is the same for every content.
    pub fn pdf_to_image(&self, content: &[u8], format: RasterFormat, max_size: u64) -> (r: Result<
        Vec<u8>,
        ConversionError,
    >)
        ensures
            reports(
                r,
                pdf_raster(format, max_size),
                format.kind(),
                max_size,
                CompressionSettings::standard().max_iterations,
            ),            r matches Ok(file) ==> file@.len() > 0,
    {
        let picture = self.create_pdf_placeholder_image();
        let processor = ImageProcessor::new();
        match format {
            RasterFormat::Jpeg => {
                let first = encode(&picture, Encoding::Jpeg { quality: 85 })?;
                if first.len() as u64 <= max_size {
                    Ok(first)
                } else {
                    processor.compress_jpeg_to_size(first.as_slice(), max_size)
                }
            },
            RasterFormat::Png => {
                let first = encode(&picture, Encoding::Png)?;
                if first.len() as u64 <= max_size {
                    Ok(first)
                } else {
                    processor.compress_png_to_size(first.as_slice(), max_size)
                }
            },
        }
    }
}

/// A copy of `bytes`.
pub fn copy_of(bytes: &[u8]) -> (out: Vec<u8>)
    ensures
        out@ == bytes@,
{
    let mut out: Vec<u8> = Vec::new();
    let mut i: usize = 0;
    while i < bytes.len()
        invariant
            i <= bytes.len(),
            out@ == bytes@.take(i as int),
        decreases bytes.len() - i,
    {
        out.push(bytes[i]);
        i += 1;
    }
    out
}

} // verus!
