use document_converter::codec::{decode, PixelLayout};
use document_converter::converter::DocumentConverter;
use document_converter::layout::TextPage;
use document_converter::html_escape::encode_text;
use document_converter::pdf_processor::{DraftStep, Length, PageSize, PdfProcessor, RasterFormat};
use document_converter::store::ArtifactStore;
use document_converter::text::{chars_of, clip_lines, find_char, push_decimal, slice_chars, string_of};
use document_converter::types::max_size_for;
use document_converter::{
    CompressionSettings, ConversionError, ConvertResponse, DocumentInfo, ExamConfig, SizeLimit,
};
use pdf_writer::Finish;

fn sample_pdf(lines: usize) -> Vec<u8> {
    let (catalog, tree, page_id, content_id, font, stray) = (
        pdf_writer::Ref::new(1),
        pdf_writer::Ref::new(2),
        pdf_writer::Ref::new(3),
        pdf_writer::Ref::new(4),
        pdf_writer::Ref::new(5),
        pdf_writer::Ref::new(6),
    );
    let mut pdf = pdf_writer::Pdf::new();
    pdf.catalog(catalog).pages(tree);
    pdf.pages(tree).kids([page_id]).count(1);
    let mut page = pdf.page(page_id);
    page.media_box(pdf_writer::Rect::new(0.0, 0.0, 612.0, 792.0));
    page.parent(tree);
    page.contents(content_id);
    page.resources().fonts().pair(pdf_writer::Name(b"F1"), font);
    page.finish();
    pdf.type1_font(font).base_font(pdf_writer::Name(b"Helvetica"));
    let mut content = pdf_writer::Content::new();
    content.begin_text();
    content.set_font(pdf_writer::Name(b"F1"), 12.0);
    for line in 0..lines {
        content.set_text_matrix([1.0, 0.0, 0.0, 1.0, 50.0, 750.0 - 15.0 * line as f32]);
        content.show(pdf_writer::Str(b"the same words over and over and over again"));
    }
    content.end_text();
    pdf.stream(content_id, &content.finish());
    pdf.stream(stray, b"nothing refers to this stream");
    pdf.finish()
}

fn lines_of(page: &TextPage) -> Vec<(u32, u32, String)> {
    page.lines.iter().map(|line| (line.x, line.y, line.text.clone())).collect()
}

fn split(text: &str, limit: usize, width: usize) -> Vec<String> {
    clip_lines(&chars_of(text), limit, width).iter().map(string_of).collect()
}

#[test]
fn malformed_pdf_comes_back_unchanged() {
    let processor = PdfProcessor::new();
    let broken = b"%PDF-1.7 but nothing more".to_vec();
    assert_eq!(processor.optimize_pdf(&broken).unwrap(), broken);
    assert_eq!(processor.optimize_pdf(b"").unwrap(), Vec::<u8>::new());
    let junk: Vec<u8> = (0..=255).collect();
    assert_eq!(processor.optimize_pdf(&junk).unwrap(), junk);
}

#[test]
fn pdf_is_pruned_and_compressed() {
    let processor = PdfProcessor::new();
    let original = sample_pdf(40);
    let before = lopdf::Document::load_mem(&original).unwrap();
    assert!(before.objects.contains_key(&(6, 0)));
    let optimized = processor.optimize_pdf(&original).unwrap();
    assert!(optimized.len() < original.len());
    let after = lopdf::Document::load_mem(&optimized).unwrap();
    assert!(!after.objects.contains_key(&(6, 0)));
    assert!(after.objects.contains_key(&(4, 0)));
    assert_eq!(after.get_pages().len(), 1);
    match after.objects.get(&(4, 0)) {
        Some(lopdf::Object::Stream(stream)) => {
            assert!(stream.dict.has(b"Filter"));
            match before.objects.get(&(4, 0)) {
                Some(lopdf::Object::Stream(plain)) => {
                    assert!(!plain.dict.has(b"Filter"));
                    assert_eq!(stream.decompressed_content().unwrap(), plain.content);
                }
                other => panic!("expected a stream, got {:?}", other),
            }
        }
        other => panic!("expected a stream, got {:?}", other),
    }
}

fn plain_streams(document: &lopdf::Document) -> Vec<(u32, u16)> {
    document
        .objects
        .iter()
        .filter(|(_, object)| match object {
            lopdf::Object::Stream(stream) => !stream.dict.has(b"Filter"),
            _ => false,
        })
        .map(|(id, _)| *id)
        .collect()
}

#[test]
fn unused_objects_are_dropped() {
    let processor = PdfProcessor::new();
    let mut document = lopdf::Document::load_mem(&sample_pdf(40)).unwrap();
    let before: Vec<(u32, u16)> = document.objects.keys().copied().collect();
    assert_eq!(before, vec![(1, 0), (2, 0), (3, 0), (4, 0), (5, 0), (6, 0)]);
    assert_eq!(plain_streams(&document), vec![(4, 0), (6, 0)]);
    processor.remove_unused_objects(&mut document);
    let after: Vec<(u32, u16)> = document.objects.keys().copied().collect();
    assert_eq!(after, vec![(1, 0), (2, 0), (3, 0), (4, 0), (5, 0)]);
    assert_eq!(plain_streams(&document), vec![(4, 0)]);
}

#[test]
fn streams_are_compressed_where_that_pays() {
    let processor = PdfProcessor::new();
    let mut document = lopdf::Document::load_mem(&sample_pdf(40)).unwrap();
    let before: Vec<(u32, u16)> = document.objects.keys().copied().collect();
    let content = match document.objects.get(&(4, 0)) {
        Some(lopdf::Object::Stream(stream)) => stream.content.clone(),
        other => panic!("expected a stream, got {:?}", other),
    };
    processor.compress_streams(&mut document);
    let after: Vec<(u32, u16)> = document.objects.keys().copied().collect();
    assert_eq!(after, before);
    assert_eq!(plain_streams(&document), vec![(6, 0)]);
    match document.objects.get(&(4, 0)) {
        Some(lopdf::Object::Stream(stream)) => {
            assert!(stream.content.len() + 19 < content.len());
            assert_eq!(stream.decompressed_content().unwrap(), content);
        }
        other => panic!("expected a stream, got {:?}", other),
    }
    match document.objects.get(&(6, 0)) {
        Some(lopdf::Object::Stream(stream)) => {
            assert_eq!(stream.content, b"nothing refers to this stream".to_vec())
        }
        other => panic!("expected a stream, got {:?}", other),
    }
    processor.compress_streams(&mut document);
    assert_eq!(plain_streams(&document), vec![(6, 0)]);
}

#[test]
fn optimized_document_is_written_as_it_is_left() {
    let processor = PdfProcessor::new();
    let original = sample_pdf(40);
    let written = processor.optimize_document(lopdf::Document::load_mem(&original).unwrap()).unwrap();
    let mut by_hand = lopdf::Document::load_mem(&original).unwrap();
    processor.remove_unused_objects(&mut by_hand);
    processor.compress_streams(&mut by_hand);
    let mut expected = Vec::new();
    by_hand.save_to(&mut expected).unwrap();
    assert_eq!(written, expected);
    assert_eq!(written, processor.optimize_pdf(&original).unwrap());
    let back = lopdf::Document::load_mem(&written).unwrap();
    assert_eq!(plain_streams(&back), Vec::<(u32, u16)>::new());
    let keys: Vec<(u32, u16)> = back.objects.keys().copied().collect();
    assert_eq!(keys, vec![(1, 0), (2, 0), (3, 0), (4, 0), (5, 0)]);
}

#[test]
fn pdf_through_the_engine_is_optimized_and_stored() {
    let mut converter = DocumentConverter::new();
    let original = sample_pdf(40);
    let document =
        DocumentInfo::new("paper.pdf".to_string(), original.clone(), "application/pdf".to_string());
    let file = match converter.convert_to_format(&document, "PDF", u64::MAX).unwrap() {
        document_converter::converter::Conversion::Finished(file) => file,
        other => panic!("expected a file, got {:?}", other),
    };
    assert!(file.size < original.len() as u64);
    let broken =
        DocumentInfo::new("paper.pdf".to_string(), b"broken".to_vec(), "application/pdf".to_string());
    let file = match converter.convert_to_format(&broken, "PDF", u64::MAX).unwrap() {
        document_converter::converter::Conversion::Finished(file) => file,
        other => panic!("expected a file, got {:?}", other),
    };
    assert_eq!(converter.get_stored_file(&file.storage_handle), Some(&b"broken".to_vec()));
}

#[test]
fn placeholder_has_a_frame_and_a_block() {
    let picture = PdfProcessor::new().create_pdf_placeholder_image();
    assert_eq!((picture.width, picture.height, picture.layout), (800, 600, PixelLayout::Rgb));
    assert_eq!(picture.samples.len(), 800 * 600 * 3);
    let level = |x: usize, y: usize| {
        let at = (y * 800 + x) * 3;
        assert_eq!(picture.samples[at], picture.samples[at + 1]);
        assert_eq!(picture.samples[at], picture.samples[at + 2]);
        picture.samples[at]
    };
    for (x, y) in [(0, 0), (799, 0), (0, 599), (799, 599), (400, 0), (0, 300), (799, 300), (400, 599)] {
        assert_eq!(level(x, y), 100);
    }
    for (x, y) in [(350, 280), (449, 319), (400, 300), (350, 319), (449, 280)] {
        assert_eq!(level(x, y), 200);
    }
    for (x, y) in [(1, 1), (798, 598), (349, 300), (450, 300), (400, 279), (400, 320), (100, 100)] {
        assert_eq!(level(x, y), 240);
    }
    let levels =
        picture.samples.iter().fold([0usize; 3], |mut count, level| {
            match level {
                100 => count[0] += 1,
                200 => count[1] += 1,
                240 => count[2] += 1,
                other => panic!("unexpected level {}", other),
            }
            count
        });
    assert_eq!(levels[0], (2 * 800 + 2 * 598) * 3);
    assert_eq!(levels[1], 100 * 40 * 3);
}

#[test]
fn picture_of_a_pdf_is_the_placeholder() {
    let processor = PdfProcessor::new();
    let pdf = sample_pdf(3);
    let jpeg = processor.pdf_to_image(&pdf, RasterFormat::Jpeg, u64::MAX).unwrap();
    let back = decode(&jpeg).unwrap();
    assert_eq!((back.width, back.height), (800, 600));
    let png = processor.pdf_to_image(&pdf, RasterFormat::Png, u64::MAX).unwrap();
    let back = decode(&png).unwrap();
    assert_eq!(back.samples, processor.create_pdf_placeholder_image().samples);
    assert_eq!(png, processor.pdf_to_image(&sample_pdf(9), RasterFormat::Png, u64::MAX).unwrap());
}

#[test]
fn picture_of_a_pdf_is_compressed_to_its_limit() {
    let processor = PdfProcessor::new();
    let pdf = sample_pdf(3);
    let plain = processor.pdf_to_image(&pdf, RasterFormat::Jpeg, u64::MAX).unwrap();
    let limit = plain.len() as u64 * 3 / 4;
    let smaller = processor.pdf_to_image(&pdf, RasterFormat::Jpeg, limit).unwrap();
    assert!(smaller.len() as u64 <= limit);
    let plain = processor.pdf_to_image(&pdf, RasterFormat::Png, u64::MAX).unwrap();
    let smaller = processor.pdf_to_image(&pdf, RasterFormat::Png, plain.len() as u64 - 1).unwrap();
    assert!(smaller.len() < plain.len());
    let back = decode(&smaller).unwrap();
    assert!(back.width < 800);
}

#[test]
fn picture_does_not_depend_on_the_pdf() {
    let processor = PdfProcessor::new();
    let from_pdf = processor.pdf_to_image(&sample_pdf(3), RasterFormat::Png, u64::MAX).unwrap();
    let from_garbage = processor.pdf_to_image(b"no pdf at all", RasterFormat::Png, u64::MAX).unwrap();
    let from_nothing = processor.pdf_to_image(b"", RasterFormat::Png, u64::MAX).unwrap();
    assert_eq!(from_garbage, from_pdf);
    assert_eq!(from_nothing, from_pdf);
    let back = decode(&from_garbage).unwrap();
    assert_eq!((back.width, back.height), (800, 600));
    let limit = from_pdf.len() as u64 - 1;
    assert_eq!(
        processor.pdf_to_image(b"no pdf at all", RasterFormat::Png, limit).unwrap(),
        processor.pdf_to_image(&sample_pdf(3), RasterFormat::Png, limit).unwrap()
    );
    let plain = processor.pdf_to_image(b"junk", RasterFormat::Jpeg, u64::MAX).unwrap();
    let limit = plain.len() as u64 * 3 / 4;
    assert_eq!(
        processor.pdf_to_image(b"junk", RasterFormat::Jpeg, limit).unwrap(),
        processor.pdf_to_image(&sample_pdf(1), RasterFormat::Jpeg, limit).unwrap()
    );
}

#[test]
fn page_keeps_the_proportions_of_the_image() {
    let processor = PdfProcessor::new();
    assert_eq!(
        processor.calculate_page_size(2000, 1000),
        PageSize {
            width: Length { numerator: 595, denominator: 1 },
            height: Length { numerator: 595 * 1000, denominator: 2000 },
        }
    );
    assert_eq!(
        processor.calculate_page_size(1000, 2000),
        PageSize {
            width: Length { numerator: 842 * 1000, denominator: 2000 },
            height: Length { numerator: 842, denominator: 1 },
        }
    );
    assert_eq!(
        processor.calculate_page_size(595, 842),
        PageSize {
            width: Length { numerator: 842 * 595, denominator: 842 },
            height: Length { numerator: 842, denominator: 1 },
        }
    );
    assert_eq!(
        processor.calculate_page_size(596, 842),
        PageSize {
            width: Length { numerator: 595, denominator: 1 },
            height: Length { numerator: 595 * 842, denominator: 596 },
        }
    );
    assert_eq!(
        processor.calculate_page_size(u32::MAX, 1),
        PageSize {
            width: Length { numerator: 595, denominator: 1 },
            height: Length { numerator: 595, denominator: u32::MAX as u64 },
        }
    );
}

#[test]
fn image_page_shows_the_image_as_rgb() {
    let processor = PdfProcessor::new();
    let grey = document_converter::codec::PixelBuffer {
        width: 2,
        height: 1,
        layout: PixelLayout::Luma,
        samples: vec![10, 200],
    };
    let file = document_converter::codec::encode(&grey, document_converter::codec::Encoding::Png).unwrap();
    let draft = processor.create_pdf_from_image(&file, Some(10)).unwrap();
    assert_eq!(draft.attempt, 0);
    assert_eq!(draft.target_size, Some(10));
    assert_eq!(draft.source.samples, vec![10, 200]);
    assert_eq!(draft.page.pixels.samples, vec![10, 10, 10, 200, 200, 200]);
    assert_eq!(draft.page.page, processor.calculate_page_size(2, 1));
    assert!(matches!(
        processor.create_pdf_from_image(b"junk", None),
        Err(ConversionError::Image(_))
    ));
}

#[test]
fn draft_is_accepted_retried_and_given_up() {
    let processor = PdfProcessor::new();
    let picture = document_converter::codec::PixelBuffer {
        width: 8,
        height: 8,
        layout: PixelLayout::Rgb,
        samples: (0..192).map(|i| (i * 5 % 256) as u8).collect(),
    };
    let file = document_converter::codec::encode(&picture, document_converter::codec::Encoding::Png).unwrap();
    let unlimited = processor.create_pdf_from_image(&file, None).unwrap();
    assert!(matches!(processor.settle(unlimited, vec![0; 1000]), DraftStep::Accepted(bytes) if bytes.len() == 1000));
    let draft = processor.create_pdf_from_image(&file, Some(100)).unwrap();
    assert!(matches!(processor.settle(draft, vec![7; 100]), DraftStep::Accepted(bytes) if bytes == vec![7; 100]));
    let mut draft = processor.create_pdf_from_image(&file, Some(100)).unwrap();
    for attempt in 1..=5u8 {
        draft = match processor.settle(draft, vec![0; 101]) {
            DraftStep::Retry(next) => next,
            other => panic!("expected a further attempt, got {:?}", other),
        };
        assert_eq!(draft.attempt, attempt);
        assert_eq!(draft.target_size, Some(100));
        assert_eq!(draft.source.samples, picture.samples);
        let quality = processor.quality_of_attempt(attempt);
        let expected = processor.create_compressed_pdf_from_image(&draft.source, quality).unwrap();
        assert_eq!(draft.page.pixels.samples, expected.pixels.samples);
        assert_eq!((draft.page.pixels.width, draft.page.pixels.height), (8, 8));
    }
    match processor.settle(draft, vec![0; 101]) {
        DraftStep::Failed(ConversionError::CompressionFailed { message }) => {
            assert_eq!(message, "Could not create PDF under 100 bytes")
        }
        other => panic!("expected the attempts to end, got {:?}", other),
    }
}

#[test]
fn attempts_lower_the_quality_by_fifteen() {
    let processor = PdfProcessor::new();
    let ladder: Vec<u8> = (1..=7).map(|attempt| processor.quality_of_attempt(attempt)).collect();
    assert_eq!(ladder, vec![85, 70, 55, 40, 25, 20, 20]);
    assert_eq!(processor.quality_of_attempt(0), 85);
}

#[test]
fn text_page_shows_fifty_lines_of_eighty_characters() {
    let converter = DocumentConverter::new();
    let mut text = String::new();
    for line in 0..60 {
        text.push_str(&format!("{:03}", line));
        text.push_str(&"x".repeat(line * 2));
        text.push('\n');
    }
    let page = converter.create_text_pdf(text.as_bytes());
    assert_eq!((page.width, page.height, page.font_size), (612, 792, 12));
    assert_eq!(page.lines.len(), 50);
    for (k, line) in page.lines.iter().enumerate() {
        assert_eq!(line.x, 50);
        assert_eq!(line.y, 750 - 15 * k as u32);
        assert!(line.text.chars().count() <= 80);
        let full = format!("{:03}{}", k, "x".repeat(k * 2));
        let shown: String = full.chars().take(80).collect();
        assert_eq!(line.text, shown);
    }
    assert_eq!(page.lines[49].y, 15);
    assert_eq!(page.lines[40].text.chars().count(), 80);
}

#[test]
fn text_page_of_short_texts() {
    let converter = DocumentConverter::new();
    assert_eq!(lines_of(&converter.create_text_pdf(b"")), vec![]);
    assert_eq!(
        lines_of(&converter.create_text_pdf(b"one line")),
        vec![(50, 750, "one line".to_string())]
    );
    assert_eq!(
        lines_of(&converter.create_text_pdf(b"a\r\nb\n\nc")),
        vec![
            (50, 750, "a".to_string()),
            (50, 735, "b".to_string()),
            (50, 720, "".to_string()),
            (50, 705, "c".to_string()),
        ]
    );
    let wide: String = "\u{e9}".repeat(100);
    let page = converter.create_text_pdf(wide.as_bytes());
    assert_eq!(page.lines[0].text, "\u{e9}".repeat(80));
}

#[test]
fn lines_end_at_line_feeds() {
    assert_eq!(split("", 10, 10), Vec::<String>::new());
    assert_eq!(split("a", 10, 10), vec!["a"]);
    assert_eq!(split("a\n", 10, 10), vec!["a"]);
    assert_eq!(split("\n", 10, 10), vec![""]);
    assert_eq!(split("\n\n", 10, 10), vec!["", ""]);
    assert_eq!(split("a\nb", 10, 10), vec!["a", "b"]);
    assert_eq!(split("a\r\nb\r\n", 10, 10), vec!["a", "b"]);
    assert_eq!(split("a\rb\n", 10, 10), vec!["a\rb"]);
    assert_eq!(split("a\r", 10, 10), vec!["a\r"]);
    assert_eq!(split("a\r\r\n", 10, 10), vec!["a\r"]);
    assert_eq!(split("\r\n", 10, 10), vec![""]);
    assert_eq!(split("one\ntwo\nthree", 2, 10), vec!["one", "two"]);
    assert_eq!(split("one\ntwo\nthree", 0, 10), Vec::<String>::new());
    assert_eq!(split("one\ntwo\nthree", 10, 2), vec!["on", "tw", "th"]);
    assert_eq!(split("one\ntwo", 10, 0), vec!["", ""]);
    for text in ["", "a", "a\n", "a\r\nb", "\n\nx\r", "a\rb\r\n\r\n", "x\n\r\ny"] {
        let expected: Vec<String> = text.lines().map(|line| line.to_string()).collect();
        assert_eq!(split(text, usize::MAX, usize::MAX), expected);
    }
}

#[test]
fn characters_are_found_and_cut() {
    let chars = chars_of("a.b.c");
    assert_eq!(chars, vec!['a', '.', 'b', '.', 'c']);
    assert_eq!(find_char(&chars, 0, '.'), 1);
    assert_eq!(find_char(&chars, 1, '.'), 1);
    assert_eq!(find_char(&chars, 2, '.'), 3);
    assert_eq!(find_char(&chars, 4, '.'), 5);
    assert_eq!(find_char(&chars, 5, '.'), 5);
    assert_eq!(find_char(&chars, 0, 'x'), 5);
    assert_eq!(string_of(&slice_chars(&chars, 1, 4)), ".b.");
    assert_eq!(string_of(&slice_chars(&chars, 2, 2)), "");
    assert_eq!(string_of(&chars_of("gr\u{fc}n \u{1f600}")), "gr\u{fc}n \u{1f600}");
}

#[test]
fn numbers_are_written_in_decimal() {
    for (number, text) in [
        (0u64, "0"),
        (7, "7"),
        (10, "10"),
        (909, "909"),
        (1_000_000, "1000000"),
        (u64::MAX, "18446744073709551615"),
    ] {
        let mut out = String::from("n=");
        push_decimal(&mut out, number);
        assert_eq!(out, format!("n={}", text));
    }
}

#[test]
fn docx_holds_the_escaped_text() {
    let converter = DocumentConverter::new();
    let bytes = converter.create_docx_from_text(b"Tom & Jerry <\"cat\"> 'mouse'");
    let xml = String::from_utf8(bytes).unwrap();
    assert_eq!(
        xml,
        "<?xml version=\"1.0\" encoding=\"UTF-8\" standalone=\"yes\"?>\n<w:document xmlns:w=\"http://schemas.openxmlformats.org/wordprocessingml/2006/main\">\n    <w:body>\n        <w:p>\n            <w:r>\n                <w:t>Tom &amp; Jerry &lt;&quot;cat&quot;&gt; &#39;mouse&#39;</w:t>\n            </w:r>\n        </w:p>\n    </w:body>\n</w:document>"
    );
}

#[test]
fn docx_takes_five_thousand_characters() {
    let converter = DocumentConverter::new();
    let head = "<w:t>";
    let tail = "</w:t>";
    let body = |text: &str| {
        let xml = String::from_utf8(converter.create_docx_from_text(text.as_bytes())).unwrap();
        let from = xml.find(head).unwrap() + head.len();
        let to = xml.rfind(tail).unwrap();
        xml[from..to].to_string()
    };
    assert_eq!(body(&"a".repeat(6000)), "a".repeat(5000));
    assert_eq!(body(&"a".repeat(5000)), "a".repeat(5000));
    assert_eq!(body(&"a".repeat(4999)), "a".repeat(4999));
    assert_eq!(body(&"\u{e9}".repeat(5001)), "\u{e9}".repeat(5000));
    assert_eq!(body(&"<".repeat(5001)), "&lt;".repeat(5000));
    assert_eq!(body(""), "");
}

#[test]
fn bytes_that_are_no_text_are_replaced() {
    let converter = DocumentConverter::new();
    let xml = String::from_utf8(converter.create_docx_from_text(b"a\xffb")).unwrap();
    assert!(xml.contains("<w:t>a\u{fffd}b</w:t>"));
    let page = converter.create_text_pdf(b"a\xffb");
    assert_eq!(page.lines[0].text, "a\u{fffd}b");
}

#[test]
fn markup_is_escaped() {
    assert_eq!(encode_text(""), "");
    assert_eq!(encode_text("plain text"), "plain text");
    assert_eq!(encode_text("&"), "&amp;");
    assert_eq!(encode_text("<"), "&lt;");
    assert_eq!(encode_text(">"), "&gt;");
    assert_eq!(encode_text("\""), "&quot;");
    assert_eq!(encode_text("'"), "&#39;");
    assert_eq!(encode_text("&amp;"), "&amp;amp;");
    assert_eq!(encode_text("a<b>&'c'\""), "a&lt;b&gt;&amp;&#39;c&#39;&quot;");
    assert_eq!(encode_text("gr\u{fc}n & blau"), "gr\u{fc}n &amp; blau");
    let replaced = "a<b>&'c'\""
        .replace('&', "&amp;")
        .replace('<', "&lt;")
        .replace('>', "&gt;")
        .replace('"', "&quot;")
        .replace('\'', "&#39;");
    assert_eq!(encode_text("a<b>&'c'\""), replaced);
}

#[test]
fn errors_describe_themselves() {
    assert_eq!(
        ConversionError::Image("bad".to_string()).message(),
        "Image processing error: bad"
    );
    assert_eq!(ConversionError::Pdf("bad".to_string()).message(), "PDF processing error: bad");
    assert_eq!(ConversionError::Base64("bad".to_string()).message(), "Base64 decode error: bad");
    assert_eq!(
        ConversionError::UnsupportedFormat { format: "GIF".to_string() }.message(),
        "Unsupported format: GIF"
    );
    assert_eq!(
        ConversionError::SizeLimit { actual: 2048, limit: 1000 }.message(),
        "File size 2048 exceeds limit 1000"
    );
    assert_eq!(
        ConversionError::InvalidContent { message: "empty".to_string() }.message(),
        "Invalid file content: empty"
    );
    assert_eq!(
        ConversionError::CompressionFailed { message: "gave up".to_string() }.message(),
        "Compression failed: gave up"
    );
}

#[test]
fn first_limit_of_a_format_counts() {
    let limits = vec![
        SizeLimit { format: "PDF".to_string(), max_bytes: 10 },
        SizeLimit { format: "JPEG".to_string(), max_bytes: 20 },
        SizeLimit { format: "PDF".to_string(), max_bytes: 30 },
    ];
    assert_eq!(max_size_for(&limits, "PDF"), 10);
    assert_eq!(max_size_for(&limits, "JPEG"), 20);
    assert_eq!(max_size_for(&limits, "PNG"), u64::MAX);
    assert_eq!(max_size_for(&limits, "pdf"), u64::MAX);
    assert_eq!(max_size_for(&[].to_vec(), "PDF"), u64::MAX);
}

#[test]
fn store_keeps_files_under_their_identifiers() {
    let mut store = ArtifactStore::new();
    assert_eq!((store.len(), store.size()), (0, 0));
    assert!(store.insert("one".to_string(), vec![1]));
    assert!(store.insert("two".to_string(), vec![2, 2]));
    assert!(!store.insert("one".to_string(), vec![9, 9, 9]));
    assert_eq!((store.len(), store.size()), (2, 3));
    assert!(store.contains("one"));
    assert!(!store.contains("three"));
    assert_eq!(store.get("one"), Some(&vec![1]));
    assert_eq!(store.get("two"), Some(&vec![2, 2]));
    assert_eq!(store.get("three"), None);
    assert_eq!(store.get(""), None);
    store.clear();
    assert_eq!((store.len(), store.size()), (0, 0));
    assert_eq!(store.get("one"), None);
    assert!(store.insert("one".to_string(), vec![5]));
    assert_eq!(store.get("one"), Some(&vec![5]));
}

#[test]
fn store_makes_identifiers_that_are_not_in_use() {
    let mut store = ArtifactStore::new();
    assert_eq!(store.unused_id("free".to_string()), "free");
    assert_eq!(store.unused_id(String::new()), "-");
    assert!(store.insert("free".to_string(), vec![1]));
    assert!(store.insert("longer one".to_string(), vec![2]));
    assert_eq!(store.unused_id("other".to_string()), "other");
    assert_eq!(store.unused_id("free".to_string()), "free-----------");
    assert_eq!(store.unused_id(String::new()), "-----------");
    let made = store.unused_id("longer one".to_string());
    assert!(!store.contains(&made));
    assert!(store.insert(made, vec![3]));
    assert_eq!(store.len(), 3);
}

#[test]
fn document_records_the_size_of_its_content() {
    let document = DocumentInfo::new("a.txt".to_string(), vec![1, 2, 3], "text/plain".to_string());
    assert_eq!(document.size, 3);
    assert_eq!(document.name, "a.txt");
    assert_eq!(document.content, vec![1, 2, 3]);
    assert_eq!(document.mime_type, "text/plain");
    assert_eq!(DocumentInfo::new(String::new(), vec![], String::new()).size, 0);
}

#[test]
fn standard_settings() {
    let settings = CompressionSettings::default();
    assert_eq!((settings.quality, settings.png_compression, settings.max_iterations), (85, 6, 5));
}

#[test]
fn plain_records_hold_what_they_are_given() {
    let config = ExamConfig {
        name: "NEET".to_string(),
        formats: vec!["PDF".to_string()],
        max_sizes: vec![SizeLimit { format: "PDF".to_string(), max_bytes: 2 * 1024 * 1024 }],
    };
    assert_eq!(max_size_for(&config.max_sizes, &config.formats[0]), 2_097_152);
    let response = ConvertResponse { success: false, files: vec![], error: Some("no".to_string()) };
    assert!(!response.success && response.files.is_empty());
    assert_eq!(response.error.as_deref(), Some("no"));
}
