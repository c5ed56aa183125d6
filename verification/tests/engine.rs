use base64::Engine;
use document_converter::converter::{error_entry, Conversion, PageDraft};
use document_converter::dispatch::{route, source_kind, target_kind, Route, Source, Target};
use document_converter::pdf_processor::{ImagePage, PdfDraft};
use document_converter::{
    ConversionError, ConvertRequest, ConvertedFile, DocumentConverter, DocumentInfo, FileData,
    SizeLimit, SizeRatio,
};
use pdf_writer::Finish;

fn base64_of(bytes: &[u8]) -> String {
    base64::engine::general_purpose::STANDARD.encode(bytes)
}

fn file(name: &str, content: &[u8], mime_type: &str) -> FileData {
    FileData {
        name: name.to_string(),
        content: base64_of(content),
        mime_type: mime_type.to_string(),
    }
}

fn request(files: Vec<FileData>, formats: &[&str], limits: &[(&str, u64)]) -> ConvertRequest {
    ConvertRequest {
        files,
        exam_type: "test".to_string(),
        target_formats: formats.iter().map(|f| f.to_string()).collect(),
        max_sizes: limits
            .iter()
            .map(|(format, max_bytes)| SizeLimit { format: format.to_string(), max_bytes: *max_bytes })
            .collect(),
    }
}

fn smooth_png(width: u32, height: u32) -> Vec<u8> {
    let picture = image::RgbImage::from_fn(width, height, |x, y| {
        image::Rgb([
            (x * 255 / width) as u8,
            (y * 255 / height) as u8,
            ((x + y) * 255 / (width + height)) as u8,
        ])
    });
    let mut out = std::io::Cursor::new(Vec::new());
    image::DynamicImage::ImageRgb8(picture)
        .write_to(&mut out, image::ImageOutputFormat::Png)
        .unwrap();
    out.into_inner()
}

fn assemble(draft: &PageDraft) -> Vec<u8> {
    let (catalog, tree, page_id, content_id, extra) = (
        pdf_writer::Ref::new(1),
        pdf_writer::Ref::new(2),
        pdf_writer::Ref::new(3),
        pdf_writer::Ref::new(4),
        pdf_writer::Ref::new(5),
    );
    let mut pdf = pdf_writer::Pdf::new();
    pdf.catalog(catalog).pages(tree);
    pdf.pages(tree).kids([page_id]).count(1);
    let mut content = pdf_writer::Content::new();
    match draft {
        PageDraft::Image(draft) => {
            let size = draft.page.page;
            let width = size.width.numerator as f32 / size.width.denominator as f32;
            let height = size.height.numerator as f32 / size.height.denominator as f32;
            let mut page = pdf.page(page_id);
            page.media_box(pdf_writer::Rect::new(0.0, 0.0, width, height));
            page.parent(tree);
            page.contents(content_id);
            page.resources().x_objects().pair(pdf_writer::Name(b"Im1"), extra);
            page.finish();
            let mut picture = pdf.image_xobject(extra, &draft.page.pixels.samples);
            picture.width(draft.page.pixels.width as i32);
            picture.height(draft.page.pixels.height as i32);
            picture.color_space().device_rgb();
            picture.bits_per_component(8);
            picture.finish();
            content.save_state();
            content.transform([width, 0.0, 0.0, height, 0.0, 0.0]);
            content.x_object(pdf_writer::Name(b"Im1"));
            content.restore_state();
        }
        PageDraft::Text(text) => {
            let mut page = pdf.page(page_id);
            page.media_box(pdf_writer::Rect::new(0.0, 0.0, text.width as f32, text.height as f32));
            page.parent(tree);
            page.contents(content_id);
            page.resources().fonts().pair(pdf_writer::Name(b"F1"), extra);
            page.finish();
            pdf.type1_font(extra).base_font(pdf_writer::Name(b"Helvetica"));
            content.begin_text();
            content.set_font(pdf_writer::Name(b"F1"), text.font_size as f32);
            for line in &text.lines {
                content.set_text_matrix([1.0, 0.0, 0.0, 1.0, line.x as f32, line.y as f32]);
                content.show(pdf_writer::Str(line.text.as_bytes()));
            }
            content.end_text();
        }
    }
    pdf.stream(content_id, &content.finish());
    pdf.finish()
}

fn finished(entry: &Conversion) -> &ConvertedFile {
    match entry {
        Conversion::Finished(file) => file,
        Conversion::AwaitingPage(_) => panic!("the conversion waits for its page"),
    }
}

fn complete(converter: &mut DocumentConverter, entry: Conversion) -> ConvertedFile {
    let mut entry = entry;
    loop {
        match entry {
            Conversion::Finished(file) => return file,
            Conversion::AwaitingPage(pending) => {
                let assembled = assemble(&pending.draft);
                entry = converter.complete_page(pending, assembled);
            }
        }
    }
}

#[test]
fn test_converter_creation() {
    let converter = DocumentConverter::new();
    assert_eq!(converter.get_storage_stats(), (0, 0));
}

#[test]
fn batch_has_one_entry_for_each_document_and_format() {
    let mut converter = DocumentConverter::new();
    let batch = request(
        vec![
            file("first.txt", b"one", "text/plain"),
            file("empty.txt", b"", "text/plain"),
            file("second.txt", b"two", "text/plain"),
        ],
        &["DOCX", "PDF", "JPEG"],
        &[],
    );
    let entries = converter.convert_documents(&batch).unwrap();
    assert_eq!(entries.len(), 2 * 3);
    let names = ["first.txt", "second.txt"];
    let formats = ["DOCX", "PDF", "JPEG"];
    for (place, entry) in entries.iter().enumerate() {
        let (name, format) = match entry {
            Conversion::Finished(file) => (&file.original_name, &file.format),
            Conversion::AwaitingPage(pending) => (&pending.original_name, &pending.format),
        };
        assert_eq!(name, names[place / 3]);
        assert_eq!(format, formats[place % 3]);
    }
    assert!(!finished(&entries[0]).is_error());
    assert!(matches!(entries[1], Conversion::AwaitingPage(_)));
    assert!(finished(&entries[2]).is_error());
}

#[test]
fn batch_without_formats_or_documents_is_empty() {
    let mut converter = DocumentConverter::new();
    let no_formats = request(vec![file("a.txt", b"text", "text/plain")], &[], &[]);
    assert_eq!(converter.convert_documents(&no_formats).unwrap().len(), 0);
    let no_files = request(vec![], &["PDF"], &[]);
    assert_eq!(converter.convert_documents(&no_files).unwrap().len(), 0);
    let only_empty = request(vec![file("a.txt", b"", "text/plain")], &["PDF", "DOCX"], &[]);
    assert_eq!(converter.convert_documents(&only_empty).unwrap().len(), 0);
}

#[test]
fn png_becomes_a_jpeg_under_fifty_thousand_bytes() {
    assert_eq!(route(source_kind("image/png"), Target::Jpeg), Some(Route::ConvertToJpeg));
    let mut converter = DocumentConverter::new();
    let png = smooth_png(2000, 1000);
    let batch = request(vec![file("photo.png", &png, "image/png")], &["JPEG"], &[("JPEG", 50_000)]);
    let entries = converter.convert_documents(&batch).unwrap();
    assert_eq!(entries.len(), 1);
    let artifact = finished(&entries[0]);
    assert!(!artifact.is_error());
    assert!(artifact.size <= 50_000);
    assert_eq!(artifact.format, "JPEG");
    assert_eq!(artifact.original_name, "photo.png");
    assert_eq!(artifact.converted_name, "photo.jpeg");
    let stored = converter.get_stored_file(&artifact.storage_handle).unwrap();
    assert_eq!(stored.len() as u64, artifact.size);
    assert_eq!(&stored[..3], &[0xff, 0xd8, 0xff]);
    assert_eq!(
        artifact.compression_ratio,
        Some(SizeRatio { converted: artifact.size, original: png.len() as u64 })
    );
}

#[test]
fn file_that_cannot_be_decoded_fails_the_whole_batch() {
    let mut converter = DocumentConverter::new();
    let mut broken = file("broken.txt", b"later", "text/plain");
    broken.content = "this is not base64!".to_string();
    let batch = request(vec![file("good.txt", b"fine", "text/plain"), broken], &["DOCX"], &[]);
    let result = converter.convert_documents(&batch);
    match result {
        Err(ConversionError::Base64(message)) => assert!(!message.is_empty()),
        other => panic!("expected a base64 failure, got {:?}", other.map(|entries| entries.len())),
    }
    assert_eq!(converter.get_storage_stats().0, 1);
}

#[test]
fn pdf_to_docx_is_recorded_as_a_failure() {
    let mut converter = DocumentConverter::new();
    let batch = request(vec![file("paper.pdf", b"%PDF-1.4", "application/pdf")], &["DOCX"], &[]);
    let entries = converter.convert_documents(&batch).unwrap();
    assert_eq!(entries.len(), 1);
    let record = finished(&entries[0]);
    assert!(record.is_error());
    assert_eq!(record.format, "DOCX");
    assert_eq!(record.size, 0);
    assert_eq!(record.converted_name, "ERROR_paper.docx");
    assert_eq!(record.storage_handle, "");
    assert_eq!(record.original_name, "paper.pdf");
    assert_eq!(record.compression_ratio, None);
    assert_eq!(converter.get_storage_stats(), (0, 0));
}

#[test]
fn unsupported_pair_names_both_formats() {
    let mut converter = DocumentConverter::new();
    let document = DocumentInfo::new("paper.pdf".to_string(), b"%PDF".to_vec(), "application/pdf".to_string());
    match converter.convert_to_format(&document, "DOCX", u64::MAX) {
        Err(ConversionError::UnsupportedFormat { format }) => {
            assert_eq!(format, "application/pdf to DOCX")
        }
        other => panic!("expected an unsupported format, got {:?}", other),
    }
    let text = DocumentInfo::new("a.txt".to_string(), b"a".to_vec(), "text/plain".to_string());
    match converter.convert_to_format(&text, "jpg", u64::MAX) {
        Err(ConversionError::UnsupportedFormat { format }) => assert_eq!(format, "text/plain to JPEG"),
        other => panic!("expected an unsupported format, got {:?}", other),
    }
    match converter.convert_to_format(&text, "PNG", u64::MAX) {
        Err(ConversionError::UnsupportedFormat { format }) => assert_eq!(format, "text/plain to PNG"),
        other => panic!("expected an unsupported format, got {:?}", other),
    }
    let odd = DocumentInfo::new("a.bin".to_string(), b"a".to_vec(), "application/zip".to_string());
    match converter.convert_to_format(&odd, "PDF", u64::MAX) {
        Err(ConversionError::UnsupportedFormat { format }) => assert_eq!(format, "application/zip to PDF"),
        other => panic!("expected an unsupported format, got {:?}", other),
    }
}

#[test]
fn unknown_target_is_unsupported() {
    let mut converter = DocumentConverter::new();
    let text = DocumentInfo::new("a.txt".to_string(), b"a".to_vec(), "text/plain".to_string());
    match converter.convert_to_format(&text, "GIF", u64::MAX) {
        Err(ConversionError::UnsupportedFormat { format }) => assert_eq!(format, "GIF"),
        other => panic!("expected an unsupported format, got {:?}", other),
    }
    assert_eq!(target_kind("GIF"), None);
    assert_eq!(target_kind(""), None);
}

#[test]
fn target_is_read_in_any_case() {
    assert_eq!(target_kind("pdf"), Some(Target::Pdf));
    assert_eq!(target_kind("PDF"), Some(Target::Pdf));
    assert_eq!(target_kind("Jpg"), Some(Target::Jpeg));
    assert_eq!(target_kind("jpeg"), Some(Target::Jpeg));
    assert_eq!(target_kind("pNg"), Some(Target::Png));
    assert_eq!(target_kind("docx"), Some(Target::Docx));
}

#[test]
fn mime_types_are_read_exactly() {
    assert_eq!(source_kind("application/pdf"), Some(Source::Pdf));
    assert_eq!(source_kind("image/jpeg"), Some(Source::Jpeg));
    assert_eq!(source_kind("image/jpg"), Some(Source::Jpeg));
    assert_eq!(source_kind("image/png"), Some(Source::Png));
    assert_eq!(source_kind("image/webp"), Some(Source::Webp));
    assert_eq!(source_kind("text/plain"), Some(Source::Text));
    assert_eq!(
        source_kind("application/vnd.openxmlformats-officedocument.wordprocessingml.document"),
        Some(Source::Docx)
    );
    assert_eq!(source_kind("application/msword"), Some(Source::Doc));
    assert_eq!(source_kind("IMAGE/PNG"), None);
    assert_eq!(source_kind("image/gif"), None);
    assert_eq!(source_kind(""), None);
}

#[test]
fn dispatch_table_is_complete() {
    let sources = [
        Source::Pdf,
        Source::Jpeg,
        Source::Png,
        Source::Webp,
        Source::Text,
        Source::Docx,
        Source::Doc,
    ];
    let targets = [Target::Pdf, Target::Jpeg, Target::Png, Target::Docx];
    let table = [
        [Some(Route::OptimizePdf), Some(Route::PdfToJpeg), Some(Route::PdfToPng), None],
        [Some(Route::ImageToPdf), Some(Route::CompressJpeg), Some(Route::ConvertToPng), None],
        [Some(Route::ImageToPdf), Some(Route::ConvertToJpeg), Some(Route::CompressPng), None],
        [Some(Route::ImageToPdf), Some(Route::ConvertToJpeg), Some(Route::ConvertToPng), None],
        [Some(Route::TextToPdf), None, None, Some(Route::TextToDocx)],
        [None, None, None, Some(Route::KeepDocument)],
        [None, None, None, Some(Route::KeepDocument)],
    ];
    for (row, source) in sources.iter().enumerate() {
        for (column, target) in targets.iter().enumerate() {
            assert_eq!(route(Some(*source), *target), table[row][column]);
        }
    }
    for target in targets.iter() {
        assert_eq!(route(None, *target), None);
    }
}

#[test]
fn converted_name_is_base_name_and_lower_case_format() {
    let mut converter = DocumentConverter::new();
    let document =
        DocumentInfo::new("report.final.txt".to_string(), b"text".to_vec(), "text/plain".to_string());
    let file = match converter.convert_to_format(&document, "DoCx", u64::MAX).unwrap() {
        Conversion::Finished(file) => file,
        other => panic!("expected a file, got {:?}", other),
    };
    assert_eq!(file.converted_name, "report.docx");
    assert_eq!(file.format, "DoCx");
    assert_eq!(file.original_name, "report.final.txt");
    let record = error_entry("no_extension", "PDF");
    assert_eq!(record.converted_name, "ERROR_no_extension.pdf");
    assert_eq!(error_entry(".hidden", "Png").converted_name, "ERROR_.png");
    assert_eq!(error_entry("", "JPEG").converted_name, "ERROR_.jpeg");
}

#[test]
fn stored_file_is_within_its_limit_and_in_the_store() {
    let mut converter = DocumentConverter::new();
    let batch = request(
        vec![file("notes.txt", b"some notes", "text/plain")],
        &["DOCX"],
        &[("DOCX", 1_000)],
    );
    let entries = converter.convert_documents(&batch).unwrap();
    let artifact = finished(&entries[0]);
    assert!(!artifact.is_error());
    assert!(artifact.size <= 1_000);
    assert_eq!(artifact.storage_handle.chars().count(), 36);
    let stored = converter.get_stored_file(&artifact.storage_handle).unwrap();
    assert_eq!(stored.len() as u64, artifact.size);
    assert_eq!(converter.get_storage_stats(), (1, artifact.size));
    assert_eq!(
        artifact.compression_ratio,
        Some(SizeRatio { converted: artifact.size, original: 10 })
    );
}

#[test]
fn result_over_its_limit_is_refused() {
    let mut converter = DocumentConverter::new();
    let batch =
        request(vec![file("notes.txt", b"some notes", "text/plain")], &["DOCX"], &[("DOCX", 10)]);
    let entries = converter.convert_documents(&batch).unwrap();
    assert!(finished(&entries[0]).is_error());
    assert_eq!(converter.get_storage_stats(), (0, 0));
    let refused = converter.store_converted("a.txt", 3, "DOCX", 4, vec![1, 2, 3, 4, 5]);
    match refused {
        Err(ConversionError::SizeLimit { actual, limit }) => {
            assert_eq!((actual, limit), (5, 4));
        }
        other => panic!("expected a size failure, got {:?}", other),
    }
    let kept = converter.store_converted("a.txt", 3, "DOCX", 5, vec![1, 2, 3, 4, 5]).unwrap();
    assert_eq!(kept.size, 5);
}

#[test]
fn identifier_in_use_is_made_unused() {
    let mut converter = DocumentConverter::new();
    let first = converter
        .store_converted_as("id-1".to_string(), "a.txt", 0, "PDF", 10, vec![1, 2, 3])
        .unwrap();
    assert_eq!(first.storage_handle, "id-1");
    assert_eq!(first.compression_ratio, None);
    let again = converter
        .store_converted_as("id-1".to_string(), "b.txt", 1, "PDF", 10, vec![4])
        .unwrap();
    assert_eq!(again.storage_handle, "id-1-----");
    let nameless =
        converter.store_converted_as(String::new(), "b.txt", 1, "PDF", 10, vec![5]).unwrap();
    assert_eq!(nameless.storage_handle, "----------");
    let third = converter
        .store_converted_as("id-1".to_string(), "b.txt", 1, "PDF", 10, vec![6])
        .unwrap();
    assert_eq!(third.storage_handle, "id-1-----------");
    assert_eq!(converter.get_stored_file("id-1"), Some(&vec![1, 2, 3]));
    assert_eq!(converter.get_stored_file("id-1-----"), Some(&vec![4]));
    assert_eq!(converter.get_stored_file("----------"), Some(&vec![5]));
    assert_eq!(converter.get_stored_file("id-1-----------"), Some(&vec![6]));
    assert_eq!(converter.get_storage_stats(), (4, 6));
}

#[test]
fn identifiers_differ_from_file_to_file() {
    let mut converter = DocumentConverter::new();
    let one = converter.store_converted("a.txt", 1, "PDF", 10, vec![1]).unwrap();
    let two = converter.store_converted("a.txt", 1, "PDF", 10, vec![2]).unwrap();
    assert_ne!(one.storage_handle, two.storage_handle);
    assert_eq!(converter.get_stored_file(&one.storage_handle), Some(&vec![1]));
    assert_eq!(converter.get_stored_file(&two.storage_handle), Some(&vec![2]));
}

#[test]
fn format_without_limit_has_none() {
    let mut converter = DocumentConverter::new();
    let batch = request(
        vec![file("notes.txt", b"some notes", "text/plain")],
        &["DOCX"],
        &[("PDF", 1), ("docx", 1)],
    );
    let entries = converter.convert_documents(&batch).unwrap();
    assert!(!finished(&entries[0]).is_error());
}

#[test]
fn word_documents_pass_through_unchanged() {
    let mut converter = DocumentConverter::new();
    let content = b"PK\x03\x04 not really a document".to_vec();
    let batch = request(
        vec![
            file(
                "a.docx",
                &content,
                "application/vnd.openxmlformats-officedocument.wordprocessingml.document",
            ),
            file("b.doc", &content, "application/msword"),
        ],
        &["DOCX"],
        &[],
    );
    let entries = converter.convert_documents(&batch).unwrap();
    for entry in entries.iter() {
        let artifact = finished(entry);
        assert_eq!(converter.get_stored_file(&artifact.storage_handle), Some(&content));
        assert_eq!(
            artifact.compression_ratio,
            Some(SizeRatio { converted: content.len() as u64, original: content.len() as u64 })
        );
    }
}

#[test]
fn text_page_is_assembled_and_stored() {
    let mut converter = DocumentConverter::new();
    let batch = request(vec![file("notes.txt", b"line one\nline two", "text/plain")], &["PDF"], &[]);
    let mut entries = converter.convert_documents(&batch).unwrap();
    let entry = entries.remove(0);
    let page = match &entry {
        Conversion::AwaitingPage(pending) => match &pending.draft {
            PageDraft::Text(page) => page.clone(),
            other => panic!("expected a text page, got {:?}", other),
        },
        other => panic!("expected a pending page, got {:?}", other),
    };
    assert_eq!(page.lines.len(), 2);
    assert_eq!((page.width, page.height, page.font_size), (612, 792, 12));
    assert_eq!(converter.get_storage_stats(), (0, 0));
    let assembled = assemble(&PageDraft::Text(page));
    let artifact = complete(&mut converter, entry);
    assert!(!artifact.is_error());
    assert_eq!(artifact.size, assembled.len() as u64);
    assert_eq!(artifact.converted_name, "notes.pdf");
    assert_eq!(converter.get_stored_file(&artifact.storage_handle), Some(&assembled));
}

#[test]
fn text_page_over_its_limit_is_refused() {
    let mut converter = DocumentConverter::new();
    let batch =
        request(vec![file("notes.txt", b"line one", "text/plain")], &["PDF"], &[("PDF", 20)]);
    let mut entries = converter.convert_documents(&batch).unwrap();
    let record = complete(&mut converter, entries.remove(0));
    assert!(record.is_error());
    assert_eq!(record.converted_name, "ERROR_notes.pdf");
    assert_eq!(converter.get_storage_stats(), (0, 0));
}

#[test]
fn image_page_within_its_limit_is_stored() {
    let mut converter = DocumentConverter::new();
    let png = smooth_png(40, 20);
    let batch = request(vec![file("photo.png", &png, "image/png")], &["PDF"], &[]);
    let mut entries = converter.convert_documents(&batch).unwrap();
    let entry = entries.remove(0);
    match &entry {
        Conversion::AwaitingPage(pending) => match &pending.draft {
            PageDraft::Image(draft) => {
                assert_eq!(draft.attempt, 0);
                assert_eq!(draft.target_size, Some(u64::MAX));
                assert_eq!((draft.page.pixels.width, draft.page.pixels.height), (40, 20));
                assert_eq!(draft.page.pixels.samples.len(), 40 * 20 * 3);
            }
            other => panic!("expected an image page, got {:?}", other),
        },
        other => panic!("expected a pending page, got {:?}", other),
    }
    let artifact = complete(&mut converter, entry);
    assert!(!artifact.is_error());
    assert!(artifact.size > 40 * 20 * 3);
    let stored = converter.get_stored_file(&artifact.storage_handle).unwrap();
    assert_eq!(&stored[..5], b"%PDF-");
}

#[test]
fn image_page_over_its_limit_is_tried_five_times_more() {
    let mut converter = DocumentConverter::new();
    let png = smooth_png(40, 20);
    let batch = request(vec![file("photo.png", &png, "image/png")], &["PDF"], &[("PDF", 100)]);
    let mut entries = converter.convert_documents(&batch).unwrap();
    let mut entry = entries.remove(0);
    let mut attempts = Vec::new();
    let record = loop {
        match entry {
            Conversion::Finished(file) => break file,
            Conversion::AwaitingPage(pending) => {
                match &pending.draft {
                    PageDraft::Image(draft) => attempts.push(draft.attempt),
                    other => panic!("expected an image page, got {:?}", other),
                }
                assert_eq!(pending.max_size, 100);
                let assembled = assemble(&pending.draft);
                assert!(assembled.len() > 100);
                entry = converter.complete_page(pending, assembled);
            }
        }
    };
    assert_eq!(attempts, vec![0, 1, 2, 3, 4, 5]);
    assert!(record.is_error());
    assert_eq!(record.converted_name, "ERROR_photo.pdf");
    assert_eq!(converter.get_storage_stats(), (0, 0));
}

#[test]
fn unreadable_image_gives_no_page() {
    let mut converter = DocumentConverter::new();
    let document =
        DocumentInfo::new("photo.png".to_string(), b"no image".to_vec(), "image/png".to_string());
    let result = converter.convert_to_format(&document, "PDF", u64::MAX);
    assert!(matches!(result, Err(ConversionError::Image(_))));
    for target in ["JPEG", "PNG"] {
        let result = converter.convert_to_format(&document, target, u64::MAX);
        assert!(matches!(result, Err(ConversionError::Image(_))));
    }
}

#[test]
fn draft_without_pixels_is_refused_when_it_does_not_fit() {
    let mut converter = DocumentConverter::new();
    let png = smooth_png(4, 4);
    let batch = request(vec![file("photo.png", &png, "image/png")], &["PDF"], &[("PDF", 10)]);
    let mut entries = converter.convert_documents(&batch).unwrap();
    let mut pending = match entries.remove(0) {
        Conversion::AwaitingPage(pending) => pending,
        other => panic!("expected a pending page, got {:?}", other),
    };
    let page: ImagePage = match &pending.draft {
        PageDraft::Image(draft) => draft.page.clone(),
        other => panic!("expected an image page, got {:?}", other),
    };
    let mut source = page.pixels.clone();
    source.samples.clear();
    pending.draft = PageDraft::Image(PdfDraft { page, source, target_size: Some(10), attempt: 0 });
    let record = finished(&converter.complete_page(pending, vec![0; 11])).clone();
    assert!(record.is_error());
}

#[test]
fn file_of_exactly_its_limit_is_stored() {
    let mut converter = DocumentConverter::new();
    let document = DocumentInfo::new(
        "cv.docx".to_string(),
        vec![1, 2, 3, 4],
        "application/vnd.openxmlformats-officedocument.wordprocessingml.document".to_string(),
    );
    let file = match converter.convert_to_format(&document, "DOCX", 4).unwrap() {
        Conversion::Finished(file) => file,
        other => panic!("expected a file, got {:?}", other),
    };
    assert_eq!(file.original_name, "cv.docx");
    assert_eq!(file.converted_name, "cv.docx");
    assert_eq!(file.format, "DOCX");
    assert_eq!(file.size, 4);
    assert_eq!(file.compression_ratio, Some(SizeRatio { converted: 4, original: 4 }));
    assert_eq!(converter.get_storage_stats(), (1, 4));
    assert_eq!(converter.get_stored_file(&file.storage_handle), Some(&vec![1, 2, 3, 4]));
    match converter.convert_to_format(&document, "DOCX", 3) {
        Err(ConversionError::SizeLimit { actual, limit }) => assert_eq!((actual, limit), (4, 3)),
        other => panic!("expected a size failure, got {:?}", other),
    }
    assert_eq!(converter.get_storage_stats(), (1, 4));
}

#[test]
fn picture_of_a_pdf_is_made_of_any_content() {
    let mut converter = DocumentConverter::new();
    let batch = request(
        vec![file("paper.pdf", b"not a pdf at all", "application/pdf")],
        &["PNG", "JPEG"],
        &[],
    );
    let entries = converter.convert_documents(&batch).unwrap();
    assert_eq!(entries.len(), 2);
    for entry in entries.iter() {
        let artifact = finished(entry);
        assert!(!artifact.is_error());
        assert_eq!(artifact.size, converter.get_stored_file(&artifact.storage_handle).unwrap().len() as u64);
    }
    assert_eq!(finished(&entries[0]).converted_name, "paper.png");
    assert_eq!(finished(&entries[1]).converted_name, "paper.jpeg");
}

#[test]
fn stored_files_are_counted_and_cleared() {
    let mut converter = DocumentConverter::new();
    assert_eq!(converter.get_stored_file("missing"), None);
    converter.store_converted_as("a".to_string(), "a.txt", 1, "PDF", 10, vec![1, 2, 3]).unwrap();
    converter.store_converted_as("b".to_string(), "b.txt", 1, "PDF", 10, vec![4, 5]).unwrap();
    assert_eq!(converter.get_storage_stats(), (2, 5));
    assert_eq!(converter.get_stored_file("b"), Some(&vec![4, 5]));
    assert_eq!(converter.get_stored_file("c"), None);
    assert_eq!(converter.cleanup_temp_files(), (2, 5));
    assert_eq!(converter.get_storage_stats(), (0, 0));
    assert_eq!(converter.get_stored_file("a"), None);
    assert_eq!(converter.cleanup_temp_files(), (0, 0));
}
