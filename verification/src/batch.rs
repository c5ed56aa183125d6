//! What a batch answers: one entry for every document and every target
//! format, and a store that takes in just the files that were converted.

use crate::converter::{base64_decoded, Conversion, PageDraft, PendingPage};
use crate::outcome::{expected, is_artifact, is_error_record, tells, Expected, Paper};
use crate::pdf_processor::{is_optimized, pdf_file, pdf_quality, recompressed};
use crate::pdf_processor::{tells_save_failure, PdfContents};
use crate::pdf_processor::PDF_ATTEMPTS;
use crate::store::{distinct, holds, lemma_lookup_at, lookup, Entry};
use crate::types::{size_limit_for, CompressionSettings, ConversionError, ConvertRequest};
use crate::types::{ConvertedFile, FileData};
use vstd::prelude::*;

verus! {

/// Whether `pending` waits for the page of converting the document `name`
/// of `original_size` bytes to `format` under `ceiling`.
pub open spec fn awaits(
    pending: PendingPage,
    name: Seq<char>,
    original_size: u64,
    format: Seq<char>,
    ceiling: u64,
) -> bool {
    &&& pending.original_name@ == name
    &&& pending.original_size == original_size
    &&& pending.format@ == format
    &&& pending.max_size == ceiling
    &&& pending.wf()
}

/// Whether `result` is what becomes of the file `bytes` that was converted
/// from the document `name` to `format`, in a store that goes from `before`
/// to `after`. A file within its limit is stored under an identifier that
/// was not in use, and described. A file over its limit is refused with
/// `SizeLimit`, and the store stays as it is.
pub open spec fn keeps(
    before: Seq<Entry>,
    after: Seq<Entry>,
    result: Result<ConvertedFile, ConversionError>,
    name: Seq<char>,
    original_size: u64,
    format: Seq<char>,
    ceiling: u64,
    bytes: Seq<u8>,
) -> bool {
    if bytes.len() <= ceiling {
        &&& result matches Ok(file)
        &&& is_artifact(file, name, original_size, format, bytes.len())
        &&& !holds(before, file.storage_handle@)
        &&& after == before.push(Entry { id: file.storage_handle@, content: bytes })
    } else {
        &&& result matches Err(ConversionError::SizeLimit { actual, limit })
        &&& actual == bytes.len()
        &&& limit == ceiling
        &&& after == before
    }
}

/// Whether `result` is how a conversion ends that made the file `bytes`.
pub open spec fn ends_with(
    before: Seq<Entry>,
    after: Seq<Entry>,
    result: Result<Conversion, ConversionError>,
    name: Seq<char>,
    original_size: u64,
    format: Seq<char>,
    ceiling: u64,
    bytes: Seq<u8>,
) -> bool {
    match result {
        Ok(Conversion::Finished(file)) => keeps(
            before,
            after,
            Ok(file),
            name,
            original_size,
            format,
            ceiling,
            bytes,
        ),
        Ok(Conversion::AwaitingPage(_)) => false,
        Err(error) => keeps(
            before,
            after,
            Err(error),
            name,
            original_size,
            format,
            ceiling,
            bytes,
        ),
    }
}

/// Whether `result` is how converting `paper` to `format` under `ceiling`
/// ends, in a store that goes from `before` to `after`.
pub open spec fn concludes(
    before: Seq<Entry>,
    after: Seq<Entry>,
    paper: Paper,
    original_size: u64,
    format: Seq<char>,
    ceiling: u64,
    settings: CompressionSettings,
    result: Result<Conversion, ConversionError>,
) -> bool {
    match expected(paper, format, ceiling, settings) {
        Expected::Failure(failure) => {
            &&& after == before
            &&& result matches Err(error)
            &&& tells(error, failure)
        },
        Expected::File(bytes) => ends_with(
            before,
            after,
            result,
            paper.name,
            original_size,
            format,
            ceiling,
            bytes,
        ),
        Expected::Optimized(read) => exists|written: lopdf::Document|
            is_optimized(written, read) && match #[trigger] pdf_file(written) {
                Some(bytes) => ends_with(
                    before,
                    after,
                    result,
                    paper.name,
                    original_size,
                    format,
                    ceiling,
                    bytes,
                ),
                None => {
                    &&& after == before
                    &&& result matches Err(error)
                    &&& tells_save_failure(error)
                },
            },
        Expected::ImagePage(image) => {
            &&& after == before
            &&& result matches Ok(Conversion::AwaitingPage(pending))
            &&& awaits(pending, paper.name, original_size, format, ceiling)
            &&& pending.draft matches PageDraft::Image(draft)
            &&& draft.source@ == image
            &&& draft.attempt == 0
        },
        Expected::TextPage(lines) => {
            &&& after == before
            &&& result matches Ok(Conversion::AwaitingPage(pending))
            &&& awaits(pending, paper.name, original_size, format, ceiling)
            &&& pending.draft matches PageDraft::Text(page)
            &&& page@ == lines
        },
    }
}

/// Whether `file` is the outcome for the file `bytes`: the description of
/// `bytes` as they lie in `store`, where they are within `ceiling`, and the
/// record of a failure, where they are over it.
pub open spec fn accounts_for(
    file: ConvertedFile,
    store: Seq<Entry>,
    name: Seq<char>,
    original_size: u64,
    format: Seq<char>,
    ceiling: u64,
    bytes: Seq<u8>,
) -> bool {
    if bytes.len() <= ceiling {
        &&& is_artifact(file, name, original_size, format, bytes.len())
        &&& lookup(store, file.storage_handle@) == Some(bytes)
    } else {
        is_error_record(file, name, format)
    }
}

/// Whether `file` is the outcome for a PDF that holds `read`: that for the
/// file of the optimised document, or, only where that document cannot be
/// written, the record of a failure.
pub open spec fn file_of_optimized(
    file: ConvertedFile,
    store: Seq<Entry>,
    name: Seq<char>,
    original_size: u64,
    format: Seq<char>,
    ceiling: u64,
    read: PdfContents,
) -> bool {
    exists|written: lopdf::Document|
        is_optimized(written, read) && match #[trigger] pdf_file(written) {
            Some(bytes) => accounts_for(file, store, name, original_size, format, ceiling, bytes),
            None => is_error_record(file, name, format),
        }
}

/// Whether `entry` is the entry of a batch for converting `paper` to
/// `format` under `ceiling`, with `store` as the batch leaves it.
pub open spec fn settled(
    entry: Conversion,
    store: Seq<Entry>,
    paper: Paper,
    format: Seq<char>,
    ceiling: u64,
    settings: CompressionSettings,
) -> bool {
    let size = paper.content.len() as u64;
    match expected(paper, format, ceiling, settings) {
        Expected::Failure(_) => entry matches Conversion::Finished(file) && is_error_record(
            file,
            paper.name,
            format,
        ),
        Expected::File(bytes) => entry matches Conversion::Finished(file) && accounts_for(
            file,
            store,
            paper.name,
            size,
            format,
            ceiling,
            bytes,
        ),
        Expected::Optimized(read) => {
            &&& entry matches Conversion::Finished(file)
            &&& file_of_optimized(file, store, paper.name, size, format, ceiling, read)
        },
        Expected::ImagePage(image) => {
            &&& entry matches Conversion::AwaitingPage(pending)
            &&& awaits(pending, paper.name, size, format, ceiling)
            &&& pending.draft matches PageDraft::Image(draft)
            &&& draft.source@ == image
            &&& draft.attempt == 0
        },
        Expected::TextPage(lines) => {
            &&& entry matches Conversion::AwaitingPage(pending)
            &&& awaits(pending, paper.name, size, format, ceiling)
            &&& pending.draft matches PageDraft::Text(page)
            &&& page@ == lines
        },
    }
}

/// The documents of a batch that are converted: the files in their order,
/// decoded, without those that are empty.
pub open spec fn live_papers(files: Seq<FileData>) -> Seq<Paper>
    decreases files.len(),
{
    if files.len() == 0 {
        Seq::empty()
    } else {
        let rest = live_papers(files.drop_last());
        let file = files.last();
        match base64_decoded(file.content@) {
            Some(content) => if content.len() > 0 {
                rest.push(Paper { name: file.name@, content, mime_type: file.mime_type@ })
            } else {
                rest
            },
            None => rest,
        }
    }
}

/// Whether every file of a batch can be decoded.
pub open spec fn all_decode(files: Seq<FileData>) -> bool {
    forall|i: int| 0 <= i < files.len() ==> base64_decoded((#[trigger] files[i]).content@) is Some
}

/// The place of the entry for document `paper` and format `format` in a
/// batch with `formats` formats.
pub open spec fn slot(paper: int, format: int, formats: int) -> int {
    paper * formats + format
}

/// Whether `after` holds the files of `before`, in their places, and maybe
/// more.
pub open spec fn grows(before: Seq<Entry>, after: Seq<Entry>) -> bool {
    before.len() <= after.len() && after.take(before.len() as int) == before
}

/// Whether `entry` describes a stored file.
pub open spec fn is_stored(entry: Conversion) -> bool {
    entry matches Conversion::Finished(file) && !file.is_error_entry()
}

/// Whether `entries` is the outcome of the batch `request`: one entry for
/// every live document and every format, document by document.
pub open spec fn answers(
    entries: Seq<Conversion>,
    store: Seq<Entry>,
    request: ConvertRequest,
    settings: CompressionSettings,
) -> bool {
    let papers = live_papers(request.files@);
    let formats = request.target_formats@;
    &&& entries.len() == papers.len() * formats.len()
    &&& forall|j: int, f: int|
        0 <= j < papers.len() && 0 <= f < formats.len() ==> 0 <= #[trigger] slot(
            j,
            f,
            formats.len() as int,
        ) < entries.len() && settled(
            entries[slot(j, f, formats.len() as int)],
            store,
            papers[j],
            formats[f]@,
            size_limit_for(request.max_sizes@, formats[f]@),
            settings,
        )
}

/// The identifiers of `entries`, in their order.
pub open spec fn ids_of(entries: Seq<Entry>) -> Seq<Seq<char>> {
    Seq::new(entries.len(), |i: int| entries[i].id)
}

/// The handles of the files that `entries` describe as stored, in their
/// order.
pub open spec fn stored_handles(entries: Seq<Conversion>) -> Seq<Seq<char>>
    decreases entries.len(),
{
    if entries.len() == 0 {
        Seq::empty()
    } else if is_stored(entries.last()) {
        stored_handles(entries.drop_last()).push(entries.last()->Finished_0.storage_handle@)
    } else {
        stored_handles(entries.drop_last())
    }
}

/// Whether the store went from `before` to `after` by taking in just the
/// files that `entries` describe as stored: what is new in the store lies,
/// in the order of the entries, under their handles.
pub open spec fn takes_in(before: Seq<Entry>, after: Seq<Entry>, entries: Seq<Conversion>) -> bool {
    &&& grows(before, after)
    &&& ids_of(after.skip(before.len() as int)) == stored_handles(entries)
}

/// Whether `result` is what follows for `pending` once its page was
/// assembled to `assembled`, in a store that goes from `before` to `after`.
/// A file that fits is stored; an image page that does not fit is tried
/// again with a smaller image, five times at most.
pub open spec fn completes(
    before: Seq<Entry>,
    after: Seq<Entry>,
    pending: PendingPage,
    assembled: Seq<u8>,
    result: Conversion,
) -> bool {
    let name = pending.original_name@;
    let format = pending.format@;
    let stored = {
        &&& result matches Conversion::Finished(file)
        &&& if assembled.len() <= pending.max_size {
            keeps(
                before,
                after,
                Ok(file),
                name,
                pending.original_size,
                format,
                pending.max_size,
                assembled,
            )
        } else {
            is_error_record(file, name, format) && after == before
        }
    };
    let refused = {
        &&& result matches Conversion::Finished(file)
        &&& is_error_record(file, name, format)
        &&& after == before
    };
    match pending.draft {
        PageDraft::Text(_) => stored,
        PageDraft::Image(draft) => if draft.fits(assembled.len()) {
            stored
        } else if draft.attempt >= PDF_ATTEMPTS || !draft.source.wf() {
            refused
        } else {
            match recompressed(
                draft.source@,
                pdf_quality((draft.attempt + 1) as nat),
            ) {
                Ok(image) => {
                    &&& after == before
                    &&& result matches Conversion::AwaitingPage(next)
                    &&& next.original_name@ == name
                    &&& next.original_size == pending.original_size
                    &&& next.format@ == format
                    &&& next.max_size == pending.max_size
                    &&& next.draft matches PageDraft::Image(smaller)
                    &&& smaller.wf()
                    &&& smaller.page.shows(image)
                    &&& smaller.source@ == draft.source@
                    &&& smaller.target_size == draft.target_size
                    &&& smaller.attempt == draft.attempt + 1
                },
                Err(_) => refused,
            }
        },
    }
}

/// A file that lies in a store lies there still when the store has grown.
pub proof fn lemma_lookup_grows(before: Seq<Entry>, after: Seq<Entry>, id: Seq<char>)
    requires
        distinct(after),
        grows(before, after),
        holds(before, id),
    ensures
        lookup(after, id) == lookup(before, id),
        distinct(before),
{
    assert forall|i: int, j: int| 0 <= i < j < before.len() implies (#[trigger] before[i]).id != (
    #[trigger] before[j]).id by {
        assert(before[i] == after[i] && before[j] == after[j]);
    }
    let i = choose|i: int| 0 <= i < before.len() && (#[trigger] before[i]).id == id;
    assert(after[i] == before[i]);
    lemma_lookup_at(before, i);
    lemma_lookup_at(after, i);
}

/// An entry of a batch stays what it is when the store grows.
pub proof fn lemma_settled_grows(
    entry: Conversion,
    before: Seq<Entry>,
    after: Seq<Entry>,
    paper: Paper,
    format: Seq<char>,
    ceiling: u64,
    settings: CompressionSettings,
)
    requires
        distinct(after),
        grows(before, after),
        settled(entry, before, paper, format, ceiling, settings),
    ensures
        settled(entry, after, paper, format, ceiling, settings),
{
    if let Conversion::Finished(file) = entry {
        if lookup(before, file.storage_handle@) is Some {
            lemma_lookup_grows(before, after, file.storage_handle@);
        }
        if let Expected::Optimized(read) = expected(paper, format, ceiling, settings) {
            let size = paper.content.len() as u64;
            let written = choose|written: lopdf::Document|
                is_optimized(written, read) && match #[trigger] pdf_file(written) {
                    Some(bytes) => accounts_for(
                        file,
                        before,
                        paper.name,
                        size,
                        format,
                        ceiling,
                        bytes,
                    ),
                    None => is_error_record(file, paper.name, format),
                };
            assert(is_optimized(written, read) && match pdf_file(written) {
                Some(bytes) => accounts_for(file, after, paper.name, size, format, ceiling, bytes),
                None => is_error_record(file, paper.name, format),
            });
        }
    }
}

/// Whether `entries` holds the entries of a batch as far as it has come:
/// those of the first `full` of `papers` for every format, and those of the
/// next for the first `extra` formats.
pub open spec fn answers_so_far(
    entries: Seq<Conversion>,
    store: Seq<Entry>,
    papers: Seq<Paper>,
    request: ConvertRequest,
    settings: CompressionSettings,
    full: int,
    extra: int,
) -> bool {
    let formats = request.target_formats@;
    let count = formats.len() as int;
    &&& entries.len() == full * count + extra
    &&& forall|j: int, f: int|
        0 <= j < full && 0 <= f < count ==> 0 <= #[trigger] slot(j, f, count) < entries.len()
            && settled(
            entries[slot(j, f, count)],
            store,
            papers[j],
            formats[f]@,
            size_limit_for(request.max_sizes@, formats[f]@),
            settings,
        )
    &&& forall|f: int|
        0 <= f < extra ==> 0 <= #[trigger] slot(full, f, count) < entries.len() && settled(
            entries[slot(full, f, count)],
            store,
            papers[full],
            formats[f]@,
            size_limit_for(request.max_sizes@, formats[f]@),
            settings,
        )
}

/// The entry that a batch holds for a conversion that ended with `result`.
pub open spec fn entry_of(
    result: Result<Conversion, ConversionError>,
    entry: Conversion,
    name: Seq<char>,
    format: Seq<char>,
) -> bool {
    match result {
        Ok(conversion) => entry == conversion,
        Err(_) => entry matches Conversion::Finished(file) && is_error_record(file, name, format),
    }
}

/// A conversion that has ended is settled in the store that it leaves.
pub proof fn lemma_concludes_settles(
    before: Seq<Entry>,
    after: Seq<Entry>,
    paper: Paper,
    format: Seq<char>,
    ceiling: u64,
    settings: CompressionSettings,
    result: Result<Conversion, ConversionError>,
    entry: Conversion,
)
    requires
        distinct(after),
        concludes(
            before,
            after,
            paper,
            paper.content.len() as u64,
            format,
            ceiling,
            settings,
            result,
        ),
        entry_of(result, entry, paper.name, format),
    ensures
        settled(entry, after, paper, format, ceiling, settings),
        grows(before, after),
{
    if after == before {
        assert(before.take(before.len() as int) =~= before);
    } else {
        assert(after.take(before.len() as int) =~= before);
        lemma_lookup_at(after, before.len() as int);
    }
    if let Expected::Optimized(read) = expected(paper, format, ceiling, settings) {
        let size = paper.content.len() as u64;
        let written = choose|written: lopdf::Document|
            is_optimized(written, read) && match #[trigger] pdf_file(written) {
                Some(bytes) => ends_with(
                    before,
                    after,
                    result,
                    paper.name,
                    size,
                    format,
                    ceiling,
                    bytes,
                ),
                None => {
                    &&& after == before
                    &&& result matches Err(error)
                    &&& tells_save_failure(error)
                },
            };
        let file = entry->Finished_0;
        assert(is_optimized(written, read) && match pdf_file(written) {
            Some(bytes) => accounts_for(file, after, paper.name, size, format, ceiling, bytes),
            None => is_error_record(file, paper.name, format),
        });
    }
}

/// A batch that has come some way has come as far in a store that has grown.
pub proof fn lemma_answers_grow(
    entries: Seq<Conversion>,
    before: Seq<Entry>,
    after: Seq<Entry>,
    papers: Seq<Paper>,
    request: ConvertRequest,
    settings: CompressionSettings,
    full: int,
    extra: int,
)
    requires
        distinct(after),
        grows(before, after),
        answers_so_far(entries, before, papers, request, settings, full, extra),
    ensures
        answers_so_far(entries, after, papers, request, settings, full, extra),
{
    let formats = request.target_formats@;
    let count = formats.len() as int;
    assert forall|j: int, f: int| 0 <= j < full && 0 <= f < count implies 0 <= #[trigger] slot(
        j,
        f,
        count,
    ) < entries.len() && settled(
        entries[slot(j, f, count)],
        after,
        papers[j],
        formats[f]@,
        size_limit_for(request.max_sizes@, formats[f]@),
        settings,
    ) by {
        lemma_settled_grows(
            entries[slot(j, f, count)],
            before,
            after,
            papers[j],
            formats[f]@,
            size_limit_for(request.max_sizes@, formats[f]@),
            settings,
        );
    }
    assert forall|f: int| 0 <= f < extra implies 0 <= #[trigger] slot(full, f, count)
        < entries.len() && settled(
        entries[slot(full, f, count)],
        after,
        papers[full],
        formats[f]@,
        size_limit_for(request.max_sizes@, formats[f]@),
        settings,
    ) by {
        lemma_settled_grows(
            entries[slot(full, f, count)],
            before,
            after,
            papers[full],
            formats[f]@,
            size_limit_for(request.max_sizes@, formats[f]@),
            settings,
        );
    }
}

/// One more entry takes a batch one format further.
pub proof fn lemma_answers_push(
    entries: Seq<Conversion>,
    store: Seq<Entry>,
    papers: Seq<Paper>,
    request: ConvertRequest,
    settings: CompressionSettings,
    full: int,
    extra: int,
    entry: Conversion,
)
    requires
        0 <= full,
        0 <= extra < request.target_formats@.len(),
        answers_so_far(entries, store, papers, request, settings, full, extra),
        settled(
            entry,
            store,
            papers[full],
            request.target_formats@[extra]@,
            size_limit_for(request.max_sizes@, request.target_formats@[extra]@),
            settings,
        ),
    ensures
        answers_so_far(entries.push(entry), store, papers, request, settings, full, extra + 1),
{
    let formats = request.target_formats@;
    let count = formats.len() as int;
    let more = entries.push(entry);
    assert forall|j: int, f: int| 0 <= j < full && 0 <= f < count implies 0 <= #[trigger] slot(
        j,
        f,
        count,
    ) < more.len() && settled(
        more[slot(j, f, count)],
        store,
        papers[j],
        formats[f]@,
        size_limit_for(request.max_sizes@, formats[f]@),
        settings,
    ) by {
        assert(more[slot(j, f, count)] == entries[slot(j, f, count)]);
    }
    assert forall|f: int| 0 <= f < extra + 1 implies 0 <= #[trigger] slot(full, f, count)
        < more.len() && settled(
        more[slot(full, f, count)],
        store,
        papers[full],
        formats[f]@,
        size_limit_for(request.max_sizes@, formats[f]@),
        settings,
    ) by {
        if f < extra {
            assert(more[slot(full, f, count)] == entries[slot(full, f, count)]);
        } else {
            assert(slot(full, f, count) == entries.len());
        }
    }
}

/// A document whose formats are all done is a document fully done.
pub proof fn lemma_answers_next(
    entries: Seq<Conversion>,
    store: Seq<Entry>,
    papers: Seq<Paper>,
    request: ConvertRequest,
    settings: CompressionSettings,
    full: int,
)
    requires
        0 <= full,
        answers_so_far(
            entries,
            store,
            papers,
            request,
            settings,
            full,
            request.target_formats@.len() as int,
        ),
    ensures
        answers_so_far(entries, store, papers, request, settings, full + 1, 0),
{
    let count = request.target_formats@.len() as int;
    assert((full + 1) * count == full * count + count) by (nonlinear_arith);
}

/// What holds of the first documents holds of them among more documents.
pub proof fn lemma_answers_more(
    entries: Seq<Conversion>,
    store: Seq<Entry>,
    papers: Seq<Paper>,
    paper: Paper,
    request: ConvertRequest,
    settings: CompressionSettings,
)
    requires
        answers_so_far(entries, store, papers, request, settings, papers.len() as int, 0),
    ensures
        answers_so_far(
            entries,
            store,
            papers.push(paper),
            request,
            settings,
            papers.len() as int,
            0,
        ),
{
    let formats = request.target_formats@;
    let count = formats.len() as int;
    let more = papers.push(paper);
    assert forall|j: int, f: int|
        0 <= j < papers.len() && 0 <= f < count implies 0 <= #[trigger] slot(j, f, count)
        < entries.len() && settled(
        entries[slot(j, f, count)],
        store,
        more[j],
        formats[f]@,
        size_limit_for(request.max_sizes@, formats[f]@),
        settings,
    ) by {
        assert(more[j] == papers[j]);
    }
}

/// Whether `file` decodes to content that is not empty.
pub open spec fn is_live(file: FileData) -> bool {
    base64_decoded(file.content@) matches Some(content) && content.len() > 0
}

/// A batch has one entry for every document that is not empty and every
/// target format: as many entries as files times formats where no file is
/// empty, and fewer else.
pub proof fn law_batch_size(
    entries: Seq<Conversion>,
    store: Seq<Entry>,
    request: ConvertRequest,
    settings: CompressionSettings,
)
    requires
        answers(entries, store, request, settings),
    ensures
        entries.len() == live_papers(request.files@).len() * request.target_formats@.len(),
        live_papers(request.files@).len() <= request.files@.len(),
        (forall|i: int| 0 <= i < request.files@.len() ==> is_live(#[trigger] request.files@[i]))
            ==> entries.len() == request.files@.len() * request.target_formats@.len(),
{
    lemma_live_papers_bound(request.files@);
    if forall|i: int| 0 <= i < request.files@.len() ==> is_live(#[trigger] request.files@[i]) {
        lemma_live_papers_all(request.files@);
    }
}

/// Where every file is live, every file is a live document.
pub proof fn lemma_live_papers_all(files: Seq<FileData>)
    requires
        forall|i: int| 0 <= i < files.len() ==> is_live(#[trigger] files[i]),
    ensures
        live_papers(files).len() == files.len(),
    decreases files.len(),
{
    if files.len() > 0 {
        let rest = files.drop_last();
        assert forall|i: int| 0 <= i < rest.len() implies is_live(#[trigger] rest[i]) by {
            assert(rest[i] == files[i]);
        }
        lemma_live_papers_all(rest);
        assert(is_live(files[files.len() - 1]));
    }
}

/// No more documents are live than there are files.
pub proof fn lemma_live_papers_bound(files: Seq<FileData>)
    ensures
        live_papers(files).len() <= files.len(),
    decreases files.len(),
{
    if files.len() > 0 {
        lemma_live_papers_bound(files.drop_last());
    }
}

/// A file that a batch describes as stored is within the limit of its
/// format, and lies in the store under its handle with the size described.
pub proof fn law_artifact_within_limit(
    entry: Conversion,
    store: Seq<Entry>,
    paper: Paper,
    format: Seq<char>,
    ceiling: u64,
    settings: CompressionSettings,
)
    requires
        settled(entry, store, paper, format, ceiling, settings),
        is_stored(entry),
    ensures
        entry matches Conversion::Finished(file) && file.size <= ceiling && (lookup(
            store,
            file.storage_handle@,
        ) matches Some(bytes) && bytes.len() == file.size),
{
}

/// A page that was assembled within its limit is stored: it lies in the
/// store under its handle as it was assembled. A page over its limit is
/// not.
pub proof fn law_page_within_limit(
    before: Seq<Entry>,
    after: Seq<Entry>,
    pending: PendingPage,
    assembled: Seq<u8>,
    result: Conversion,
)
    requires
        distinct(after),
        completes(before, after, pending, assembled, result),
        result is Finished,
        pending.draft matches PageDraft::Image(draft) ==> draft.fits(assembled.len()),
    ensures
        is_stored(result) <==> assembled.len() <= pending.max_size,
        is_stored(result) ==> result->Finished_0.size == assembled.len() && lookup(
            after,
            result->Finished_0.storage_handle@,
        ) == Some(assembled),
{
    if is_stored(result) {
        lemma_lookup_at(after, before.len() as int);
    }
}

/// The handles of the files that a batch stored are new and differ from
/// one another: none was in use before, and no two are the same.
pub proof fn law_stored_handles_are_new(
    before: Seq<Entry>,
    after: Seq<Entry>,
    entries: Seq<Conversion>,
)
    requires
        distinct(after),
        takes_in(before, after, entries),
    ensures
        after.len() == before.len() + stored_handles(entries).len(),
        stored_handles(entries).no_duplicates(),
        forall|k: int|
            0 <= k < stored_handles(entries).len() ==> !holds(
                before,
                #[trigger] stored_handles(entries)[k],
            ) && holds(after, stored_handles(entries)[k]),
{
    let handles = stored_handles(entries);
    let fresh = after.skip(before.len() as int);
    assert(handles.len() == fresh.len());
    assert forall|k: int| 0 <= k < handles.len() implies !holds(before, #[trigger] handles[k])
        && holds(after, handles[k]) by {
        assert(handles[k] == ids_of(fresh)[k]);
        assert(fresh[k] == after[before.len() + k]);
        if holds(before, handles[k]) {
            let i = choose|i: int| 0 <= i < before.len() && (#[trigger] before[i]).id == handles[k];
            assert(after.take(before.len() as int)[i] == after[i]);
        }
    }
    assert forall|i: int, j: int| 0 <= i < handles.len() && 0 <= j < handles.len() && i
        != j implies handles[i] != handles[j] by {
        assert(handles[i] == ids_of(fresh)[i] && handles[j] == ids_of(fresh)[j]);
        assert(fresh[i] == after[before.len() + i] && fresh[j] == after[before.len() + j]);
    }
}

/// Whether the store went from `before` to `after` by taking in the file
/// that `entry` describes as stored, if it describes one, and nothing else.
pub open spec fn adds(before: Seq<Entry>, after: Seq<Entry>, entry: Conversion) -> bool {
    if is_stored(entry) {
        &&& after.len() == before.len() + 1
        &&& after.drop_last() == before
        &&& after.last().id == entry->Finished_0.storage_handle@
    } else {
        after == before
    }
}

/// A conversion adds its file to the store if it ends with a stored file,
/// and nothing else.
pub proof fn lemma_concludes_takes_in(
    before: Seq<Entry>,
    after: Seq<Entry>,
    paper: Paper,
    format: Seq<char>,
    ceiling: u64,
    settings: CompressionSettings,
    result: Result<Conversion, ConversionError>,
    entry: Conversion,
)
    requires
        concludes(
            before,
            after,
            paper,
            paper.content.len() as u64,
            format,
            ceiling,
            settings,
            result,
        ),
        entry_of(result, entry, paper.name, format),
    ensures
        adds(before, after, entry),
{
    if is_stored(entry) {
        assert(after.drop_last() =~= before);
    }
}

/// The store takes in what a batch stores, entry by entry.
pub proof fn lemma_takes_in_push(
    start: Seq<Entry>,
    before: Seq<Entry>,
    after: Seq<Entry>,
    entries: Seq<Conversion>,
    entry: Conversion,
)
    requires
        takes_in(start, before, entries),
        adds(before, after, entry),
    ensures
        takes_in(start, after, entries.push(entry)),
        grows(before, after),
{
    let more = entries.push(entry);
    assert(more.drop_last() =~= entries);
    assert(after.take(before.len() as int) =~= before);
    assert(after.take(start.len() as int) =~= start) by {
        assert forall|k: int| 0 <= k < start.len() implies after.take(start.len() as int)[k]
            == start[k] by {
            assert(before.take(start.len() as int)[k] == before[k]);
            assert(after.take(before.len() as int)[k] == after[k]);
        }
    }
    let was = before.skip(start.len() as int);
    let now = after.skip(start.len() as int);
    if is_stored(entry) {
        let handle = entry->Finished_0.storage_handle@;
        assert(now.len() == was.len() + 1);
        assert(ids_of(now) =~= ids_of(was).push(handle)) by {
            assert forall|k: int| 0 <= k < now.len() implies ids_of(now)[k] == ids_of(was).push(
                handle,
            )[k] by {
                if k < was.len() {
                    assert(now[k] == after[start.len() + k]);
                    assert(was[k] == before[start.len() + k]);
                }
            }
        }
    } else {
        assert(now =~= was);
    }
}

} // verus!
