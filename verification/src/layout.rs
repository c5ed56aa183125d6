//! What a page of plain text shows, and what a DOCX document holds.

use crate::html_escape::escaped;
use crate::text::{clipped_lines, truncated, utf8_lossy};
use vstd::prelude::*;

verus! {

/// The left edge of text on a text page, in points.
pub const TEXT_LEFT: u32 = 50;

/// The height of the first line of a text page, in points from the bottom.
pub const TEXT_TOP: u32 = 750;

/// The distance from one line to the next, in points.
pub const LINE_PITCH: u32 = 15;

/// The number of lines that a text page shows at most.
pub const MAX_LINES: usize = 50;

/// The number of characters that a line shows at most.
pub const MAX_LINE_CHARS: usize = 80;

/// The size of the type on a text page, in points.
pub const FONT_SIZE: u32 = 12;

/// The width of a text page (US Letter), in points.
pub const LETTER_WIDTH: u32 = 612;

/// The height of a text page (US Letter), in points.
pub const LETTER_HEIGHT: u32 = 792;

/// The number of characters of a text that a DOCX file takes at most.
pub const MAX_DOCX_CHARS: usize = 5000;

/// A line of a text page, as a model: where it starts, and what it says.
pub struct PlacedLine {
    pub x: nat,
    pub y: nat,
    pub text: Seq<char>,
}

/// The lines of the page for the text file `content`: the first lines of the
/// text, each cut to the width of the page, one below the other.
pub open spec fn text_layout(content: Seq<u8>) -> Seq<PlacedLine> {
    let lines = clipped_lines(utf8_lossy(content), MAX_LINES as nat, MAX_LINE_CHARS as nat);
    Seq::new(
        lines.len(),
        |k: int|
            PlacedLine {
                x: TEXT_LEFT as nat,
                y: (TEXT_TOP - LINE_PITCH * k) as nat,
                text: lines[k],
            },
    )
}

/// One line of a text page.
#[derive(Debug, Clone)]
pub struct TextLine {
    pub x: u32,
    pub y: u32,
    pub text: String,
}

impl View for TextLine {
    type V = PlacedLine;

    open spec fn view(&self) -> PlacedLine {
        PlacedLine { x: self.x as nat, y: self.y as nat, text: self.text@ }
    }
}

/// A page of plain text, as a model: the size of the page and of its type,
/// in points, and its lines.
pub struct TextSheet {
    pub width: nat,
    pub height: nat,
    pub font_size: nat,
    pub lines: Seq<PlacedLine>,
}

/// The page for the text file `content`: US Letter, type of twelve points,
/// the lines as `text_layout` places them.
pub open spec fn text_sheet(content: Seq<u8>) -> TextSheet {
    TextSheet {
        width: LETTER_WIDTH as nat,
        height: LETTER_HEIGHT as nat,
        font_size: FONT_SIZE as nat,
        lines: text_layout(content),
    }
}

/// A page of plain text: the size of the page and of its type, in points,
/// and the lines where they are placed.
#[derive(Debug, Clone)]
pub struct TextPage {
    pub width: u32,
    pub height: u32,
    pub font_size: u32,
    pub lines: Vec<TextLine>,
}

impl View for TextPage {
    type V = TextSheet;

    open spec fn view(&self) -> TextSheet {
        TextSheet {
            width: self.width as nat,
            height: self.height as nat,
            font_size: self.font_size as nat,
            lines: self.lines@.map_values(|line: TextLine| line@),
        }
    }
}

/// What stands before the text in a DOCX document.
pub open spec fn docx_head() -> Seq<char> {
    "<?xml version=\"1.0\" encoding=\"UTF-8\" standalone=\"yes\"?>\n<w:document xmlns:w=\"http://schemas.openxmlformats.org/wordprocessingml/2006/main\">\n    <w:body>\n        <w:p>\n            <w:r>\n                <w:t>"@
}

/// What stands after the text in a DOCX document.
pub open spec fn docx_tail() -> Seq<char> {
    "</w:t>\n            </w:r>\n        </w:p>\n    </w:body>\n</w:document>"@
}

/// The text that a DOCX document takes from the text file `content`: its
/// first characters, escaped.
pub open spec fn docx_body(content: Seq<u8>) -> Seq<char> {
    escaped(truncated(utf8_lossy(content), MAX_DOCX_CHARS as nat))
}

/// The DOCX document for the text file `content`.
pub open spec fn docx_document(content: Seq<u8>) -> Seq<u8> {
    vstd::utf8::encode_utf8(docx_head() + docx_body(content) + docx_tail())
}

/// A text page shows at most fifty lines of at most eighty characters,
/// at the left edge, fifteen points apart from the top line down.
pub proof fn law_text_layout_bounds(content: Seq<u8>)
    ensures
        text_layout(content).len() <= MAX_LINES,
        forall|k: int|
            0 <= k < text_layout(content).len() ==> {
                let line = #[trigger] text_layout(content)[k];
                &&& line.text.len() <= MAX_LINE_CHARS
                &&& line.x == TEXT_LEFT
                &&& line.y == TEXT_TOP - LINE_PITCH * k
                &&& line.y >= LINE_PITCH
            },
{
}

/// A DOCX document embeds at most five thousand characters of the text,
/// escaped: none of `< > " '` is left in what it embeds.
pub proof fn law_docx_body_bounds(content: Seq<u8>)
    ensures
        truncated(utf8_lossy(content), MAX_DOCX_CHARS as nat).len() <= MAX_DOCX_CHARS,
        docx_body(content).len() <= 6 * MAX_DOCX_CHARS,
        forall|i: int|
            0 <= i < docx_body(content).len() ==> !crate::html_escape::is_markup(
                #[trigger] docx_body(content)[i],
            ),
{
    let kept = truncated(utf8_lossy(content), MAX_DOCX_CHARS as nat);
    crate::html_escape::law_escaped_is_plain(kept);
    crate::html_escape::law_escaped_length(kept);
}

} // verus!
