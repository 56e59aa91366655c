//! Document segments: their types, their rendering to HTML and Markdown,
//! and their creation from layout-analysis output.
//!
//! Coordinates and sizes are carried as the IEEE-754 bit patterns of the
//! `f32` values that the service exchanges (`f32::to_bits`); the library
//! only moves them from one record to another.

use vstd::prelude::*;
use vstd::string::*;
use crate::text::{
    after_dot, before_dot, chars_of, decimal, find_dot, parse_i32, parse_i32_range, push_char,
    push_decimal, push_range, same_text, skip_bullets, strip_bullets, trim, trim_range,
};

verus! {

/// The kind of a segment found by layout analysis.
#[derive(Clone, Copy, Debug, PartialEq, Eq, Structural)]
pub enum SegmentType {
    Title,
    SectionHeader,
    Text,
    ListItem,
    Table,
    Picture,
    Caption,
    Formula,
    Footnote,
    PageHeader,
    PageFooter,
}

/// The name of a segment type, as its `Display` writes it and its `FromStr`
/// reads it: the variant's name.
pub open spec fn segment_type_name(t: SegmentType) -> Seq<char> {
    match t {
        SegmentType::Title => "Title"@,
        SegmentType::SectionHeader => "SectionHeader"@,
        SegmentType::Text => "Text"@,
        SegmentType::ListItem => "ListItem"@,
        SegmentType::Table => "Table"@,
        SegmentType::Picture => "Picture"@,
        SegmentType::Caption => "Caption"@,
        SegmentType::Formula => "Formula"@,
        SegmentType::Footnote => "Footnote"@,
        SegmentType::PageHeader => "PageHeader"@,
        SegmentType::PageFooter => "PageFooter"@,
    }
}

/// One character of a CSS class made from a type name: ASCII letters lowered
/// (type names are ASCII, where this is what `to_lowercase` does), ' ' made '-'.
pub open spec fn class_char(c: char) -> char {
    if 'A' <= c && c <= 'Z' {
        (c as int + 32) as char
    } else if c == ' ' {
        '-'
    } else {
        c
    }
}

/// The CSS class of a segment type: its name lowered, spaces made '-'.
pub open spec fn css_class(t: SegmentType) -> Seq<char> {
    segment_type_name(t).map_values(|c: char| class_char(c))
}

/// The start number of a list item: its trimmed text up to the first '.',
/// read as an `i32`.
pub open spec fn list_number(content: Seq<char>) -> Option<int> {
    parse_i32(before_dot(trim(content)))
}

/// The text of a numbered list item: what follows the first '.', trimmed.
pub open spec fn list_item_text(content: Seq<char>) -> Seq<char> {
    trim(after_dot(trim(content)))
}

/// The text of an unnumbered list item: leading bullets removed, then trimmed.
pub open spec fn bullet_text(content: Seq<char>) -> Seq<char> {
    trim(strip_bullets(content))
}

/// The HTML of a segment of type `t` with text `content`.
pub open spec fn html_of(t: SegmentType, content: Seq<char>) -> Seq<char> {
    match t {
        SegmentType::Title => "<h1>"@ + content + "</h1>"@,
        SegmentType::SectionHeader => "<h2>"@ + content + "</h2>"@,
        SegmentType::Text => "<p>"@ + content + "</p>"@,
        SegmentType::ListItem => match list_number(content) {
            Some(n) => "<ol start='"@ + decimal(n) + "'><li>"@ + list_item_text(content)
                + "</li></ol>"@,
            None => "<ul><li>"@ + bullet_text(content) + "</li></ul>"@,
        },
        _ => "<span class=\""@ + css_class(t) + "\">"@ + content + "</span>"@,
    }
}

/// The Markdown of a segment of type `t` with text `content` and id `id`.
pub open spec fn markdown_of(t: SegmentType, content: Seq<char>, id: Seq<char>) -> Seq<char> {
    match t {
        SegmentType::Title => "# "@ + content + "\n\n"@,
        SegmentType::SectionHeader => "## "@ + content + "\n\n"@,
        SegmentType::ListItem => match list_number(content) {
            Some(n) => decimal(n) + ". "@ + list_item_text(content),
            None => "- "@ + bullet_text(content) + "\n\n"@,
        },
        SegmentType::Picture => "!["@ + id + "]()"@,
        _ => content + "\n\n"@,
    }
}

impl SegmentType {
    /// The variant's name (what `to_string` gives).
    pub fn name(&self) -> (r: &'static str)
        ensures
            r@ == segment_type_name(*self),
    {
        match self {
            SegmentType::Title => "Title",
            SegmentType::SectionHeader => "SectionHeader",
            SegmentType::Text => "Text",
            SegmentType::ListItem => "ListItem",
            SegmentType::Table => "Table",
            SegmentType::Picture => "Picture",
            SegmentType::Caption => "Caption",
            SegmentType::Formula => "Formula",
            SegmentType::Footnote => "Footnote",
            SegmentType::PageHeader => "PageHeader",
            SegmentType::PageFooter => "PageFooter",
        }
    }

    /// The CSS class under which a segment of this type is rendered.
    pub fn css_class(&self) -> (r: String)
        ensures
            r@ == css_class(*self),
    {
        let name = chars_of(self.name());
        let mut out = String::new();
        let mut i: usize = 0;
        while i < name.len()
            invariant
                0 <= i <= name@.len(),
                name@ == segment_type_name(*self),
                out@ == name@.take(i as int).map_values(|c: char| class_char(c)),
            decreases name@.len() - i,
        {
            let c = name[i];
            let d = if 'A' <= c && c <= 'Z' {
                let b: u8 = (c as u32 + 32) as u8;
                b as char
            } else if c == ' ' {
                '-'
            } else {
                c
            };
            push_char(&mut out, d);
            assert(name@.take(i + 1).map_values(|c: char| class_char(c)) =~= name@.take(
                i as int,
            ).map_values(|c: char| class_char(c)).push(class_char(c)));
            i = i + 1;
        }
        assert(name@.take(name@.len() as int) =~= name@);
        out
    }
}


/// A rectangle on a page (bit patterns of `f32` values).
#[derive(Clone, Copy, Debug, PartialEq, Eq, Structural)]
pub struct BoundingBox {
    pub left: u32,
    pub top: u32,
    pub width: u32,
    pub height: u32,
}

/// Text recognised inside a segment's image.
#[derive(Debug)]
pub struct OCRResult {
    pub bbox: BoundingBox,
    pub text: String,
    /// The recognizer's confidence (bit pattern of an `f32`), when it gave one.
    pub confidence: Option<u32>,
}

/// A region of a page with its text and renderings.
#[derive(Debug)]
pub struct Segment {
    pub segment_id: String,
    pub bbox: BoundingBox,
    pub page_number: u32,
    /// Bit pattern of an `f32`.
    pub page_width: u32,
    /// Bit pattern of an `f32`.
    pub page_height: u32,
    pub content: String,
    pub segment_type: SegmentType,
    pub ocr: Option<Vec<OCRResult>>,
    pub image: Option<String>,
    pub html: Option<String>,
    pub markdown: Option<String>,
}

/// A group of consecutive segments.
#[derive(Debug)]
pub struct Chunk {
    pub segments: Vec<Segment>,
    pub chunk_length: i32,
}

/// A segment as the layout-analysis service reports it.
#[derive(Debug)]
pub struct PdlaSegment {
    pub left: u32,
    pub top: u32,
    pub width: u32,
    pub height: u32,
    pub page_number: u32,
    pub page_width: u32,
    pub page_height: u32,
    pub text: String,
    pub segment_type: SegmentType,
}

pub struct OCRResultView {
    pub bbox: BoundingBox,
    pub text: Seq<char>,
    pub confidence: Option<u32>,
}

#[verifier::ext_equal]
pub struct SegmentView {
    pub segment_id: Seq<char>,
    pub bbox: BoundingBox,
    pub page_number: u32,
    pub page_width: u32,
    pub page_height: u32,
    pub content: Seq<char>,
    pub segment_type: SegmentType,
    pub ocr: Option<Seq<OCRResultView>>,
    pub image: Option<Seq<char>>,
    pub html: Option<Seq<char>>,
    pub markdown: Option<Seq<char>>,
}

pub struct ChunkView {
    pub segments: Seq<SegmentView>,
    pub chunk_length: i32,
}

pub open spec fn opt_text(s: Option<String>) -> Option<Seq<char>> {
    match s {
        Some(t) => Some(t@),
        None => None,
    }
}

impl View for OCRResult {
    type V = OCRResultView;

    open spec fn view(&self) -> OCRResultView {
        OCRResultView { bbox: self.bbox, text: self.text@, confidence: self.confidence }
    }
}

pub open spec fn ocr_view(o: Option<Vec<OCRResult>>) -> Option<Seq<OCRResultView>> {
    match o {
        Some(v) => Some(v@.map_values(|r: OCRResult| r@)),
        None => None,
    }
}

impl View for Segment {
    type V = SegmentView;

    open spec fn view(&self) -> SegmentView {
        SegmentView {
            segment_id: self.segment_id@,
            bbox: self.bbox,
            page_number: self.page_number,
            page_width: self.page_width,
            page_height: self.page_height,
            content: self.content@,
            segment_type: self.segment_type,
            ocr: ocr_view(self.ocr),
            image: opt_text(self.image),
            html: opt_text(self.html),
            markdown: opt_text(self.markdown),
        }
    }
}

impl View for Chunk {
    type V = ChunkView;

    open spec fn view(&self) -> ChunkView {
        ChunkView {
            segments: self.segments@.map_values(|s: Segment| s@),
            chunk_length: self.chunk_length,
        }
    }
}

/// A segment with its HTML and Markdown renderings filled in.
pub open spec fn finalized(s: SegmentView) -> SegmentView {
    SegmentView {
        html: Some(html_of(s.segment_type, s.content)),
        markdown: Some(markdown_of(s.segment_type, s.content, s.segment_id)),
        ..s
    }
}

/// Rendering twice leaves a segment as rendering once did.
pub proof fn lemma_finalize_idempotent(s: SegmentView)
    ensures
        finalized(finalized(s)) == finalized(s),
{
    assert(finalized(finalized(s)) =~= finalized(s));
}

/// The parts of a list item's text: its start number when it is numbered,
/// with the bounds of its item text, else the bounds of its bulleted text.
fn list_item_parts(v: &Vec<char>) -> (r: (Option<i32>, usize, usize))
    ensures
        r.1 <= r.2 <= v@.len(),
        match list_number(v@) {
            Some(n) => r.0 == Some(n as i32) && v@.subrange(r.1 as int, r.2 as int)
                == list_item_text(v@),
            None => r.0 is None && v@.subrange(r.1 as int, r.2 as int) == bullet_text(v@),
        },
{
    let n = v.len();
    assert(v@.subrange(0, n as int) =~= v@);
    let (a, b) = trim_range(v, 0, n);
    let d = find_dot(v, a, b);
    match parse_i32_range(v, a, d) {
        Some(k) => {
            if d < b {
                let (ia, ib) = trim_range(v, d + 1, b);
                (Some(k), ia, ib)
            } else {
                assert(trim(Seq::<char>::empty()) =~= Seq::<char>::empty());
                assert(v@.subrange(b as int, b as int) =~= Seq::<char>::empty());
                (Some(k), b, b)
            }
        },
        None => {
            let k = skip_bullets(v, 0);
            let (ca, cb) = trim_range(v, k, n);
            (None, ca, cb)
        },
    }
}

impl Segment {
    /// The HTML rendering of this segment.
    pub fn to_html(&self) -> (r: String)
        ensures
            r@ == html_of(self.segment_type, self.content@),
    {
        let mut out = String::new();
        match self.segment_type {
            SegmentType::Title => {
                out.append("<h1>");
                out.append(self.content.as_str());
                out.append("</h1>");
            },
            SegmentType::SectionHeader => {
                out.append("<h2>");
                out.append(self.content.as_str());
                out.append("</h2>");
            },
            SegmentType::Text => {
                out.append("<p>");
                out.append(self.content.as_str());
                out.append("</p>");
            },
            SegmentType::ListItem => {
                let v = chars_of(self.content.as_str());
                let (number, from, to) = list_item_parts(&v);
                match number {
                    Some(k) => {
                        out.append("<ol start='");
                        push_decimal(&mut out, k);
                        out.append("'><li>");
                        push_range(&mut out, &v, from, to);
                        out.append("</li></ol>");
                    },
                    None => {
                        out.append("<ul><li>");
                        push_range(&mut out, &v, from, to);
                        out.append("</li></ul>");
                    },
                }
            },
            _ => {
                let class = self.segment_type.css_class();
                out.append("<span class=\"");
                out.append(class.as_str());
                out.append("\">");
                out.append(self.content.as_str());
                out.append("</span>");
            },
        }
        out
    }

    /// The Markdown rendering of this segment.
    pub fn to_markdown(&self) -> (r: String)
        ensures
            r@ == markdown_of(self.segment_type, self.content@, self.segment_id@),
    {
        let mut out = String::new();
        match self.segment_type {
            SegmentType::Title => {
                out.append("# ");
                out.append(self.content.as_str());
                out.append("\n\n");
            },
            SegmentType::SectionHeader => {
                out.append("## ");
                out.append(self.content.as_str());
                out.append("\n\n");
            },
            SegmentType::ListItem => {
                let v = chars_of(self.content.as_str());
                let (number, from, to) = list_item_parts(&v);
                match number {
                    Some(k) => {
                        push_decimal(&mut out, k);
                        out.append(". ");
                        push_range(&mut out, &v, from, to);
                    },
                    None => {
                        out.append("- ");
                        push_range(&mut out, &v, from, to);
                        out.append("\n\n");
                    },
                }
            },
            SegmentType::Picture => {
                out.append("![");
                out.append(self.segment_id.as_str());
                out.append("]()");
            },
            _ => {
                out.append(self.content.as_str());
                out.append("\n\n");
            },
        }
        out
    }

    /// Fills in the HTML and Markdown renderings; nothing else changes.
    pub fn finalize(&mut self)
        ensures
            final(self)@ == finalized(old(self)@),
    {
        let html = self.to_html();
        let markdown = self.to_markdown();
        self.html = Some(html);
        self.markdown = Some(markdown);
    }
}


pub open spec fn is_lower_hex(c: char) -> bool {
    ('0' <= c && c <= '9') || ('a' <= c && c <= 'f')
}

/// `s` is a random (version 4) UUID in hyphenated lower-case form:
/// 36 characters, '-' at positions 8, 13, 18 and 23, lower-case hex digits
/// elsewhere, version digit '4' at position 14, variant digit 8, 9, a or b at 19.
pub open spec fn is_uuid_v4_text(s: Seq<char>) -> bool {
    &&& s.len() == 36
    &&& forall|i: int|
        0 <= i < 36 ==> (if i == 8 || i == 13 || i == 18 || i == 23 {
            #[trigger] s[i] == '-'
        } else {
            is_lower_hex(s[i])
        })
    &&& s[14] == '4'
    &&& (s[19] == '8' || s[19] == '9' || s[19] == 'a' || s[19] == 'b')
}

/// A fresh segment id: `uuid::Uuid::new_v4()` written with `to_string`.
/// The crate takes 122 random bits, sets the version and variant bits, and
/// writes the value in hyphenated lower-case hex; what is claimed is that
/// shape. Which random value comes out is left open.
#[verifier::external_body]
fn new_segment_id() -> (id: String)
    ensures
        is_uuid_v4_text(id@),
{
    uuid::Uuid::new_v4().to_string()
}

/// The segment that a layout-analysis record describes, before rendering.
pub open spec fn segment_from_pdla(p: PdlaSegment, id: Seq<char>) -> SegmentView {
    SegmentView {
        segment_id: id,
        bbox: BoundingBox { left: p.left, top: p.top, width: p.width, height: p.height },
        page_number: p.page_number,
        page_width: p.page_width,
        page_height: p.page_height,
        content: p.text@,
        segment_type: p.segment_type,
        ocr: None,
        image: None,
        html: None,
        markdown: None,
    }
}

impl PdlaSegment {
    /// The segment this record describes, under a fresh random id.
    pub fn to_segment(&self) -> (r: Segment)
        ensures
            r@ == segment_from_pdla(*self, r@.segment_id),
            is_uuid_v4_text(r@.segment_id),
    {
        Segment {
            segment_id: new_segment_id(),
            bbox: BoundingBox {
                left: self.left,
                top: self.top,
                width: self.width,
                height: self.height,
            },
            page_number: self.page_number,
            page_width: self.page_width,
            page_height: self.page_height,
            content: self.text.clone(),
            segment_type: self.segment_type,
            ocr: None,
            image: None,
            html: None,
            markdown: None,
        }
    }
}


/// Different segment types have different names, so that reading a type's
/// name back (`from_name`) gives that same type.
pub proof fn lemma_segment_type_names_distinct(a: SegmentType, b: SegmentType)
    ensures
        segment_type_name(a) == segment_type_name(b) ==> a == b,
{
    reveal_strlit("Title");
    reveal_strlit("SectionHeader");
    reveal_strlit("Text");
    reveal_strlit("ListItem");
    reveal_strlit("Table");
    reveal_strlit("Picture");
    reveal_strlit("Caption");
    reveal_strlit("Formula");
    reveal_strlit("Footnote");
    reveal_strlit("PageHeader");
    reveal_strlit("PageFooter");
    if segment_type_name(a) == segment_type_name(b) && a != b {
        let x = segment_type_name(a);
        let y = segment_type_name(b);
        assert(x.len() == y.len());
        assert(x[0] == y[0]);
        assert(x[1] == y[1]);
        assert(x[2] == y[2]);
        assert(x[4] == y[4]);
    }
}


impl SegmentType {
    /// The segment type whose name is `s` (what `FromStr` reads), if any.
    pub fn from_name(s: &str) -> (r: Option<SegmentType>)
        ensures
            match r {
                Some(t) => s@ == segment_type_name(t),
                None => forall|t: SegmentType| s@ != #[trigger] segment_type_name(t),
            },
    {
        if same_text(s, "Title") {
            return Some(SegmentType::Title);
        }
        if same_text(s, "SectionHeader") {
            return Some(SegmentType::SectionHeader);
        }
        if same_text(s, "Text") {
            return Some(SegmentType::Text);
        }
        if same_text(s, "ListItem") {
            return Some(SegmentType::ListItem);
        }
        if same_text(s, "Table") {
            return Some(SegmentType::Table);
        }
        if same_text(s, "Picture") {
            return Some(SegmentType::Picture);
        }
        if same_text(s, "Caption") {
            return Some(SegmentType::Caption);
        }
        if same_text(s, "Formula") {
            return Some(SegmentType::Formula);
        }
        if same_text(s, "Footnote") {
            return Some(SegmentType::Footnote);
        }
        if same_text(s, "PageHeader") {
            return Some(SegmentType::PageHeader);
        }
        if same_text(s, "PageFooter") {
            return Some(SegmentType::PageFooter);
        }
        None
    }
}


/// Only list items are parsed: every other segment type renders its text
/// verbatim between tags that the type alone fixes, whatever the text holds
/// (a heading "1. Introduction" stays a heading).
pub proof fn lemma_html_copies_text(t: SegmentType, c: Seq<char>)
    ensures
        t == SegmentType::Title ==> html_of(t, c) == "<h1>"@ + c + "</h1>"@,
        t == SegmentType::SectionHeader ==> html_of(t, c) == "<h2>"@ + c + "</h2>"@,
        t == SegmentType::Text ==> html_of(t, c) == "<p>"@ + c + "</p>"@,
        t != SegmentType::Title && t != SegmentType::SectionHeader && t != SegmentType::Text && t
            != SegmentType::ListItem ==> html_of(t, c) == "<span class=\""@ + segment_type_name(
            t,
        ).map_values(|ch: char| class_char(ch)) + "\">"@ + c + "</span>"@,
{
}

/// Only pictures show the segment id in Markdown; every other type renders
/// the same whatever its id. Headings get their marker, list items their
/// number or dash, and all remaining types are their text and a blank line.
pub proof fn lemma_markdown_by_type(t: SegmentType, c: Seq<char>, id1: Seq<char>, id2: Seq<char>)
    ensures
        t != SegmentType::Picture ==> markdown_of(t, c, id1) == markdown_of(t, c, id2),
        t == SegmentType::Picture ==> markdown_of(t, c, id1) == "!["@ + id1 + "]()"@,
        t == SegmentType::Title ==> markdown_of(t, c, id1) == "# "@ + c + "\n\n"@,
        t == SegmentType::SectionHeader ==> markdown_of(t, c, id1) == "## "@ + c + "\n\n"@,
        t == SegmentType::Text || t == SegmentType::Table || t == SegmentType::Caption || t
            == SegmentType::Formula || t == SegmentType::Footnote || t == SegmentType::PageHeader
            || t == SegmentType::PageFooter ==> markdown_of(t, c, id1) == c + "\n\n"@,
{
}

}
