use chunkmydocs::segment::{BoundingBox, PdlaSegment, Segment, SegmentType};

fn segment(segment_type: SegmentType, content: &str) -> Segment {
    Segment {
        segment_id: "seg-1".to_string(),
        bbox: BoundingBox { left: 1, top: 2, width: 3, height: 4 },
        page_number: 1,
        page_width: 100,
        page_height: 200,
        content: content.to_string(),
        segment_type,
        ocr: None,
        image: None,
        html: None,
        markdown: None,
    }
}

fn html(t: SegmentType, content: &str) -> String {
    segment(t, content).to_html()
}

fn markdown(t: SegmentType, content: &str) -> String {
    segment(t, content).to_markdown()
}

#[test]
fn html_of_headings_and_text() {
    assert_eq!(html(SegmentType::Title, "Intro"), "<h1>Intro</h1>");
    assert_eq!(html(SegmentType::SectionHeader, "Methods"), "<h2>Methods</h2>");
    assert_eq!(html(SegmentType::Text, "Body text."), "<p>Body text.</p>");
}

#[test]
fn html_of_other_types_uses_lowercase_class() {
    assert_eq!(html(SegmentType::Table, "t"), "<span class=\"table\">t</span>");
    assert_eq!(html(SegmentType::Picture, ""), "<span class=\"picture\"></span>");
    assert_eq!(html(SegmentType::Caption, "c"), "<span class=\"caption\">c</span>");
    assert_eq!(html(SegmentType::Formula, "x"), "<span class=\"formula\">x</span>");
    assert_eq!(html(SegmentType::Footnote, "f"), "<span class=\"footnote\">f</span>");
    assert_eq!(html(SegmentType::PageHeader, "h"), "<span class=\"pageheader\">h</span>");
    assert_eq!(html(SegmentType::PageFooter, "p"), "<span class=\"pagefooter\">p</span>");
}

#[test]
fn html_of_numbered_list_items() {
    assert_eq!(
        html(SegmentType::ListItem, "1. First item"),
        "<ol start='1'><li>First item</li></ol>"
    );
    assert_eq!(
        html(SegmentType::ListItem, "  12.Item.with.dots  "),
        "<ol start='12'><li>Item.with.dots</li></ol>"
    );
    assert_eq!(html(SegmentType::ListItem, "+7. plus"), "<ol start='7'><li>plus</li></ol>");
    assert_eq!(html(SegmentType::ListItem, "-3. neg"), "<ol start='-3'><li>neg</li></ol>");
    assert_eq!(html(SegmentType::ListItem, "007. bond"), "<ol start='7'><li>bond</li></ol>");
    assert_eq!(html(SegmentType::ListItem, "42"), "<ol start='42'><li></li></ol>");
    assert_eq!(
        html(SegmentType::ListItem, "-2147483648. min"),
        "<ol start='-2147483648'><li>min</li></ol>"
    );
}

#[test]
fn html_of_bulleted_list_items() {
    assert_eq!(html(SegmentType::ListItem, "- bullet"), "<ul><li>bullet</li></ul>");
    assert_eq!(html(SegmentType::ListItem, "\u{2022} dot item"), "<ul><li>dot item</li></ul>");
    assert_eq!(html(SegmentType::ListItem, "*-\u{25CF} mixed "), "<ul><li>mixed</li></ul>");
    assert_eq!(html(SegmentType::ListItem, "abc"), "<ul><li>abc</li></ul>");
    assert_eq!(
        html(SegmentType::ListItem, "99999999999. too big"),
        "<ul><li>99999999999. too big</li></ul>"
    );
    assert_eq!(html(SegmentType::ListItem, "2147483648. x"), "<ul><li>2147483648. x</li></ul>");
    assert_eq!(html(SegmentType::ListItem, "+. x"), "<ul><li>+. x</li></ul>");
    assert_eq!(html(SegmentType::ListItem, ""), "<ul><li></li></ul>");
}

#[test]
fn markdown_renderings() {
    assert_eq!(markdown(SegmentType::Title, "Intro"), "# Intro\n\n");
    assert_eq!(markdown(SegmentType::SectionHeader, "Methods"), "## Methods\n\n");
    assert_eq!(markdown(SegmentType::ListItem, "3. Third"), "3. Third");
    assert_eq!(markdown(SegmentType::ListItem, "\u{25CF} point"), "- point\n\n");
    assert_eq!(markdown(SegmentType::Picture, "ignored"), "![seg-1]()");
    assert_eq!(markdown(SegmentType::Text, "plain"), "plain\n\n");
    assert_eq!(markdown(SegmentType::Table, "cells"), "cells\n\n");
}

#[test]
fn finalize_fills_html_and_markdown_only() {
    let mut s = segment(SegmentType::Title, "Intro");
    s.finalize();
    assert_eq!(s.html.as_deref(), Some("<h1>Intro</h1>"));
    assert_eq!(s.markdown.as_deref(), Some("# Intro\n\n"));
    assert_eq!(s.content, "Intro");
    assert_eq!(s.segment_id, "seg-1");
    assert!(s.ocr.is_none());
    assert!(s.image.is_none());
}

#[test]
fn finalize_twice_is_finalize_once() {
    let mut s = segment(SegmentType::ListItem, " 5. five ");
    s.finalize();
    let html = s.html.clone();
    let md = s.markdown.clone();
    s.finalize();
    assert_eq!(s.html, html);
    assert_eq!(s.markdown, md);
    assert_eq!(s.html.as_deref(), Some("<ol start='5'><li>five</li></ol>"));
}

#[test]
fn to_segment_copies_the_record_under_a_fresh_id() {
    let p = PdlaSegment {
        left: 10,
        top: 20,
        width: 30,
        height: 40,
        page_number: 3,
        page_width: 600,
        page_height: 800,
        text: "Hello".to_string(),
        segment_type: SegmentType::Caption,
    };
    let s = p.to_segment();
    assert_eq!(s.bbox, BoundingBox { left: 10, top: 20, width: 30, height: 40 });
    assert_eq!(s.page_number, 3);
    assert_eq!(s.page_width, 600);
    assert_eq!(s.page_height, 800);
    assert_eq!(s.content, "Hello");
    assert_eq!(s.segment_type, SegmentType::Caption);
    assert!(s.ocr.is_none() && s.image.is_none() && s.html.is_none() && s.markdown.is_none());
    let id: Vec<char> = s.segment_id.chars().collect();
    assert_eq!(id.len(), 36);
    for (i, c) in id.iter().enumerate() {
        if i == 8 || i == 13 || i == 18 || i == 23 {
            assert_eq!(*c, '-');
        } else {
            assert!(c.is_ascii_digit() || ('a'..='f').contains(c));
        }
    }
    assert_eq!(id[14], '4');
    assert!(matches!(id[19], '8' | '9' | 'a' | 'b'));
    let other = p.to_segment();
    assert_ne!(other.segment_id, s.segment_id);
}

#[test]
fn segment_type_names_round_trip() {
    let all = [
        SegmentType::Title,
        SegmentType::SectionHeader,
        SegmentType::Text,
        SegmentType::ListItem,
        SegmentType::Table,
        SegmentType::Picture,
        SegmentType::Caption,
        SegmentType::Formula,
        SegmentType::Footnote,
        SegmentType::PageHeader,
        SegmentType::PageFooter,
    ];
    for t in all {
        assert_eq!(SegmentType::from_name(t.name()), Some(t));
    }
    assert_eq!(SegmentType::SectionHeader.name(), "SectionHeader");
    assert_eq!(SegmentType::from_name("Section header"), None);
    assert_eq!(SegmentType::from_name("title"), None);
    assert_eq!(SegmentType::PageFooter.css_class(), "pagefooter");
}
