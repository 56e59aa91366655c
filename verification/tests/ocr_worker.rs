use chunkmydocs::ocr::{
    apply_ocr_outcomes, filter_segment, ocr_finished_update, ocr_started_update, ocr_targets,
    OcrStrategy,
};
use chunkmydocs::segment::{BoundingBox, Chunk, OCRResult, Segment, SegmentType};
use chunkmydocs::task::Status;

fn seg(t: SegmentType, content: &str, image: Option<&str>) -> Segment {
    Segment {
        segment_id: format!("id-{}", content),
        bbox: BoundingBox { left: 0, top: 0, width: 0, height: 0 },
        page_number: 1,
        page_width: 0,
        page_height: 0,
        content: content.to_string(),
        segment_type: t,
        ocr: None,
        image: image.map(|s| s.to_string()),
        html: None,
        markdown: None,
    }
}

fn result(text: &str) -> OCRResult {
    OCRResult {
        bbox: BoundingBox { left: 1, top: 1, width: 1, height: 1 },
        text: text.to_string(),
        confidence: Some(7),
    }
}

#[test]
fn filter_segment_by_strategy() {
    let no_image = seg(SegmentType::Table, "", None);
    for s in [OcrStrategy::All, OcrStrategy::Auto, OcrStrategy::Off] {
        assert!(!filter_segment(&no_image, s));
    }
    let table = seg(SegmentType::Table, "cells", Some("t.png"));
    let picture = seg(SegmentType::Picture, "x", Some("p.png"));
    let empty_text = seg(SegmentType::Text, "", Some("e.png"));
    let text = seg(SegmentType::Text, "words", Some("w.png"));
    assert!(filter_segment(&table, OcrStrategy::Auto));
    assert!(filter_segment(&picture, OcrStrategy::Auto));
    assert!(filter_segment(&empty_text, OcrStrategy::Auto));
    assert!(!filter_segment(&text, OcrStrategy::Auto));
    assert!(filter_segment(&text, OcrStrategy::All));
    assert!(!filter_segment(&table, OcrStrategy::Off));
}

fn sample_chunks() -> Vec<Chunk> {
    vec![
        Chunk {
            segments: vec![
                seg(SegmentType::Title, "T", Some("a.png")),
                seg(SegmentType::Table, "cells", Some("b.png")),
            ],
            chunk_length: 2,
        },
        Chunk { segments: vec![], chunk_length: 0 },
        Chunk {
            segments: vec![
                seg(SegmentType::Text, "", Some("c.png")),
                seg(SegmentType::Picture, "pic", None),
            ],
            chunk_length: 1,
        },
    ]
}

#[test]
fn targets_in_document_order() {
    let chunks = sample_chunks();
    assert_eq!(ocr_targets(&chunks, OcrStrategy::Auto), vec![(0, 1), (2, 0)]);
    assert_eq!(ocr_targets(&chunks, OcrStrategy::All), vec![(0, 0), (0, 1), (2, 0)]);
    assert_eq!(ocr_targets(&chunks, OcrStrategy::Off), vec![]);
}

#[test]
fn outcomes_are_recorded_where_ocr_succeeded() {
    let mut chunks = sample_chunks();
    let targets = ocr_targets(&chunks, OcrStrategy::All);
    apply_ocr_outcomes(
        &mut chunks,
        &targets,
        vec![Some(vec![result("title")]), None, Some(vec![result("a"), result("b")])],
    );
    let texts = |s: &Segment| s.ocr.as_ref().map(|v| v.iter().map(|r| r.text.clone()).collect::<Vec<_>>());
    assert_eq!(texts(&chunks[0].segments[0]), Some(vec!["title".to_string()]));
    assert_eq!(texts(&chunks[0].segments[1]), None);
    assert_eq!(texts(&chunks[2].segments[0]), Some(vec!["a".to_string(), "b".to_string()]));
    assert_eq!(texts(&chunks[2].segments[1]), None);
    assert_eq!(chunks[0].chunk_length, 2);
    assert_eq!(chunks[2].segments[0].content, "");
}

#[test]
fn worker_status_updates() {
    let start = ocr_started_update();
    assert_eq!(start.status, Status::Processing);
    assert_eq!(start.message, "OCR started");
    assert!(!start.finished);
    let ok = ocr_finished_update(true, 1, 3).unwrap();
    assert_eq!(ok.status, Status::Succeeded);
    assert_eq!(ok.message, "Task succeeded");
    assert!(ok.finished);
    assert!(ocr_finished_update(false, 1, 3).is_none());
    let failed = ocr_finished_update(false, 3, 3).unwrap();
    assert_eq!(failed.status, Status::Failed);
    assert_eq!(failed.message, "OCR failed");
    assert!(failed.finished);
}
