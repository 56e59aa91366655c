//! The OCR worker's decisions: which segments are sent to OCR, what is kept
//! of an OCR outcome, and which status updates the worker records.

use vstd::prelude::*;
use vstd::string::*;
use crate::segment::{Chunk, OCRResult, OCRResultView, Segment, SegmentType, SegmentView, ocr_view};
use crate::task::Status;

verus! {

/// When segment images are sent to OCR.
#[derive(Clone, Copy, Debug, PartialEq, Eq, Structural)]
pub enum OcrStrategy {
    /// Every segment that has an image.
    All,
    /// Tables, pictures, and segments without text, when they have an image.
    Auto,
    /// None.
    Off,
}

/// Whether a segment goes to OCR under `strategy`.
pub open spec fn wants_ocr(s: SegmentView, strategy: OcrStrategy) -> bool {
    &&& s.image is Some
    &&& match strategy {
        OcrStrategy::Off => false,
        OcrStrategy::All => true,
        OcrStrategy::Auto => s.segment_type == SegmentType::Table || s.segment_type
            == SegmentType::Picture || s.content.len() == 0,
    }
}

/// Each strategy sends at least the segments that a stricter one sends:
/// nothing under `Off`, and under `All` every segment that `Auto` sends.
pub proof fn lemma_strategies_nested(s: SegmentView)
    ensures
        !wants_ocr(s, OcrStrategy::Off),
        wants_ocr(s, OcrStrategy::Auto) ==> wants_ocr(s, OcrStrategy::All),
        wants_ocr(s, OcrStrategy::All) <==> s.image is Some,
{
}

/// Under `Auto`, a segment with an image goes to OCR exactly when it is a
/// table or a picture, or has no text, whatever its type; a segment without
/// an image never does.
pub proof fn lemma_auto_strategy(s: SegmentView)
    ensures
        s.image is Some && s.content.len() == 0 ==> wants_ocr(s, OcrStrategy::Auto),
        s.image is Some && (s.segment_type == SegmentType::Table || s.segment_type
            == SegmentType::Picture) ==> wants_ocr(s, OcrStrategy::Auto),
        s.content.len() > 0 && s.segment_type != SegmentType::Table && s.segment_type
            != SegmentType::Picture ==> !wants_ocr(s, OcrStrategy::Auto),
        s.image is None ==> !wants_ocr(s, OcrStrategy::Auto),
{
}

/// Whether `segment` goes to OCR under `ocr_strategy`.
pub fn filter_segment(segment: &Segment, ocr_strategy: OcrStrategy) -> (r: bool)
    ensures
        r == wants_ocr(segment@, ocr_strategy),
{
    if segment.image.is_none() {
        return false;
    }
    match ocr_strategy {
        OcrStrategy::Off => false,
        OcrStrategy::All => true,
        OcrStrategy::Auto => {
            match segment.segment_type {
                SegmentType::Table => true,
                SegmentType::Picture => true,
                _ => {
                    if segment.content.as_str().is_empty() {
                        true
                    } else {
                        false
                    }
                },
            }
        },
    }
}

/// A status to record for a task.
#[derive(Debug)]
pub struct StatusUpdate {
    pub status: Status,
    pub message: String,
    /// Whether the update also records the time the task finished.
    pub finished: bool,
}

/// The update recorded when the OCR worker starts on a task.
pub fn ocr_started_update() -> (r: StatusUpdate)
    ensures
        r.status == Status::Processing,
        r.message@ == "OCR started"@,
        !r.finished,
{
    StatusUpdate {
        status: Status::Processing,
        message: String::from_str("OCR started"),
        finished: false,
    }
}

/// The update recorded when the OCR worker is done with a task: success is
/// recorded as such; a failure is recorded only once the attempts are used up.
pub fn ocr_finished_update(succeeded: bool, attempt: u32, max_attempts: u32) -> (r: Option<
    StatusUpdate,
>)
    ensures
        succeeded ==> (r matches Some(u) && u.status == Status::Succeeded && u.message@
            == "Task succeeded"@ && u.finished),
        !succeeded && attempt >= max_attempts ==> (r matches Some(u) && u.status
            == Status::Failed && u.message@ == "OCR failed"@ && u.finished),
        !succeeded && attempt < max_attempts ==> r is None,
{
    if succeeded {
        Some(
            StatusUpdate {
                status: Status::Succeeded,
                message: String::from_str("Task succeeded"),
                finished: true,
            },
        )
    } else if attempt >= max_attempts {
        Some(
            StatusUpdate {
                status: Status::Failed,
                message: String::from_str("OCR failed"),
                finished: true,
            },
        )
    } else {
        None
    }
}


/// The segment at position `(i, j)`: segment `j` of chunk `i`.
pub open spec fn segment_at(chunks: Seq<Chunk>, i: int, j: int) -> SegmentView {
    chunks[i]@.segments[j]
}

/// `(i, j)` is the position of a segment of `chunks`.
pub open spec fn is_position(chunks: Seq<Chunk>, i: int, j: int) -> bool {
    0 <= i < chunks.len() && 0 <= j < chunks[i]@.segments.len()
}

/// Position `p` comes before position `q` in document order.
pub open spec fn before(p: (usize, usize), q: (usize, usize)) -> bool {
    p.0 < q.0 || (p.0 == q.0 && p.1 < q.1)
}

/// `targets` lists, in document order, exactly the positions of the segments
/// of `chunks` that go to OCR under `strategy`.
pub open spec fn lists_ocr_targets(
    targets: Seq<(usize, usize)>,
    chunks: Seq<Chunk>,
    strategy: OcrStrategy,
) -> bool {
    &&& forall|k: int|
        0 <= k < targets.len() ==> is_position(chunks, #[trigger] targets[k].0 as int, targets[k].1 as int)
            && wants_ocr(segment_at(chunks, targets[k].0 as int, targets[k].1 as int), strategy)
    &&& forall|i: int, j: int|
        is_position(chunks, i, j) && wants_ocr(#[trigger] segment_at(chunks, i, j), strategy)
            ==> exists|k: int| 0 <= k < targets.len() && targets[k] == (i as usize, j as usize)
    &&& forall|k1: int, k2: int|
        0 <= k1 < k2 < targets.len() ==> before(#[trigger] targets[k1], #[trigger] targets[k2])
}

/// The positions of the segments that go to OCR, in document order.
pub fn ocr_targets(chunks: &Vec<Chunk>, strategy: OcrStrategy) -> (targets: Vec<(usize, usize)>)
    ensures
        lists_ocr_targets(targets@, chunks@, strategy),
{
    let mut targets: Vec<(usize, usize)> = Vec::new();
    let mut i: usize = 0;
    while i < chunks.len()
        invariant
            0 <= i <= chunks@.len(),
            forall|k: int|
                0 <= k < targets@.len() ==> #[trigger] targets@[k].0 < i && is_position(
                    chunks@,
                    targets@[k].0 as int,
                    targets@[k].1 as int,
                ) && wants_ocr(
                    segment_at(chunks@, targets@[k].0 as int, targets@[k].1 as int),
                    strategy,
                ),
            forall|a: int, b: int|
                0 <= a < i && is_position(chunks@, a, b) && wants_ocr(
                    #[trigger] segment_at(chunks@, a, b),
                    strategy,
                ) ==> exists|k: int| 0 <= k < targets@.len() && targets@[k] == (a as usize, b as usize),
            forall|k1: int, k2: int|
                0 <= k1 < k2 < targets@.len() ==> before(#[trigger] targets@[k1], #[trigger] targets@[k2]),
        decreases chunks@.len() - i,
    {
        let segments = &chunks[i].segments;
        let mut j: usize = 0;
        while j < segments.len()
            invariant
                0 <= i < chunks@.len(),
                *segments == chunks@[i as int].segments,
                0 <= j <= segments@.len(),
                forall|k: int|
                    0 <= k < targets@.len() ==> before(#[trigger] targets@[k], (i, j))
                        && is_position(chunks@, targets@[k].0 as int, targets@[k].1 as int)
                        && wants_ocr(
                        segment_at(chunks@, targets@[k].0 as int, targets@[k].1 as int),
                        strategy,
                    ),
                forall|a: int, b: int|
                    (0 <= a < i || (a == i && 0 <= b < j)) && is_position(chunks@, a, b)
                        && wants_ocr(#[trigger] segment_at(chunks@, a, b), strategy) ==> exists|
                        k: int,
                    | 0 <= k < targets@.len() && targets@[k] == (a as usize, b as usize),
                forall|k1: int, k2: int|
                    0 <= k1 < k2 < targets@.len() ==> before(
                        #[trigger] targets@[k1],
                        #[trigger] targets@[k2],
                    ),
            decreases segments@.len() - j,
        {
            let wanted = filter_segment(&segments[j], strategy);
            proof {
                assert(segments@[j as int]@ == segment_at(chunks@, i as int, j as int));
            }
            if wanted {
                let ghost prev = targets@;
                targets.push((i, j));
                proof {
                    assert forall|a: int, b: int|
                        (0 <= a < i || (a == i && 0 <= b < j + 1)) && is_position(chunks@, a, b)
                            && wants_ocr(#[trigger] segment_at(chunks@, a, b), strategy) implies exists|
                            k: int,
                        | 0 <= k < targets@.len() && targets@[k] == (a as usize, b as usize) by {
                        if a == i && b == j {
                            assert(targets@[prev.len() as int] == (a as usize, b as usize));
                        } else {
                            let k = choose|k: int|
                                0 <= k < prev.len() && prev[k] == (a as usize, b as usize);
                            assert(targets@[k] == prev[k]);
                        }
                    }
                }
            }
            j = j + 1;
        }
        proof {
            assert forall|a: int, b: int|
                0 <= a < i + 1 && is_position(chunks@, a, b) && wants_ocr(
                    #[trigger] segment_at(chunks@, a, b),
                    strategy,
                ) implies exists|k: int|
                0 <= k < targets@.len() && targets@[k] == (a as usize, b as usize) by {
                if a == i {
                    assert(b < segments@.len());
                }
            }
        }
        i = i + 1;
    }
    targets
}


pub open spec fn outcomes_view(outcomes: Seq<Option<Vec<OCRResult>>>) -> Seq<
    Option<Seq<OCRResultView>>,
> {
    outcomes.map_values(|o: Option<Vec<OCRResult>>| ocr_view(o))
}

/// Segment `s` at position `(i, j)` once the outcomes listed from index `lo`
/// on are recorded: the results of the first successful OCR listed for
/// `(i, j)` replace its OCR results; without one it stays as it is.
pub open spec fn with_outcomes_from(
    s: SegmentView,
    targets: Seq<(usize, usize)>,
    outcomes: Seq<Option<Seq<OCRResultView>>>,
    i: int,
    j: int,
    lo: int,
) -> SegmentView
    decreases targets.len() - lo,
{
    if lo < 0 || lo >= targets.len() {
        s
    } else if targets[lo].0 as int == i && targets[lo].1 as int == j && outcomes[lo] is Some {
        SegmentView { ocr: outcomes[lo], ..s }
    } else {
        with_outcomes_from(s, targets, outcomes, i, j, lo + 1)
    }
}

proof fn lemma_outcomes_touch_only_ocr(
    s: SegmentView,
    targets: Seq<(usize, usize)>,
    outcomes: Seq<Option<Seq<OCRResultView>>>,
    i: int,
    j: int,
    lo: int,
)
    ensures
        with_outcomes_from(s, targets, outcomes, i, j, lo) == (SegmentView {
            ocr: with_outcomes_from(s, targets, outcomes, i, j, lo).ocr,
            ..s
        }),
    decreases targets.len() - lo,
{
    if !(lo < 0 || lo >= targets.len()) && !(targets[lo].0 as int == i && targets[lo].1 as int == j
        && outcomes[lo] is Some) {
        lemma_outcomes_touch_only_ocr(s, targets, outcomes, i, j, lo + 1);
    }
}

/// Sets the OCR results of the segment at `(i, j)`.
fn set_ocr_at(chunks: &mut Vec<Chunk>, i: usize, j: usize, results: Vec<OCRResult>)
    requires
        is_position(old(chunks)@, i as int, j as int),
    ensures
        final(chunks)@.len() == old(chunks)@.len(),
        forall|a: int|
            0 <= a < old(chunks)@.len() ==> (#[trigger] final(chunks)@[a]).chunk_length == old(
                chunks,
            )@[a].chunk_length && final(chunks)@[a].segments@.len() == old(
                chunks,
            )@[a].segments@.len(),
        forall|a: int, b: int|
            is_position(old(chunks)@, a, b) ==> #[trigger] segment_at(final(chunks)@, a, b) == if a
                == i && b == j {
                SegmentView { ocr: ocr_view(Some(results)), ..segment_at(old(chunks)@, a, b) }
            } else {
                segment_at(old(chunks)@, a, b)
            },
{
    chunks[i].segments[j].ocr = Some(results);
    proof {
        assert forall|a: int, b: int| is_position(old(chunks)@, a, b) implies #[trigger] segment_at(
            chunks@,
            a,
            b,
        ) == if a == i && b == j {
            SegmentView { ocr: ocr_view(Some(results)), ..segment_at(old(chunks)@, a, b) }
        } else {
            segment_at(old(chunks)@, a, b)
        } by {
            if a == i {
                assert(chunks@[a].segments@[b] == if b == j {
                    Segment { ocr: Some(results), ..old(chunks)@[a].segments@[b] }
                } else {
                    old(chunks)@[a].segments@[b]
                });
            }
        }
    }
}

/// Records OCR outcomes: `outcomes[k]` is the outcome of OCR on the segment
/// at `targets[k]`; the results of a successful OCR replace that segment's
/// OCR results (the first listed, should a position be listed twice), and
/// nothing else changes.
pub fn apply_ocr_outcomes(
    chunks: &mut Vec<Chunk>,
    targets: &Vec<(usize, usize)>,
    outcomes: Vec<Option<Vec<OCRResult>>>,
)
    requires
        forall|m: int|
            0 <= m < targets@.len() ==> is_position(old(chunks)@, #[trigger] targets@[m].0 as int, targets@[m].1 as int),
        outcomes@.len() == targets@.len(),
    ensures
        final(chunks)@.len() == old(chunks)@.len(),
        forall|a: int|
            0 <= a < old(chunks)@.len() ==> (#[trigger] final(chunks)@[a]).chunk_length == old(
                chunks,
            )@[a].chunk_length && final(chunks)@[a].segments@.len() == old(
                chunks,
            )@[a].segments@.len(),
        forall|a: int, b: int|
            is_position(old(chunks)@, a, b) ==> #[trigger] segment_at(final(chunks)@, a, b)
                == with_outcomes_from(
                segment_at(old(chunks)@, a, b),
                targets@,
                outcomes_view(outcomes@),
                a,
                b,
                0,
            ),
{
    let ghost old_chunks = chunks@;
    let ghost outs = outcomes_view(outcomes@);
    let ghost all_outcomes = outcomes@;
    let mut outcomes = outcomes;
    let mut k = targets.len();
    while k > 0
        invariant
            0 <= k <= targets@.len(),
            outcomes@ == all_outcomes.take(k as int),
            all_outcomes.len() == targets@.len(),
            outs == outcomes_view(all_outcomes),
            forall|m: int|
                0 <= m < targets@.len() ==> is_position(old_chunks, #[trigger] targets@[m].0 as int, targets@[m].1 as int),
            chunks@.len() == old_chunks.len(),
            forall|a: int|
                0 <= a < old_chunks.len() ==> (#[trigger] chunks@[a]).chunk_length
                    == old_chunks[a].chunk_length && chunks@[a].segments@.len()
                    == old_chunks[a].segments@.len(),
            forall|a: int, b: int|
                is_position(old_chunks, a, b) ==> #[trigger] segment_at(chunks@, a, b)
                    == with_outcomes_from(segment_at(old_chunks, a, b), targets@, outs, a, b, k as int),
        decreases k,
    {
        let ghost before_chunks = chunks@;
        let outcome = outcomes.pop();
        let ghost kk = (k - 1) as int;
        proof {
            assert(all_outcomes.take(k as int).drop_last() =~= all_outcomes.take(kk));
            assert(outcome == Some(all_outcomes[kk]));
        }
        let (ti, tj) = targets[k - 1];
        proof {
            assert(is_position(old_chunks, ti as int, tj as int));
        }
        match outcome {
            Some(Some(results)) => {
                set_ocr_at(chunks, ti, tj, results);
            },
            _ => {},
        }
        proof {
            assert forall|a: int, b: int| is_position(old_chunks, a, b) implies #[trigger] segment_at(
                chunks@,
                a,
                b,
            ) == with_outcomes_from(segment_at(old_chunks, a, b), targets@, outs, a, b, kk) by {
                assert(is_position(before_chunks, a, b));
                assert(outs[kk] == ocr_view(all_outcomes[kk]));
                let s0 = segment_at(old_chunks, a, b);
                let wk = with_outcomes_from(s0, targets@, outs, a, b, k as int);
                let wkk = with_outcomes_from(s0, targets@, outs, a, b, kk);
                assert(segment_at(before_chunks, a, b) == wk);
                if targets@[kk].0 as int == a && targets@[kk].1 as int == b && outs[kk] is Some {
                    assert(wkk == SegmentView { ocr: outs[kk], ..s0 });
                    assert(all_outcomes[kk] is Some);
                    assert(ti as int == a && tj as int == b);
                    lemma_outcomes_touch_only_ocr(s0, targets@, outs, a, b, k as int);
                    assert(segment_at(chunks@, a, b) =~= wkk);
                } else {
                    assert(wkk == wk);
                    assert(segment_at(chunks@, a, b) == segment_at(before_chunks, a, b));
                }
            }
        }
        k = k - 1;
    }
}


proof fn lemma_unlisted_unchanged(
    s: SegmentView,
    targets: Seq<(usize, usize)>,
    outcomes: Seq<Option<Seq<OCRResultView>>>,
    i: int,
    j: int,
    lo: int,
)
    requires
        forall|k: int|
            0 <= k < targets.len() ==> !(#[trigger] targets[k].0 as int == i && targets[k].1 as int
                == j),
    ensures
        with_outcomes_from(s, targets, outcomes, i, j, lo) == s,
    decreases targets.len() - lo,
{
    if 0 <= lo < targets.len() {
        lemma_unlisted_unchanged(s, targets, outcomes, i, j, lo + 1);
    }
}

/// Recording the outcomes of OCR on the targets that `ocr_targets` lists
/// leaves every segment that the strategy does not send to OCR unchanged.
pub proof fn lemma_ocr_only_touches_targets(
    chunks: Seq<Chunk>,
    strategy: OcrStrategy,
    targets: Seq<(usize, usize)>,
    outcomes: Seq<Option<Seq<OCRResultView>>>,
    i: int,
    j: int,
)
    requires
        lists_ocr_targets(targets, chunks, strategy),
        is_position(chunks, i, j),
        !wants_ocr(segment_at(chunks, i, j), strategy),
    ensures
        with_outcomes_from(segment_at(chunks, i, j), targets, outcomes, i, j, 0) == segment_at(
            chunks,
            i,
            j,
        ),
{
    assert forall|k: int| 0 <= k < targets.len() implies !(#[trigger] targets[k].0 as int == i
        && targets[k].1 as int == j) by {
        if targets[k].0 as int == i && targets[k].1 as int == j {
            assert(wants_ocr(segment_at(chunks, targets[k].0 as int, targets[k].1 as int), strategy));
        }
    }
    lemma_unlisted_unchanged(segment_at(chunks, i, j), targets, outcomes, i, j, 0);
}

}
