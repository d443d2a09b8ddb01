//! Sequences of assessed frames in the order of their frame numbers.
//!
//! Assessments arrive in whatever order the analyses finish. They are kept in
//! a sequence that is strictly ordered by frame number at every moment: each
//! arrival is put at its place, and a second assessment of a frame number that
//! is already held is dropped.

use crate::types::FrameAnalysis;
use vstd::prelude::*;

verus! {

/// Each frame has a smaller frame number than every frame after it.
pub open spec fn strictly_ordered(frames: Seq<FrameAnalysis>) -> bool {
    forall|i: int, j: int|
        0 <= i < j < frames.len() ==> frames[i].frame_number < frames[j].frame_number
}

/// Whether a frame with this number is among `frames`.
pub open spec fn holds_number(frames: Seq<FrameAnalysis>, number: u32) -> bool {
    exists|i: int| 0 <= i < frames.len() && frames[i].frame_number == number
}

/// The number of frames among `frames` whose frame number is below `number`.
pub open spec fn frames_below(frames: Seq<FrameAnalysis>, number: u32) -> int
    decreases frames.len(),
{
    if frames.len() == 0 {
        0
    } else if frames.last().frame_number < number {
        frames_below(frames.drop_last(), number) + 1
    } else {
        frames_below(frames.drop_last(), number)
    }
}

/// `frames` with `frame` put behind the frames of smaller number, or `frames`
/// as it is where it already holds a frame of that number.
pub open spec fn with_frame(frames: Seq<FrameAnalysis>, frame: FrameAnalysis) -> Seq<
    FrameAnalysis,
> {
    if holds_number(frames, frame.frame_number) {
        frames
    } else {
        frames.insert(frames_below(frames, frame.frame_number), frame)
    }
}

/// `place` splits `frames` into the frames below `number` and the frames not
/// below it.
pub open spec fn splits_at(frames: Seq<FrameAnalysis>, number: u32, place: int) -> bool {
    &&& 0 <= place <= frames.len()
    &&& forall|k: int| 0 <= k < place ==> frames[k].frame_number < number
    &&& forall|k: int| place <= k < frames.len() ==> frames[k].frame_number >= number
}

/// The place that splits a sequence at `number` is the count of its frames
/// below `number`.
pub proof fn lemma_split_counts(frames: Seq<FrameAnalysis>, number: u32, place: int)
    requires
        splits_at(frames, number, place),
    ensures
        frames_below(frames, number) == place,
    decreases frames.len(),
{
    if frames.len() > 0 {
        let rest = frames.drop_last();
        if place == frames.len() {
            assert(frames.last().frame_number < number);
            assert(splits_at(rest, number, place - 1));
            lemma_split_counts(rest, number, place - 1);
        } else {
            assert(frames.last().frame_number >= number);
            assert(splits_at(rest, number, place));
            lemma_split_counts(rest, number, place);
        }
    }
}

/// A strictly ordered sequence is split at any number by the count of its
/// frames below that number.
pub proof fn lemma_ordered_splits(frames: Seq<FrameAnalysis>, number: u32)
    requires
        strictly_ordered(frames),
    ensures
        splits_at(frames, number, frames_below(frames, number)),
    decreases frames.len(),
{
    if frames.len() > 0 {
        let rest = frames.drop_last();
        assert(strictly_ordered(rest));
        lemma_ordered_splits(rest, number);
        let place = frames_below(rest, number);
        if frames.last().frame_number < number {
            assert forall|k: int| 0 <= k < frames.len() implies frames[k].frame_number
                < number by {
                if k < frames.len() - 1 {
                    assert(frames[k].frame_number < frames[frames.len() - 1].frame_number);
                }
            }
            assert(splits_at(frames, number, frames.len() as int));
            lemma_split_counts(frames, number, frames.len() as int);
        } else {
            assert forall|k: int| place <= k < frames.len() implies frames[k].frame_number
                >= number by {
                if k < rest.len() {
                    assert(rest[k].frame_number >= number);
                }
            }
            assert forall|k: int| 0 <= k < place implies frames[k].frame_number < number by {
                assert(rest[k].frame_number < number);
            }
            assert(splits_at(frames, number, place));
        }
    }
}

/// Putting a frame into a strictly ordered sequence leaves it strictly ordered.
pub proof fn lemma_with_frame_ordered(frames: Seq<FrameAnalysis>, frame: FrameAnalysis)
    requires
        strictly_ordered(frames),
    ensures
        strictly_ordered(with_frame(frames, frame)),
{
    if !holds_number(frames, frame.frame_number) {
        let number = frame.frame_number;
        let place = frames_below(frames, number);
        lemma_ordered_splits(frames, number);
        let grown = frames.insert(place, frame);
        assert forall|i: int, j: int| 0 <= i < j < grown.len() implies grown[i].frame_number
            < grown[j].frame_number by {
            if i == place {
                assert(grown[j] == frames[j - 1]);
                assert(frames[j - 1].frame_number >= number);
                assert(frames[j - 1].frame_number != number);
            } else if j == place {
                assert(grown[i] == frames[i]);
            } else if i < place && j < place {
                assert(grown[i] == frames[i] && grown[j] == frames[j]);
            } else if i < place && j > place {
                assert(grown[i] == frames[i] && grown[j] == frames[j - 1]);
            } else {
                assert(grown[i] == frames[i - 1] && grown[j] == frames[j - 1]);
            }
        }
    }
}

/// After a frame is put in, the sequence holds the numbers it held before and
/// the number of that frame.
pub proof fn lemma_with_frame_holds(frames: Seq<FrameAnalysis>, frame: FrameAnalysis, number: u32)
    ensures
        holds_number(with_frame(frames, frame), number) == (holds_number(frames, number)
            || frame.frame_number == number),
{
    if holds_number(frames, frame.frame_number) {
    } else {
        let place = frames_below(frames, frame.frame_number);
        lemma_count_in_range(frames, frame.frame_number);
        let grown = frames.insert(place, frame);
        if holds_number(grown, number) {
            let i = choose|i: int| 0 <= i < grown.len() && grown[i].frame_number == number;
            if i < place {
                assert(frames[i].frame_number == number);
            } else if i > place {
                assert(frames[i - 1].frame_number == number);
            }
        }
        if holds_number(frames, number) {
            let k = choose|k: int| 0 <= k < frames.len() && frames[k].frame_number == number;
            if k < place {
                assert(grown[k].frame_number == number);
            } else {
                assert(grown[k + 1].frame_number == number);
            }
        }
        if frame.frame_number == number {
            assert(grown[place].frame_number == number);
        }
    }
}

/// The count of the frames below a number lies between zero and the length.
pub proof fn lemma_count_in_range(frames: Seq<FrameAnalysis>, number: u32)
    ensures
        0 <= frames_below(frames, number) <= frames.len(),
    decreases frames.len(),
{
    if frames.len() > 0 {
        lemma_count_in_range(frames.drop_last(), number);
    }
}

/// Putting a frame into a strictly ordered sequence that does not hold its
/// number raises by one the count of the frames below every greater number,
/// and leaves the count below every smaller number as it was.
proof fn lemma_count_after_insert(frames: Seq<FrameAnalysis>, frame: FrameAnalysis, number: u32)
    requires
        strictly_ordered(frames),
        !holds_number(frames, frame.frame_number),
        frame.frame_number != number,
    ensures
        frames_below(with_frame(frames, frame), number) == frames_below(frames, number) + (if
            frame.frame_number < number {
            1int
        } else {
            0int
        }),
{
    let at = frames_below(frames, frame.frame_number);
    let place = frames_below(frames, number);
    lemma_ordered_splits(frames, frame.frame_number);
    lemma_ordered_splits(frames, number);
    let grown = frames.insert(at, frame);
    if frame.frame_number < number {
        if at > place {
            assert(frames[place].frame_number < frame.frame_number);
            assert(frames[place].frame_number >= number);
        }
        assert forall|k: int| 0 <= k < place + 1 implies grown[k].frame_number < number by {
            if k < at {
                assert(grown[k] == frames[k]);
            } else if k > at {
                assert(grown[k] == frames[k - 1]);
            }
        }
        assert forall|k: int| place + 1 <= k < grown.len() implies grown[k].frame_number
            >= number by {
            assert(grown[k] == frames[k - 1]);
        }
        assert(splits_at(grown, number, place + 1));
        lemma_split_counts(grown, number, place + 1);
    } else {
        if place > at {
            assert(frames[at].frame_number < number);
            assert(frames[at].frame_number >= frame.frame_number);
        }
        assert forall|k: int| 0 <= k < place implies grown[k].frame_number < number by {
            assert(grown[k] == frames[k]);
        }
        assert forall|k: int| place <= k < grown.len() implies grown[k].frame_number
            >= number by {
            if k < at {
                assert(grown[k] == frames[k]);
            } else if k > at {
                assert(grown[k] == frames[k - 1]);
            }
        }
        assert(splits_at(grown, number, place));
        lemma_split_counts(grown, number, place);
    }
}

/// The sequence that two frames of different numbers leave behind does not
/// depend on which of them arrives first.
pub proof fn lemma_arrival_order_irrelevant(
    frames: Seq<FrameAnalysis>,
    first: FrameAnalysis,
    second: FrameAnalysis,
)
    requires
        strictly_ordered(frames),
        first.frame_number != second.frame_number,
    ensures
        with_frame(with_frame(frames, first), second) == with_frame(
            with_frame(frames, second),
            first,
        ),
{
    lemma_with_frame_holds(frames, first, second.frame_number);
    lemma_with_frame_holds(frames, second, first.frame_number);
    if !holds_number(frames, first.frame_number) && !holds_number(frames, second.frame_number) {
        lemma_count_after_insert(frames, first, second.frame_number);
        lemma_count_after_insert(frames, second, first.frame_number);
        lemma_ordered_splits(frames, first.frame_number);
        lemma_ordered_splits(frames, second.frame_number);
        let a = frames_below(frames, first.frame_number);
        let b = frames_below(frames, second.frame_number);
        if first.frame_number < second.frame_number {
            if a > b {
                assert(frames[b].frame_number < first.frame_number);
                assert(frames[b].frame_number >= second.frame_number);
            }
            assert(frames.insert(a, first).insert(b + 1, second) =~= frames.insert(
                b,
                second,
            ).insert(a, first));
        } else {
            if b > a {
                assert(frames[a].frame_number < second.frame_number);
                assert(frames[a].frame_number >= first.frame_number);
            }
            assert(frames.insert(a, first).insert(b, second) =~= frames.insert(b, second).insert(
                a + 1,
                first,
            ));
        }
    }
}

/// Whether `frames` is strictly ordered by frame number.
pub fn is_strictly_ordered(frames: &Vec<FrameAnalysis>) -> (ordered: bool)
    ensures
        ordered == strictly_ordered(frames@),
{
    if frames.len() < 2 {
        return true;
    }
    let mut i: usize = 1;
    while i < frames.len()
        invariant
            1 <= i <= frames.len(),
            forall|a: int, b: int|
                0 <= a < b < i ==> frames@[a].frame_number < frames@[b].frame_number,
        decreases frames.len() - i,
    {
        if frames[i - 1].frame_number >= frames[i].frame_number {
            return false;
        }
        assert forall|a: int, b: int| 0 <= a < b < i + 1 implies frames@[a].frame_number
            < frames@[b].frame_number by {
            if b == i && a < i - 1 {
                assert(frames@[a].frame_number < frames@[i - 1].frame_number);
            }
        }
        i = i + 1;
    }
    true
}

/// Puts `frame` at its place in the strictly ordered `frames`, unless a frame
/// of the same number is already there. Says whether the frame was put in.
pub fn insert_frame(frames: &mut Vec<FrameAnalysis>, frame: FrameAnalysis) -> (kept: bool)
    requires
        strictly_ordered(old(frames)@),
    ensures
        kept == !holds_number(old(frames)@, frame.frame_number),
        final(frames)@ == with_frame(old(frames)@, frame),
        strictly_ordered(final(frames)@),
        final(frames)@.len() == old(frames)@.len() + (if kept {
            1int
        } else {
            0int
        }),
{
    let number: u32 = frame.frame_number;
    let mut place: usize = 0;
    while place < frames.len() && frames[place].frame_number < number
        invariant
            place <= frames.len(),
            forall|k: int| 0 <= k < place ==> frames@[k].frame_number < number,
        decreases frames.len() - place,
    {
        place = place + 1;
    }
    proof {
        lemma_with_frame_ordered(frames@, frame);
        assert forall|k: int| place <= k < frames@.len() implies frames@[k].frame_number
            >= number by {
            if k > place {
                assert(frames@[place as int].frame_number < frames@[k].frame_number);
            }
        }
        assert(splits_at(frames@, number, place as int));
        lemma_split_counts(frames@, number, place as int);
    }
    if place < frames.len() && frames[place].frame_number == number {
        return false;
    }
    assert(!holds_number(frames@, number));
    frames.insert(place, frame);
    true
}

} // verus!
