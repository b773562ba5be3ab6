//! The lap segmenter: from the steering errors of a whole lap to its runs of
//! turns and straights.

use vstd::prelude::*;
use crate::segment::{
    classify,
    lemma_segment_of_equal,
    lemma_total_of_equal,
    segment_at,
    segment_for,
    window_count,
    window_start,
    Segment,
};
use crate::sensor::{quarters_of, SteeringError};

verus! {

/// The segment of every tick of a phase, in order.
pub open spec fn segments(history: Seq<int>) -> Seq<Segment> {
    Seq::new(history.len(), |i: int| segment_at(history, i))
}

/// `length` ticks on one segment.
pub open spec fn run(segment: Segment, length: int) -> Seq<Segment> {
    Seq::new(length as nat, |i: int| segment)
}

/// The ticks that a sequence of runs stands for: each run written out, one
/// after the other.
pub open spec fn expand(model: Seq<(Segment, usize)>) -> Seq<Segment>
    decreases model.len(),
{
    if model.len() == 0 {
        Seq::empty()
    } else {
        expand(model.drop_last()) + run(model.last().0, model.last().1 as int)
    }
}

/// Every run holds a tick, and no run is followed by one on the same
/// segment.
pub open spec fn merged(model: Seq<(Segment, usize)>) -> bool {
    &&& forall|k: int| 0 <= k < model.len() ==> (#[trigger] model[k]).1 >= 1
    &&& forall|j: int, k: int|
        0 <= j && k == j + 1 && k < model.len() ==> (#[trigger] model[j]).0 != (
        #[trigger] model[k]).0
}

/// Whether `model` is the lap model of `history`: its runs, written out, are
/// the segments of the ticks, and equal neighbours are merged.
pub open spec fn is_lap_model(model: Seq<(Segment, usize)>, history: Seq<int>) -> bool {
    &&& expand(model) == segments(history)
    &&& merged(model)
}

/// The lap segmenter.  It classifies every tick by the mean over the window
/// that ends with it, and collects equal neighbours into runs.
pub fn analyze_lap(history: &Vec<SteeringError>) -> (model: Vec<(Segment, usize)>)
    ensures
        is_lap_model(model@, quarters_of(history@)),
{
    let ghost ticks = segments(quarters_of(history@));
    let mut model: Vec<(Segment, usize)> = Vec::new();
    if history.len() == 0 {
        assert(expand(model@) =~= ticks);
        return model;
    }
    let mut open_segment: Segment = classify(history, 0);
    let mut open_length: usize = 1;
    let mut i: usize = 1;
    assert(expand(model@) + run(open_segment, 1) =~= ticks.take(1));
    while i < history.len()
        invariant
            1 <= i <= history.len(),
            1 <= open_length <= i,
            ticks == segments(quarters_of(history@)),
            merged(model@),
            model.len() > 0 ==> model@.last().0 != open_segment,
            expand(model@) + run(open_segment, open_length as int) == ticks.take(i as int),
        decreases history.len() - i,
    {
        let segment: Segment = classify(history, i);
        let ghost seen = ticks.take(i as int);
        assert(ticks.take(i + 1) =~= seen.push(segment));
        if segment == open_segment {
            assert(run(open_segment, open_length + 1) =~= run(
                open_segment,
                open_length as int,
            ).push(segment));
            open_length = open_length + 1;
            assert(expand(model@) + run(open_segment, open_length as int) =~= seen.push(segment));
        } else {
            proof {
                lemma_expand_push(model@, (open_segment, open_length));
            }
            model.push((open_segment, open_length));
            open_segment = segment;
            open_length = 1;
            assert(expand(model@) + run(open_segment, 1) =~= seen.push(segment));
        }
        i = i + 1;
    }
    proof {
        lemma_expand_push(model@, (open_segment, open_length));
        assert(ticks.take(history.len() as int) =~= ticks);
    }
    model.push((open_segment, open_length));
    model
}

/// Writing out a model with one more run appends that run's ticks.
pub proof fn lemma_expand_push(model: Seq<(Segment, usize)>, last: (Segment, usize))
    ensures
        expand(model.push(last)) == expand(model) + run(last.0, last.1 as int),
{
    assert(model.push(last).drop_last() =~= model);
}

/// A merged model that is not empty stands for at least one tick, and its
/// last tick is on the segment of its last run.
pub proof fn lemma_expand_last(model: Seq<(Segment, usize)>)
    requires
        merged(model),
        model.len() > 0,
    ensures
        expand(model).len() == expand(model.drop_last()).len() + model.last().1,
        expand(model).len() >= model.last().1 >= 1,
        expand(model).last() == model.last().0,
        forall|k: int|
            expand(model.drop_last()).len() <= k < expand(model).len() ==> expand(model)[k]
                == model.last().0,
        forall|k: int|
            0 <= k < expand(model.drop_last()).len() ==> expand(model)[k] == expand(
                model.drop_last(),
            )[k],
{
}

/// Dropping the last run of a merged model leaves a merged model.
pub proof fn lemma_merged_drop_last(model: Seq<(Segment, usize)>)
    requires
        merged(model),
        model.len() > 0,
    ensures
        merged(model.drop_last()),
{
    let shorter = model.drop_last();
    assert forall|k: int| 0 <= k < shorter.len() implies (#[trigger] shorter[k]).1 >= 1 by {
        assert(shorter[k] == model[k]);
    }
    assert forall|j: int, k: int| 0 <= j && k == j + 1 && k < shorter.len() implies (
    #[trigger] shorter[j]).0 != (#[trigger] shorter[k]).0 by {
        assert(shorter[j] == model[j]);
        assert(shorter[k] == model[k]);
    }
}

/// A merged model stands for no tick only if it is empty.
pub proof fn lemma_expand_empty(model: Seq<(Segment, usize)>)
    requires
        merged(model),
        expand(model).len() == 0,
    ensures
        model.len() == 0,
{
    if model.len() > 0 {
        lemma_expand_last(model);
    }
}

/// Two merged models that stand for the same ticks are the same model: the
/// lap model is a function of the ticks' segments alone.
pub proof fn lemma_merged_unique(a: Seq<(Segment, usize)>, b: Seq<(Segment, usize)>)
    requires
        merged(a),
        merged(b),
        expand(a) == expand(b),
    ensures
        a == b,
    decreases a.len(),
{
    if a.len() == 0 {
        lemma_expand_empty(b);
        assert(a =~= b);
    } else {
        lemma_expand_last(a);
        if b.len() == 0 {
            assert(expand(b).len() == 0);
        } else {
            lemma_expand_last(b);
            let ticks = expand(a);
            let short_a = a.drop_last();
            let short_b = b.drop_last();
            lemma_merged_drop_last(a);
            lemma_merged_drop_last(b);
            assert(a.last().0 == b.last().0);
            lemma_last_run_not_shorter(a, b);
            lemma_last_run_not_shorter(b, a);
            assert(a.last() == b.last());
            assert(expand(short_a).len() == expand(short_b).len());
            assert(expand(short_a) =~= expand(short_b)) by {
                assert forall|k: int| 0 <= k < expand(short_a).len() implies expand(short_a)[k]
                    == expand(short_b)[k] by {
                    assert(expand(short_a)[k] == ticks[k]);
                    assert(expand(short_b)[k] == ticks[k]);
                }
            }
            lemma_merged_unique(short_a, short_b);
            assert(a =~= short_a.push(a.last()));
            assert(b =~= short_b.push(b.last()));
        }
    }
}

/// Of two merged models that stand for the same ticks and end on the same
/// segment, the first does not end with a shorter run than the second.
proof fn lemma_last_run_not_shorter(a: Seq<(Segment, usize)>, b: Seq<(Segment, usize)>)
    requires
        merged(a),
        merged(b),
        a.len() > 0,
        b.len() > 0,
        expand(a) == expand(b),
        a.last().0 == b.last().0,
    ensures
        a.last().1 >= b.last().1,
{
    if a.last().1 < b.last().1 {
        lemma_expand_last(a);
        lemma_expand_last(b);
        let short_a = a.drop_last();
        lemma_merged_drop_last(a);
        // the tick just before the last run of `a` lies in the last run of `b`
        let k = expand(short_a).len() - 1;
        assert(expand(short_a).len() == expand(b).len() - a.last().1);
        assert(k >= expand(b.drop_last()).len());
        if short_a.len() == 0 {
            assert(expand(short_a).len() == 0);
        } else {
            lemma_expand_last(short_a);
            assert(expand(short_a)[k] == short_a.last().0);
            assert(expand(a)[k] == expand(short_a)[k]);
            assert(expand(b)[k] == b.last().0);
            assert(short_a.last() == a[a.len() - 2]);
            assert(a[a.len() - 2].0 != a[a.len() - 1].0);
        }
    }
}

/// The lap model of a history is unique: what `analyze_lap` returns depends
/// on the steering errors alone.
pub proof fn lemma_lap_model_unique(
    a: Seq<(Segment, usize)>,
    b: Seq<(Segment, usize)>,
    history: Seq<int>,
)
    requires
        is_lap_model(a, history),
        is_lap_model(b, history),
    ensures
        a == b,
{
    lemma_merged_unique(a, b);
}

/// The lengths of the runs of a model, added up.
pub open spec fn total_length(model: Seq<(Segment, usize)>) -> int
    decreases model.len(),
{
    if model.len() == 0 {
        0
    } else {
        total_length(model.drop_last()) + model.last().1
    }
}

/// The runs of a lap model cover the lap: their lengths add up to the number
/// of ticks.
pub proof fn lemma_lap_model_covers(model: Seq<(Segment, usize)>, history: Seq<int>)
    requires
        is_lap_model(model, history),
    ensures
        total_length(model) == history.len(),
{
    lemma_expand_len(model);
}

/// Writing a model out gives as many ticks as its runs are long together.
pub proof fn lemma_expand_len(model: Seq<(Segment, usize)>)
    ensures
        expand(model).len() == total_length(model),
    decreases model.len(),
{
    if model.len() > 0 {
        lemma_expand_len(model.drop_last());
    }
}

/// A history of equal steering errors, however long, is one run: its lap
/// model is the single pair of the segment of that error and the number of
/// ticks.
pub proof fn lemma_uniform_lap(
    model: Seq<(Segment, usize)>,
    history: Seq<int>,
    q: int,
)
    requires
        is_lap_model(model, history),
        1 <= history.len() <= usize::MAX,
        forall|k: int| 0 <= k < history.len() ==> #[trigger] history[k] == q,
    ensures
        model == seq![(segment_for(q, 1), history.len() as usize)],
{
    let segment = segment_for(q, 1);
    let single = seq![(segment, history.len() as usize)];
    assert(single.drop_last() =~= Seq::<(Segment, usize)>::empty());
    assert(expand(single) =~= run(segment, history.len() as int)) by {
        assert(expand(single.drop_last()) =~= Seq::<Segment>::empty());
        assert(single.last() == (segment, history.len() as usize));
    }
    assert forall|i: int| 0 <= i < history.len() implies segment_at(history, i) == segment by {
        lemma_total_of_equal(history, window_start(i + 1), i + 1, q);
        lemma_segment_of_equal(q, window_count(i + 1));
    }
    assert(run(segment, history.len() as int) =~= segments(history));
    lemma_merged_unique(model, single);
}

/// One run for every tick.
pub open spec fn singles(ticks: Seq<Segment>) -> Seq<(Segment, usize)> {
    Seq::new(ticks.len(), |i: int| (ticks[i], 1usize))
}

/// Writing out one run of one tick for every tick gives the ticks back.
pub proof fn lemma_expand_singles(ticks: Seq<Segment>)
    ensures
        expand(singles(ticks)) == ticks,
    decreases ticks.len(),
{
    if ticks.len() == 0 {
        assert(expand(singles(ticks)) =~= ticks);
    } else {
        lemma_expand_singles(ticks.drop_last());
        assert(singles(ticks).drop_last() =~= singles(ticks.drop_last()));
        assert(run(ticks.last(), 1) =~= seq![ticks.last()]);
        assert(expand(singles(ticks)) =~= ticks);
    }
}

/// A history whose segment changes with every tick has a lap model of as
/// many runs as ticks, each of length one.
pub proof fn lemma_alternating_lap(model: Seq<(Segment, usize)>, history: Seq<int>)
    requires
        is_lap_model(model, history),
        forall|i: int, j: int|
            0 <= i && j == i + 1 && j < history.len() ==> #[trigger] segment_at(history, i)
                != #[trigger] segment_at(history, j),
    ensures
        model.len() == history.len(),
        forall|i: int|
            0 <= i < history.len() ==> #[trigger] model[i] == (segment_at(history, i), 1usize),
{
    let ticks = segments(history);
    let each = singles(ticks);
    lemma_expand_singles(ticks);
    assert(merged(each)) by {
        assert forall|j: int, k: int| 0 <= j && k == j + 1 && k < each.len() implies (
        #[trigger] each[j]).0 != (#[trigger] each[k]).0 by {
            assert(segment_at(history, j) != segment_at(history, k));
        }
    }
    lemma_merged_unique(model, each);
}

} // verus!
