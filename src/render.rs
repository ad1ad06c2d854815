use vstd::prelude::*;

use crate::error::SynthError;
use crate::mixer::{all_of_len, is_mix_of, is_shortest, mix_beat, mix_measure, views};

verus! {

/// The beat holds at least one note, and all its notes have the same length.
pub open spec fn beat_even<T>(notes: Seq<Vec<T>>) -> bool {
    notes.len() > 0 && all_of_len(views(notes), notes[0]@.len() as int)
}

/// Every beat of the tact is even.
pub open spec fn tact_even<T>(beats: Seq<Vec<Vec<T>>>) -> bool {
    forall|b: int| 0 <= b < beats.len() ==> beat_even(#[trigger] beats[b]@)
}

/// Number of samples of a tact: the length of the first note of each beat, added up.
pub open spec fn tact_len<T>(beats: Seq<Vec<Vec<T>>>) -> int
    decreases beats.len(),
{
    if beats.len() == 0 {
        0
    } else {
        tact_len(beats.drop_last()) + beats.last()@[0]@.len()
    }
}

/// Where beat `b` starts inside the rendered tact.
pub open spec fn beat_start<T>(beats: Seq<Vec<Vec<T>>>, b: int) -> int {
    tact_len(beats.subrange(0, b))
}

/// `out` is the tact rendered beat after beat: beat `b` occupies the samples
/// from `beat_start(b)` to `beat_start(b + 1)`, and there they mix its notes.
pub open spec fn is_tact_of<T, F: Fn(T, T, usize) -> T>(
    beats: Seq<Vec<Vec<T>>>,
    init: T,
    step: F,
    out: Seq<T>,
) -> bool {
    &&& out.len() == tact_len(beats)
    &&& forall|b: int|
        0 <= b < beats.len() ==> is_mix_of(
            views(#[trigger] beats[b]@),
            init,
            step,
            beats[b]@[0]@.len() as int,
            out.subrange(beat_start(beats, b), beat_start(beats, b + 1)),
        )
}

/// `out` is one measure: each channel rendered as a tact with `beat_step`,
/// then the tacts mixed with `measure_step` and cut to the shortest.
pub open spec fn is_measure_of<T, F: Fn(T, T, usize) -> T, G: Fn(T, T, usize) -> T>(
    channels: Seq<Vec<Vec<Vec<T>>>>,
    init: T,
    beat_step: F,
    measure_step: G,
    out: Seq<T>,
) -> bool {
    exists|tacts: Seq<Seq<T>>|
        {
            &&& tacts.len() == channels.len()
            &&& forall|c: int|
                0 <= c < channels.len() ==> is_tact_of(
                    #[trigger] channels[c]@,
                    init,
                    beat_step,
                    tacts[c],
                )
            &&& is_shortest(tacts, out.len() as int)
            &&& is_mix_of(tacts, init, measure_step, out.len() as int, out)
        }
}

proof fn lemma_tact_len_grows<T>(beats: Seq<Vec<Vec<T>>>, k: int, b: int)
    requires
        0 <= k <= b <= beats.len(),
    ensures
        beat_start(beats, k) <= beat_start(beats, b),
    decreases b - k,
{
    if k < b {
        lemma_tact_len_grows(beats, k, b - 1);
        assert(beats.subrange(0, b).drop_last() =~= beats.subrange(0, b - 1));
    }
}

proof fn lemma_tact_step<T, F: Fn(T, T, usize) -> T>(
    bs: Seq<Vec<Vec<T>>>,
    init: T,
    step: F,
    b: int,
    before: Seq<T>,
    part: Seq<T>,
)
    requires
        0 <= b < bs.len(),
        before.len() == beat_start(bs, b),
        beat_even(bs[b]@),
        is_mix_of(views(bs[b]@), init, step, bs[b]@[0]@.len() as int, part),
        forall|k: int|
            0 <= k < b ==> is_mix_of(
                views(#[trigger] bs[k]@),
                init,
                step,
                bs[k]@[0]@.len() as int,
                before.subrange(beat_start(bs, k), beat_start(bs, k + 1)),
            ),
    ensures
        (before + part).len() == beat_start(bs, b + 1),
        forall|k: int|
            0 <= k < b + 1 ==> is_mix_of(
                views(#[trigger] bs[k]@),
                init,
                step,
                bs[k]@[0]@.len() as int,
                (before + part).subrange(beat_start(bs, k), beat_start(bs, k + 1)),
            ),
{
    let out = before + part;
    assert(bs.subrange(0, b + 1).drop_last() =~= bs.subrange(0, b));
    assert(bs.subrange(0, b + 1).last() == bs[b]);
    assert(out.subrange(beat_start(bs, b), beat_start(bs, b + 1)) =~= part);
    assert forall|k: int| 0 <= k < b + 1 implies is_mix_of(
        views(#[trigger] bs[k]@),
        init,
        step,
        bs[k]@[0]@.len() as int,
        out.subrange(beat_start(bs, k), beat_start(bs, k + 1)),
    ) by {
        if k < b {
            lemma_tact_len_grows(bs, 0, k);
            lemma_tact_len_grows(bs, k + 1, b);
            lemma_tact_len_grows(bs, k, k + 1);
            assert(out.subrange(beat_start(bs, k), beat_start(bs, k + 1)) =~= before.subrange(
                beat_start(bs, k),
                beat_start(bs, k + 1),
            ));
        }
    }
}

/// Renders one channel's tact: mixes the notes of each beat with `step` and
/// puts the beats one after another. Each beat must hold at least one note,
/// and its notes the same number of samples.
pub fn render_tact<T: Copy, F: Fn(T, T, usize) -> T>(
    beats: &Vec<Vec<Vec<T>>>,
    init: T,
    step: &F,
) -> (r: Result<Vec<T>, SynthError>)
    requires
        forall|a: T, b: T, n: usize| step.requires((a, b, n)),
    ensures
        tact_even(beats@) ==> (r matches Ok(out) && is_tact_of(beats@, init, *step, out@)),
        !tact_even(beats@) ==> r is Err,
        r == Err::<Vec<T>, SynthError>(SynthError::MalformedComposition) ==> exists|b: int|
            0 <= b < beats@.len() && (#[trigger] beats@[b])@.len() == 0,
        r == Err::<Vec<T>, SynthError>(SynthError::UnequalNoteLengths) ==> exists|b: int|
            0 <= b < beats@.len() && (#[trigger] beats@[b])@.len() > 0 && !beat_even(
                beats@[b]@,
            ),
        r is Err ==> r == Err::<Vec<T>, SynthError>(SynthError::MalformedComposition) || r == Err::<
            Vec<T>,
            SynthError,
        >(SynthError::UnequalNoteLengths),
{
    let mut out: Vec<T> = Vec::new();
    let mut b: usize = 0;
    while b < beats.len()
        invariant
            b <= beats@.len(),
            forall|a: T, x: T, n: usize| step.requires((a, x, n)),
            out@.len() == beat_start(beats@, b as int),
            forall|k: int| 0 <= k < b ==> beat_even(#[trigger] beats@[k]@),
            forall|k: int|
                0 <= k < b ==> is_mix_of(
                    views(#[trigger] beats@[k]@),
                    init,
                    *step,
                    beats@[k]@[0]@.len() as int,
                    out@.subrange(beat_start(beats@, k), beat_start(beats@, k + 1)),
                ),
        decreases beats@.len() - b,
    {
        let mut part = match mix_beat(&beats[b], init, step) {
            Ok(part) => part,
            Err(e) => {
                return Err(e);
            },
        };
        proof {
            lemma_tact_step(beats@, init, *step, b as int, out@, part@);
        }
        out.append(&mut part);
        b = b + 1;
    }
    proof {
        assert(beats@.subrange(0, b as int) =~= beats@);
    }
    Ok(out)
}

/// Renders one measure: each channel's tact with `beat_step`, then the tacts
/// mixed sample by sample with `measure_step`, as long as the shortest tact.
pub fn render_measure<T: Copy, F: Fn(T, T, usize) -> T, G: Fn(T, T, usize) -> T>(
    channels: &Vec<Vec<Vec<Vec<T>>>>,
    init: T,
    beat_step: &F,
    measure_step: &G,
) -> (r: Result<Vec<T>, SynthError>)
    requires
        forall|a: T, b: T, n: usize| beat_step.requires((a, b, n)),
        forall|a: T, b: T, n: usize| measure_step.requires((a, b, n)),
    ensures
        (forall|c: int| 0 <= c < channels@.len() ==> tact_even(#[trigger] channels@[c]@)) ==> (
        r matches Ok(out) && is_measure_of(channels@, init, *beat_step, *measure_step, out@)),
        r is Err ==> exists|c: int|
            0 <= c < channels@.len() && !tact_even(#[trigger] channels@[c]@),
        r is Err ==> r == Err::<Vec<T>, SynthError>(SynthError::MalformedComposition) || r == Err::<
            Vec<T>,
            SynthError,
        >(SynthError::UnequalNoteLengths),
{
    let mut tacts: Vec<Vec<T>> = Vec::new();
    let mut c: usize = 0;
    while c < channels.len()
        invariant
            c <= channels@.len(),
            forall|a: T, b: T, n: usize| beat_step.requires((a, b, n)),
            tacts@.len() == c,
            forall|k: int|
                0 <= k < c ==> is_tact_of(
                    #[trigger] channels@[k]@,
                    init,
                    *beat_step,
                    tacts@[k]@,
                ),
        decreases channels@.len() - c,
    {
        let tact = match render_tact(&channels[c], init, beat_step) {
            Ok(t) => t,
            Err(e) => {
                return Err(e);
            },
        };
        tacts.push(tact);
        c = c + 1;
    }
    let out = mix_measure(&tacts, init, measure_step);
    proof {
        let ts = views(tacts@);
        assert forall|k: int| 0 <= k < channels@.len() implies is_tact_of(
            #[trigger] channels@[k]@,
            init,
            *beat_step,
            ts[k],
        ) by {
            assert(ts[k] == tacts@[k]@);
        }
    }
    Ok(out)
}

} // verus!
