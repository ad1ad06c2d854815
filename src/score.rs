use vstd::prelude::*;

use crate::error::SynthError;

verus! {

/// Every beat of the tact holds at least one note.
pub open spec fn beats_filled<N>(beats: Seq<Vec<N>>) -> bool {
    forall|b: int| 0 <= b < beats.len() ==> #[trigger] beats[b]@.len() > 0
}

/// Every measure holds one tact per channel, and every beat at least one note.
/// A measure is indexed by channel, then beat, then note.
pub open spec fn well_shaped<N>(channels: int, measures: Seq<Vec<Vec<Vec<N>>>>) -> bool {
    forall|m: int|
        0 <= m < measures.len() ==> {
            &&& (#[trigger] measures[m])@.len() == channels
            &&& forall|c: int| 0 <= c < channels ==> beats_filled(#[trigger] measures[m]@[c]@)
        }
}

/// The tempo in beats per minute, which must be a positive 32-bit count.
pub fn tempo(bpm: i64) -> (r: Result<u32, SynthError>)
    ensures
        1 <= bpm <= u32::MAX ==> r == Ok::<u32, SynthError>(bpm as u32),
        !(1 <= bpm <= u32::MAX) ==> r == Err::<u32, SynthError>(SynthError::MalformedComposition),
{
    if 1 <= bpm && bpm <= u32::MAX as i64 {
        Ok(bpm as u32)
    } else {
        Err(SynthError::MalformedComposition)
    }
}

fn tact_filled<N>(beats: &Vec<Vec<N>>) -> (r: bool)
    ensures
        r == beats_filled(beats@),
{
    let mut b: usize = 0;
    while b < beats.len()
        invariant
            b <= beats@.len(),
            forall|k: int| 0 <= k < b ==> #[trigger] beats@[k]@.len() > 0,
        decreases beats@.len() - b,
    {
        if beats[b].len() == 0 {
            return false;
        }
        b = b + 1;
    }
    true
}

/// Checks that every measure holds one tact per channel and that no beat is
/// empty; `MalformedComposition` otherwise.
pub fn check_shape<N>(channels: usize, measures: &Vec<Vec<Vec<Vec<N>>>>) -> (r: Result<
    (),
    SynthError,
>)
    ensures
        well_shaped(channels as int, measures@) ==> r == Ok::<(), SynthError>(()),
        !well_shaped(channels as int, measures@) ==> r == Err::<(), SynthError>(
            SynthError::MalformedComposition,
        ),
{
    let mut m: usize = 0;
    while m < measures.len()
        invariant
            m <= measures@.len(),
            well_shaped(channels as int, measures@.subrange(0, m as int)),
        decreases measures@.len() - m,
    {
        let measure = &measures[m];
        if measure.len() != channels {
            assert(!well_shaped(channels as int, measures@)) by {
                assert(measures@[m as int]@.len() != channels);
            }
            return Err(SynthError::MalformedComposition);
        }
        let mut c: usize = 0;
        while c < measure.len()
            invariant
                c <= measure@.len(),
                m < measures@.len(),
                measure@.len() == channels,
                measure == measures@[m as int],
                well_shaped(channels as int, measures@.subrange(0, m as int)),
                forall|k: int| 0 <= k < c ==> beats_filled(#[trigger] measure@[k]@),
            decreases measure@.len() - c,
        {
            if !tact_filled(&measure[c]) {
                assert(!well_shaped(channels as int, measures@)) by {
                    assert(!beats_filled(measures@[m as int]@[c as int]@));
                }
                return Err(SynthError::MalformedComposition);
            }
            c = c + 1;
        }
        proof {
            let pre = measures@.subrange(0, m as int);
            let now = measures@.subrange(0, m as int + 1);
            assert forall|k: int| 0 <= k < now.len() implies {
                &&& (#[trigger] now[k])@.len() == channels
                &&& forall|c: int| 0 <= c < channels ==> beats_filled(#[trigger] now[k]@[c]@)
            } by {
                if k < m {
                    assert(now[k] == pre[k]);
                } else {
                    assert(now[k] == measure);
                }
            }
        }
        m = m + 1;
    }
    assert(measures@.subrange(0, m as int) =~= measures@);
    Ok(())
}

} // verus!
