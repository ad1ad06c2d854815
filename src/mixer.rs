use vstd::prelude::*;

use crate::error::SynthError;

verus! {

/// The buffers as plain sequences of samples.
pub open spec fn views<T>(bufs: Seq<Vec<T>>) -> Seq<Seq<T>> {
    bufs.map_values(|b: Vec<T>| b@)
}

/// Sample `i` of every buffer, in buffer order.
pub open spec fn column<T>(bufs: Seq<Seq<T>>, i: int) -> Seq<T> {
    Seq::new(bufs.len(), |c: int| bufs[c][i])
}

/// `n` is the length of the shortest buffer, or 0 when there is none.
pub open spec fn is_shortest<T>(bufs: Seq<Seq<T>>, n: int) -> bool {
    if bufs.len() == 0 {
        n == 0
    } else {
        &&& forall|c: int| 0 <= c < bufs.len() ==> n <= #[trigger] bufs[c].len()
        &&& exists|c: int| 0 <= c < bufs.len() && n == #[trigger] bufs[c].len()
    }
}

/// Every buffer holds exactly `n` samples.
pub open spec fn all_of_len<T>(bufs: Seq<Seq<T>>, n: int) -> bool {
    forall|c: int| 0 <= c < bufs.len() ==> #[trigger] bufs[c].len() == n
}

/// `v` is a value that folding `step` over `xs`, from `init`, can produce;
/// each call of `step` is also told `count`, the number of buffers mixed.
pub open spec fn folds_to<T, F: Fn(T, T, usize) -> T>(
    step: F,
    init: T,
    count: usize,
    xs: Seq<T>,
    v: T,
) -> bool
    decreases xs.len(),
{
    if xs.len() == 0 {
        v == init
    } else {
        exists|w: T|
            folds_to(step, init, count, xs.drop_last(), w) && #[trigger] call_ensures(
                step,
                (w, xs.last(), count),
                v,
            )
    }
}

/// `out` combines the buffers sample by sample: it is `n` samples long and
/// sample `i` folds `step` over sample `i` of every buffer.
pub open spec fn is_mix_of<T, F: Fn(T, T, usize) -> T>(
    bufs: Seq<Seq<T>>,
    init: T,
    step: F,
    n: int,
    out: Seq<T>,
) -> bool {
    &&& out.len() == n
    &&& forall|i: int|
        0 <= i < n ==> folds_to(step, init, bufs.len() as usize, column(bufs, i), #[trigger] out[i])
}

/// Length of the shortest buffer, 0 when there is none.
pub fn shortest_len<T>(bufs: &Vec<Vec<T>>) -> (n: usize)
    ensures
        is_shortest(views(bufs@), n as int),
{
    if bufs.len() == 0 {
        return 0;
    }
    let mut n: usize = bufs[0].len();
    let mut at: Ghost<int> = Ghost(0);
    let mut c: usize = 1;
    while c < bufs.len()
        invariant
            1 <= c <= bufs@.len(),
            0 <= at@ < c,
            n == bufs@[at@]@.len(),
            forall|k: int| 0 <= k < c ==> n <= #[trigger] bufs@[k]@.len(),
        decreases bufs@.len() - c,
    {
        if bufs[c].len() < n {
            n = bufs[c].len();
            at = Ghost(c as int);
        }
        c = c + 1;
    }
    proof {
        let vs = views(bufs@);
        assert(vs[at@].len() == n);
        assert forall|k: int| 0 <= k < vs.len() implies n <= #[trigger] vs[k].len() by {
            assert(vs[k] == bufs@[k]@);
        }
    }
    n
}

/// Folds `step` over sample `i` of every buffer, starting from `init`.
fn fold_column<T: Copy, F: Fn(T, T, usize) -> T>(
    bufs: &Vec<Vec<T>>,
    i: usize,
    init: T,
    step: &F,
) -> (v: T)
    requires
        forall|c: int| 0 <= c < bufs@.len() ==> i < #[trigger] bufs@[c]@.len(),
        forall|a: T, b: T, n: usize| step.requires((a, b, n)),
    ensures
        folds_to(*step, init, bufs@.len() as usize, column(views(bufs@), i as int), v),
{
    let ghost vs = views(bufs@);
    let mut acc: T = init;
    let mut c: usize = 0;
    while c < bufs.len()
        invariant
            c <= bufs@.len(),
            vs == views(bufs@),
            forall|k: int| 0 <= k < bufs@.len() ==> i < #[trigger] bufs@[k]@.len(),
            forall|a: T, b: T, n: usize| step.requires((a, b, n)),
            folds_to(*step, init, bufs@.len() as usize, column(vs, i as int).subrange(0, c as int), acc),
        decreases bufs@.len() - c,
    {
        let x: T = bufs[c][i];
        let next: T = step(acc, x, bufs.len());
        proof {
            let col = column(vs, i as int);
            let pre = col.subrange(0, c as int);
            let now = col.subrange(0, c as int + 1);
            assert(now.drop_last() =~= pre);
            assert(vs[c as int] == bufs@[c as int]@);
            assert(now.last() == x);
            assert(call_ensures(*step, (acc, now.last(), bufs@.len() as usize), next));
        }
        acc = next;
        c = c + 1;
    }
    proof {
        let col = column(vs, i as int);
        assert(col.subrange(0, c as int) =~= col);
    }
    acc
}

/// Combines parallel buffers into one by folding `step` over the samples
/// that share an index (`step` is also told how many buffers there are). The result is as long as the shortest buffer: the
/// longer ones are cut, never padded.
pub fn mix_measure<T: Copy, F: Fn(T, T, usize) -> T>(bufs: &Vec<Vec<T>>, init: T, step: &F) -> (out:
    Vec<T>)
    requires
        forall|a: T, b: T, n: usize| step.requires((a, b, n)),
    ensures
        is_shortest(views(bufs@), out@.len() as int),
        is_mix_of(views(bufs@), init, *step, out@.len() as int, out@),
{
    let n: usize = shortest_len(bufs);
    let ghost vs = views(bufs@);
    let mut out: Vec<T> = Vec::new();
    let mut i: usize = 0;
    while i < n
        invariant
            i <= n,
            vs == views(bufs@),
            is_shortest(vs, n as int),
            forall|a: T, b: T, n: usize| step.requires((a, b, n)),
            out@.len() == i,
            forall|k: int|
                0 <= k < i ==> folds_to(*step, init, vs.len() as usize, column(vs, k), #[trigger] out@[k]),
        decreases n - i,
    {
        assert forall|c: int| 0 <= c < bufs@.len() implies i < #[trigger] bufs@[c]@.len() by {
            assert(vs[c] == bufs@[c]@);
        }
        let v: T = fold_column(bufs, i, init, step);
        out.push(v);
        i = i + 1;
    }
    out
}

/// Combines the notes of one beat by folding `step` over the samples that
/// share an index. The beat must hold at least one note, and all its notes
/// the same number of samples.
pub fn mix_beat<T: Copy, F: Fn(T, T, usize) -> T>(notes: &Vec<Vec<T>>, init: T, step: &F) -> (r: Result<
    Vec<T>,
    SynthError,
>)
    requires
        forall|a: T, b: T, n: usize| step.requires((a, b, n)),
    ensures
        notes@.len() == 0 ==> r == Err::<Vec<T>, SynthError>(SynthError::MalformedComposition),
        notes@.len() > 0 && !all_of_len(views(notes@), notes@[0]@.len() as int) ==> r == Err::<
            Vec<T>,
            SynthError,
        >(SynthError::UnequalNoteLengths),
        notes@.len() > 0 && all_of_len(views(notes@), notes@[0]@.len() as int) ==> (r matches Ok(
            out,
        ) && is_mix_of(views(notes@), init, *step, notes@[0]@.len() as int, out@)),
{
    if notes.len() == 0 {
        return Err(SynthError::MalformedComposition);
    }
    let n: usize = notes[0].len();
    let ghost vs = views(notes@);
    let mut c: usize = 1;
    while c < notes.len()
        invariant
            1 <= c <= notes@.len(),
            n == notes@[0]@.len(),
            vs == views(notes@),
            forall|k: int| 0 <= k < c ==> #[trigger] vs[k].len() == n,
        decreases notes@.len() - c,
    {
        if notes[c].len() != n {
            assert(vs[c as int] == notes@[c as int]@);
            return Err(SynthError::UnequalNoteLengths);
        }
        assert(vs[c as int] == notes@[c as int]@);
        c = c + 1;
    }
    let out = mix_measure(notes, init, step);
    proof {
        assert(vs[0] == notes@[0]@);
    }
    Ok(out)
}

} // verus!
