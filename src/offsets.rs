use vstd::prelude::*;

verus! {

/// Where the keystream range of frame `i` starts: the total length of the
/// frames before it.
pub open spec fn span_start(lens: Seq<nat>, i: int) -> nat
    decreases i,
{
    if i <= 0 {
        0
    } else {
        span_start(lens, i - 1) + lens[i - 1]
    }
}

/// The lengths of a list of buffers, as natural numbers.
pub open spec fn lens_of(lengths: Seq<usize>) -> Seq<nat> {
    lengths.map_values(|x: usize| x as nat)
}

proof fn lemma_span_start_bound(lengths: Seq<usize>, i: int)
    requires
        0 <= i <= lengths.len(),
    ensures
        span_start(lens_of(lengths), i) <= i * usize::MAX,
    decreases i,
{
    if i > 0 {
        lemma_span_start_bound(lengths, i - 1);
        assert(span_start(lens_of(lengths), i) <= (i - 1) * usize::MAX + usize::MAX);
        assert((i - 1) * usize::MAX + usize::MAX == i * usize::MAX) by (nonlinear_arith);
    }
}

/// Every prefix total of at most `usize::MAX` buffers fits in 128 bits.
proof fn lemma_span_start_fits(lengths: Seq<usize>, i: int)
    requires
        0 <= i <= lengths.len(),
        lengths.len() <= usize::MAX,
    ensures
        span_start(lens_of(lengths), i) + usize::MAX <= u128::MAX,
{
    lemma_span_start_bound(lengths, i);
    assert(i * usize::MAX <= usize::MAX * usize::MAX) by (nonlinear_arith)
        requires
            0 <= i <= usize::MAX,
    ;
    assert(usize::MAX * usize::MAX + usize::MAX <= u128::MAX) by (nonlinear_arith)
        requires
            usize::MAX <= u64::MAX,
    ;
}

/// The keystream offset of frame `frame_index`: the sum of the lengths of the
/// frames before it, computed in 128 bits.
pub fn offset_for(frame_index: usize, lengths: &Vec<usize>) -> (r: u128)
    requires
        frame_index <= lengths@.len(),
    ensures
        r == span_start(lens_of(lengths@), frame_index as int),
{
    let n: usize = lengths.len();
    let mut total: u128 = 0;
    let mut i: usize = 0;
    while i < frame_index
        invariant
            frame_index <= lengths@.len(),
            n == lengths@.len(),
            i <= frame_index,
            total == span_start(lens_of(lengths@), i as int),
        decreases frame_index - i,
    {
        proof {
            lemma_span_start_fits(lengths@, i as int);
        }
        total = total + lengths[i] as u128;
        i = i + 1;
    }
    total
}

/// The keystream offset of every frame, and after them the total length:
/// entry `i` is `offset_for(i, lengths)`, for `i` from 0 to `lengths.len()`.
pub fn frame_offsets(lengths: &Vec<usize>) -> (r: Vec<u128>)
    ensures
        r@.len() == lengths@.len() + 1,
        forall|i: int| 0 <= i <= lengths@.len() ==> r@[i] == span_start(lens_of(lengths@), i),
{
    let mut out: Vec<u128> = Vec::new();
    let mut total: u128 = 0;
    out.push(total);
    let mut i: usize = 0;
    while i < lengths.len()
        invariant
            i <= lengths@.len(),
            total == span_start(lens_of(lengths@), i as int),
            out@.len() == i + 1,
            forall|j: int| 0 <= j <= i ==> out@[j] == span_start(lens_of(lengths@), j),
        decreases lengths@.len() - i,
    {
        proof {
            lemma_span_start_fits(lengths@, i as int);
        }
        total = total + lengths[i] as u128;
        i = i + 1;
        out.push(total);
    }
    out
}

proof fn lemma_span_start_monotone(lens: Seq<nat>, i: int, j: int)
    requires
        0 <= i <= j <= lens.len(),
    ensures
        span_start(lens, i) <= span_start(lens, j),
    decreases j - i,
{
    if i < j {
        lemma_span_start_monotone(lens, i, j - 1);
    }
}

/// The keystream ranges `[span_start(i), span_start(i) + lens[i])` of the frames
/// of a sequence tile `[0, total)`: the first starts at zero, each ends where
/// the next begins, the last ends at the total length, and no two overlap.
pub proof fn lemma_spans_disjoint_tiling(lens: Seq<nat>)
    ensures
        span_start(lens, 0) == 0,
        forall|i: int|
            0 <= i < lens.len() ==> #[trigger] span_start(lens, i) + lens[i] == span_start(
                lens,
                i + 1,
            ),
        forall|i: int, j: int|
            0 <= i < j < lens.len() ==> span_start(lens, i) + lens[i] <= #[trigger] span_start(
                lens,
                j,
            ) && #[trigger] span_start(lens, i) <= span_start(lens, j),
{
    assert forall|i: int, j: int| 0 <= i < j < lens.len() implies span_start(lens, i) + lens[i]
        <= #[trigger] span_start(lens, j) && #[trigger] span_start(lens, i) <= span_start(
        lens,
        j,
    ) by {
        lemma_span_start_monotone(lens, i + 1, j);
        lemma_span_start_monotone(lens, i, j);
    }
}

} // verus!
