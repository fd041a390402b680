//! The reference chunk grid on which two products are compared chunk by chunk.
use vstd::prelude::*;

use std::ops::Range;

verus! {

/// Chunk size used for a dimension: a chunk of 0 counts as 1.
pub open spec fn chunk_or_one(chunk: int) -> int {
    if chunk <= 0 {
        1
    } else {
        chunk
    }
}

pub open spec fn min_int(a: int, b: int) -> int {
    if a <= b {
        a
    } else {
        b
    }
}

/// Number of chunks of size `c` that cover `dim` (rounded up).
pub open spec fn chunk_count(dim: int, c: int) -> int {
    (dim + c - 1) / c
}

/// The chunk ranges of one dimension: `[i*c, min((i+1)*c, dim))` for each
/// chunk `i`, or the single range `0..1` for an empty dimension.
pub open spec fn spec_chunk_ranges(dim: int, chunk: int) -> Seq<(int, int)> {
    let c = chunk_or_one(chunk);
    if dim <= 0 {
        seq![(0int, 1int)]
    } else {
        Seq::new(chunk_count(dim, c) as nat, |i: int| (i * c, min_int(i * c + c, dim)))
    }
}

/// Effective chunk shape: the given chunks when there is one positive chunk
/// per dimension, else the full shape.
pub open spec fn spec_effective_chunks(shape: Seq<u64>, chunks: Seq<u64>) -> Seq<u64> {
    if chunks.len() == shape.len() && forall|i: int| 0 <= i < chunks.len() ==> chunks[i] > 0 {
        chunks
    } else {
        shape
    }
}

/// Every prefix in `prev` extended by every element of `rs`, prefixes in
/// order and, within a prefix, elements in order.
pub open spec fn extend_all<R>(prev: Seq<Seq<R>>, rs: Seq<R>) -> Seq<Seq<R>>
    decreases prev.len(),
{
    if prev.len() == 0 {
        Seq::empty()
    } else {
        extend_all(prev.drop_last(), rs) + rs.map_values(|r: R| prev.last().push(r))
    }
}

/// All combinations taking one element per dimension, the last dimension
/// varying fastest.
pub open spec fn cartesian<R>(per_dim: Seq<Seq<R>>) -> Seq<Seq<R>>
    decreases per_dim.len(),
{
    if per_dim.len() == 0 {
        seq![Seq::empty()]
    } else {
        extend_all(cartesian(per_dim.drop_last()), per_dim.last())
    }
}

pub open spec fn range_pair(r: Range<u64>) -> (int, int) {
    (r.start as int, r.end as int)
}

pub open spec fn ranges_view(rs: Seq<Range<u64>>) -> Seq<(int, int)> {
    rs.map_values(|r: Range<u64>| range_pair(r))
}

pub open spec fn grid_view(g: Seq<Vec<Range<u64>>>) -> Seq<Seq<(int, int)>> {
    g.map_values(|v: Vec<Range<u64>>| ranges_view(v@))
}

/// The per-dimension chunk ranges of an array on a chunk grid.
pub open spec fn per_dim_ranges(shape: Seq<u64>, chunks: Seq<u64>) -> Seq<Seq<(int, int)>> {
    Seq::new(shape.len(), |d: int| spec_chunk_ranges(shape[d] as int, chunks[d] as int))
}

/// Effective chunk shape, falling back to full dimension sizes when metadata is missing.
pub fn effective_chunks(shape: &[u64], chunks: &[u64]) -> (r: Vec<u64>)
    ensures
        r@ == spec_effective_chunks(shape@, chunks@),
{
    if chunks.len() == shape.len() {
        let mut i: usize = 0;
        let mut all_positive = true;
        while i < chunks.len()
            invariant
                i <= chunks.len(),
                all_positive == forall|j: int| 0 <= j < i ==> chunks@[j] > 0,
            decreases chunks.len() - i,
        {
            if chunks[i] == 0 {
                all_positive = false;
            }
            i = i + 1;
        }
        if all_positive {
            return copy_u64s(chunks);
        }
    }
    copy_u64s(shape)
}

fn copy_u64s(s: &[u64]) -> (r: Vec<u64>)
    ensures
        r@ == s@,
{
    let mut r: Vec<u64> = Vec::new();
    let mut i: usize = 0;
    while i < s.len()
        invariant
            i <= s.len(),
            r@ == s@.subrange(0, i as int),
        decreases s.len() - i,
    {
        r.push(s[i]);
        i = i + 1;
        assert(r@ =~= s@.subrange(0, i as int));
    }
    assert(s@.subrange(0, s@.len() as int) =~= s@);
    r
}

proof fn lemma_count_step(k: int, c: int, dim: int)
    requires
        k >= 0,
        c >= 1,
        k * c < dim,
        dim <= k * c + c,
    ensures
        chunk_count(dim, c) == k + 1,
{
    assert((dim + c - 1) / c == k + 1) by (nonlinear_arith)
        requires
            k >= 0,
            c >= 1,
            k * c < dim,
            dim <= k * c + c,
    {
        assert(dim + c - 1 >= (k + 1) * c);
        assert(dim + c - 1 < (k + 2) * c);
    }
}

/// The chunk ranges of one dimension of size `dim` with chunk size `chunk`.
pub fn chunk_ranges(dim: u64, chunk: u64) -> (r: Vec<Range<u64>>)
    ensures
        ranges_view(r@) == spec_chunk_ranges(dim as int, chunk as int),
{
    let c: u64 = if chunk == 0 {
        1
    } else {
        chunk
    };
    let ghost ci = c as int;
    let mut ranges: Vec<Range<u64>> = Vec::new();
    if dim == 0 {
        ranges.push(Range { start: 0, end: 1 });
        assert(ranges_view(ranges@) =~= seq![(0int, 1int)]);
        return ranges;
    }
    let mut start: u64 = 0;
    let ghost mut k: int = 0;
    while start < dim
        invariant
            c as int == chunk_or_one(chunk as int),
            ci == c as int,
            0 < dim,
            k >= 0,
            start < dim ==> start as int == k * ci,
            start <= dim,
            ranges_view(ranges@) == Seq::new(
                k as nat,
                |i: int| (i * ci, min_int(i * ci + ci, dim as int)),
            ),
            start == dim ==> k == chunk_count(dim as int, ci),
        decreases dim - start,
    {
        let end: u64 = if dim - start <= c {
            dim
        } else {
            start + c
        };
        let ghost before = ranges@;
        ranges.push(Range { start: start, end: end });
        proof {
            assert(end as int == min_int(k * ci + ci, dim as int));
            assert(ranges_view(ranges@) =~= ranges_view(before).push((k * ci, end as int)));
            assert(ranges_view(ranges@) =~= Seq::new(
                (k + 1) as nat,
                |i: int| (i * ci, min_int(i * ci + ci, dim as int)),
            ));
            if end == dim {
                lemma_count_step(k, ci, dim as int);
            } else {
                assert((k + 1) * ci == k * ci + ci) by (nonlinear_arith);
            }
            k = k + 1;
        }
        start = end;
    }
    ranges
}

fn clone_ranges(v: &Vec<Range<u64>>) -> (r: Vec<Range<u64>>)
    ensures
        ranges_view(r@) == ranges_view(v@),
{
    let mut r: Vec<Range<u64>> = Vec::new();
    let mut i: usize = 0;
    while i < v.len()
        invariant
            i <= v.len(),
            ranges_view(r@) == ranges_view(v@.subrange(0, i as int)),
        decreases v.len() - i,
    {
        let ghost before = r@;
        r.push(Range { start: v[i].start, end: v[i].end });
        assert(ranges_view(r@) =~= ranges_view(before).push(range_pair(v@[i as int])));
        assert(v@.subrange(0, i + 1) =~= v@.subrange(0, i as int).push(v@[i as int]));
        assert(ranges_view(v@.subrange(0, i + 1)) =~= ranges_view(v@.subrange(0, i as int)).push(
            range_pair(v@[i as int]),
        ));
        i = i + 1;
    }
    assert(v@.subrange(0, v@.len() as int) =~= v@);
    r
}

/// All combinations of one range per dimension, the last dimension varying
/// fastest; no dimensions give the single empty combination.
pub fn cartesian_ranges(per_dim: &[Vec<Range<u64>>]) -> (r: Vec<Vec<Range<u64>>>)
    requires
        forall|n: int|
            0 <= n <= per_dim@.len() ==> #[trigger] cartesian(grid_view(per_dim@).subrange(0, n)).len()
                <= usize::MAX,
    ensures
        grid_view(r@) == cartesian(grid_view(per_dim@)),
{
    let ghost pd = grid_view(per_dim@);
    let mut out: Vec<Vec<Range<u64>>> = Vec::new();
    let empty: Vec<Range<u64>> = Vec::new();
    assert(ranges_view(empty@) =~= Seq::<(int, int)>::empty());
    out.push(empty);
    assert(pd.subrange(0, 0).len() == 0);
    assert(grid_view(out@) =~= cartesian(pd.subrange(0, 0)));
    let mut d: usize = 0;
    while d < per_dim.len()
        invariant
            d <= per_dim.len(),
            pd == grid_view(per_dim@),
            grid_view(out@) == cartesian(pd.subrange(0, d as int)),
            forall|n: int| 0 <= n <= pd.len() ==> #[trigger] cartesian(pd.subrange(0, n)).len()
                <= usize::MAX,
        decreases per_dim.len() - d,
    {
        let dim_ranges = &per_dim[d];
        let ghost rs = ranges_view(dim_ranges@);
        let ghost prev = grid_view(out@);
        proof {
            assert(rs == pd[d as int]);
            let pdd = pd.subrange(0, d + 1);
            assert(pdd.drop_last() =~= pd.subrange(0, d as int));
            assert(pdd.last() == rs);
            assert(cartesian(pdd).len() <= usize::MAX);
            assert(extend_all(prev, rs) == cartesian(pdd));
        }
        let mut next: Vec<Vec<Range<u64>>> = Vec::new();
        let mut j: usize = 0;
        while j < out.len()
            invariant
                j <= out.len(),
                prev == grid_view(out@),
                rs == ranges_view(dim_ranges@),
                grid_view(next@) == extend_all(prev.subrange(0, j as int), rs),
                extend_all(prev, rs).len() <= usize::MAX,
            decreases out.len() - j,
        {
            let ghost base = grid_view(next@);
            proof {
                lemma_extend_all_len(prev.subrange(0, j + 1), rs);
                lemma_extend_all_len(prev.subrange(0, j as int), rs);
                lemma_extend_all_prefix_len(prev, rs, j + 1);
                let n = rs.len();
                assert((j + 1) * n == j * n + n) by (nonlinear_arith);
            }
            let mut k: usize = 0;
            while k < dim_ranges.len()
                invariant
                    j < out.len(),
                    k <= dim_ranges.len(),
                    prev == grid_view(out@),
                    rs == ranges_view(dim_ranges@),
                    grid_view(next@) == base + rs.subrange(0, k as int).map_values(
                        |r: (int, int)| prev[j as int].push(r),
                    ),
                    base.len() + rs.len() <= usize::MAX,
                decreases dim_ranges.len() - k,
            {
                let mut combined = clone_ranges(&out[j]);
                combined.push(Range { start: dim_ranges[k].start, end: dim_ranges[k].end });
                let ghost before = next@;
                next.push(combined);
                proof {
                    assert(ranges_view(combined@) =~= prev[j as int].push(rs[k as int]));
                    assert(grid_view(next@) =~= grid_view(before).push(ranges_view(combined@)));
                    assert(rs.subrange(0, k + 1).map_values(|r: (int, int)| prev[j as int].push(r))
                        =~= rs.subrange(0, k as int).map_values(
                        |r: (int, int)| prev[j as int].push(r),
                    ).push(prev[j as int].push(rs[k as int])));
                }
                k = k + 1;
            }
            proof {
                assert(rs.subrange(0, rs.len() as int) =~= rs);
                let pj = prev.subrange(0, j + 1);
                assert(pj.drop_last() =~= prev.subrange(0, j as int));
                assert(pj.last() == prev[j as int]);
            }
            j = j + 1;
        }
        proof {
            assert(prev.subrange(0, prev.len() as int) =~= prev);
            let pdd = pd.subrange(0, d + 1);
            assert(pdd.drop_last() =~= pd.subrange(0, d as int));
            assert(pdd.last() == rs);
        }
        out = next;
        d = d + 1;
    }
    assert(pd.subrange(0, pd.len() as int) =~= pd);
    out
}

proof fn lemma_extend_all_len<R>(prev: Seq<Seq<R>>, rs: Seq<R>)
    ensures
        extend_all(prev, rs).len() == prev.len() * rs.len(),
    decreases prev.len(),
{
    if prev.len() > 0 {
        lemma_extend_all_len(prev.drop_last(), rs);
        assert(prev.len() * rs.len() == (prev.len() - 1) * rs.len() + rs.len()) by (nonlinear_arith);
    }
}

proof fn lemma_extend_all_prefix_len<R>(prev: Seq<Seq<R>>, rs: Seq<R>, j: int)
    requires
        0 <= j <= prev.len(),
    ensures
        extend_all(prev.subrange(0, j), rs).len() <= extend_all(prev, rs).len(),
{
    lemma_extend_all_len(prev.subrange(0, j), rs);
    lemma_extend_all_len(prev, rs);
    assert(j * rs.len() <= prev.len() * rs.len()) by (nonlinear_arith)
        requires
            0 <= j <= prev.len(),
    ;
}

/// Product of the lengths of the dimensions.
pub open spec fn lengths_product<R>(per_dim: Seq<Seq<R>>) -> int
    decreases per_dim.len(),
{
    if per_dim.len() == 0 {
        1
    } else {
        lengths_product(per_dim.drop_last()) * per_dim.last().len()
    }
}

/// There are as many combinations as the product of the dimensions' sizes.
pub proof fn lemma_cartesian_len<R>(per_dim: Seq<Seq<R>>)
    ensures
        cartesian(per_dim).len() == lengths_product(per_dim),
    decreases per_dim.len(),
{
    if per_dim.len() > 0 {
        lemma_cartesian_len(per_dim.drop_last());
        lemma_extend_all_len(cartesian(per_dim.drop_last()), per_dim.last());
    }
}

proof fn lemma_chunk_count_pos(dim: int, c: int)
    requires
        dim >= 1,
        c >= 1,
    ensures
        chunk_count(dim, c) >= 1,
        chunk_count(dim, c) * c >= dim,
        (chunk_count(dim, c) - 1) * c < dim,
{
    let n = chunk_count(dim, c);
    assert(n >= 1 && n * c >= dim && (n - 1) * c < dim) by (nonlinear_arith)
        requires
            dim >= 1,
            c >= 1,
            n == (dim + c - 1) / c,
    ;
}

proof fn lemma_chunk_ranges_nonempty(dim: int, chunk: int)
    ensures
        spec_chunk_ranges(dim, chunk).len() >= 1,
{
    if dim > 0 {
        lemma_chunk_count_pos(dim, chunk_or_one(chunk));
    }
}

/// The chunk ranges of a non-empty dimension tile it: they start at 0, each
/// begins where the previous one ends, the last ends at `dim`, and each is
/// non-empty and no longer than the chunk size; all but the last are exactly
/// the chunk size.
pub proof fn lemma_chunk_ranges_tile(dim: int, chunk: int)
    requires
        dim > 0,
    ensures
        ({
            let rs = spec_chunk_ranges(dim, chunk);
            let c = chunk_or_one(chunk);
            &&& rs.len() >= 1
            &&& rs[0].0 == 0
            &&& rs.last().1 == dim
            &&& forall|i: int| 0 <= i < rs.len() - 1 ==> #[trigger] rs[i].1 == rs[i + 1].0
            &&& forall|i: int| 0 <= i < rs.len() ==> #[trigger] rs[i].0 < rs[i].1 && rs[i].1 - rs[i].0 <= c
            &&& forall|i: int| 0 <= i < rs.len() - 1 ==> #[trigger] rs[i].1 - rs[i].0 == c
        }),
{
    let rs = spec_chunk_ranges(dim, chunk);
    let c = chunk_or_one(chunk);
    let n = chunk_count(dim, c);
    lemma_chunk_count_pos(dim, c);
    assert(rs[0].0 == 0) by {
        assert(0 * c == 0);
    }
    assert forall|i: int| 0 <= i < rs.len() - 1 implies #[trigger] rs[i].1 == rs[i + 1].0
        && rs[i].1 - rs[i].0 == c by {
        assert((i + 1) * c == i * c + c) by (nonlinear_arith);
        assert(i * c + c <= (n - 1) * c) by (nonlinear_arith)
            requires
                i <= n - 2,
                c >= 1,
        ;
    }
    assert forall|i: int| 0 <= i < rs.len() implies #[trigger] rs[i].0 < rs[i].1 && rs[i].1 - rs[i].0
        <= c by {
        assert(i * c <= (n - 1) * c) by (nonlinear_arith)
            requires
                i <= n - 1,
                c >= 1,
        ;
    }
    assert(rs.last().1 == dim) by {
        assert((n - 1) * c + c == n * c) by (nonlinear_arith);
    }
}

proof fn lemma_product_ge_one<R>(ps: Seq<Seq<R>>)
    requires
        forall|d: int| 0 <= d < ps.len() ==> #[trigger] ps[d].len() >= 1,
    ensures
        lengths_product(ps) >= 1,
    decreases ps.len(),
{
    if ps.len() > 0 {
        let q = ps.drop_last();
        assert forall|d: int| 0 <= d < q.len() implies #[trigger] q[d].len() >= 1 by {
            assert(q[d] == ps[d]);
        }
        lemma_product_ge_one(q);
        let a = lengths_product(q);
        let b = ps.last().len() as int;
        assert(a * b >= 1) by (nonlinear_arith)
            requires
                a >= 1,
                b >= 1,
        ;
    }
}

proof fn lemma_prefix_product_le<R>(ps: Seq<Seq<R>>, n: int)
    requires
        0 <= n <= ps.len(),
        forall|d: int| 0 <= d < ps.len() ==> #[trigger] ps[d].len() >= 1,
    ensures
        lengths_product(ps.subrange(0, n)) <= lengths_product(ps),
    decreases ps.len(),
{
    if n == ps.len() {
        assert(ps.subrange(0, n) =~= ps);
    } else {
        let q = ps.drop_last();
        assert forall|d: int| 0 <= d < q.len() implies #[trigger] q[d].len() >= 1 by {
            assert(q[d] == ps[d]);
        }
        lemma_prefix_product_le(q, n);
        assert(q.subrange(0, n) =~= ps.subrange(0, n));
        lemma_product_ge_one(q);
        let a = lengths_product(q);
        let b = ps.last().len() as int;
        assert(a <= a * b) by (nonlinear_arith)
            requires
                a >= 1,
                b >= 1,
        ;
    }
}

/// Chunk boundaries aligned on the reference product's chunk grid: every
/// combination of per-dimension chunk ranges, the last dimension varying
/// fastest. The number of combinations must fit in memory.
pub fn iter_reference_chunk_subsets(shape: &[u64], ref_chunks: &[u64]) -> (r: Vec<Vec<Range<u64>>>)
    requires
        lengths_product(per_dim_ranges(shape@, spec_effective_chunks(shape@, ref_chunks@)))
            <= usize::MAX,
    ensures
        grid_view(r@) == cartesian(
            per_dim_ranges(shape@, spec_effective_chunks(shape@, ref_chunks@)),
        ),
{
    let chunks = effective_chunks(shape, ref_chunks);
    let ghost want = per_dim_ranges(shape@, chunks@);
    let mut per_dim: Vec<Vec<Range<u64>>> = Vec::new();
    let mut d: usize = 0;
    while d < shape.len()
        invariant
            d <= shape.len(),
            chunks@.len() == shape@.len(),
            want == per_dim_ranges(shape@, chunks@),
            grid_view(per_dim@) == want.subrange(0, d as int),
        decreases shape.len() - d,
    {
        let rs = chunk_ranges(shape[d], chunks[d]);
        let ghost before = per_dim@;
        per_dim.push(rs);
        assert(grid_view(per_dim@) =~= grid_view(before).push(ranges_view(rs@)));
        assert(want[d as int] == ranges_view(rs@));
        assert(want.subrange(0, d + 1) =~= want.subrange(0, d as int).push(want[d as int]));
        assert(grid_view(per_dim@) =~= want.subrange(0, d + 1));
        d = d + 1;
    }
    proof {
        assert(want.subrange(0, want.len() as int) =~= want);
        assert forall|k: int| 0 <= k < want.len() implies #[trigger] want[k].len() >= 1 by {
            lemma_chunk_ranges_nonempty(shape@[k] as int, chunks@[k] as int);
        }
        assert forall|n: int| 0 <= n <= per_dim@.len() implies #[trigger] cartesian(
            grid_view(per_dim@).subrange(0, n),
        ).len() <= usize::MAX by {
            lemma_prefix_product_le(want, n);
            lemma_cartesian_len(want.subrange(0, n));
        }
    }
    cartesian_ranges(&per_dim)
}

proof fn lemma_extend_all_member<R>(prev: Seq<Seq<R>>, rs: Seq<R>, t: Seq<R>)
    ensures
        extend_all(prev, rs).contains(t) <==> (t.len() >= 1 && prev.contains(t.drop_last())
            && rs.contains(t.last())),
    decreases prev.len(),
{
    if prev.len() == 0 {
        assert(extend_all(prev, rs).len() == 0);
    } else {
        let q = prev.drop_last();
        let p = prev.last();
        let head = extend_all(q, rs);
        let tail = rs.map_values(|r: R| p.push(r));
        lemma_extend_all_member(q, rs, t);
        let all = extend_all(prev, rs);
        assert(all == head + tail);
        if all.contains(t) {
            let i = choose|i: int| 0 <= i < all.len() && all[i] == t;
            if i < head.len() {
                assert(head[i] == t);
                assert(head.contains(t));
                let k = choose|k: int| 0 <= k < q.len() && q[k] == t.drop_last();
                assert(prev[k] == t.drop_last());
            } else {
                let k = i - head.len();
                assert(tail[k] == t);
                assert(t =~= p.push(rs[k]));
                assert(t.drop_last() =~= p);
                assert(prev[prev.len() - 1] == t.drop_last());
                assert(rs[k] == t.last());
            }
        }
        if t.len() >= 1 && prev.contains(t.drop_last()) && rs.contains(t.last()) {
            let i = choose|i: int| 0 <= i < prev.len() && prev[i] == t.drop_last();
            let k = choose|k: int| 0 <= k < rs.len() && rs[k] == t.last();
            if i == prev.len() - 1 {
                assert(t =~= p.push(rs[k]));
                assert(all[head.len() + k] == t);
            } else {
                assert(q[i] == t.drop_last());
                assert(head.contains(t));
                let h = choose|h: int| 0 <= h < head.len() && head[h] == t;
                assert(all[h] == t);
            }
        }
    }
}

/// A sequence is one of the combinations exactly when it takes one element
/// from each dimension, in order.
pub proof fn lemma_cartesian_member<R>(per_dim: Seq<Seq<R>>, t: Seq<R>)
    ensures
        cartesian(per_dim).contains(t) <==> (t.len() == per_dim.len() && forall|d: int|
            0 <= d < per_dim.len() ==> #[trigger] per_dim[d].contains(t[d])),
    decreases per_dim.len(),
{
    if per_dim.len() == 0 {
        let c = cartesian(per_dim);
        assert(c == seq![Seq::<R>::empty()]);
        if c.contains(t) {
            assert(c[0] == t);
        }
        if t.len() == 0 {
            assert(t =~= Seq::<R>::empty());
            assert(c[0] == t);
        }
    } else {
        let q = per_dim.drop_last();
        lemma_cartesian_member(q, t.drop_last());
        lemma_extend_all_member(cartesian(q), per_dim.last(), t);
        if t.len() == per_dim.len() && forall|d: int|
            0 <= d < per_dim.len() ==> #[trigger] per_dim[d].contains(t[d]) {
            assert forall|d: int| 0 <= d < q.len() implies #[trigger] q[d].contains(
                t.drop_last()[d],
            ) by {
                assert(per_dim[d].contains(t[d]));
            }
            assert(per_dim.contains(per_dim[per_dim.len() - 1]) || true);
            assert(per_dim[per_dim.len() - 1].contains(t[t.len() - 1]));
        }
        if cartesian(per_dim).contains(t) {
            assert forall|d: int| 0 <= d < per_dim.len() implies #[trigger] per_dim[d].contains(
                t[d],
            ) by {
                if d < q.len() {
                    assert(q[d].contains(t.drop_last()[d]));
                    assert(t.drop_last()[d] == t[d]);
                }
            }
        }
    }
}

} // verus!
