//! The benchmark: every candidate codec encodes and decodes one buffer;
//! the rows are ranked by compression ratio.

use crate::algorithm::CompressionAlgorithm;
use crate::chunk::{compress_chunk, decompress_chunk, spec_compress_chunk, spec_decompress_chunk};
use crate::clock::{clock_now, nanos_since};
use vstd::prelude::*;

verus! {

/// One row of the benchmark. The compression ratio is `original_size` over
/// `compressed_size`; the throughputs follow from the sizes and the times.
#[derive(Debug, Clone, Copy, PartialEq, Eq, Structural)]
pub struct BenchmarkResult {
    pub algorithm: CompressionAlgorithm,
    /// The number of bytes that were encoded.
    pub original_size: usize,
    /// The length of the frame that the codec's payload was put in.
    pub compressed_size: usize,
    /// The time that encoding took, in nanoseconds.
    pub compression_nanos: u64,
    /// The time that decoding took, in nanoseconds.
    pub decompression_nanos: u64,
}

/// The codecs that the benchmark runs, in the order in which it runs them.
pub open spec fn spec_candidates() -> Seq<CompressionAlgorithm> {
    seq![
        CompressionAlgorithm::Lz4 { high_compression: false },
        CompressionAlgorithm::Lz4 { high_compression: true },
        CompressionAlgorithm::Zstd { level: 3 },
        CompressionAlgorithm::Zstd { level: 9 },
        CompressionAlgorithm::Snappy,
        CompressionAlgorithm::Brotli { quality: 4 },
        CompressionAlgorithm::Deflate { level: 6 },
    ]
}

/// The codec completes on `data`: encoding gives a frame, and decoding
/// that frame succeeds.
#[verifier::opaque]
pub open spec fn completes(data: Seq<u8>, a: CompressionAlgorithm) -> bool {
    spec_compress_chunk(data, a, 0) matches Ok(frame) && spec_decompress_chunk(frame, a) is Ok
}

/// `row` is the row of codec `a` on `data`.
#[verifier::opaque]
pub open spec fn row_of(row: BenchmarkResult, data: Seq<u8>, a: CompressionAlgorithm) -> bool {
    &&& row.algorithm == a
    &&& row.original_size == data.len()
    &&& spec_compress_chunk(data, a, 0) matches Ok(frame) && row.compressed_size == frame.len()
}

/// The ratio of `a` is at least the ratio of `b`.
pub open spec fn ratio_ge(a: BenchmarkResult, b: BenchmarkResult) -> bool {
    a.original_size * b.compressed_size >= b.original_size * a.compressed_size
}

/// The rows stand in the order of descending ratio.
pub open spec fn sorted_by_ratio(rows: Seq<BenchmarkResult>) -> bool {
    forall|i: int, j: int| 0 <= i <= j < rows.len() ==> ratio_ge(rows[i], rows[j])
}

/// Every row has a compressed size, so that its ratio is a number.
pub open spec fn rows_wf(rows: Seq<BenchmarkResult>) -> bool {
    forall|i: int| 0 <= i < rows.len() ==> (#[trigger] rows[i]).compressed_size > 0
}

/// The order by ratio is transitive.
pub proof fn lemma_ratio_ge_transitive(a: BenchmarkResult, b: BenchmarkResult, c: BenchmarkResult)
    requires
        ratio_ge(a, b),
        ratio_ge(b, c),
        b.compressed_size > 0,
    ensures
        ratio_ge(a, c),
{
    let (ao, ac) = (a.original_size as int, a.compressed_size as int);
    let (bo, bc) = (b.original_size as int, b.compressed_size as int);
    let (co, cc) = (c.original_size as int, c.compressed_size as int);
    assert(ao * cc >= co * ac) by (nonlinear_arith)
        requires
            ao * bc >= bo * ac,
            bo * cc >= co * bc,
            bc > 0,
            ao >= 0,
            ac >= 0,
            bo >= 0,
            co >= 0,
            cc >= 0,
    {
        assert((ao * cc) * bc == (ao * bc) * cc);
        assert((ao * bc) * cc >= (bo * ac) * cc);
        assert((bo * ac) * cc == (bo * cc) * ac);
        assert((bo * cc) * ac >= (co * bc) * ac);
        assert((co * bc) * ac == (co * ac) * bc);
        assert((ao * cc) * bc >= (co * ac) * bc);
    }
}

/// The candidates of the benchmark.
pub fn benchmark_candidates() -> (candidates: Vec<CompressionAlgorithm>)
    ensures
        candidates@ == spec_candidates(),
{
    let mut candidates: Vec<CompressionAlgorithm> = Vec::new();
    candidates.push(CompressionAlgorithm::Lz4 { high_compression: false });
    candidates.push(CompressionAlgorithm::Lz4 { high_compression: true });
    candidates.push(CompressionAlgorithm::Zstd { level: 3 });
    candidates.push(CompressionAlgorithm::Zstd { level: 9 });
    candidates.push(CompressionAlgorithm::Snappy);
    candidates.push(CompressionAlgorithm::Brotli { quality: 4 });
    candidates.push(CompressionAlgorithm::Deflate { level: 6 });
    assert(candidates@ =~= spec_candidates());
    candidates
}

/// Runs one codec on `data`: encodes, decodes what it encoded, and takes
/// the time of each. A codec that fails at either gives no row.
pub fn measure(data: &[u8], algorithm: &CompressionAlgorithm) -> (row: Option<BenchmarkResult>)
    ensures
        row is Some <==> completes(data@, *algorithm),
        row matches Some(r) ==> row_of(r, data@, *algorithm) && r.algorithm == *algorithm
            && r.compressed_size >= 12,
{
    reveal(completes);
    reveal(row_of);
    let compression_start = clock_now();
    let frame = match compress_chunk(data, algorithm, 0) {
        Ok(frame) => frame,
        Err(_) => {
            return None;
        },
    };
    let compression_nanos = nanos_since(&compression_start);
    let decompression_start = clock_now();
    match decompress_chunk(frame.as_slice(), algorithm) {
        Err(_) => None,
        Ok(_) => {
            let decompression_nanos = nanos_since(&decompression_start);
            Some(
                BenchmarkResult {
                    algorithm: *algorithm,
                    original_size: data.len(),
                    compressed_size: frame.len(),
                    compression_nanos,
                    decompression_nanos,
                },
            )
        },
    }
}

/// Whether the ratio of `a` is at least the ratio of `b`.
pub fn has_ratio_ge(a: &BenchmarkResult, b: &BenchmarkResult) -> (ge: bool)
    ensures
        ge == ratio_ge(*a, *b),
{
    let (ao, ac) = (a.original_size as u128, a.compressed_size as u128);
    let (bo, bc) = (b.original_size as u128, b.compressed_size as u128);
    assert(ao * bc <= 0xFFFF_FFFF_FFFF_FFFF * 0xFFFF_FFFF_FFFF_FFFF) by (nonlinear_arith)
        requires
            ao <= 0xFFFF_FFFF_FFFF_FFFF,
            bc <= 0xFFFF_FFFF_FFFF_FFFF,
    ;
    assert(bo * ac <= 0xFFFF_FFFF_FFFF_FFFF * 0xFFFF_FFFF_FFFF_FFFF) by (nonlinear_arith)
        requires
            bo <= 0xFFFF_FFFF_FFFF_FFFF,
            ac <= 0xFFFF_FFFF_FFFF_FFFF,
    ;
    ao * bc >= bo * ac
}

/// Ranks the rows by compression ratio, the highest first.
pub fn sort_by_ratio(rows: Vec<BenchmarkResult>) -> (ranked: Vec<BenchmarkResult>)
    requires
        rows_wf(rows@),
    ensures
        sorted_by_ratio(ranked@),
        ranked@.to_multiset() == rows@.to_multiset(),
        ranked@.len() == rows@.len(),
{
    let mut ranked: Vec<BenchmarkResult> = Vec::new();
    let mut k: usize = 0;
    assert(rows@.take(0) =~= Seq::<BenchmarkResult>::empty());
    while k < rows.len()
        invariant
            k <= rows@.len(),
            rows_wf(rows@),
            rows_wf(ranked@),
            sorted_by_ratio(ranked@),
            ranked@.len() == k,
            ranked@.to_multiset() == rows@.take(k as int).to_multiset(),
        decreases rows@.len() - k,
    {
        let row = rows[k];
        let mut at: usize = 0;
        while at < ranked.len() && has_ratio_ge(&ranked[at], &row)
            invariant
                at <= ranked@.len(),
                forall|j: int| 0 <= j < at ==> ratio_ge(ranked@[j], row),
            decreases ranked@.len() - at,
        {
            at += 1;
        }
        let ghost before = ranked@;
        ranked.insert(at, row);
        proof {
            vstd::seq_lib::to_multiset_insert(before, at as int, row);
            vstd::seq_lib::to_multiset_build(rows@.take(k as int), row);
            assert(rows@.take(k as int).push(row) =~= rows@.take(k + 1));
            assert forall|i: int, j: int| 0 <= i <= j < ranked@.len() implies ratio_ge(
                ranked@[i],
                ranked@[j],
            ) by {
                if j < at {
                    assert(ranked@[i] == before[i] && ranked@[j] == before[j]);
                } else if j == at {
                    if i < at {
                        assert(ranked@[i] == before[i]);
                    }
                } else if i < at {
                    assert(ranked@[i] == before[i] && ranked@[j] == before[j - 1]);
                } else if i == at {
                    // `row` went in front of `before[at]` because its ratio is higher.
                    assert(!ratio_ge(before[at as int], row));
                    assert(ranked@[j] == before[j - 1]);
                    assert(ratio_ge(before[at as int], before[j - 1]));
                    lemma_ratio_ge_transitive(row, before[at as int], before[j - 1]);
                } else {
                    assert(ranked@[i] == before[i - 1] && ranked@[j] == before[j - 1]);
                }
            }
        }
        k += 1;
    }
    assert(rows@.take(rows@.len() as int) =~= rows@);
    ranked
}

/// Candidate number `c` completes on `data`.
pub open spec fn candidate_completes(data: Seq<u8>, c: int) -> bool {
    completes(data, spec_candidates()[c])
}

/// `row` is the row of candidate number `c`, which completes on `data`.
pub open spec fn row_of_candidate(row: BenchmarkResult, data: Seq<u8>, c: int) -> bool {
    row_of(row, data, spec_candidates()[c]) && completes(data, spec_candidates()[c])
}

/// `row` belongs to one of the first `n` candidates.
pub open spec fn has_candidate(row: BenchmarkResult, data: Seq<u8>, n: int) -> bool {
    exists|c: int| 0 <= c < n && #[trigger] row_of_candidate(row, data, c)
}

/// Candidate number `c` has a row among `rows`.
pub open spec fn has_row(rows: Seq<BenchmarkResult>, data: Seq<u8>, c: int) -> bool {
    exists|i: int| 0 <= i < rows.len() && row_of_candidate(#[trigger] rows[i], data, c)
}

/// The rows are those of the first `n` candidates that complete on `data`:
/// every row belongs to such a candidate, and every such candidate has a
/// row.
pub open spec fn covers(rows: Seq<BenchmarkResult>, data: Seq<u8>, n: int) -> bool {
    &&& forall|i: int| 0 <= i < rows.len() ==> has_candidate(#[trigger] rows[i], data, n)
    &&& forall|c: int|
        0 <= c < n && #[trigger] candidate_completes(data, c) ==> has_row(rows, data, c)
}

/// No two rows belong to the same codec.
pub open spec fn distinct_algorithms(rows: Seq<BenchmarkResult>) -> bool {
    forall|i: int, j: int|
        0 <= i < rows.len() && 0 <= j < rows.len() && i != j ==> (#[trigger] rows[i]).algorithm != (
        #[trigger] rows[j]).algorithm
}

/// `a` is one of the first `n` candidates.
pub open spec fn among_candidates(a: CompressionAlgorithm, n: int) -> bool {
    exists|c: int| 0 <= c < n && #[trigger] spec_candidates()[c] == a
}

/// Every row belongs to one of the first `n` candidates.
pub open spec fn algorithms_among(rows: Seq<BenchmarkResult>, n: int) -> bool {
    forall|i: int| 0 <= i < rows.len() ==> among_candidates((#[trigger] rows[i]).algorithm, n)
}

/// The candidates differ from one another, so the row of the next one is
/// the row of a new codec.
proof fn lemma_distinct_push(rows: Seq<BenchmarkResult>, row: BenchmarkResult, n: int)
    requires
        0 <= n < spec_candidates().len(),
        distinct_algorithms(rows),
        algorithms_among(rows, n),
        row.algorithm == spec_candidates()[n],
    ensures
        distinct_algorithms(rows.push(row)),
        algorithms_among(rows.push(row), n + 1),
{
    let pushed = rows.push(row);
    assert forall|i: int| 0 <= i < rows.len() implies (#[trigger] rows[i]).algorithm
        != row.algorithm by {
        assert(among_candidates(rows[i].algorithm, n));
        let c = choose|c: int| 0 <= c < n && #[trigger] spec_candidates()[c] == rows[i].algorithm;
        assert(spec_candidates()[c] != spec_candidates()[n]);
    }
    assert forall|i: int, j: int|
        0 <= i < pushed.len() && 0 <= j < pushed.len() && i != j implies (
    #[trigger] pushed[i]).algorithm != (#[trigger] pushed[j]).algorithm by {
        if i < rows.len() && j < rows.len() {
            assert(pushed[i] == rows[i] && pushed[j] == rows[j]);
        } else if i < rows.len() {
            assert(pushed[i] == rows[i] && pushed[j] == row);
        } else {
            assert(pushed[j] == rows[j] && pushed[i] == row);
        }
    }
    assert forall|i: int| 0 <= i < pushed.len() implies among_candidates(
        (#[trigger] pushed[i]).algorithm,
        n + 1,
    ) by {
        if i < rows.len() {
            assert(pushed[i] == rows[i]);
            assert(among_candidates(rows[i].algorithm, n));
            let c = choose|c: int|
                0 <= c < n && #[trigger] spec_candidates()[c] == rows[i].algorithm;
            assert(0 <= c < n + 1 && spec_candidates()[c] == pushed[i].algorithm);
        } else {
            assert(0 <= n < n + 1 && spec_candidates()[n] == pushed[i].algorithm);
        }
    }
}

/// Ranking keeps the rows apart.
proof fn lemma_distinct_permutation(rows: Seq<BenchmarkResult>, ranked: Seq<BenchmarkResult>)
    requires
        distinct_algorithms(rows),
        ranked.to_multiset() == rows.to_multiset(),
    ensures
        distinct_algorithms(ranked),
{
    assert(rows.no_duplicates());
    rows.lemma_multiset_has_no_duplicates();
    ranked.lemma_multiset_has_no_duplicates_conv();
    assert forall|i: int, j: int|
        0 <= i < ranked.len() && 0 <= j < ranked.len() && i != j implies (
    #[trigger] ranked[i]).algorithm != (#[trigger] ranked[j]).algorithm by {
        vstd::seq_lib::to_multiset_contains(ranked, ranked[i]);
        vstd::seq_lib::to_multiset_contains(rows, ranked[i]);
        vstd::seq_lib::to_multiset_contains(ranked, ranked[j]);
        vstd::seq_lib::to_multiset_contains(rows, ranked[j]);
        assert(ranked.contains(ranked[i]));
        assert(ranked.contains(ranked[j]));
        let k = choose|k: int| 0 <= k < rows.len() && rows[k] == ranked[i];
        let l = choose|l: int| 0 <= l < rows.len() && rows[l] == ranked[j];
        assert(ranked[i] != ranked[j]);
        assert(k != l);
    }
}

/// A candidate that does not complete adds no row.
proof fn lemma_covers_skip(rows: Seq<BenchmarkResult>, data: Seq<u8>, n: int)
    requires
        0 <= n < spec_candidates().len(),
        covers(rows, data, n),
        !candidate_completes(data, n),
    ensures
        covers(rows, data, n + 1),
{
    assert forall|i: int| 0 <= i < rows.len() implies has_candidate(
        #[trigger] rows[i],
        data,
        n + 1,
    ) by {
        assert(has_candidate(rows[i], data, n));
        let c = choose|c: int| 0 <= c < n && #[trigger] row_of_candidate(rows[i], data, c);
        assert(0 <= c < n + 1 && row_of_candidate(rows[i], data, c));
    }
}

/// A candidate that completes adds its row.
proof fn lemma_covers_push(
    rows: Seq<BenchmarkResult>,
    data: Seq<u8>,
    n: int,
    row: BenchmarkResult,
)
    requires
        0 <= n < spec_candidates().len(),
        covers(rows, data, n),
        row_of_candidate(row, data, n),
    ensures
        covers(rows.push(row), data, n + 1),
{
    let pushed = rows.push(row);
    assert forall|i: int| 0 <= i < pushed.len() implies has_candidate(
        #[trigger] pushed[i],
        data,
        n + 1,
    ) by {
        if i < rows.len() {
            assert(pushed[i] == rows[i]);
            assert(has_candidate(rows[i], data, n));
            let c = choose|c: int| 0 <= c < n && #[trigger] row_of_candidate(rows[i], data, c);
            assert(0 <= c < n + 1 && row_of_candidate(pushed[i], data, c));
        } else {
            assert(pushed[i] == row);
            assert(0 <= n < n + 1 && row_of_candidate(pushed[i], data, n));
        }
    }
    assert forall|c: int| 0 <= c < n + 1 && #[trigger] candidate_completes(
        data,
        c,
    ) implies has_row(pushed, data, c) by {
        if c < n {
            assert(has_row(rows, data, c));
            let i = choose|i: int|
                0 <= i < rows.len() && row_of_candidate(#[trigger] rows[i], data, c);
            assert(pushed[i] == rows[i]);
            assert(0 <= i < pushed.len() && row_of_candidate(pushed[i], data, c));
        } else {
            let i = rows.len() as int;
            assert(pushed[i] == row);
            assert(0 <= i < pushed.len() && row_of_candidate(pushed[i], data, c));
        }
    }
}

/// Ranking the rows changes their order and nothing else.
proof fn lemma_covers_permutation(
    rows: Seq<BenchmarkResult>,
    ranked: Seq<BenchmarkResult>,
    data: Seq<u8>,
    n: int,
)
    requires
        covers(rows, data, n),
        ranked.to_multiset() == rows.to_multiset(),
    ensures
        covers(ranked, data, n),
{
    assert forall|i: int| 0 <= i < ranked.len() implies has_candidate(
        #[trigger] ranked[i],
        data,
        n,
    ) by {
        vstd::seq_lib::to_multiset_contains(ranked, ranked[i]);
        vstd::seq_lib::to_multiset_contains(rows, ranked[i]);
        assert(ranked.contains(ranked[i]));
        let k = choose|k: int| 0 <= k < rows.len() && rows[k] == ranked[i];
        assert(has_candidate(rows[k], data, n));
    }
    assert forall|c: int| 0 <= c < n && #[trigger] candidate_completes(data, c) implies has_row(
        ranked,
        data,
        c,
    ) by {
        assert(has_row(rows, data, c));
        let k = choose|k: int|
            0 <= k < rows.len() && row_of_candidate(#[trigger] rows[k], data, c);
        vstd::seq_lib::to_multiset_contains(rows, rows[k]);
        vstd::seq_lib::to_multiset_contains(ranked, rows[k]);
        assert(rows.contains(rows[k]));
        let i = choose|i: int| 0 <= i < ranked.len() && ranked[i] == rows[k];
        assert(0 <= i < ranked.len() && row_of_candidate(ranked[i], data, c));
    }
}

/// Runs every candidate on `data` and ranks the rows by compression ratio,
/// the highest first. A candidate that fails to encode or to decode is left
/// out and the others still run.
pub fn benchmark_algorithms(data: &[u8]) -> (results: Vec<BenchmarkResult>)
    ensures
        sorted_by_ratio(results@),
        results@.len() <= spec_candidates().len(),
        covers(results@, data@, spec_candidates().len() as int),
        distinct_algorithms(results@),
{
    let candidates = benchmark_candidates();
    let mut rows: Vec<BenchmarkResult> = Vec::new();
    let mut c: usize = 0;
    while c < candidates.len()
        invariant
            c <= candidates@.len(),
            candidates@ == spec_candidates(),
            rows@.len() <= c,
            rows_wf(rows@),
            covers(rows@, data@, c as int),
            distinct_algorithms(rows@),
            algorithms_among(rows@, c as int),
        decreases candidates@.len() - c,
    {
        match measure(data, &candidates[c]) {
            None => {
                proof {
                    lemma_covers_skip(rows@, data@, c as int);
                    assert forall|i: int| 0 <= i < rows@.len() implies among_candidates(
                        (#[trigger] rows@[i]).algorithm,
                        c + 1,
                    ) by {
                        assert(among_candidates(rows@[i].algorithm, c as int));
                        let d = choose|d: int|
                            0 <= d < c && #[trigger] spec_candidates()[d] == rows@[i].algorithm;
                        assert(0 <= d < c + 1 && spec_candidates()[d] == rows@[i].algorithm);
                    }
                }
            },
            Some(row) => {
                proof {
                    lemma_covers_push(rows@, data@, c as int, row);
                    lemma_distinct_push(rows@, row, c as int);
                }
                rows.push(row);
            },
        }
        c += 1;
    }
    let ranked = sort_by_ratio(rows);
    proof {
        lemma_covers_permutation(rows@, ranked@, data@, c as int);
        lemma_distinct_permutation(rows@, ranked@);
    }
    ranked
}

} // verus!
