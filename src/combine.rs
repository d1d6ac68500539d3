//! Validation of timing measurements against the per-run artifacts of the ingest
//! runs, and their aggregation into one report sorted by workload size.
//!
//! The work goes in three stages: the workload size of every timing entry is read
//! first, then every artifact that those entries call for is checked, and only then
//! are the combined results computed. The first failure ends the whole aggregation.

use vstd::prelude::*;
use vstd::seq_lib::{to_multiset_build, to_multiset_insert};
use vstd::string::StringExecFns;
use crate::text::{artifact_path, artifact_path_text, parse_decimal, parsed_u64};

verus! {

/// One entry of the timing file: the measurements taken for one workload size.
/// The run times are kept by the caller; only how many runs there were counts here.
pub struct BenchmarkResult {
    pub num_runs: usize,
    pub memory_usage_byte: Vec<u64>,
    /// The entry's parameters as (name, value) pairs, as the timing file's
    /// parameter object holds them. Names are looked up in order: where a name
    /// occurs more than once, its first pair counts.
    pub parameters: Vec<(String, String)>,
}

/// What was found at the place of one artifact file.
#[derive(Clone, Copy, Debug)]
pub enum ArtifactStatus {
    Missing,
    Unreadable,
    Malformed,
    Inserted(u64),
}

/// Why an aggregation was refused.
pub enum CombineError {
    MissingNumRecords { index: usize },
    InvalidNumRecords { index: usize, value: String },
    MissingArtifact { path: String },
    UnreadableArtifact { path: String },
    MalformedArtifact { path: String },
    Mismatch { path: String, expected: u64, found: u64 },
}

/// The mathematical content of a [`CombineError`].
pub enum CombineFailure {
    MissingNumRecords { index: nat },
    InvalidNumRecords { index: nat, value: Seq<char> },
    MissingArtifact { path: Seq<char> },
    UnreadableArtifact { path: Seq<char> },
    MalformedArtifact { path: Seq<char> },
    Mismatch { path: Seq<char>, expected: u64, found: u64 },
}

impl View for CombineError {
    type V = CombineFailure;

    open spec fn view(&self) -> CombineFailure {
        match self {
            CombineError::MissingNumRecords { index } => CombineFailure::MissingNumRecords {
                index: *index as nat,
            },
            CombineError::InvalidNumRecords { index, value } => CombineFailure::InvalidNumRecords {
                index: *index as nat,
                value: value@,
            },
            CombineError::MissingArtifact { path } => CombineFailure::MissingArtifact {
                path: path@,
            },
            CombineError::UnreadableArtifact { path } => CombineFailure::UnreadableArtifact {
                path: path@,
            },
            CombineError::MalformedArtifact { path } => CombineFailure::MalformedArtifact {
                path: path@,
            },
            CombineError::Mismatch { path, expected, found } => CombineFailure::Mismatch {
                path: path@,
                expected: *expected,
                found: *found,
            },
        }
    }
}

/// The parameters of a timing entry as pairs of texts.
pub open spec fn parameters_view(p: Seq<(String, String)>) -> Seq<(Seq<char>, Seq<char>)> {
    p.map_values(|x: (String, String)| (x.0@, x.1@))
}

/// The value of the first parameter named `key`.
pub open spec fn lookup(params: Seq<(Seq<char>, Seq<char>)>, key: Seq<char>) -> Option<Seq<char>>
    decreases params.len(),
{
    if params.len() == 0 {
        None
    } else if params[0].0 == key {
        Some(params[0].1)
    } else {
        lookup(params.drop_first(), key)
    }
}

/// The workload size that entry number `index` declares, or why it declares none.
pub open spec fn num_records_outcome(
    r: BenchmarkResult,
    index: int,
) -> Result<u64, CombineFailure> {
    match lookup(parameters_view(r.parameters@), "num_records"@) {
        None => Err(CombineFailure::MissingNumRecords { index: index as nat }),
        Some(v) => match parsed_u64(v) {
            None => Err(CombineFailure::InvalidNumRecords { index: index as nat, value: v }),
            Some(n) => Ok(n),
        },
    }
}

/// Whether every entry declares a workload size.
pub open spec fn all_loaded(results: Seq<BenchmarkResult>) -> bool {
    forall|i: int| 0 <= i < results.len() ==> (#[trigger] num_records_outcome(results[i], i)) is Ok
}

/// The workload sizes of the entries, when all of them declare one.
pub open spec fn loaded_sizes(results: Seq<BenchmarkResult>) -> Seq<u64> {
    Seq::new(results.len(), |i: int| num_records_outcome(results[i], i)->Ok_0)
}

/// Whether `f` is how the first entry without a workload size fails.
pub open spec fn load_fails_with(results: Seq<BenchmarkResult>, f: CombineFailure) -> bool {
    exists|k: int|
        #![trigger num_records_outcome(results[k], k)]
        0 <= k < results.len() && (forall|i: int|
            0 <= i < k ==> (#[trigger] num_records_outcome(results[i], i)) is Ok)
            && num_records_outcome(results[k], k) == Err::<u64, CombineFailure>(f)
}

/// The value of the first parameter named `key`, if there is one.
pub fn find_parameter<'a>(params: &'a Vec<(String, String)>, key: &str) -> (r: Option<&'a String>)
    ensures
        match r {
            None => lookup(parameters_view(params@), key@) is None,
            Some(v) => lookup(parameters_view(params@), key@) == Some(v@),
        },
{
    let ghost pv = parameters_view(params@);
    let wanted = String::from_str(key);
    let mut i: usize = 0;
    assert(pv.subrange(0, pv.len() as int) =~= pv);
    while i < params.len()
        invariant
            0 <= i <= params.len(),
            pv == parameters_view(params@),
            wanted@ == key@,
            lookup(pv, key@) == lookup(pv.subrange(i as int, pv.len() as int), key@),
        decreases params.len() - i,
    {
        let entry = &params[i];
        proof {
            let rest = pv.subrange(i as int, pv.len() as int);
            assert(rest[0] == pv[i as int]);
            assert(rest.drop_first() =~= pv.subrange(i + 1, pv.len() as int));
        }
        if entry.0 == wanted {
            return Some(&entry.1);
        }
        i = i + 1;
    }
    None
}

/// The workload size that entry number `index` declares in its `num_records`
/// parameter.
pub fn num_records_of(result: &BenchmarkResult, index: usize) -> (r: Result<u64, CombineError>)
    ensures
        match r {
            Ok(n) => num_records_outcome(*result, index as int) == Ok::<u64, CombineFailure>(n),
            Err(e) => num_records_outcome(*result, index as int) == Err::<u64, CombineFailure>(e@),
        },
{
    match find_parameter(&result.parameters, "num_records") {
        None => Err(CombineError::MissingNumRecords { index }),
        Some(v) => match parse_decimal(v.as_str()) {
            None => Err(CombineError::InvalidNumRecords { index, value: v.clone() }),
            Some(n) => Ok(n),
        },
    }
}

/// Reads the workload size of every entry, in order, and stops at the first entry
/// that has none. No artifact is looked at in this stage.
pub fn load_records(results: &Vec<BenchmarkResult>) -> (r: Result<Vec<u64>, CombineError>)
    ensures
        match r {
            Ok(sizes) => all_loaded(results@) && sizes@ == loaded_sizes(results@),
            Err(e) => load_fails_with(results@, e@),
        },
{
    let mut sizes: Vec<u64> = Vec::new();
    let mut i: usize = 0;
    while i < results.len()
        invariant
            0 <= i <= results.len(),
            sizes@.len() == i,
            forall|j: int|
                0 <= j < i ==> num_records_outcome(results@[j], j) == Ok::<u64, CombineFailure>(
                    #[trigger] sizes@[j],
                ),
        decreases results.len() - i,
    {
        match num_records_of(&results[i], i) {
            Ok(n) => {
                sizes.push(n);
            },
            Err(e) => {
                assert forall|j: int| 0 <= j < i implies (#[trigger] num_records_outcome(
                    results@[j],
                    j,
                )) is Ok by {
                    assert(num_records_outcome(results@[j], j) == Ok::<u64, CombineFailure>(
                        sizes@[j],
                    ));
                }
                assert(num_records_outcome(results@[i as int], i as int) == Err::<u64, CombineFailure>(e@));
                assert(load_fails_with(results@, e@));
                return Err(e);
            },
        }
        i = i + 1;
    }
    assert forall|j: int| 0 <= j < results.len() implies (#[trigger] num_records_outcome(
        results@[j],
        j,
    )) is Ok by {
        assert(num_records_outcome(results@[j], j) == Ok::<u64, CombineFailure>(sizes@[j]));
    }
    assert(sizes@ =~= loaded_sizes(results@));
    Ok(sizes)
}

/// The sum of the samples.
pub open spec fn sum_of(s: Seq<u64>) -> int
    decreases s.len(),
{
    if s.len() == 0 {
        0
    } else {
        sum_of(s.drop_last()) + s.last()
    }
}

/// The arithmetic mean of the samples, rounded down; zero when there are none.
pub open spec fn average_of(s: Seq<u64>) -> int {
    if s.len() == 0 {
        0
    } else {
        sum_of(s) / (s.len() as int)
    }
}

proof fn lemma_sum_bounded(s: Seq<u64>)
    ensures
        0 <= sum_of(s) <= s.len() * (u64::MAX as int),
    decreases s.len(),
{
    if s.len() > 0 {
        lemma_sum_bounded(s.drop_last());
        assert(sum_of(s) <= s.len() * (u64::MAX as int)) by (nonlinear_arith)
            requires
                sum_of(s) == sum_of(s.drop_last()) + s.last(),
                sum_of(s.drop_last()) <= (s.len() - 1) * (u64::MAX as int),
                s.last() <= u64::MAX,
        ;
    }
}

/// The average memory use of the runs, in bytes.
pub fn average_memory(samples: &Vec<u64>) -> (r: u64)
    ensures
        r == average_of(samples@),
{
    let mut total: u128 = 0;
    let mut i: usize = 0;
    while i < samples.len()
        invariant
            0 <= i <= samples.len(),
            total == sum_of(samples@.subrange(0, i as int)),
        decreases samples.len() - i,
    {
        proof {
            let before = samples@.subrange(0, i as int);
            let after = samples@.subrange(0, i + 1);
            assert(after.drop_last() =~= before);
            lemma_sum_bounded(after);
            assert(after.len() * (u64::MAX as int) < u128::MAX) by (nonlinear_arith)
                requires
                    after.len() <= usize::MAX,
            ;
        }
        total = total + samples[i] as u128;
        i = i + 1;
    }
    assert(samples@.subrange(0, samples@.len() as int) =~= samples@);
    let n = samples.len();
    if n == 0 {
        0
    } else {
        proof {
            lemma_sum_bounded(samples@);
            assert(sum_of(samples@) / (n as int) <= u64::MAX) by (nonlinear_arith)
                requires
                    0 <= sum_of(samples@) <= n * (u64::MAX as int),
                    n > 0,
            ;
        }
        (total / (n as u128)) as u64
    }
}

/// What is found at the place of artifact `run` of entry `entry`; a place that
/// the caller did not report on counts as missing.
pub open spec fn status_at(
    artifacts: Seq<Vec<ArtifactStatus>>,
    entry: int,
    run: int,
) -> ArtifactStatus {
    if 0 <= entry < artifacts.len() && 0 <= run < artifacts[entry]@.len() {
        artifacts[entry]@[run]
    } else {
        ArtifactStatus::Missing
    }
}

/// Why the artifact of run `run` of a workload of `num_records` rows refutes the
/// measurement, if it does.
pub open spec fn artifact_failure(
    bench_name: Seq<char>,
    num_records: u64,
    run: int,
    status: ArtifactStatus,
) -> Option<CombineFailure> {
    let path = artifact_path_text(bench_name, num_records as nat, run as nat);
    match status {
        ArtifactStatus::Missing => Some(CombineFailure::MissingArtifact { path }),
        ArtifactStatus::Unreadable => Some(CombineFailure::UnreadableArtifact { path }),
        ArtifactStatus::Malformed => Some(CombineFailure::MalformedArtifact { path }),
        ArtifactStatus::Inserted(found) => if found == num_records {
            None
        } else {
            Some(CombineFailure::Mismatch { path, expected: num_records, found })
        },
    }
}

/// The verdict on the artifact of run `run` of entry `entry`.
pub open spec fn check_at(
    bench_name: Seq<char>,
    sizes: Seq<u64>,
    artifacts: Seq<Vec<ArtifactStatus>>,
    entry: int,
    run: int,
) -> Option<CombineFailure> {
    artifact_failure(bench_name, sizes[entry], run, status_at(artifacts, entry, run))
}

/// Whether every run of every entry has an artifact that records its workload size.
pub open spec fn artifacts_valid(
    bench_name: Seq<char>,
    results: Seq<BenchmarkResult>,
    sizes: Seq<u64>,
    artifacts: Seq<Vec<ArtifactStatus>>,
) -> bool {
    forall|e: int, run: int|
        0 <= e < results.len() && 0 <= run < results[e].num_runs ==> (#[trigger] check_at(
            bench_name,
            sizes,
            artifacts,
            e,
            run,
        )) is None
}

/// Whether `f` is the failure of the first artifact, in the order of the entries
/// and then of the runs, that refutes its measurement.
pub open spec fn artifacts_fail_with(
    bench_name: Seq<char>,
    results: Seq<BenchmarkResult>,
    sizes: Seq<u64>,
    artifacts: Seq<Vec<ArtifactStatus>>,
    f: CombineFailure,
) -> bool {
    exists|e: int, run: int|
        #![trigger check_at(bench_name, sizes, artifacts, e, run)]
        0 <= e < results.len() && 0 <= run < results[e].num_runs && check_at(
            bench_name,
            sizes,
            artifacts,
            e,
            run,
        ) == Some(f) && (forall|e2: int, run2: int|
            0 <= e2 < results.len() && 0 <= run2 < results[e2].num_runs && (e2 < e || (e2 == e
                && run2 < run)) ==> (#[trigger] check_at(bench_name, sizes, artifacts, e2, run2))
                is None)
}

/// The verdict on one artifact.
fn check_artifact(
    bench_name: &str,
    num_records: u64,
    run: usize,
    status: &ArtifactStatus,
) -> (r: Result<(), CombineError>)
    ensures
        match r {
            Ok(()) => artifact_failure(bench_name@, num_records, run as int, *status) is None,
            Err(e) => artifact_failure(bench_name@, num_records, run as int, *status) == Some(e@),
        },
{
    match status {
        ArtifactStatus::Missing => Err(
            CombineError::MissingArtifact { path: artifact_path(bench_name, num_records, run as u64) },
        ),
        ArtifactStatus::Unreadable => Err(
            CombineError::UnreadableArtifact {
                path: artifact_path(bench_name, num_records, run as u64),
            },
        ),
        ArtifactStatus::Malformed => Err(
            CombineError::MalformedArtifact {
                path: artifact_path(bench_name, num_records, run as u64),
            },
        ),
        ArtifactStatus::Inserted(found) => {
            if *found == num_records {
                Ok(())
            } else {
                Err(
                    CombineError::Mismatch {
                        path: artifact_path(bench_name, num_records, run as u64),
                        expected: num_records,
                        found: *found,
                    },
                )
            }
        },
    }
}

/// Checks, entry by entry and run by run, that each artifact exists and records
/// the workload size of its entry; stops at the first that does not.
pub fn validate_artifacts(
    bench_name: &str,
    results: &Vec<BenchmarkResult>,
    sizes: &Vec<u64>,
    artifacts: &Vec<Vec<ArtifactStatus>>,
) -> (r: Result<(), CombineError>)
    requires
        sizes@.len() == results@.len(),
    ensures
        match r {
            Ok(()) => artifacts_valid(bench_name@, results@, sizes@, artifacts@),
            Err(e) => artifacts_fail_with(bench_name@, results@, sizes@, artifacts@, e@),
        },
{
    let mut e: usize = 0;
    while e < results.len()
        invariant
            0 <= e <= results.len(),
            sizes@.len() == results@.len(),
            forall|e2: int, run2: int|
                0 <= e2 < e && 0 <= run2 < results@[e2].num_runs ==> (#[trigger] check_at(
                    bench_name@,
                    sizes@,
                    artifacts@,
                    e2,
                    run2,
                )) is None,
        decreases results.len() - e,
    {
        let runs = results[e].num_runs;
        let mut run: usize = 0;
        while run < runs
            invariant
                0 <= e < results.len(),
                runs == results@[e as int].num_runs,
                0 <= run <= runs,
                sizes@.len() == results@.len(),
                forall|e2: int, run2: int|
                    0 <= e2 < results.len() && 0 <= run2 < results@[e2].num_runs && (e2 < e || (
                    e2 == e && run2 < run)) ==> (#[trigger] check_at(
                        bench_name@,
                        sizes@,
                        artifacts@,
                        e2,
                        run2,
                    )) is None,
            decreases runs - run,
        {
            let status: ArtifactStatus = if e < artifacts.len() && run < artifacts[e].len() {
                artifacts[e][run]
            } else {
                ArtifactStatus::Missing
            };
            assert(status == status_at(artifacts@, e as int, run as int));
            match check_artifact(bench_name, sizes[e], run, &status) {
                Ok(()) => {},
                Err(err) => {
                    assert(check_at(bench_name@, sizes@, artifacts@, e as int, run as int) == Some(
                        err@,
                    ));
                    return Err(err);
                },
            }
            run = run + 1;
        }
        e = e + 1;
    }
    Ok(())
}

/// One line of the combined report. The timing figures of the entry it comes from
/// are found through `source`, its position in the timing file.
#[derive(Clone, Copy, Debug, PartialEq, Eq, Structural)]
pub struct CombinedResult {
    pub num_records: u64,
    pub total_records: u64,
    pub average_memory_usage_bytes: u64,
    pub num_runs: usize,
    pub source: usize,
}

/// The report line of entry `source` with workload size `num_records`.
pub open spec fn combined_line(r: BenchmarkResult, num_records: u64, source: int) -> CombinedResult {
    CombinedResult {
        num_records,
        total_records: num_records,
        average_memory_usage_bytes: average_of(r.memory_usage_byte@) as u64,
        num_runs: r.num_runs,
        source: source as usize,
    }
}

/// The report lines in the order of the timing file.
pub open spec fn lines_in_file_order(
    results: Seq<BenchmarkResult>,
    sizes: Seq<u64>,
) -> Seq<CombinedResult> {
    Seq::new(results.len(), |i: int| combined_line(results[i], sizes[i], i))
}

/// Whether `a` comes before `b`: by workload size, and by place in the timing file
/// among equal sizes.
pub open spec fn line_before(a: CombinedResult, b: CombinedResult) -> bool {
    a.num_records < b.num_records || (a.num_records == b.num_records && a.source < b.source)
}

/// Whether the lines are in ascending order of workload size, ties kept in file order.
pub open spec fn lines_sorted(s: Seq<CombinedResult>) -> bool {
    forall|i: int, j: int| 0 <= i < j < s.len() ==> line_before(#[trigger] s[i], #[trigger] s[j])
}

/// The report lines, sorted by workload size; entries of equal size keep the
/// order of the timing file.
pub fn aggregate(results: &Vec<BenchmarkResult>, sizes: &Vec<u64>) -> (r: Vec<CombinedResult>)
    requires
        sizes@.len() == results@.len(),
    ensures
        lines_sorted(r@),
        r@.to_multiset() == lines_in_file_order(results@, sizes@).to_multiset(),
{
    let ghost lines = lines_in_file_order(results@, sizes@);
    let mut out: Vec<CombinedResult> = Vec::new();
    let mut k: usize = 0;
    assert(out@ =~= lines.subrange(0, 0));
    while k < results.len()
        invariant
            0 <= k <= results.len(),
            sizes@.len() == results@.len(),
            lines == lines_in_file_order(results@, sizes@),
            lines_sorted(out@),
            forall|i: int| 0 <= i < out@.len() ==> (#[trigger] out@[i]).source < k,
            out@.to_multiset() == lines.subrange(0, k as int).to_multiset(),
        decreases results.len() - k,
    {
        let item = CombinedResult {
            num_records: sizes[k],
            total_records: sizes[k],
            average_memory_usage_bytes: average_memory(&results[k].memory_usage_byte),
            num_runs: results[k].num_runs,
            source: k,
        };
        assert(item == lines[k as int]);
        let mut pos: usize = 0;
        while pos < out.len() && out[pos].num_records <= item.num_records
            invariant
                0 <= pos <= out@.len(),
                forall|i: int| 0 <= i < pos ==> (#[trigger] out@[i]).num_records <= item.num_records,
            decreases out@.len() - pos,
        {
            pos = pos + 1;
        }
        proof {
            broadcast use to_multiset_insert, to_multiset_build;

            assert(lines.subrange(0, k + 1) =~= lines.subrange(0, k as int).push(item));
        }
        let ghost before = out@;
        out.insert(pos, item);
        proof {
            assert(out@ == before.insert(pos as int, item));
            assert forall|i: int, j: int| 0 <= i < j < out@.len() implies line_before(
                #[trigger] out@[i],
                #[trigger] out@[j],
            ) by {
                if j < pos {
                    assert(line_before(before[i], before[j]));
                } else if j == pos {
                    assert(before[i].num_records <= item.num_records);
                } else if i < pos {
                    assert(before[i].num_records <= item.num_records);
                    assert(line_before(before[i], before[j - 1]));
                } else if i == pos {
                    assert(!(before[j - 1].num_records <= item.num_records) || pos >= before.len()
                        || line_before(before[pos as int], before[j - 1]));
                    if j - 1 > pos {
                        assert(line_before(before[pos as int], before[j - 1]));
                    }
                } else {
                    assert(line_before(before[i - 1], before[j - 1]));
                }
            }
        }
        k = k + 1;
    }
    assert(lines.subrange(0, results@.len() as int) =~= lines);
    out
}

/// An entry without a readable workload size ends the aggregation in the stage that
/// reads the workload sizes, before any artifact is looked at: the results are
/// then not all loaded, and the failure is one of a workload size.
pub proof fn lemma_missing_size_fails_before_artifacts(results: Seq<BenchmarkResult>, i: int)
    requires
        0 <= i < results.len(),
        lookup(parameters_view(results[i].parameters@), "num_records"@) is None,
    ensures
        !all_loaded(results),
        forall|f: CombineFailure|
            #[trigger] load_fails_with(results, f) ==> (f is MissingNumRecords
                || f is InvalidNumRecords),
{
    assert(num_records_outcome(results[i], i) is Err);
    assert forall|f: CombineFailure| #[trigger] load_fails_with(results, f) implies (
    f is MissingNumRecords || f is InvalidNumRecords) by {
        let k = choose|k: int|
            #![trigger num_records_outcome(results[k], k)]
            0 <= k < results.len() && (forall|j: int|
                0 <= j < k ==> (#[trigger] num_records_outcome(results[j], j)) is Ok)
                && num_records_outcome(results[k], k) == Err::<u64, CombineFailure>(f);
    }
}

proof fn lemma_load_failure_not_all_loaded(results: Seq<BenchmarkResult>, f: CombineFailure)
    requires
        load_fails_with(results, f),
    ensures
        !all_loaded(results),
{
    let k = choose|k: int|
        #![trigger num_records_outcome(results[k], k)]
        0 <= k < results.len() && (forall|j: int|
            0 <= j < k ==> (#[trigger] num_records_outcome(results[j], j)) is Ok)
            && num_records_outcome(results[k], k) == Err::<u64, CombineFailure>(f);
}

/// The whole aggregation of one benchmark: reads the workload sizes, checks every
/// artifact, and returns the report lines sorted by workload size.
pub fn combine(
    bench_name: &str,
    results: &Vec<BenchmarkResult>,
    artifacts: &Vec<Vec<ArtifactStatus>>,
) -> (r: Result<Vec<CombinedResult>, CombineError>)
    ensures
        !all_loaded(results@) ==> (r is Err && load_fails_with(results@, r->Err_0@)),
        all_loaded(results@) ==> match r {
            Ok(lines) => {
                &&& artifacts_valid(bench_name@, results@, loaded_sizes(results@), artifacts@)
                &&& lines_sorted(lines@)
                &&& lines@.to_multiset() == lines_in_file_order(
                    results@,
                    loaded_sizes(results@),
                ).to_multiset()
            },
            Err(e) => artifacts_fail_with(
                bench_name@,
                results@,
                loaded_sizes(results@),
                artifacts@,
                e@,
            ),
        },
{
    let sizes = match load_records(results) {
        Ok(sizes) => sizes,
        Err(e) => {
            proof {
                lemma_load_failure_not_all_loaded(results@, e@);
            }
            return Err(e);
        },
    };
    match validate_artifacts(bench_name, results, &sizes, artifacts) {
        Ok(()) => {},
        Err(e) => {
            return Err(e);
        },
    }
    Ok(aggregate(results, &sizes))
}

} // verus!
